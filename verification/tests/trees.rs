use cb_5::{AnalysisResult, Lexer, Parser};

fn parse(input: &str) -> AnalysisResult {
    let lexer = Lexer::new(input);
    let mut parser = Parser::new(lexer);
    parser.debug = false;
    parser.do_parse()
}

#[test]
fn cor_emtpy_main() {
    let text = "void main() {}";
    let syntax_tree = parse(text).unwrap();
    assert_eq!(String::from("Root\n[\n  Program\n  [\n    Sequence\n    [\n      FunctionDeclaration: main\n      [\n        Sequence\n      ]\n    ]\n  ]\n]"), syntax_tree.print());
}

#[test]
fn cor_one_constant() {
    let text = "int x = 0;\nvoid main() {}";
    let syntax_tree = parse(text).unwrap();
    assert_eq!(String::from("Root\n[\n  Program\n  [\n    Sequence\n    [\n      Assign(Integer)\n      [\n        VariableDeclaration(\"x\"),\n        VariableRef(\"x\", Integer),\n        Integer Literal: 0\n      ],\n      FunctionDeclaration: main\n      [\n        Sequence\n      ]\n    ]\n  ]\n]"), syntax_tree.print());
}

#[test]
fn cor_printf() {
    let text = r#"
    void main() {
        int a = 2;
        printf("test string");
        printf(a + 1);
    }"#;
    let syntax_tree = parse(text).unwrap();
    assert_eq!(String::from("Root\n[\n  Program\n  [\n    Sequence\n    [\n      FunctionDeclaration: main\n      [\n        Sequence\n        [\n          Assign(Integer)\n          [\n            VariableDeclaration(\"a\"),\n            VariableRef(\"a\", Integer),\n            Integer Literal: 2\n          ],\n          Print\n          [\n            String Literal: \"test string\"\n          ],\n          Print\n          [\n            Plus(Integer)\n            [\n              VariableRef(\"a\", Integer),\n              Integer Literal: 1\n            ]\n          ]\n        ]\n      ]\n    ]\n  ]\n]"), syntax_tree.print());
}

#[test]
fn nested_assignment_prints_as_expression() {
    let text = "void main() { int c = 0; int b; int a = b = c; }";
    let syntax_tree = parse(text).unwrap();
    assert_eq!(String::from("Root\n[\n  Program\n  [\n    Sequence\n    [\n      FunctionDeclaration: main\n      [\n        Sequence\n        [\n          Assign(Integer)\n          [\n            VariableDeclaration(\"c\"),\n            VariableRef(\"c\", Integer),\n            Integer Literal: 0\n          ],\n          VariableDeclaration(\"b\"),\n          Assign(Integer)\n          [\n            VariableDeclaration(\"a\"),\n            VariableRef(\"a\", Integer),\n            Assign(Integer)\n            [\n              VariableRef(\"b\", Integer),\n              VariableRef(\"c\", Integer)\n            ]\n          ]\n        ]\n      ]\n    ]\n  ]\n]"), syntax_tree.print());
}

#[test]
fn unary_minus_prints_with_its_type() {
    let text = "void main() { int b = 1; int a = -b; }";
    let syntax_tree = parse(text).unwrap();
    assert_eq!(String::from("Root\n[\n  Program\n  [\n    Sequence\n    [\n      FunctionDeclaration: main\n      [\n        Sequence\n        [\n          Assign(Integer)\n          [\n            VariableDeclaration(\"b\"),\n            VariableRef(\"b\", Integer),\n            Integer Literal: 1\n          ],\n          Assign(Integer)\n          [\n            VariableDeclaration(\"a\"),\n            VariableRef(\"a\", Integer),\n            UMinus(Integer)\n            [\n              VariableRef(\"b\", Integer)\n            ]\n          ]\n        ]\n      ]\n    ]\n  ]\n]"), syntax_tree.print());
}

#[test]
fn call_in_initializer_prints_with_return_type() {
    let text = "float blah() { return 3.14159; }\nfloat t = blah();\nvoid main() {}";
    let syntax_tree = parse(text).unwrap();
    assert_eq!(String::from("Root\n[\n  Program\n  [\n    Sequence\n    [\n      FunctionDeclaration: blah\n      [\n        Sequence\n        [\n          Return(Float)\n          [\n            Float Literal: 3.14159\n          ]\n        ]\n      ],\n      Assign(Float)\n      [\n        VariableDeclaration(\"t\"),\n        VariableRef(\"t\", Float),\n        FunctionCall: blah\n        [\n          Sequence\n        ]\n      ],\n      FunctionDeclaration: main\n      [\n        Sequence\n      ]\n    ]\n  ]\n]"), syntax_tree.print());
}

#[test]
fn if_node_carries_condition_and_both_branches() {
    let text = "bool not(bool b) {\n\tif (b == true) return false;\n\telse return true;\n} void main() {}";
    let syntax_tree = parse(text).unwrap();
    let out = syntax_tree.print();
    let expected_if_block = "          If\n          [\n            Eq\n            [\n              VariableRef(\"b\", Boolean),\n              Boolean Literal: true\n            ],\n            Return(Boolean)\n            [\n              Boolean Literal: false\n            ],\n            Return(Boolean)\n            [\n              Boolean Literal: true\n            ]\n          ]";
    assert!(
        out.contains(expected_if_block),
        "if block not found in:\n{}",
        out
    );
    assert!(out.contains("      FunctionDeclaration: not\n      [\n        Parameter(\"b\"),\n        Sequence\n"));
}

#[test]
fn implicit_casts_are_printed() {
    let text = "void main() { float a = 1; float b = a + 2; }";
    let syntax_tree = parse(text).unwrap();
    let out = syntax_tree.print();
    assert!(out.contains(
        "            Cast(Float)\n            [\n              Integer Literal: 1\n            ]"
    ));
    assert!(out.contains("Plus(Float)"));
    assert!(out.contains("              Cast(Float)\n              [\n                Integer Literal: 2\n              ]"));
}

#[test]
fn comparison_joins_mixed_operands() {
    let text = "void main() { bool a; int c = 3; a = 4 <= c; }";
    let syntax_tree = parse(text).unwrap();
    let out = syntax_tree.print();
    assert!(out.contains("Leq\n"));
    assert!(out.contains("Integer Literal: 4"));
}

#[test]
fn float_literals_keep_their_source_form() {
    let text = "void main() { float a = .2; float b = 33E+2; float c = 1.2; }";
    let syntax_tree = parse(text).unwrap();
    let out = syntax_tree.print();
    assert!(out.contains("Float Literal: .2"));
    assert!(out.contains("Float Literal: 33E+2"));
    assert!(out.contains("Float Literal: 1.2"));
}
