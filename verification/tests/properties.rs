use cb_5::{AnalysisResult, Error, Lexer, Parser};

fn parse(input: &str) -> AnalysisResult {
    let lexer = Lexer::new(input);
    let mut parser = Parser::new(lexer);
    parser.debug = false;
    parser.do_parse()
}

#[test]
fn well_typed_programs_produce_the_canonical_root() {
    for src in [
        "void main() {}",
        "int x = 0; void main() { x = x + 1; }",
        "bool f(bool b) { return b; } void main() { bool c = f(true); }",
    ] {
        let tree = parse(src).unwrap();
        let out = tree.print();
        assert!(out.starts_with("Root\n[\n  Program\n  [\n    Sequence"));
    }
}

#[test]
fn unclosed_parameter_list_reports_one_error_at_its_column() {
    let result = parse("void main( {}");
    let errors = result.err().unwrap();
    assert_eq!(errors.len(), 1);
    match &errors[0] {
        Error::Syntactical(m) => {
            assert!(m.contains("column 11"), "message was: {}", m);
            assert!(m.contains("'{'"), "message was: {}", m);
        }
        other => panic!("expected a syntactical diagnostic, got {:?}", other),
    }
}

#[test]
fn assignment_of_boolean_to_int_reports_one_mismatch() {
    let result = parse("void main(){ int a; a = true; }");
    let errors = result.err().unwrap();
    assert_eq!(errors.len(), 1);
    match &errors[0] {
        Error::Semantic(m) => assert_eq!(m, "type mismatch in assignment"),
        other => panic!("expected a semantic diagnostic, got {:?}", other),
    }
}

#[test]
fn wrong_arity_reports_expected_and_actual_counts() {
    let result = parse("int f(int x){ return x; } void main(){ f(); }");
    let errors = result.err().unwrap();
    assert_eq!(errors.len(), 1);
    match &errors[0] {
        Error::Semantic(m) => {
            assert_eq!(m, "wrong number of arguments to f (expected 1, got 0)")
        }
        other => panic!("expected a semantic diagnostic, got {:?}", other),
    }
}

#[test]
fn empty_body_parameter_list_and_argument_list_parse() {
    let result = parse("void f() {} void main() { f(); }");
    assert!(result.is_ok());
}

#[test]
fn single_line_program_parses() {
    let result = parse("int x = 1; void main() { x = x * 2; }");
    assert!(result.is_ok());
}

#[test]
fn carriage_returns_and_tabs_are_whitespace() {
    let result = parse("void\tmain()\r\n{\r\n\tint a = 1;\r\n}");
    assert!(result.is_ok());
}

#[test]
fn very_long_identifiers_are_accepted() {
    let name = "x".repeat(4096);
    let src = format!("void main() {{ int {} = 1; {} = {} + 1; }}", name, name, name);
    let result = parse(&src);
    assert!(result.is_ok());
}

#[test]
fn printf_accepts_every_scalar_type() {
    let result = parse(
        "void main() { int i = 1; float f = 1.5; bool b = true; printf(i); printf(f); printf(b); printf(\"text\"); }",
    );
    assert!(result.is_ok());
}

#[test]
fn duplicate_declaration_in_same_scope_fails() {
    let result = parse("void main() { int a; int a; }");
    let errors = result.err().unwrap();
    assert_eq!(errors.len(), 1);
    assert!(matches!(&errors[0], Error::Semantic(m) if m.contains("defined twice")));
}

#[test]
fn shadowing_in_a_nested_scope_is_allowed() {
    let result = parse("void main() { int a; { int a; a = 1; } a = 2; }");
    assert!(result.is_ok());
}

#[test]
fn implicit_promotion_is_inserted_everywhere_it_is_allowed() {
    // in an initializer, an assignment, a call argument, a return value,
    // and an arithmetic operand
    let src = "float g(float x){ return 1; }\nvoid main(){ float a = 1; a = 2; g(3); float b = a + 4; }";
    let tree = parse(src).unwrap();
    let out = tree.print();
    assert_eq!(out.matches("Cast(Float)").count(), 5);
}

#[test]
fn no_implicit_conversion_from_float_to_int() {
    let result = parse("void main() { int a = 1.5; }");
    let errors = result.err().unwrap();
    assert_eq!(errors.len(), 1);
    assert!(matches!(&errors[0], Error::Semantic(m) if m.contains("type mismatch in assignment")));
}

#[test]
fn control_statements_parse_and_type_check() {
    let src = "void main() {\n\
               int i = 0;\n\
               for (i = 0; i < 10; i = i + 1) { printf(i); }\n\
               while (i > 0) { i = i - 1; }\n\
               do { i = i + 2; } while (i < 4);\n\
               if (i == 4) printf(1); else printf(2);\n\
               }";
    let result = parse(src);
    assert!(result.is_ok(), "errors: {:?}", result.err());
}

#[test]
fn dangling_else_binds_to_the_nearest_if() {
    let src = "void main() { bool a = true; bool b = false; if (a) if (b) printf(1); else printf(2); }";
    let tree = parse(src).unwrap();
    let out = tree.print();
    // the outer if has two children (condition, inner if); the inner one
    // has three (condition, then, else)
    let outer = out.find("          If\n").expect("outer if");
    let inner = out[outer + 1..].find("If\n").expect("inner if");
    assert!(inner > 0);
    assert_eq!(out.matches("If\n").count(), 2);
    assert_eq!(out.matches("Print\n").count(), 2);
}

#[test]
fn assignment_is_an_expression_with_the_target_type() {
    let src = "void main() { float f; int i = 0; f = i = 3; }";
    let result = parse(src);
    // i = 3 has type Integer, which is promoted for f
    let tree = result.unwrap();
    let out = tree.print();
    assert!(out.contains("Assign(Float)"));
    assert!(out.contains("Assign(Integer)"));
    assert!(out.contains("Cast(Float)"));
}

#[test]
fn global_declarations_may_follow_function_definitions() {
    let result = parse("void f() {} int x = 1; void main() { f(); x = 2; }");
    assert!(result.is_ok());
}

#[test]
fn error_recovery_collects_independent_errors() {
    let src = "void main() { int a = ; bool b = 1 }";
    let errors = parse(src).err().unwrap();
    assert!(errors.len() >= 2, "errors: {:?}", errors);
}

#[test]
fn for_loops_may_declare_their_counter() {
    let result = parse("void main() { for (int i = 0; i < 3; i = i + 1) printf(i); }");
    assert!(result.is_ok(), "errors: {:?}", result.err());
}

#[test]
fn operator_precedence_nests_left_to_right() {
    let tree = parse("void main() { int a = 8; int b = a / 2 * 3 - 1; }").unwrap();
    let out = tree.print();
    let minus = out.find("Minus(Integer)").expect("difference node");
    let times = out.find("Times(Integer)").expect("product node");
    let divide = out.find("Divide(Integer)").expect("quotient node");
    assert!(minus < times && times < divide);
}

#[test]
fn top_level_declarations_without_initializer_are_leaves() {
    let tree = parse("int x;\nvoid main() { x = 1; }").unwrap();
    let out = tree.print();
    assert!(out.contains("    [\n      VariableDeclaration(\"x\"),\n"));
}

#[test]
fn duplicate_declaration_names_the_whole_symbol() {
    let errors = parse("void main() { int a; int a; }").err().unwrap();
    assert_eq!(errors.len(), 1);
    match &errors[0] {
        Error::Semantic(m) => assert_eq!(
            m,
            "Symbol(name: a, id: 2, type: Integer, class: Variable) \
             has been defined twice in the current scope (2)"
        ),
        other => panic!("expected a semantic diagnostic, got {:?}", other),
    }
}

#[test]
fn undeclared_identifier_message_is_exact() {
    let errors = parse("void main() { x = 3; }").err().unwrap();
    assert_eq!(
        errors[0].message(),
        "Semantic Error: undeclared identifier x"
    );
}
