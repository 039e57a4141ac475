use cb_5::loc::{Loc, Span};
use cb_5::syntax_c1::{self, NodeValue};
use cb_5::token::Token;
use cb_5::value::Value;
use cb_5::{SymbolType, SyntaxTree};

#[test]
fn loc_round_trips_through_ranges() {
    let span = Span { start: 3, end: 9 };
    let loc = Loc::from_span(&span);
    assert_eq!(loc.begin, 3);
    assert_eq!(loc.end, 9);
    let range = loc.to_range();
    assert_eq!(range.start, 3);
    assert_eq!(range.end, 9);
}

#[test]
fn token_names_cover_the_alphabet() {
    assert_eq!(Token::token_name(cb_5::token::KW_BOOLEAN), "KW_BOOLEAN");
    assert_eq!(Token::token_name(cb_5::token::CONST_FLOAT), "CONST_FLOAT");
    assert_eq!(Token::token_name(cb_5::token::ID), "ID");
    assert_eq!(Token::token_name('+' as i32), "+");
    assert_eq!(Token::token_name('{' as i32), "{");
    assert_eq!(Token::token_name(cb_5::token::YYEOF), "YYEOF");
}

#[test]
fn values_unwrap_what_they_hold() {
    let tree = Value::Tree(SyntaxTree::new(NodeValue::Sequence));
    assert!(matches!(
        tree.unwrap_tree().value,
        NodeValue::Sequence
    ));

    let token = Token {
        token_type: cb_5::token::ID,
        loc: Loc { begin: 0, end: 1 },
        text: "x".to_string(),
    };
    let v = Value::from_token(token);
    assert_eq!(v.unwrap_name(), "x");

    let named = Value::Name("y".to_string());
    assert_eq!(named.unwrap_name(), "y");

    let typed = Value::SymbolType(SymbolType::Float);
    assert_eq!(typed.unwrap_type(), SymbolType::Float);

    assert!(Value::new_uninitialized().is_uninitialized());
    assert!(matches!(Value::default(), Value::Stolen));
}

#[test]
fn node_values_know_their_types() {
    assert_eq!(
        NodeValue::Integer(1).symbol_type(),
        SymbolType::Integer
    );
    assert_eq!(
        NodeValue::Float("1.5".to_string()).symbol_type(),
        SymbolType::Float
    );
    assert_eq!(NodeValue::Boolean(true).symbol_type(), SymbolType::Boolean);
    assert_eq!(
        NodeValue::String("\"s\"".to_string()).symbol_type(),
        SymbolType::String
    );
    assert_eq!(NodeValue::Eq.symbol_type(), SymbolType::Boolean);
    assert_eq!(
        NodeValue::Assign(SymbolType::Float).symbol_type(),
        SymbolType::Float
    );
    assert_eq!(NodeValue::Sequence.symbol_type(), SymbolType::Void);
}

#[test]
fn node_values_know_their_names() {
    assert_eq!(
        NodeValue::VariableRef("v".to_string(), SymbolType::Integer).symbol_name(),
        Some("v".to_string())
    );
    assert_eq!(
        NodeValue::FunctionDeclaration("f".to_string()).symbol_name(),
        Some("f".to_string())
    );
    assert_eq!(NodeValue::If.symbol_name(), None);
}

#[test]
fn trees_are_built_bottom_up() {
    let mut seq = syntax_c1::sequence_node();
    let leaf = syntax_c1::integer_node(7);
    seq.append(leaf);
    let mut print = seq.print();
    assert_eq!(print, "Sequence\n[\n  Integer Literal: 7\n]");

    let mut root = syntax_c1::if_node();
    root.append(syntax_c1::boolean_node(false));
    print = root.print();
    assert_eq!(print, "If\n[\n  Boolean Literal: false\n]");
}

#[test]
fn builder_functions_carry_their_values() {
    assert!(matches!(
        syntax_c1::plus_node(SymbolType::Integer).value,
        NodeValue::Plus(SymbolType::Integer)
    ));
    assert!(matches!(
        syntax_c1::cast_node(SymbolType::Float).value,
        NodeValue::Cast(SymbolType::Float)
    ));
    assert!(matches!(syntax_c1::log_or_node().value, NodeValue::LogOr));
    assert!(matches!(
        syntax_c1::variable_node("a".to_string()).value,
        NodeValue::VariableDeclaration(_)
    ));
    assert!(matches!(
        syntax_c1::function_call_node("f".to_string(), SymbolType::Void).value,
        NodeValue::FunctionCall(_, SymbolType::Void)
    ));
    assert_eq!(syntax_c1::grt_node().id(), 0);
    assert_eq!(SyntaxTree::with_id(NodeValue::Program, 9).id(), 9);
}

#[test]
fn negative_integers_print_with_a_sign() {
    let mut node = syntax_c1::u_minus_node(SymbolType::Integer);
    node.append(syntax_c1::integer_node(5));
    assert_eq!(node.print(), "UMinus(Integer)\n[\n  Integer Literal: 5\n]");
    assert_eq!(
        syntax_c1::integer_node(-12).print(),
        "Integer Literal: -12"
    );
}
