use cb_5::{AnalysisResult, Error, Lexer, Parser};

fn parse(input: &str) -> AnalysisResult {
    let lexer = Lexer::new(input);
    let mut parser = Parser::new(lexer);
    parser.debug = false;
    parser.do_parse()
}

#[test]
fn test_valid() {
    let errors = parse("void main() {}");
    assert!(errors.is_ok());
}

#[test]
fn test_invalid() {
    let errors = parse("void main( {}");
    assert!(errors.is_err());
}

#[test]
fn parse_function() {
    let errors = parse(
        r"bool not(bool b) {
	if (b == true) return false;
	else return true;
} void main() {}",
    );
    assert!(errors.is_ok());
}

#[test]
fn parse_demorgan() {
    let errors = parse(
        r#"
/* Ueberprueft deMorgans Law */
// Die erwartete Ausgabe steht am Ende

bool not(bool b) {
	if (b == true) return false;
	else return true;
}

bool morgan11(bool a, bool b) {
	return not(a || b);
}
bool morgan12(bool a, bool b) {
	return not(a) && not(b);
}

bool morgan21(bool a, bool b) {
	return not(a && b);
}
bool morgan22(bool a, bool b) {
	return not(a) || not(b);
}

void main() {
	bool a = true;
	bool b = true;
	int i=0;

	printf( "deMorgan\n" );

	do {
		do {

			printf(i);

			printf(morgan11(a,b));
			printf(morgan12(a,b));
			printf(morgan21(a,b));
			printf(morgan22(a,b));

			i = i+1;
			b = not(b);
		} while (b != true);
		a = not(a);
	} while(a != true);

}

/* Erwartete Ausgabe:
Process finished with exit code 0
*/
"#,
    );
    assert!(errors.is_ok());
}

#[test]
fn missing_main_is_semantic_error() {
    let result = parse("int helper() { return 1; }");
    let errors = result.err().expect("a program without main must fail");
    assert!(errors
        .iter()
        .any(|e| matches!(e, Error::Semantic(m) if m.contains("main"))));
}

#[test]
fn main_with_parameters_is_rejected() {
    let result = parse("void main(int a) {}");
    let errors = result.err().expect("main with parameters must fail");
    assert_eq!(errors.len(), 1);
    assert!(matches!(&errors[0], Error::Semantic(m) if m.contains("main")));
}

#[test]
fn main_with_wrong_return_type_is_rejected() {
    let result = parse("int main() { return 0; }");
    let errors = result.err().expect("a non-void main must fail");
    assert_eq!(errors.len(), 1);
    assert!(matches!(&errors[0], Error::Semantic(m) if m.contains("main")));
}

#[test]
fn undeclared_identifier_is_semantic_error() {
    let result = parse("void main() { x = 3; }");
    let errors = result.err().expect("an undeclared name must fail");
    assert!(errors
        .iter()
        .any(|e| matches!(e, Error::Semantic(m) if m.contains("undeclared identifier x"))));
}

#[test]
fn unknown_byte_is_lexical_error() {
    let result = parse("void main() { @ }");
    let errors = result.err().expect("an unknown byte must fail");
    assert!(errors.iter().any(|e| matches!(e, Error::Lexical(_))));
}

#[test]
fn non_boolean_condition_is_semantic_error() {
    let result = parse("void main() { while (1) ; }");
    let errors = result.err().expect("a numeric condition must fail");
    assert_eq!(errors.len(), 1);
    assert!(matches!(&errors[0], Error::Semantic(m) if m.contains("condition must be boolean")));
}

#[test]
fn logical_operator_needs_booleans() {
    let result = parse("void main() { bool b = true && 1; }");
    let errors = result.err().expect("a non-boolean operand must fail");
    assert!(errors
        .iter()
        .any(|e| matches!(e, Error::Semantic(m) if m.contains("logical operator"))));
}

#[test]
fn equality_rejects_strings() {
    let result = parse("void main() { bool b = \"a\" == \"a\"; }");
    let errors = result.err().expect("equality on strings must fail");
    assert!(errors
        .iter()
        .any(|e| matches!(e, Error::Semantic(m) if m.contains("equality"))));
}

#[test]
fn arithmetic_rejects_booleans() {
    let result = parse("void main() { int a = 1 + true; }");
    let errors = result.err().expect("arithmetic on booleans must fail");
    assert!(errors
        .iter()
        .any(|e| matches!(e, Error::Semantic(m) if m.contains("arithmetic"))));
}

#[test]
fn return_type_must_match() {
    let result = parse("int f() { return true; } void main() { }");
    let errors = result.err().expect("a boolean return from int must fail");
    assert!(errors
        .iter()
        .any(|e| matches!(e, Error::Semantic(m) if m.contains("type mismatch in return"))));
}

#[test]
fn return_value_in_void_function_is_rejected() {
    let result = parse("void main() { return 1; }");
    let errors = result.err().expect("a value returned from void must fail");
    assert!(errors
        .iter()
        .any(|e| matches!(e, Error::Semantic(m) if m.contains("void function"))));
}

#[test]
fn call_of_non_function_is_rejected() {
    let result = parse("void main() { int a; a(); }");
    let errors = result.err().expect("calling a variable must fail");
    assert!(errors
        .iter()
        .any(|e| matches!(e, Error::Semantic(m) if m.contains("is not a function"))));
}

#[test]
fn argument_type_must_match() {
    let result = parse("int f(bool b) { return 1; } void main() { f(3); }");
    let errors = result.err().expect("an int for a bool parameter must fail");
    assert!(errors
        .iter()
        .any(|e| matches!(e, Error::Semantic(m) if m.contains("call argument"))));
}

#[test]
fn error_messages_carry_their_kind() {
    let result = parse("void main() { x = 3; }");
    let errors = result.err().unwrap();
    let first = errors[0].message();
    assert!(first.starts_with("Semantic Error: "));
}

#[test]
fn multiple_errors_are_collected_in_order() {
    let result = parse("void main() { x = 3; y = 4; }");
    let errors = result.err().unwrap();
    assert_eq!(errors.len(), 2);
    assert!(matches!(&errors[0], Error::Semantic(m) if m.contains("undeclared identifier x")));
    assert!(matches!(&errors[1], Error::Semantic(m) if m.contains("undeclared identifier y")));
}

#[test]
fn parse_is_a_pure_function_of_its_input() {
    let good = "int x = 0;\nvoid main() { x = x + 1; }";
    let first = parse(good).unwrap().print();
    let second = parse(good).unwrap().print();
    assert_eq!(first, second);

    let bad = "void main() { y = true && 1; }";
    let first: Vec<String> = parse(bad).err().unwrap().iter().map(|e| e.message()).collect();
    let second: Vec<String> = parse(bad).err().unwrap().iter().map(|e| e.message()).collect();
    assert_eq!(first, second);
}
