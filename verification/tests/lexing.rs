use cb_5::lexer::{C1Lexer, C1Token};

#[test]
fn lines_are_counted() {
    let mut lexer1 = C1Lexer::new("Hello\nTest");
    assert_eq!(lexer1.current_line_number(), Some(1));
    assert_eq!(lexer1.peek_line_number(), Some(2));
    lexer1.eat();
    assert_eq!(lexer1.current_line_number(), Some(2));
    assert_eq!(lexer1.peek_line_number(), None);
    lexer1.eat();
    assert_eq!(lexer1.current_line_number(), None);
    assert_eq!(lexer1.peek_line_number(), None);
}

#[test]
fn line_count_is_reset() {
    {
        let mut lexer1 = C1Lexer::new("Hello\nTest\nbla\nfoo");
        lexer1.eat();
        lexer1.eat();
        assert_eq!(lexer1.current_line_number(), Some(3));
        assert_eq!(lexer1.peek_line_number(), Some(4));
    }
    let lexer2 = C1Lexer::new("bool foo()");
    assert_eq!(lexer2.current_line_number(), Some(1));
    assert_eq!(lexer2.peek_line_number(), Some(1));
}

#[test]
fn float_recognition() {
    let lexer = C1Lexer::new("1.2");
    assert_eq!(lexer.current_token(), Some(C1Token::ConstFloat));

    let lexer = C1Lexer::new("1.000");
    assert_eq!(lexer.current_token(), Some(C1Token::ConstFloat));

    let lexer = C1Lexer::new(".2");
    assert_eq!(lexer.current_token(), Some(C1Token::ConstFloat));

    let lexer = C1Lexer::new("1.2e4");
    assert_eq!(lexer.current_token(), Some(C1Token::ConstFloat));

    let lexer = C1Lexer::new("1.2e+4");
    assert_eq!(lexer.current_token(), Some(C1Token::ConstFloat));

    let lexer = C1Lexer::new("1.2e-10");
    assert_eq!(lexer.current_token(), Some(C1Token::ConstFloat));

    let lexer = C1Lexer::new("1.2E-10");
    assert_eq!(lexer.current_token(), Some(C1Token::ConstFloat));

    let lexer = C1Lexer::new("33E+2");
    assert_eq!(lexer.current_token(), Some(C1Token::ConstFloat));
}

#[test]
fn current_and_peek_do_not_consume() {
    let lexer = C1Lexer::new("current next");
    assert_eq!(lexer.current_token(), Some(C1Token::Identifier));
    assert_eq!(lexer.current_text(), Some("current"));
    assert_eq!(lexer.current_token(), Some(C1Token::Identifier));
    assert_eq!(lexer.current_text(), Some("current"));
    assert_eq!(lexer.peek_token(), Some(C1Token::Identifier));
    assert_eq!(lexer.peek_text(), Some("next"));
}

#[test]
fn eat_advances_one_token() {
    let mut lexer = C1Lexer::new("current next last");
    assert_eq!(lexer.current_text(), Some("current"));
    assert_eq!(lexer.peek_text(), Some("next"));

    lexer.eat();
    assert_eq!(lexer.current_text(), Some("next"));
    assert_eq!(lexer.peek_text(), Some("last"));

    lexer.eat();
    assert_eq!(lexer.current_text(), Some("last"));
    assert_eq!(lexer.peek_text(), None);

    lexer.eat();
    assert_eq!(lexer.current_text(), None);
    assert_eq!(lexer.peek_text(), None);
}

#[test]
fn keywords_beat_identifiers() {
    let kinds = [
        ("bool", C1Token::KwBoolean),
        ("do", C1Token::KwDo),
        ("else", C1Token::KwElse),
        ("float", C1Token::KwFloat),
        ("for", C1Token::KwFor),
        ("if", C1Token::KwIf),
        ("int", C1Token::KwInt),
        ("printf", C1Token::KwPrintf),
        ("return", C1Token::KwReturn),
        ("void", C1Token::KwVoid),
        ("while", C1Token::KwWhile),
        ("true", C1Token::ConstBoolean),
        ("false", C1Token::ConstBoolean),
        ("boolx", C1Token::Identifier),
        ("iff", C1Token::Identifier),
    ];
    for (text, kind) in kinds {
        let lexer = C1Lexer::new(text);
        assert_eq!(lexer.current_token(), Some(kind), "for input {:?}", text);
    }
}

#[test]
fn longest_match_wins_on_operators() {
    let mut lexer = C1Lexer::new("== = <= < >= > != && ||");
    let expected = [
        C1Token::Equal,
        C1Token::Assign,
        C1Token::LessEqual,
        C1Token::Less,
        C1Token::GreaterEqual,
        C1Token::Greater,
        C1Token::NotEqual,
        C1Token::And,
        C1Token::Or,
    ];
    for kind in expected {
        assert_eq!(lexer.current_token(), Some(kind));
        lexer.eat();
    }
    assert_eq!(lexer.current_token(), None);
}

#[test]
fn trailing_dot_is_not_a_float() {
    let mut lexer = C1Lexer::new("1.");
    assert_eq!(lexer.current_token(), Some(C1Token::ConstInt));
    lexer.eat();
    assert_eq!(lexer.current_token(), Some(C1Token::Error));
}

#[test]
fn comments_and_whitespace_are_skipped() {
    let lexer = C1Lexer::new("/* a comment */  \t // line comment\n  42");
    assert_eq!(lexer.current_token(), Some(C1Token::ConstInt));
    assert_eq!(lexer.current_text(), Some("42"));
    assert_eq!(lexer.current_line_number(), Some(2));
}

#[test]
fn string_literals_keep_their_quotes() {
    let lexer = C1Lexer::new("\"hello\"");
    assert_eq!(lexer.current_token(), Some(C1Token::ConstString));
    assert_eq!(lexer.current_text(), Some("\"hello\""));
}

#[test]
fn unknown_bytes_become_error_tokens() {
    let lexer = C1Lexer::new("@");
    assert_eq!(lexer.current_token(), Some(C1Token::Error));
    let lexer = C1Lexer::new("|");
    assert_eq!(lexer.current_token(), Some(C1Token::Error));
    let lexer = C1Lexer::new("&");
    assert_eq!(lexer.current_token(), Some(C1Token::Error));
}

#[test]
fn spans_are_byte_offsets_for_ascii() {
    let mut lexer = C1Lexer::new("void main( {}");
    while lexer.current_token() != Some(C1Token::LeftBrace) {
        lexer.eat();
    }
    assert_eq!(lexer.span().start, 11);
    assert_eq!(lexer.span().end, 12);
}

#[test]
fn block_comments_may_contain_stars_and_slashes() {
    let lexer = C1Lexer::new("/* a * b / c */ 7");
    assert_eq!(lexer.current_token(), Some(C1Token::ConstInt));
    assert_eq!(lexer.current_text(), Some("7"));

    // an unterminated comment is not a comment: the slash stands alone
    let lexer = C1Lexer::new("/* open");
    assert_eq!(lexer.current_token(), Some(C1Token::Slash));
}
