use crate::loc::Span;
use crate::text::str_eq;
use vstd::prelude::*;
use vstd::string::StrSliceExecFns;
use vstd::string::StringExecFns;

verus! {

/// The lexical classes of C1.  The comment and whitespace classes are
/// consumed silently; `Linebreak` advances the line counter; `Error` marks a
/// byte no rule recognizes.
#[derive(Debug, PartialEq, Eq, Structural, Copy, Clone)]
pub enum C1Token {
    KwBoolean,
    KwDo,
    KwElse,
    KwFloat,
    KwFor,
    KwIf,
    KwInt,
    KwPrintf,
    KwReturn,
    KwVoid,
    KwWhile,
    Plus,
    Minus,
    Asterisk,
    Slash,
    /// =
    Assign,
    /// ==
    Equal,
    /// !=
    NotEqual,
    /// <
    Less,
    /// >
    Greater,
    /// <=
    LessEqual,
    /// >=
    GreaterEqual,
    /// &&
    And,
    /// ||
    Or,
    Comma,
    Semicolon,
    /// (
    LeftParenthesis,
    /// )
    RightParenthesis,
    /// {
    LeftBrace,
    /// }
    RightBrace,
    ConstInt,
    ConstFloat,
    ConstBoolean,
    ConstString,
    Identifier,
    CComment,
    CPPComment,
    Whitespace,
    Linebreak,
    Error,
}

/// A decimal digit.
pub open spec fn is_digit(c: char) -> bool {
    '0' <= c && c <= '9'
}

/// A letter.
pub open spec fn is_alpha(c: char) -> bool {
    ('a' <= c && c <= 'z') || ('A' <= c && c <= 'Z')
}

/// A letter or a decimal digit.
pub open spec fn is_alnum(c: char) -> bool {
    is_alpha(c) || is_digit(c)
}

/// Horizontal whitespace: space, tab, form feed and carriage return.
pub open spec fn is_ws(c: char) -> bool {
    c == ' ' || c == '\t' || c == '\x0C' || c == '\r'
}

/// The end of the run of letters and digits starting at `p`.
pub open spec fn word_end(s: Seq<char>, p: int) -> int
    decreases s.len() - p,
{
    if 0 <= p < s.len() && is_alnum(s[p]) {
        word_end(s, p + 1)
    } else {
        p
    }
}

/// The end of the run of decimal digits starting at `p`.
pub open spec fn digits_end(s: Seq<char>, p: int) -> int
    decreases s.len() - p,
{
    if 0 <= p < s.len() && is_digit(s[p]) {
        digits_end(s, p + 1)
    } else {
        p
    }
}

/// The end of a string literal's body: the run of characters that are
/// neither a quote nor a line break.
pub open spec fn string_body_end(s: Seq<char>, p: int) -> int
    decreases s.len() - p,
{
    if 0 <= p < s.len() && s[p] != '"' && s[p] != '\n' {
        string_body_end(s, p + 1)
    } else {
        p
    }
}

/// The end of a line comment's body: the run of characters before the next
/// line break.
pub open spec fn line_body_end(s: Seq<char>, p: int) -> int
    decreases s.len() - p,
{
    if 0 <= p < s.len() && s[p] != '\n' {
        line_body_end(s, p + 1)
    } else {
        p
    }
}

/// The position of the star of the first closing `*/` at or after `p`, or
/// the input's length when the comment never closes.
pub open spec fn comment_close(s: Seq<char>, p: int) -> int
    decreases s.len() - p,
{
    if 0 <= p && p + 1 < s.len() {
        if s[p] == '*' && s[p + 1] == '/' {
            p
        } else {
            comment_close(s, p + 1)
        }
    } else {
        s.len() as int
    }
}

proof fn lemma_word_end_bounds(s: Seq<char>, p: int)
    requires
        0 <= p <= s.len(),
    ensures
        p <= word_end(s, p) <= s.len(),
    decreases s.len() - p,
{
    if p < s.len() && is_alnum(s[p]) {
        lemma_word_end_bounds(s, p + 1);
    }
}

/// The digit run never ends before its start.
pub proof fn lemma_digits_end_lower(s: Seq<char>, p: int)
    ensures
        digits_end(s, p) >= p,
    decreases s.len() - p,
{
    if 0 <= p < s.len() && is_digit(s[p]) {
        lemma_digits_end_lower(s, p + 1);
    }
}

proof fn lemma_digits_end_bounds(s: Seq<char>, p: int)
    requires
        0 <= p <= s.len(),
    ensures
        p <= digits_end(s, p) <= s.len(),
    decreases s.len() - p,
{
    if p < s.len() && is_digit(s[p]) {
        lemma_digits_end_bounds(s, p + 1);
    }
}

proof fn lemma_string_body_end_bounds(s: Seq<char>, p: int)
    requires
        0 <= p <= s.len(),
    ensures
        p <= string_body_end(s, p) <= s.len(),
    decreases s.len() - p,
{
    if p < s.len() && s[p] != '"' && s[p] != '\n' {
        lemma_string_body_end_bounds(s, p + 1);
    }
}

proof fn lemma_line_body_end_bounds(s: Seq<char>, p: int)
    requires
        0 <= p <= s.len(),
    ensures
        p <= line_body_end(s, p) <= s.len(),
    decreases s.len() - p,
{
    if p < s.len() && s[p] != '\n' {
        lemma_line_body_end_bounds(s, p + 1);
    }
}

proof fn lemma_comment_close_bounds(s: Seq<char>, p: int)
    requires
        0 <= p <= s.len(),
    ensures
        p <= comment_close(s, p) <= s.len(),
        comment_close(s, p) < s.len() ==> comment_close(s, p) + 1 < s.len(),
    decreases s.len() - p,
{
    if p + 1 < s.len() && !(s[p] == '*' && s[p + 1] == '/') {
        lemma_comment_close_bounds(s, p + 1);
    }
}

/// The class of a whole word: a keyword, a boolean literal, or an
/// identifier.  Keywords win over identifiers.
pub open spec fn word_kind(w: Seq<char>) -> C1Token {
    if w == "bool"@ {
        C1Token::KwBoolean
    } else if w == "do"@ {
        C1Token::KwDo
    } else if w == "else"@ {
        C1Token::KwElse
    } else if w == "float"@ {
        C1Token::KwFloat
    } else if w == "for"@ {
        C1Token::KwFor
    } else if w == "if"@ {
        C1Token::KwIf
    } else if w == "int"@ {
        C1Token::KwInt
    } else if w == "printf"@ {
        C1Token::KwPrintf
    } else if w == "return"@ {
        C1Token::KwReturn
    } else if w == "void"@ {
        C1Token::KwVoid
    } else if w == "while"@ {
        C1Token::KwWhile
    } else if w == "true"@ || w == "false"@ {
        C1Token::ConstBoolean
    } else {
        C1Token::Identifier
    }
}

/// The token that a longest-match scan recognizes at position `p`, and the
/// position just past it.  Comment, whitespace and line-break classes are
/// produced like any other token; a later pass skips them.
pub open spec fn raw_token(s: Seq<char>, p: int) -> (C1Token, int) {
    let c = s[p];
    if is_ws(c) {
        (C1Token::Whitespace, p + 1)
    } else if c == '\n' {
        (C1Token::Linebreak, p + 1)
    } else if is_alpha(c) {
        let e = word_end(s, p + 1);
        (word_kind(s.subrange(p, e)), e)
    } else if is_digit(c) {
        number_token(s, p)
    } else if c == '.' {
        dot_token(s, p)
    } else if c == '"' {
        string_token(s, p)
    } else if c == '/' {
        slash_token(s, p)
    } else if c == '=' {
        if p + 1 < s.len() && s[p + 1] == '=' {
            (C1Token::Equal, p + 2)
        } else {
            (C1Token::Assign, p + 1)
        }
    } else if c == '!' {
        if p + 1 < s.len() && s[p + 1] == '=' {
            (C1Token::NotEqual, p + 2)
        } else {
            (C1Token::Error, p + 1)
        }
    } else if c == '<' {
        if p + 1 < s.len() && s[p + 1] == '=' {
            (C1Token::LessEqual, p + 2)
        } else {
            (C1Token::Less, p + 1)
        }
    } else if c == '>' {
        if p + 1 < s.len() && s[p + 1] == '=' {
            (C1Token::GreaterEqual, p + 2)
        } else {
            (C1Token::Greater, p + 1)
        }
    } else if c == '&' {
        if p + 1 < s.len() && s[p + 1] == '&' {
            (C1Token::And, p + 2)
        } else {
            (C1Token::Error, p + 1)
        }
    } else if c == '|' {
        if p + 1 < s.len() && s[p + 1] == '|' {
            (C1Token::Or, p + 2)
        } else {
            (C1Token::Error, p + 1)
        }
    } else if c == '+' {
        (C1Token::Plus, p + 1)
    } else if c == '-' {
        (C1Token::Minus, p + 1)
    } else if c == '*' {
        (C1Token::Asterisk, p + 1)
    } else if c == ',' {
        (C1Token::Comma, p + 1)
    } else if c == ';' {
        (C1Token::Semicolon, p + 1)
    } else if c == '(' {
        (C1Token::LeftParenthesis, p + 1)
    } else if c == ')' {
        (C1Token::RightParenthesis, p + 1)
    } else if c == '{' {
        (C1Token::LeftBrace, p + 1)
    } else if c == '}' {
        (C1Token::RightBrace, p + 1)
    } else {
        (C1Token::Error, p + 1)
    }
}

/// A number starting with a digit: an integer, a fraction form
/// `digits . digits` without exponent, or `digits` with an exponent.
pub open spec fn number_token(s: Seq<char>, p: int) -> (C1Token, int) {
    let de = digits_end(s, p);
    if de < s.len() && s[de] == '.' && de + 1 < s.len() && is_digit(s[de + 1]) {
        (C1Token::ConstFloat, digits_end(s, de + 1))
    } else if de < s.len() && (s[de] == 'e' || s[de] == 'E') {
        let q = if de + 1 < s.len() && (s[de + 1] == '+' || s[de + 1] == '-') {
            de + 2
        } else {
            de + 1
        };
        if q < s.len() && is_digit(s[q]) {
            (C1Token::ConstFloat, digits_end(s, q))
        } else {
            (C1Token::ConstInt, de)
        }
    } else {
        (C1Token::ConstInt, de)
    }
}

/// A number starting with a dot: `. digits` with an optional exponent, or a
/// lexical error when no digit follows the dot.
pub open spec fn dot_token(s: Seq<char>, p: int) -> (C1Token, int) {
    if p + 1 < s.len() && is_digit(s[p + 1]) {
        let fe = digits_end(s, p + 1);
        if fe < s.len() && (s[fe] == 'e' || s[fe] == 'E') {
            let q = if fe + 1 < s.len() && (s[fe + 1] == '+' || s[fe + 1] == '-') {
                fe + 2
            } else {
                fe + 1
            };
            if q < s.len() && is_digit(s[q]) {
                (C1Token::ConstFloat, digits_end(s, q))
            } else {
                (C1Token::ConstFloat, fe)
            }
        } else {
            (C1Token::ConstFloat, fe)
        }
    } else {
        (C1Token::Error, p + 1)
    }
}

/// A string literal: a quote, characters that are neither quote nor line
/// break, and a closing quote.  An unterminated literal is a lexical error.
pub open spec fn string_token(s: Seq<char>, p: int) -> (C1Token, int) {
    let q = string_body_end(s, p + 1);
    if q < s.len() && s[q] == '"' {
        (C1Token::ConstString, q + 1)
    } else {
        (C1Token::Error, p + 1)
    }
}

/// A slash: a line comment, a block comment running to the first `*/`
/// (an unterminated one does not match), or the division operator.
pub open spec fn slash_token(s: Seq<char>, p: int) -> (C1Token, int) {
    if p + 1 < s.len() && s[p + 1] == '/' {
        (C1Token::CPPComment, line_body_end(s, p + 2))
    } else if p + 1 < s.len() && s[p + 1] == '*' {
        let q = comment_close(s, p + 2);
        if q < s.len() {
            (C1Token::CComment, q + 2)
        } else {
            (C1Token::Slash, p + 1)
        }
    } else {
        (C1Token::Slash, p + 1)
    }
}

/// A scan at a valid position always advances and stays within the input.
proof fn lemma_raw_token_bounds(s: Seq<char>, p: int)
    requires
        0 <= p < s.len(),
    ensures
        p < raw_token(s, p).1 <= s.len(),
{
    let c = s[p];
    lemma_word_end_bounds(s, p + 1);
    lemma_digits_end_bounds(s, p + 1);
    lemma_string_body_end_bounds(s, p + 1);
    if is_digit(c) {
        let de = digits_end(s, p);
        assert(digits_end(s, p) == digits_end(s, p + 1));
        if de < s.len() && s[de] == '.' && de + 1 < s.len() && is_digit(s[de + 1]) {
            lemma_digits_end_bounds(s, de + 1);
        } else if de < s.len() && (s[de] == 'e' || s[de] == 'E') {
            let q = if de + 1 < s.len() && (s[de + 1] == '+' || s[de + 1] == '-') {
                de + 2
            } else {
                de + 1
            };
            if q < s.len() && is_digit(s[q]) {
                lemma_digits_end_bounds(s, q);
            }
        }
    }
    if c == '.' {
        if p + 1 < s.len() && is_digit(s[p + 1]) {
            let fe = digits_end(s, p + 1);
            if fe < s.len() && (s[fe] == 'e' || s[fe] == 'E') {
                let q = if fe + 1 < s.len() && (s[fe + 1] == '+' || s[fe + 1] == '-') {
                    fe + 2
                } else {
                    fe + 1
                };
                if q < s.len() && is_digit(s[q]) {
                    lemma_digits_end_bounds(s, q);
                }
            }
        }
    }
    if c == '/' {
        if p + 1 < s.len() && s[p + 1] == '/' {
            lemma_line_body_end_bounds(s, p + 2);
        } else if p + 1 < s.len() && s[p + 1] == '*' {
            lemma_comment_close_bounds(s, p + 2);
        }
    }
}

/// The view of one produced token: its class, its character range, and the
/// line it starts on.
pub struct TokView {
    pub kind: C1Token,
    pub start: int,
    pub end: int,
    pub line: int,
}

/// Advances the line counter, saturating at the machine limit.
pub open spec fn sat_inc(line: int) -> int {
    if line < usize::MAX as int {
        line + 1
    } else {
        line
    }
}

/// The next reported token at or after position `p`: whitespace and
/// comments are skipped, line breaks are skipped and counted.
pub open spec fn spec_next(s: Seq<char>, p: int, line: int) -> Option<TokView>
    decreases s.len() - p,
    via spec_next_dec
{
    if !(0 <= p < s.len()) {
        None
    } else {
        let r = raw_token(s, p);
        if r.0 == C1Token::Linebreak {
            spec_next(s, r.1, sat_inc(line))
        } else if r.0 == C1Token::Whitespace || r.0 == C1Token::CComment || r.0
            == C1Token::CPPComment {
            spec_next(s, r.1, line)
        } else {
            Some(TokView { kind: r.0, start: p, end: r.1, line })
        }
    }
}

#[via_fn]
proof fn spec_next_dec(s: Seq<char>, p: int, line: int) {
    if 0 <= p < s.len() {
        lemma_raw_token_bounds(s, p);
    }
}

/// A reported token lies within the input, past the scan position, and
/// never before the current line.
proof fn lemma_spec_next_props(s: Seq<char>, p: int, line: int)
    requires
        0 <= p,
    ensures
        match spec_next(s, p, line) {
            Some(tv) => p <= tv.start && tv.start < tv.end <= s.len() && line <= tv.line,
            None => true,
        },
    decreases s.len() - p,
{
    if 0 <= p < s.len() {
        lemma_raw_token_bounds(s, p);
        let r = raw_token(s, p);
        if r.0 == C1Token::Linebreak {
            lemma_spec_next_props(s, r.1, sat_inc(line));
        } else if r.0 == C1Token::Whitespace || r.0 == C1Token::CComment || r.0
            == C1Token::CPPComment {
            lemma_spec_next_props(s, r.1, line);
        }
    }
}

/// The whole stream of reported tokens from position `p` on.
pub open spec fn spec_tokens(s: Seq<char>, p: int, line: int) -> Seq<TokView>
    decreases s.len() - p,
    via spec_tokens_dec
{
    if !(0 <= p) {
        Seq::<TokView>::empty()
    } else {
        match spec_next(s, p, line) {
            None => Seq::<TokView>::empty(),
            Some(tv) => seq![tv] + spec_tokens(s, tv.end, tv.line),
        }
    }
}

#[via_fn]
proof fn spec_tokens_dec(s: Seq<char>, p: int, line: int) {
    if 0 <= p {
        lemma_spec_next_props(s, p, line);
    }
}

/// The parser-alphabet code of a lexical class: ASCII codes for the
/// single-character operators, named codes for the rest, and the error code
/// for anything the parser cannot consume.
pub open spec fn kind_code(k: C1Token) -> i32 {
    match k {
        C1Token::KwBoolean => crate::token::KW_BOOLEAN,
        C1Token::KwDo => crate::token::KW_DO,
        C1Token::KwElse => crate::token::KW_ELSE,
        C1Token::KwFloat => crate::token::KW_FLOAT,
        C1Token::KwFor => crate::token::KW_FOR,
        C1Token::KwIf => crate::token::KW_IF,
        C1Token::KwInt => crate::token::KW_INT,
        C1Token::KwPrintf => crate::token::KW_PRINTF,
        C1Token::KwReturn => crate::token::KW_RETURN,
        C1Token::KwVoid => crate::token::KW_VOID,
        C1Token::KwWhile => crate::token::KW_WHILE,
        C1Token::Equal => crate::token::EQ,
        C1Token::NotEqual => crate::token::NEQ,
        C1Token::Less => crate::token::LSS,
        C1Token::Greater => crate::token::GRT,
        C1Token::LessEqual => crate::token::LEQ,
        C1Token::GreaterEqual => crate::token::GEQ,
        C1Token::And => crate::token::AND,
        C1Token::Or => crate::token::OR,
        C1Token::ConstInt => crate::token::CONST_INT,
        C1Token::ConstFloat => crate::token::CONST_FLOAT,
        C1Token::ConstBoolean => crate::token::CONST_BOOLEAN,
        C1Token::ConstString => crate::token::CONST_STRING,
        C1Token::Identifier => crate::token::ID,
        C1Token::Plus => 43,
        C1Token::Minus => 45,
        C1Token::Asterisk => 42,
        C1Token::Slash => 47,
        C1Token::Assign => 61,
        C1Token::Comma => 44,
        C1Token::Semicolon => 59,
        C1Token::LeftParenthesis => 40,
        C1Token::RightParenthesis => 41,
        C1Token::LeftBrace => 123,
        C1Token::RightBrace => 125,
        _ => crate::token::YYERROR,
    }
}

/// One token as stored by the lexer: its class, its text, the line it
/// starts on, and its character range.
#[derive(Debug)]
pub struct TokenData {
    pub token_type: C1Token,
    pub token_text: String,
    pub token_line: usize,
    pub start: usize,
    pub end: usize,
}

/// Whether a stored token agrees with its view: same class, range and line,
/// and its text is exactly the input slice of its range.
pub open spec fn td_matches(td: TokenData, tv: TokView, s: Seq<char>) -> bool {
    &&& td.token_type == tv.kind
    &&& td.start as int == tv.start
    &&& td.end as int == tv.end
    &&& td.token_line as int == tv.line
    &&& 0 <= tv.start <= tv.end <= s.len()
    &&& td.token_text@ == s.subrange(tv.start, tv.end)
}

fn is_digit_exec(c: char) -> (r: bool)
    ensures
        r == is_digit(c),
{
    '0' <= c && c <= '9'
}

fn is_alpha_exec(c: char) -> (r: bool)
    ensures
        r == is_alpha(c),
{
    ('a' <= c && c <= 'z') || ('A' <= c && c <= 'Z')
}

fn is_alnum_exec(c: char) -> (r: bool)
    ensures
        r == is_alnum(c),
{
    is_alpha_exec(c) || is_digit_exec(c)
}

fn is_ws_exec(c: char) -> (r: bool)
    ensures
        r == is_ws(c),
{
    c == ' ' || c == '\t' || c == '\x0C' || c == '\r'
}

fn word_end_exec(text: &str, n: usize, p: usize) -> (r: usize)
    requires
        n as int == text@.len(),
        p <= n,
    ensures
        r as int == word_end(text@, p as int),
        p <= r <= n,
{
    let mut q = p;
    while q < n && is_alnum_exec(text.get_char(q))
        invariant
            p <= q <= n,
            n as int == text@.len(),
            word_end(text@, p as int) == word_end(text@, q as int),
        decreases n - q,
    {
        q += 1;
    }
    q
}

fn digits_end_exec(text: &str, n: usize, p: usize) -> (r: usize)
    requires
        n as int == text@.len(),
        p <= n,
    ensures
        r as int == digits_end(text@, p as int),
        p <= r <= n,
{
    let mut q = p;
    while q < n && is_digit_exec(text.get_char(q))
        invariant
            p <= q <= n,
            n as int == text@.len(),
            digits_end(text@, p as int) == digits_end(text@, q as int),
        decreases n - q,
    {
        q += 1;
    }
    q
}

fn string_body_end_exec(text: &str, n: usize, p: usize) -> (r: usize)
    requires
        n as int == text@.len(),
        p <= n,
    ensures
        r as int == string_body_end(text@, p as int),
        p <= r <= n,
{
    let mut q = p;
    while q < n && text.get_char(q) != '"' && text.get_char(q) != '\n'
        invariant
            p <= q <= n,
            n as int == text@.len(),
            string_body_end(text@, p as int) == string_body_end(text@, q as int),
        decreases n - q,
    {
        q += 1;
    }
    q
}

fn line_body_end_exec(text: &str, n: usize, p: usize) -> (r: usize)
    requires
        n as int == text@.len(),
        p <= n,
    ensures
        r as int == line_body_end(text@, p as int),
        p <= r <= n,
{
    let mut q = p;
    while q < n && text.get_char(q) != '\n'
        invariant
            p <= q <= n,
            n as int == text@.len(),
            line_body_end(text@, p as int) == line_body_end(text@, q as int),
        decreases n - q,
    {
        q += 1;
    }
    q
}

fn comment_close_exec(text: &str, n: usize, p: usize) -> (r: usize)
    requires
        n as int == text@.len(),
        p <= n,
    ensures
        r as int == comment_close(text@, p as int),
        r <= n,
{
    let mut q = p;
    while q < n && q + 1 < n && !(text.get_char(q) == '*' && text.get_char(q + 1) == '/')
        invariant
            p <= q <= n,
            n as int == text@.len(),
            comment_close(text@, p as int) == comment_close(text@, q as int),
        decreases n - q,
    {
        q += 1;
    }
    if q < n && q + 1 < n {
        q
    } else {
        n
    }
}

fn word_kind_exec(w: &str) -> (k: C1Token)
    ensures
        k == word_kind(w@),
{
    if str_eq(w, "bool") {
        C1Token::KwBoolean
    } else if str_eq(w, "do") {
        C1Token::KwDo
    } else if str_eq(w, "else") {
        C1Token::KwElse
    } else if str_eq(w, "float") {
        C1Token::KwFloat
    } else if str_eq(w, "for") {
        C1Token::KwFor
    } else if str_eq(w, "if") {
        C1Token::KwIf
    } else if str_eq(w, "int") {
        C1Token::KwInt
    } else if str_eq(w, "printf") {
        C1Token::KwPrintf
    } else if str_eq(w, "return") {
        C1Token::KwReturn
    } else if str_eq(w, "void") {
        C1Token::KwVoid
    } else if str_eq(w, "while") {
        C1Token::KwWhile
    } else if str_eq(w, "true") || str_eq(w, "false") {
        C1Token::ConstBoolean
    } else {
        C1Token::Identifier
    }
}

/// The longest-match scan at position `p`, exactly as `raw_token` defines
/// it.
#[verifier::rlimit(60)]
fn scan_raw(text: &str, n: usize, p: usize) -> (r: (C1Token, usize))
    requires
        n as int == text@.len(),
        p < n,
    ensures
        r.0 == raw_token(text@, p as int).0,
        r.1 as int == raw_token(text@, p as int).1,
        p < r.1 <= n,
{
    proof {
        lemma_raw_token_bounds(text@, p as int);
    }
    let c = text.get_char(p);
    if is_ws_exec(c) {
        (C1Token::Whitespace, p + 1)
    } else if c == '\n' {
        (C1Token::Linebreak, p + 1)
    } else if is_alpha_exec(c) {
        let e = word_end_exec(text, n, p + 1);
        let w = text.substring_char(p, e);
        (word_kind_exec(w), e)
    } else if is_digit_exec(c) {
        let de = digits_end_exec(text, n, p);
        if de < n && text.get_char(de) == '.' && de + 1 < n && is_digit_exec(
            text.get_char(de + 1),
        ) {
            (C1Token::ConstFloat, digits_end_exec(text, n, de + 1))
        } else if de < n && (text.get_char(de) == 'e' || text.get_char(de) == 'E') {
            let q = if de + 1 < n && (text.get_char(de + 1) == '+' || text.get_char(de + 1)
                == '-') {
                de + 2
            } else {
                de + 1
            };
            if q < n && is_digit_exec(text.get_char(q)) {
                (C1Token::ConstFloat, digits_end_exec(text, n, q))
            } else {
                (C1Token::ConstInt, de)
            }
        } else {
            (C1Token::ConstInt, de)
        }
    } else if c == '.' {
        if p + 1 < n && is_digit_exec(text.get_char(p + 1)) {
            let fe = digits_end_exec(text, n, p + 1);
            if fe < n && (text.get_char(fe) == 'e' || text.get_char(fe) == 'E') {
                let q = if fe + 1 < n && (text.get_char(fe + 1) == '+' || text.get_char(fe + 1)
                    == '-') {
                    fe + 2
                } else {
                    fe + 1
                };
                if q < n && is_digit_exec(text.get_char(q)) {
                    (C1Token::ConstFloat, digits_end_exec(text, n, q))
                } else {
                    (C1Token::ConstFloat, fe)
                }
            } else {
                (C1Token::ConstFloat, fe)
            }
        } else {
            (C1Token::Error, p + 1)
        }
    } else if c == '"' {
        let q = string_body_end_exec(text, n, p + 1);
        if q < n && text.get_char(q) == '"' {
            (C1Token::ConstString, q + 1)
        } else {
            (C1Token::Error, p + 1)
        }
    } else if c == '/' {
        if p + 1 < n && text.get_char(p + 1) == '/' {
            (C1Token::CPPComment, line_body_end_exec(text, n, p + 2))
        } else if p + 1 < n && text.get_char(p + 1) == '*' {
            let q = comment_close_exec(text, n, p + 2);
            if q < n {
                proof {
                    lemma_comment_close_bounds(text@, p as int + 2);
                }
                (C1Token::CComment, q + 2)
            } else {
                (C1Token::Slash, p + 1)
            }
        } else {
            (C1Token::Slash, p + 1)
        }
    } else if c == '=' {
        if p + 1 < n && text.get_char(p + 1) == '=' {
            (C1Token::Equal, p + 2)
        } else {
            (C1Token::Assign, p + 1)
        }
    } else if c == '!' {
        if p + 1 < n && text.get_char(p + 1) == '=' {
            (C1Token::NotEqual, p + 2)
        } else {
            (C1Token::Error, p + 1)
        }
    } else if c == '<' {
        if p + 1 < n && text.get_char(p + 1) == '=' {
            (C1Token::LessEqual, p + 2)
        } else {
            (C1Token::Less, p + 1)
        }
    } else if c == '>' {
        if p + 1 < n && text.get_char(p + 1) == '=' {
            (C1Token::GreaterEqual, p + 2)
        } else {
            (C1Token::Greater, p + 1)
        }
    } else if c == '&' {
        if p + 1 < n && text.get_char(p + 1) == '&' {
            (C1Token::And, p + 2)
        } else {
            (C1Token::Error, p + 1)
        }
    } else if c == '|' {
        if p + 1 < n && text.get_char(p + 1) == '|' {
            (C1Token::Or, p + 2)
        } else {
            (C1Token::Error, p + 1)
        }
    } else if c == '+' {
        (C1Token::Plus, p + 1)
    } else if c == '-' {
        (C1Token::Minus, p + 1)
    } else if c == '*' {
        (C1Token::Asterisk, p + 1)
    } else if c == ',' {
        (C1Token::Comma, p + 1)
    } else if c == ';' {
        (C1Token::Semicolon, p + 1)
    } else if c == '(' {
        (C1Token::LeftParenthesis, p + 1)
    } else if c == ')' {
        (C1Token::RightParenthesis, p + 1)
    } else if c == '{' {
        (C1Token::LeftBrace, p + 1)
    } else if c == '}' {
        (C1Token::RightBrace, p + 1)
    } else {
        (C1Token::Error, p + 1)
    }
}

/// Scans the whole input into the reported token stream.
fn tokenize(text: &str) -> (r: Vec<TokenData>)
    ensures
        ({
            let full = spec_tokens(text@, 0, 1);
            &&& r@.len() == full.len()
            &&& forall|i: int| 0 <= i < full.len() ==> td_matches(#[trigger] r@[i], full[i], text@)
        }),
{
    let n = text.unicode_len();
    let ghost full = spec_tokens(text@, 0, 1);
    let mut out: Vec<TokenData> = Vec::new();
    let mut pos: usize = 0;
    let mut line: usize = 1;
    while pos < n
        invariant
            n as int == text@.len(),
            pos <= n,
            out@.len() <= full.len(),
            forall|i: int| 0 <= i < out@.len() ==> td_matches(#[trigger] out@[i], full[i], text@),
            spec_tokens(text@, pos as int, line as int) =~= full.skip(out@.len() as int),
            full == spec_tokens(text@, 0, 1),
        decreases n - pos,
    {
        let (k, e) = scan_raw(text, n, pos);
        if k == C1Token::Linebreak {
            proof {
                assert(spec_tokens(text@, pos as int, line as int) == spec_tokens(
                    text@,
                    e as int,
                    sat_inc(line as int),
                ));
            }
            if line < usize::MAX {
                line += 1;
            }
            pos = e;
        } else if k == C1Token::Whitespace || k == C1Token::CComment || k == C1Token::CPPComment {
            proof {
                assert(spec_tokens(text@, pos as int, line as int) == spec_tokens(
                    text@,
                    e as int,
                    line as int,
                ));
            }
            pos = e;
        } else {
            let ghost tv = TokView {
                kind: k,
                start: pos as int,
                end: e as int,
                line: line as int,
            };
            proof {
                assert(spec_next(text@, pos as int, line as int) == Some(tv));
                assert(spec_tokens(text@, pos as int, line as int) =~= seq![tv] + spec_tokens(
                    text@,
                    e as int,
                    line as int,
                ));
                assert(full.skip(out@.len() as int)[0] == tv);
                assert(full[out@.len() as int] == tv);
                assert(full.skip(out@.len() as int).drop_first() =~= full.skip(
                    out@.len() as int + 1,
                ));
                assert(spec_tokens(text@, e as int, line as int) =~= full.skip(out@.len() as int + 1));
            }
            let slice = text.substring_char(pos, e);
            let td = TokenData {
                token_type: k,
                token_text: String::from_str(slice),
                token_line: line,
                start: pos,
                end: e,
            };
            out.push(td);
            pos = e;
        }
    }
    proof {
        assert(spec_tokens(text@, pos as int, line as int) =~= Seq::<TokView>::empty());
        assert(full.skip(out@.len() as int).len() == 0);
        assert(out@.len() == full.len());
    }
    out
}


/// A streaming one-token-lookahead view of the reported token stream of a
/// C1 source buffer.
#[derive(Debug)]
pub struct C1Lexer<'a> {
    text: &'a str,
    toks: Vec<TokenData>,
    cur: Cursor,
    source_len: usize,
}

/// The lexer's moving part: the index of the current token and its span,
/// which always change together.
#[derive(Debug, Copy, Clone)]
struct Cursor {
    idx: usize,
    span: Span,
}

impl<'a> C1Lexer<'a> {
    /// The scanned source.
    pub closed spec fn src(self) -> Seq<char> {
        self.text@
    }

    /// The stream of reported tokens of the source.
    pub closed spec fn stream(self) -> Seq<TokView> {
        spec_tokens(self.text@, 0, 1)
    }

    /// The position of the current token in the stream.
    pub closed spec fn cursor(self) -> int {
        self.cur.idx as int
    }

    #[verifier::type_invariant]
    spec fn inv(self) -> bool {
        &&& self.toks@.len() == self.stream().len()
        &&& forall|i: int|
            0 <= i < self.stream().len() ==> td_matches(
                #[trigger] self.toks@[i],
                self.stream()[i],
                self.text@,
            )
        &&& self.cur.idx as int <= self.toks@.len()
        &&& self.source_len as int == self.text@.len()
        &&& if self.cur.idx < self.toks@.len() {
            self.cur.span.start as int == self.stream()[self.cur.idx as int].start
                && self.cur.span.end as int == self.stream()[self.cur.idx as int].end
        } else {
            self.cur.span.start == self.source_len && self.cur.span.end == self.source_len
        }
    }

    /// Initializes a lexer for the given text, with the lookahead filled.
    /// Its stream is exactly the reported token stream of the text.
    pub fn new(text: &'a str) -> (r: C1Lexer<'a>)
        ensures
            r.src() == text@,
            r.stream() == spec_tokens(text@, 0, 1),
            r.cursor() == 0,
    {
        let toks = tokenize(text);
        let n = text.unicode_len();
        let span = if toks.len() > 0 {
            Span { start: toks[0].start, end: toks[0].end }
        } else {
            Span { start: n, end: n }
        };
        C1Lexer { text, toks, cur: Cursor { idx: 0, span }, source_len: n }
    }

    /// The class of the current token, without consuming it.
    pub fn current_token(&self) -> (r: Option<C1Token>)
        ensures
            r == if self.cursor() < self.stream().len() {
                Some(self.stream()[self.cursor()].kind)
            } else {
                None::<C1Token>
            },
    {
        proof {
            use_type_invariant(self);
        }
        if self.cur.idx < self.toks.len() {
            Some(self.toks[self.cur.idx].token_type)
        } else {
            None
        }
    }

    /// The class of the next token, without consuming anything.
    pub fn peek_token(&self) -> (r: Option<C1Token>)
        ensures
            r == if self.cursor() + 1 < self.stream().len() {
                Some(self.stream()[self.cursor() + 1].kind)
            } else {
                None::<C1Token>
            },
    {
        proof {
            use_type_invariant(self);
        }
        if self.cur.idx < self.toks.len() && self.toks.len() - self.cur.idx > 1 {
            Some(self.toks[self.cur.idx + 1].token_type)
        } else {
            None
        }
    }

    /// The text of the current token.
    pub fn current_text(&self) -> (r: Option<&str>)
        ensures
            match r {
                Some(t) => self.cursor() < self.stream().len() && t@ == self.src().subrange(
                    self.stream()[self.cursor()].start,
                    self.stream()[self.cursor()].end,
                ),
                None => self.cursor() >= self.stream().len(),
            },
    {
        proof {
            use_type_invariant(self);
        }
        if self.cur.idx < self.toks.len() {
            Some(self.toks[self.cur.idx].token_text.as_str())
        } else {
            None
        }
    }

    /// The text of the next token.
    pub fn peek_text(&self) -> (r: Option<&str>)
        ensures
            match r {
                Some(t) => self.cursor() + 1 < self.stream().len() && t@ == self.src().subrange(
                    self.stream()[self.cursor() + 1].start,
                    self.stream()[self.cursor() + 1].end,
                ),
                None => self.cursor() + 1 >= self.stream().len(),
            },
    {
        proof {
            use_type_invariant(self);
        }
        if self.cur.idx < self.toks.len() && self.toks.len() - self.cur.idx > 1 {
            Some(self.toks[self.cur.idx + 1].token_text.as_str())
        } else {
            None
        }
    }

    /// The line number where the current token is located.
    pub fn current_line_number(&self) -> (r: Option<usize>)
        ensures
            match r {
                Some(l) => self.cursor() < self.stream().len() && l as int
                    == self.stream()[self.cursor()].line,
                None => self.cursor() >= self.stream().len(),
            },
    {
        proof {
            use_type_invariant(self);
        }
        if self.cur.idx < self.toks.len() {
            Some(self.toks[self.cur.idx].token_line)
        } else {
            None
        }
    }

    /// The line number where the next token is located.
    pub fn peek_line_number(&self) -> (r: Option<usize>)
        ensures
            match r {
                Some(l) => self.cursor() + 1 < self.stream().len() && l as int
                    == self.stream()[self.cursor() + 1].line,
                None => self.cursor() + 1 >= self.stream().len(),
            },
    {
        proof {
            use_type_invariant(self);
        }
        if self.cur.idx < self.toks.len() && self.toks.len() - self.cur.idx > 1 {
            Some(self.toks[self.cur.idx + 1].token_line)
        } else {
            None
        }
    }

    /// The character range of the current token, or the end of the input
    /// when the stream is exhausted.
    pub fn span(&self) -> (r: &Span)
        ensures
            self.cursor() < self.stream().len() ==> r.start as int
                == self.stream()[self.cursor()].start && r.end as int
                == self.stream()[self.cursor()].end,
            self.cursor() >= self.stream().len() ==> r.start as int == self.src().len()
                && r.end as int == self.src().len(),
    {
        proof {
            use_type_invariant(self);
        }
        &self.cur.span
    }

    /// Drops the current token and moves the lookahead forward.
    pub fn eat(&mut self)
        ensures
            final(self).src() == old(self).src(),
            final(self).stream() == old(self).stream(),
            0 <= old(self).cursor() <= old(self).stream().len(),
            0 <= final(self).cursor() <= final(self).stream().len(),
            final(self).cursor() == if old(self).cursor() < old(self).stream().len() {
                old(self).cursor() + 1
            } else {
                old(self).cursor()
            },
    {
        proof {
            use_type_invariant(&*self);
        }
        if self.cur.idx < self.toks.len() {
            let next = self.cur.idx + 1;
            let span = if next < self.toks.len() {
                Span { start: self.toks[next].start, end: self.toks[next].end }
            } else {
                Span { start: self.source_len, end: self.source_len }
            };
            self.cur = Cursor { idx: next, span };
        }
    }

    /// Takes the current token, converted into the parser's alphabet, and
    /// consumes it.  At the end of the input an `YYEOF` token with an empty
    /// text is returned.
    pub fn yylex(&mut self) -> (r: crate::token::Token)
        ensures
            final(self).src() == old(self).src(),
            final(self).stream() == old(self).stream(),
            0 <= old(self).cursor() <= old(self).stream().len(),
            0 <= final(self).cursor() <= final(self).stream().len(),
            if old(self).cursor() < old(self).stream().len() {
                let tv = old(self).stream()[old(self).cursor()];
                &&& r.token_type == kind_code(tv.kind)
                &&& r.token_type != crate::token::YYEOF
                &&& r.text@ == old(self).src().subrange(tv.start, tv.end)
                &&& final(self).cursor() == old(self).cursor() + 1
                &&& r.loc.begin as int == if tv.start <= u32::MAX as int {
                    tv.start
                } else {
                    u32::MAX as int
                }
                &&& r.loc.end as int == if tv.end <= u32::MAX as int {
                    tv.end
                } else {
                    u32::MAX as int
                }
            } else {
                &&& r.token_type == crate::token::YYEOF
                &&& r.text@ == Seq::<char>::empty()
                &&& final(self).cursor() == old(self).cursor()
                &&& r.loc.begin as int == if old(self).src().len() <= u32::MAX as int {
                    old(self).src().len() as int
                } else {
                    u32::MAX as int
                }
                &&& r.loc.end == r.loc.begin
            },
    {
        proof {
            use_type_invariant(&*self);
        }
        if self.cur.idx < self.toks.len() {
            let kind = kind_code_exec(self.toks[self.cur.idx].token_type);
            let text = self.toks[self.cur.idx].token_text.clone();
            let span = Span { start: self.toks[self.cur.idx].start, end: self.toks[self.cur.idx].end };
            let loc = crate::loc::Loc::from_span(&span);
            let token = crate::token::Token { token_type: kind, loc, text };
            self.eat();
            token
        } else {
            let span = Span { start: self.source_len, end: self.source_len };
            crate::token::Token {
                token_type: crate::token::YYEOF,
                loc: crate::loc::Loc::from_span(&span),
                text: String::new(),
            }
        }
    }
}

/// The parser-alphabet code of a lexical class.
fn kind_code_exec(k: C1Token) -> (r: i32)
    ensures
        r == kind_code(k),
        r != crate::token::YYEOF,
{
    match k {
        C1Token::KwBoolean => crate::token::KW_BOOLEAN,
        C1Token::KwDo => crate::token::KW_DO,
        C1Token::KwElse => crate::token::KW_ELSE,
        C1Token::KwFloat => crate::token::KW_FLOAT,
        C1Token::KwFor => crate::token::KW_FOR,
        C1Token::KwIf => crate::token::KW_IF,
        C1Token::KwInt => crate::token::KW_INT,
        C1Token::KwPrintf => crate::token::KW_PRINTF,
        C1Token::KwReturn => crate::token::KW_RETURN,
        C1Token::KwVoid => crate::token::KW_VOID,
        C1Token::KwWhile => crate::token::KW_WHILE,
        C1Token::Equal => crate::token::EQ,
        C1Token::NotEqual => crate::token::NEQ,
        C1Token::Less => crate::token::LSS,
        C1Token::Greater => crate::token::GRT,
        C1Token::LessEqual => crate::token::LEQ,
        C1Token::GreaterEqual => crate::token::GEQ,
        C1Token::And => crate::token::AND,
        C1Token::Or => crate::token::OR,
        C1Token::ConstInt => crate::token::CONST_INT,
        C1Token::ConstFloat => crate::token::CONST_FLOAT,
        C1Token::ConstBoolean => crate::token::CONST_BOOLEAN,
        C1Token::ConstString => crate::token::CONST_STRING,
        C1Token::Identifier => crate::token::ID,
        C1Token::Plus => 43,
        C1Token::Minus => 45,
        C1Token::Asterisk => 42,
        C1Token::Slash => 47,
        C1Token::Assign => 61,
        C1Token::Comma => 44,
        C1Token::Semicolon => 59,
        C1Token::LeftParenthesis => 40,
        C1Token::RightParenthesis => 41,
        C1Token::LeftBrace => 123,
        C1Token::RightBrace => 125,
        _ => crate::token::YYERROR,
    }
}

} // verus!
