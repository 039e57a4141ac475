use crate::loc::Loc;
use vstd::prelude::*;
use vstd::string::StringExecFns;

verus! {

// Token kind codes shared between the lexer and the parser.  Kinds below 256
// are single-character operators carrying their ASCII code; the named kinds
// follow the conventional parser alphabet.
pub const YYEOF: i32 = 0;

pub const YYERROR: i32 = 256;

pub const KW_BOOLEAN: i32 = 258;

pub const KW_DO: i32 = 259;

pub const KW_ELSE: i32 = 260;

pub const KW_FLOAT: i32 = 261;

pub const KW_FOR: i32 = 262;

pub const KW_IF: i32 = 263;

pub const KW_INT: i32 = 264;

pub const KW_PRINTF: i32 = 265;

pub const KW_RETURN: i32 = 266;

pub const KW_VOID: i32 = 267;

pub const KW_WHILE: i32 = 268;

pub const EQ: i32 = 269;

pub const NEQ: i32 = 270;

pub const LSS: i32 = 271;

pub const GRT: i32 = 272;

pub const LEQ: i32 = 273;

pub const GEQ: i32 = 274;

pub const AND: i32 = 275;

pub const OR: i32 = 276;

pub const CONST_INT: i32 = 277;

pub const CONST_FLOAT: i32 = 278;

pub const CONST_BOOLEAN: i32 = 279;

pub const CONST_STRING: i32 = 280;

pub const ID: i32 = 281;

/// A token emitted by the lexer and consumed by the parser.
#[derive(Debug)]
pub struct Token {
    /// Kind of the token, in the parser's alphabet.
    pub token_type: i32,

    /// Location of the token: the range in the source it refers to.
    pub loc: Loc,

    /// Text of the token.
    pub text: String,
}

impl Clone for Token {
    fn clone(&self) -> (r: Self)
        ensures
            r.token_type == self.token_type,
            r.loc == self.loc,
            r.text@ == self.text@,
    {
        Token { token_type: self.token_type, loc: self.loc, text: self.text.clone() }
    }
}

/// The display name of a token kind: named kinds print their name,
/// single-character operators print their character, and everything else is
/// a question mark.
pub open spec fn spec_token_name(token_type: i32) -> Seq<char> {
    if token_type == YYEOF {
        "YYEOF"@
    } else if token_type == YYERROR {
        "YYERROR"@
    } else if token_type == KW_BOOLEAN {
        "KW_BOOLEAN"@
    } else if token_type == KW_DO {
        "KW_DO"@
    } else if token_type == KW_ELSE {
        "KW_ELSE"@
    } else if token_type == KW_FLOAT {
        "KW_FLOAT"@
    } else if token_type == KW_FOR {
        "KW_FOR"@
    } else if token_type == KW_IF {
        "KW_IF"@
    } else if token_type == KW_INT {
        "KW_INT"@
    } else if token_type == KW_PRINTF {
        "KW_PRINTF"@
    } else if token_type == KW_RETURN {
        "KW_RETURN"@
    } else if token_type == KW_VOID {
        "KW_VOID"@
    } else if token_type == KW_WHILE {
        "KW_WHILE"@
    } else if token_type == EQ {
        "EQ"@
    } else if token_type == NEQ {
        "NEQ"@
    } else if token_type == LSS {
        "LSS"@
    } else if token_type == GRT {
        "GRT"@
    } else if token_type == LEQ {
        "LEQ"@
    } else if token_type == GEQ {
        "GEQ"@
    } else if token_type == AND {
        "AND"@
    } else if token_type == OR {
        "OR"@
    } else if token_type == CONST_INT {
        "CONST_INT"@
    } else if token_type == CONST_FLOAT {
        "CONST_FLOAT"@
    } else if token_type == CONST_BOOLEAN {
        "CONST_BOOLEAN"@
    } else if token_type == CONST_STRING {
        "CONST_STRING"@
    } else if token_type == ID {
        "ID"@
    } else if token_type == 43 {
        "+"@
    } else if token_type == 45 {
        "-"@
    } else if token_type == 42 {
        "*"@
    } else if token_type == 47 {
        "/"@
    } else if token_type == 61 {
        "="@
    } else if token_type == 44 {
        ","@
    } else if token_type == 59 {
        ";"@
    } else if token_type == 40 {
        "("@
    } else if token_type == 41 {
        ")"@
    } else if token_type == 123 {
        "{"@
    } else if token_type == 125 {
        "}"@
    } else {
        "?"@
    }
}

impl Token {
    /// The display name of a token kind.
    pub fn token_name(token_type: i32) -> (r: String)
        ensures
            r@ == spec_token_name(token_type),
    {
        let s: &str = if token_type == YYEOF {
            "YYEOF"
        } else if token_type == YYERROR {
            "YYERROR"
        } else if token_type == KW_BOOLEAN {
            "KW_BOOLEAN"
        } else if token_type == KW_DO {
            "KW_DO"
        } else if token_type == KW_ELSE {
            "KW_ELSE"
        } else if token_type == KW_FLOAT {
            "KW_FLOAT"
        } else if token_type == KW_FOR {
            "KW_FOR"
        } else if token_type == KW_IF {
            "KW_IF"
        } else if token_type == KW_INT {
            "KW_INT"
        } else if token_type == KW_PRINTF {
            "KW_PRINTF"
        } else if token_type == KW_RETURN {
            "KW_RETURN"
        } else if token_type == KW_VOID {
            "KW_VOID"
        } else if token_type == KW_WHILE {
            "KW_WHILE"
        } else if token_type == EQ {
            "EQ"
        } else if token_type == NEQ {
            "NEQ"
        } else if token_type == LSS {
            "LSS"
        } else if token_type == GRT {
            "GRT"
        } else if token_type == LEQ {
            "LEQ"
        } else if token_type == GEQ {
            "GEQ"
        } else if token_type == AND {
            "AND"
        } else if token_type == OR {
            "OR"
        } else if token_type == CONST_INT {
            "CONST_INT"
        } else if token_type == CONST_FLOAT {
            "CONST_FLOAT"
        } else if token_type == CONST_BOOLEAN {
            "CONST_BOOLEAN"
        } else if token_type == CONST_STRING {
            "CONST_STRING"
        } else if token_type == ID {
            "ID"
        } else if token_type == 43 {
            "+"
        } else if token_type == 45 {
            "-"
        } else if token_type == 42 {
            "*"
        } else if token_type == 47 {
            "/"
        } else if token_type == 61 {
            "="
        } else if token_type == 44 {
            ","
        } else if token_type == 59 {
            ";"
        } else if token_type == 40 {
            "("
        } else if token_type == 41 {
            ")"
        } else if token_type == 123 {
            "{"
        } else if token_type == 125 {
            "}"
        } else {
            "?"
        };
        String::from_str(s)
    }
}

} // verus!
