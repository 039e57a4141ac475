use crate::symbol_table::SymbolType;
use crate::syntax_tree::SyntaxTree;
use crate::token::Token;
use vstd::prelude::*;

verus! {

/// A semantic value passed between grammar reductions.
///
/// The parser's reduction stack is heterogeneous, so every kind of value a
/// reduction can produce lives in this one enum.
#[derive(Debug)]
pub enum Value {
    /// An absent value.
    Nothing,
    /// The default for unused stack positions.
    Uninitialized,
    /// Marks a cell whose content was consumed by a move.
    Stolen,
    /// A token handed over by the lexer.
    Token(Token),
    /// A syntax tree fragment passed between reductions.
    Tree(SyntaxTree),
    /// A symbol type passed between reductions.
    SymbolType(SymbolType),
    /// A symbol name passed between reductions.
    Name(String),
}

impl Default for Value {
    /// The default stack cell is a consumed one.
    fn default() -> (r: Self)
        ensures
            r is Stolen,
    {
        Value::Stolen
    }
}

impl Value {
    /// Wraps a token handed over by the lexer.
    pub fn from_token(value: Token) -> (r: Self)
        ensures
            r == Value::Token(value),
    {
        Value::Token(value)
    }

    /// A fresh, unused stack cell.
    pub fn new_uninitialized() -> (r: Self)
        ensures
            r is Uninitialized,
    {
        Value::Uninitialized
    }

    /// Whether the cell is still unused.
    pub fn is_uninitialized(&self) -> (r: bool)
        ensures
            r == (self is Uninitialized),
    {
        matches!(self, Value::Uninitialized)
    }

    /// Returns the wrapped syntax tree.  Calling this on any other variant
    /// is a programming error in the grammar, so those are ruled out.
    pub fn unwrap_tree(self) -> (r: SyntaxTree)
        requires
            self is Tree,
        ensures
            self == Value::Tree(r),
    {
        match self {
            Value::Tree(tree) => tree,
            _ => unreached(),
        }
    }

    /// Returns the wrapped token; other variants are ruled out.
    pub fn unwrap_token(self) -> (r: Token)
        requires
            self is Token,
        ensures
            self == Value::Token(r),
    {
        match self {
            Value::Token(token) => token,
            _ => unreached(),
        }
    }

    /// Returns the wrapped symbol name: the text of a token, or the name
    /// itself.  Other variants are ruled out.
    pub fn unwrap_name(self) -> (r: String)
        requires
            self is Token || self is Name,
        ensures
            match self {
                Value::Token(t) => r == t.text,
                Value::Name(n) => r == n,
                _ => false,
            },
    {
        match self {
            Value::Token(token) => token.text,
            Value::Name(name) => name,
            _ => unreached(),
        }
    }

    /// Returns the wrapped symbol type; other variants are ruled out.
    pub fn unwrap_type(self) -> (r: SymbolType)
        requires
            self is SymbolType,
        ensures
            self == Value::SymbolType(r),
    {
        match self {
            Value::SymbolType(t) => t,
            _ => unreached(),
        }
    }
}

} // verus!
