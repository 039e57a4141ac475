//! Front end of a compiler for C1, a small statically typed, C-like language.
//!
//! The crate lexes C1 source text, parses it with a hand-written
//! recursive-descent parser, and performs scope and type analysis during the
//! parse.  The result is either a decorated syntax tree or an ordered list of
//! lexical, syntactical and semantic diagnostics.

pub mod error;
pub mod lexer;
pub mod loc;
pub mod parser;
pub mod symbol_table;
pub mod syntax_c1;
pub mod syntax_tree;
pub mod text;
pub mod token;
pub mod value;

pub use error::AnalysisResult;
pub use error::Error;
pub use lexer::C1Lexer as Lexer;
pub use lexer::C1Token as Token;
pub use parser::Parser;
pub use syntax_c1::NodeValue;
pub use syntax_tree::SyntaxTree;
pub use syntax_tree::ID;
pub use loc::Loc;
pub use symbol_table::Symbol;
pub use symbol_table::SymbolClass;
pub use symbol_table::SymbolTable;
pub use symbol_table::SymbolType;
