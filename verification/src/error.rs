use vstd::prelude::*;
use vstd::string::StringExecFns;

verus! {

/// The result of an analysis: the finished syntax tree, or the ordered
/// list of collected diagnostics.
pub type AnalysisResult = Result<crate::syntax_tree::SyntaxTree, Vec<Error>>;

/// A diagnostic collected while analysing a C1 program.  The three kinds are
/// disjoint: `Lexical` for unrecognized input, `Syntactical` for grammar
/// violations, `Semantic` for violations of the typing and scoping rules.
#[derive(Debug)]
pub enum Error {
    Lexical(String),
    Syntactical(String),
    Semantic(String),
}

impl Clone for Error {
    fn clone(&self) -> (r: Self)
        ensures
            r == *self,
    {
        match self {
            Error::Lexical(m) => Error::Lexical(m.clone()),
            Error::Syntactical(m) => Error::Syntactical(m.clone()),
            Error::Semantic(m) => Error::Semantic(m.clone()),
        }
    }
}

impl Error {
    /// The full text of the diagnostic: its kind followed by its message.
    pub fn message(&self) -> (r: String)
        ensures
            r@ == match self {
                Error::Lexical(m) => "Lexical Error: "@ + m@,
                Error::Syntactical(m) => "Syntactical Error: "@ + m@,
                Error::Semantic(m) => "Semantic Error: "@ + m@,
            },
    {
        match self {
            Error::Lexical(m) => {
                let mut r = String::from_str("Lexical Error: ");
                r.append(m.as_str());
                r
            },
            Error::Syntactical(m) => {
                let mut r = String::from_str("Syntactical Error: ");
                r.append(m.as_str());
                r
            },
            Error::Semantic(m) => {
                let mut r = String::from_str("Semantic Error: ");
                r.append(m.as_str());
                r
            },
        }
    }
}

} // verus!
