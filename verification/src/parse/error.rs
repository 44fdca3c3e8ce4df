//! What can go wrong while building an expression from tokens.

use vstd::prelude::*;

verus! {

/// A parse error.
#[derive(PartialEq, Eq, Structural, Clone, Copy, Debug)]
pub enum Response {
    /// There are no tokens at all.
    EmptyProgram,
    /// An expression begins with a token that can begin none.
    InvalidProgram,
    /// The tokens end inside a list.
    EndOfProgram,
    /// A closing delimiter follows the program and closes nothing.
    UnmatchedParens,
    /// More than one expression stands at the top level.
    NoEnclosingParens,
}

impl Response {
    /// A short name for the kind of error.
    pub fn description(&self) -> (text: &'static str)
        ensures
            text@ == match *self {
                Response::EmptyProgram => "empty program"@,
                Response::InvalidProgram => "invalid program"@,
                Response::EndOfProgram => "end of program"@,
                Response::UnmatchedParens => "unmatched parens"@,
                Response::NoEnclosingParens => "no enclosing parens"@,
            },
    {
        match self {
            Response::EmptyProgram => "empty program",
            Response::InvalidProgram => "invalid program",
            Response::EndOfProgram => "end of program",
            Response::UnmatchedParens => "unmatched parens",
            Response::NoEnclosingParens => "no enclosing parens",
        }
    }
}

} // verus!
