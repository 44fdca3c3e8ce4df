//! What can go wrong while reading tokens.

use crate::lex::token::{Location, Pos};
use vstd::prelude::*;

verus! {

/// A lexical error, with the offending text and where it stands.
#[derive(PartialEq, Clone, Debug)]
pub enum Error {
    /// A character that no token may hold at that place.
    InvalidCharacter(char, Location),
    /// Digits and dots that form neither an integer nor a real number.
    MalformedNumber(String, Location),
    /// A `#` literal other than the four boolean spellings.
    InvalidLiteral(String, Location),
    /// A backslash in a string followed by a character that names no escape.
    InvalidEscapeSequence(String, Location),
}

/// The view of an `Error`.
pub enum ErrorView {
    InvalidCharacter(char, Pos),
    MalformedNumber(Seq<char>, Pos),
    InvalidLiteral(Seq<char>, Pos),
    InvalidEscapeSequence(Seq<char>, Pos),
}

impl View for Error {
    type V = ErrorView;

    open spec fn view(&self) -> ErrorView {
        match *self {
            Error::InvalidCharacter(c, at) => ErrorView::InvalidCharacter(c, at@),
            Error::MalformedNumber(s, at) => ErrorView::MalformedNumber(s@, at@),
            Error::InvalidLiteral(s, at) => ErrorView::InvalidLiteral(s@, at@),
            Error::InvalidEscapeSequence(s, at) => ErrorView::InvalidEscapeSequence(s@, at@),
        }
    }
}

impl Error {
    /// A short name for the kind of error.
    pub fn description(&self) -> (text: &'static str)
        ensures
            text@ == match self@ {
                ErrorView::InvalidCharacter(..) => "invalid character"@,
                ErrorView::MalformedNumber(..) => "malformed number"@,
                ErrorView::InvalidLiteral(..) => "invalid literal"@,
                ErrorView::InvalidEscapeSequence(..) => "invalid escape sequence"@,
            },
    {
        match self {
            Error::InvalidCharacter(..) => "invalid character",
            Error::MalformedNumber(..) => "malformed number",
            Error::InvalidLiteral(..) => "invalid literal",
            Error::InvalidEscapeSequence(..) => "invalid escape sequence",
        }
    }

    /// Where the error was found.
    pub fn location(&self) -> (at: Location)
        ensures
            at@ == match self@ {
                ErrorView::InvalidCharacter(_, p) => p,
                ErrorView::MalformedNumber(_, p) => p,
                ErrorView::InvalidLiteral(_, p) => p,
                ErrorView::InvalidEscapeSequence(_, p) => p,
            },
    {
        match self {
            Error::InvalidCharacter(_, at) => *at,
            Error::MalformedNumber(_, at) => *at,
            Error::InvalidLiteral(_, at) => *at,
            Error::InvalidEscapeSequence(_, at) => *at,
        }
    }
}

} // verus!
