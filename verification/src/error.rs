//! The errors of reading: those of the tokenizer and those of the parser, under one type.

use crate::lex;
use crate::lex::error::ErrorView;
use crate::parse::error::Response;
use vstd::prelude::*;
use vstd::std_specs::convert::FromSpecImpl;

verus! {

/// Why a source could not be read. The cause is kept whole.
#[derive(PartialEq, Clone, Debug)]
pub enum Error {
    /// The tokenizer failed.
    LexError(lex::error::Error),
    /// The parser failed.
    ParseError(Response),
}

/// The view of a read `Error`.
pub enum ReadErrorView {
    LexError(ErrorView),
    ParseError(Response),
}

impl View for Error {
    type V = ReadErrorView;

    open spec fn view(&self) -> ReadErrorView {
        match *self {
            Error::LexError(e) => ReadErrorView::LexError(e@),
            Error::ParseError(e) => ReadErrorView::ParseError(e),
        }
    }
}

impl Error {
    /// A short name for the phase that failed.
    pub fn description(&self) -> (text: &'static str)
        ensures
            text@ == match self@ {
                ReadErrorView::LexError(..) => "an error occured during lexing"@,
                ReadErrorView::ParseError(..) => "an error occured during parsing"@,
            },
    {
        match self {
            Error::LexError(..) => "an error occured during lexing",
            Error::ParseError(..) => "an error occured during parsing",
        }
    }
}

impl From<lex::error::Error> for Error {
    fn from(err: lex::error::Error) -> (error: Error) {
        Error::LexError(err)
    }
}

impl FromSpecImpl<lex::error::Error> for Error {
    open spec fn obeys_from_spec() -> bool {
        true
    }

    open spec fn from_spec(err: lex::error::Error) -> Error {
        Error::LexError(err)
    }
}

impl From<Response> for Error {
    fn from(err: Response) -> (error: Error) {
        Error::ParseError(err)
    }
}

impl FromSpecImpl<Response> for Error {
    open spec fn obeys_from_spec() -> bool {
        true
    }

    open spec fn from_spec(err: Response) -> Error {
        Error::ParseError(err)
    }
}

} // verus!
