//! A reader for a small Lisp: source text to tokens to an expression tree.

use crate::error::{Error, ReadErrorView};
use crate::lex::alphabet::is_non_ascii;
use crate::lex::error::ErrorView;
use crate::lex::lex;
use crate::lex::place::{lemma_non_ascii_is_located, place_of, position};
use crate::lex::scan::lex_spec;
use crate::lex::token::{token_views, Pos, Token};
use crate::parse::error::Response;
use crate::parse::expr::{Expr, Tree};
use crate::parse::grammar::parse_spec;
use crate::parse::{parse, parse_view};
use vstd::prelude::*;

pub mod error;
pub mod lex;
pub mod parse;
pub mod stack;

verus! {

/// The view of a read result.
pub open spec fn read_view(result: Result<Expr, Error>) -> Result<Tree, ReadErrorView> {
    match result {
        Ok(expr) => Ok(expr@),
        Err(error) => Err(error@),
    }
}

/// The expression that the source `s` denotes: its tokens, parsed; or the first error, a
/// lexical one before any of parsing.
pub open spec fn read_spec(s: Seq<char>) -> Result<Tree, ReadErrorView> {
    match lex_spec(s) {
        Err(error) => Err(ReadErrorView::LexError(error)),
        Ok(tokens) => match parse_spec(tokens) {
            Err(error) => Err(ReadErrorView::ParseError(error)),
            Ok(tree) => Ok(tree),
        },
    }
}

/// Reads one program. Nothing is returned but the whole expression or the first error.
pub fn read(program: &str) -> (result: Result<Expr, Error>)
    requires
        program@.len() < usize::MAX,
    ensures
        read_view(result) == read_spec(program@),
{
    let tokens = match lex(program) {
        Ok(tokens) => tokens,
        Err(error) => {
            return Err(Error::from(error));
        },
    };
    match parse(&tokens) {
        Ok(expr) => Ok(expr),
        Err(error) => Err(Error::from(error)),
    }
}

/// Reading is a function of the source: whatever two runs over the same characters return,
/// a tree or an error, has the same view.
pub proof fn lemma_read_is_a_function(
    first_source: Seq<char>,
    second_source: Seq<char>,
    first: Result<Expr, Error>,
    second: Result<Expr, Error>,
)
    requires
        first_source == second_source,
        read_view(first) == read_spec(first_source),
        read_view(second) == read_spec(second_source),
    ensures
        read_view(first) == read_view(second),
{
}

/// Parsing is a function of the tokens: two runs over token sequences with the same views
/// return results with the same view.
pub proof fn lemma_parse_is_a_function(
    first_tokens: Seq<Token>,
    second_tokens: Seq<Token>,
    first: Result<Expr, Response>,
    second: Result<Expr, Response>,
)
    requires
        token_views(first_tokens) == token_views(second_tokens),
        parse_view(first) == parse_spec(token_views(first_tokens)),
        parse_view(second) == parse_spec(token_views(second_tokens)),
    ensures
        parse_view(first) == parse_view(second),
{
}

/// A character outside ASCII that the tokenizer comes to see, with no lexical error before it,
/// makes reading fail with `InvalidCharacter`, that character and its line and column.
pub proof fn lemma_read_locates_non_ascii(s: Seq<char>, k: int)
    requires
        0 <= k < s.len(),
        is_non_ascii(s[k]),
        place_of(s, 0, Pos::origin(), k) is Some,
    ensures
        read_spec(s) == Err::<Tree, ReadErrorView>(
            ReadErrorView::LexError(ErrorView::InvalidCharacter(s[k], position(s, k))),
        ),
{
    lemma_non_ascii_is_located(s, k);
}

} // verus!
