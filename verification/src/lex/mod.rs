//! Lexical analysis: source text to tokens.

use crate::lex::scan::{lemma_next_step_advances, lex_from, lex_spec};
use crate::lex::token::{token_views, Token, TokenView};
use crate::lex::token_iterator::TokenIterator;
use vstd::prelude::*;

pub mod alphabet;
pub mod error;
pub mod number;
pub mod place;
pub mod scan;
pub mod text;
pub mod token;
pub mod token_iterator;

pub use crate::lex::error::{Error, ErrorView};

verus! {

/// The view of a lex result.
pub open spec fn lex_view(result: Result<Vec<Token>, Error>) -> Result<Seq<TokenView>, ErrorView> {
    match result {
        Ok(tokens) => Ok(token_views(tokens@)),
        Err(error) => Err(error@),
    }
}

/// All tokens of `s` in order, or the first lexical error in it; what came before the error
/// is dropped.
pub fn lex(s: &str) -> (result: Result<Vec<Token>, Error>)
    requires
        s@.len() < usize::MAX,
    ensures
        lex_view(result) == lex_spec(s@),
{
    let mut iter = TokenIterator::new(s);
    let mut tokens: Vec<Token> = Vec::new();
    assert(token_views(tokens@) =~= Seq::<TokenView>::empty());
    loop
        invariant
            iter.wf(),
            iter.source() == s@,
            lex_spec(s@) == lex_from(s@, iter.offset(), iter.position(), token_views(tokens@)),
        decreases s@.len() - iter.offset(),
    {
        proof {
            iter.lemma_offset_bounds();
            lemma_next_step_advances(s@, iter.offset(), iter.position());
        }
        let ghost seen = token_views(tokens@);
        match iter.next() {
            None => {
                return Ok(tokens);
            },
            Some(Err(error)) => {
                return Err(error);
            },
            Some(Ok(token)) => {
                tokens.push(token);
                assert(token_views(tokens@) =~= seen.push(token@));
            },
        }
    }
}

/// The tokenizer as a type, for callers that name it.
pub struct Lexer;

impl Lexer {
    /// All tokens of `s` in order, or the first lexical error in it.
    pub fn lex(s: &str) -> (result: Result<Vec<Token>, Error>)
        requires
            s@.len() < usize::MAX,
        ensures
            lex_view(result) == lex_spec(s@),
    {
        lex(s)
    }
}

} // verus!
