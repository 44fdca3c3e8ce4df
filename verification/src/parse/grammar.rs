//! What the parser yields, stated over sequences of token views.
//!
//! A program is one expression. An expression is an atom, or a list: an opening delimiter,
//! any number of expressions, and a closing delimiter of any shape.

use crate::lex::token::{TokenKindView, TokenView};
use crate::parse::error::Response;
use crate::parse::expr::{Tree, TreeKind};
use vstd::prelude::*;

verus! {

/// The expression that a token other than a delimiter stands for by itself. Every number is
/// marked exact.
pub open spec fn atom_of(kind: TokenKindView) -> Tree {
    Tree::fresh(
        match kind {
            TokenKindView::Symbol(s) => TreeKind::Symbol(s),
            TokenKindView::Integer(i) => TreeKind::Int { value: i, exact: true },
            TokenKindView::Float(f) => TreeKind::Real { text: f, exact: true },
            TokenKindView::Str(s) => TreeKind::Str(s),
            TokenKindView::Bool(b) => TreeKind::Bool(b),
            _ => TreeKind::Nil,
        },
    )
}

/// The outcome of parsing one expression, or the rest of one list.
pub enum Parsed {
    /// The tree, and the index of the first token behind it.
    Done { tree: Tree, next: int },
    /// The tokens do not form an expression.
    Fail { error: Response },
}

/// The expression that starts at token `i`.
pub open spec fn expr_at(tokens: Seq<TokenView>, i: int) -> Parsed
    decreases tokens.len() - i, 0nat,
{
    if i < 0 || i >= tokens.len() {
        Parsed::Fail { error: Response::EndOfProgram }
    } else if tokens[i].kind is OpenDelim {
        rest_at(tokens, i + 1)
    } else if tokens[i].kind is CloseDelim {
        Parsed::Fail { error: Response::InvalidProgram }
    } else {
        Parsed::Done { tree: atom_of(tokens[i].kind), next: i + 1 }
    }
}

/// The rest of a list from token `i` on: the proper list of the expressions up to the closing
/// delimiter, and the index behind that delimiter. The test on `next` serves termination
/// alone: by `lemma_parsed_bounds` it always holds.
pub open spec fn rest_at(tokens: Seq<TokenView>, i: int) -> Parsed
    decreases tokens.len() - i, 1nat,
{
    if i < 0 || i >= tokens.len() {
        Parsed::Fail { error: Response::EndOfProgram }
    } else if tokens[i].kind is CloseDelim {
        Parsed::Done { tree: Tree::nil(), next: i + 1 }
    } else {
        match expr_at(tokens, i) {
            Parsed::Fail { error } => Parsed::Fail { error },
            Parsed::Done { tree: first, next } => if i < next <= tokens.len() {
                match rest_at(tokens, next) {
                    Parsed::Fail { error } => Parsed::Fail { error },
                    Parsed::Done { tree: others, next: end } => Parsed::Done {
                        tree: Tree::cons(first, others),
                        next: end,
                    },
                }
            } else {
                Parsed::Fail { error: Response::EndOfProgram }
            },
        }
    }
}

/// The result once the program's one expression `tree` is complete and ends before token
/// `next`: the expression where no token is left; else an error, which tells a closing
/// delimiter that closes nothing from the start of a second expression.
pub open spec fn finish(tokens: Seq<TokenView>, next: int, tree: Tree) -> Result<Tree, Response> {
    if next >= tokens.len() {
        Ok(tree)
    } else if tokens[next].kind is CloseDelim {
        Err(Response::UnmatchedParens)
    } else {
        Err(Response::NoEnclosingParens)
    }
}

/// The expression that `tokens` form, or the first error met on the way.
pub open spec fn parse_spec(tokens: Seq<TokenView>) -> Result<Tree, Response> {
    if tokens.len() == 0 {
        Err(Response::EmptyProgram)
    } else {
        match expr_at(tokens, 0) {
            Parsed::Fail { error } => Err(error),
            Parsed::Done { tree, next } => finish(tokens, next, tree),
        }
    }
}

/// An expression, and the rest of a list, end behind their start and within the tokens.
pub proof fn lemma_parsed_bounds(tokens: Seq<TokenView>, i: int)
    ensures
        expr_at(tokens, i) matches Parsed::Done { tree, next } ==> 0 <= i < next <= tokens.len(),
        rest_at(tokens, i) matches Parsed::Done { tree, next } ==> 0 <= i < next <= tokens.len(),
    decreases tokens.len() - i,
{
    if 0 <= i < tokens.len() {
        lemma_parsed_bounds(tokens, i + 1);
        if !(tokens[i].kind is CloseDelim) {
            if let Parsed::Done { tree, next } = expr_at(tokens, i) {
                lemma_parsed_bounds(tokens, next);
            }
        }
    }
}

} // verus!
