//! Syntactic analysis: tokens to an expression tree.

use crate::lex::token::{token_views, Decimal, Token, TokenKind};
use crate::parse::expr::{trees, Expr, ExprKind, Number, NumberKind, Tree};
use crate::parse::grammar::{atom_of, finish, parse_spec};
use crate::parse::machine::{lemma_machine_reads_program, parse_from, with_element};
use crate::stack::Stack;
use vstd::prelude::*;

pub mod error;
pub mod expr;
pub mod grammar;
pub mod machine;

pub use crate::parse::error::Response;

verus! {

/// The view of a parse result.
pub open spec fn parse_view(result: Result<Expr, Response>) -> Result<Tree, Response> {
    match result {
        Ok(expr) => Ok(expr@),
        Err(error) => Err(error),
    }
}

/// The views of the lists that are open, outermost first.
pub open spec fn open_lists(frames: Seq<Vec<Expr>>) -> Seq<Seq<Tree>> {
    frames.map_values(|f: Vec<Expr>| trees(f@))
}

/// The expression for a token that is no delimiter.
pub fn parse_atom(token: &Token) -> (expr: Expr)
    requires
        !(token@.kind is OpenDelim),
        !(token@.kind is CloseDelim),
    ensures
        expr@ == atom_of(token@.kind),
{
    let kind = match &token.kind {
        TokenKind::Symbol(s) => ExprKind::Symbol(s.clone()),
        TokenKind::Integer(i) => ExprKind::Number(Number { exact: true, kind: NumberKind::Int(*i) }),
        TokenKind::Float(f) => ExprKind::Number(
            Number { exact: true, kind: NumberKind::Real(Decimal { text: f.text.clone() }) },
        ),
        TokenKind::Str(s) => ExprKind::Str(s.clone()),
        TokenKind::Bool(b) => ExprKind::Bool(*b),
        _ => ExprKind::Nil,
    };
    Expr::new(kind)
}

/// The result for a program whose one expression `expr` ends before token `next`.
fn parse_rest(tokens: &Vec<Token>, next: usize, expr: Expr) -> (result: Result<Expr, Response>)
    requires
        next <= tokens@.len(),
    ensures
        parse_view(result) == finish(token_views(tokens@), next as int, expr@),
{
    if next >= tokens.len() {
        Ok(expr)
    } else if tokens[next].kind.is_close_delim() {
        Err(Response::UnmatchedParens)
    } else {
        Err(Response::NoEnclosingParens)
    }
}

/// Builds the expression that `tokens` form. A program is a single expression; tokens after
/// it are an error.
pub fn parse(tokens: &Vec<Token>) -> (result: Result<Expr, Response>)
    ensures
        parse_view(result) == parse_spec(token_views(tokens@)),
{
    let ghost views = token_views(tokens@);
    if tokens.len() == 0 {
        return Err(Response::EmptyProgram);
    }
    let mut open: Stack<Vec<Expr>> = Stack::new();
    let mut i: usize = 0;
    proof {
        assert(open_lists(open@) =~= Seq::<Seq<Tree>>::empty());
        lemma_machine_reads_program(views);
    }
    while i < tokens.len()
        invariant
            i <= tokens@.len(),
            views == token_views(tokens@),
            parse_spec(views) == parse_from(views, i as int, open_lists(open@)),
        decreases tokens@.len() - i,
    {
        let token = &tokens[i];
        let ghost before = open_lists(open@);
        assert(views[i as int] == token@);
        if token.kind.is_open_delim() {
            let items: Vec<Expr> = Vec::new();
            assert(trees(items@) =~= Seq::<Tree>::empty());
            open.push(items);
            assert(open_lists(open@) =~= before.push(Seq::empty()));
        } else {
            let closing = token.kind.is_close_delim();
            if closing && open.len() == 0 {
                return Err(Response::InvalidProgram);
            }
            let expr = if closing {
                let items = open.pop().unwrap();
                assert(trees(items@) == before.last());
                assert(open_lists(open@) =~= before.drop_last());
                Expr::list(items)
            } else {
                parse_atom(token)
            };
            let ghost outer = open_lists(open@);
            match open.pop() {
                None => {
                    return parse_rest(tokens, i + 1, expr);
                },
                Some(mut items) => {
                    let ghost added = expr@;
                    items.push(expr);
                    open.push(items);
                    assert(trees(items@) =~= outer.last().push(added));
                    assert(open_lists(open@) =~= with_element(outer, added));
                },
            }
        }
        i += 1;
    }
    Err(Response::EndOfProgram)
}

/// The parser as a type, for callers that name it.
pub struct Parser;

impl Parser {
    /// Builds the expression that `tokens` form.
    pub fn parse(tokens: &Vec<Token>) -> (result: Result<Expr, Response>)
        ensures
            parse_view(result) == parse_spec(token_views(tokens@)),
    {
        parse(tokens)
    }
}

} // verus!
