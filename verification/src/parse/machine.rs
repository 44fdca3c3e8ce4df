//! The parser as a machine that reads the tokens once from left to right, and the proof that
//! it yields what the grammar says.
//!
//! The machine keeps, outermost first, the elements read so far of each list that is not
//! closed yet.

use crate::lex::token::TokenView;
use crate::parse::error::Response;
use crate::parse::expr::Tree;
use crate::parse::grammar::{
    atom_of, expr_at, finish, lemma_parsed_bounds, parse_spec, rest_at, Parsed,
};
use vstd::prelude::*;

verus! {

/// The lists `open` after `tree` has been added to the innermost of them.
pub open spec fn with_element(open: Seq<Seq<Tree>>, tree: Tree) -> Seq<Seq<Tree>>
    recommends
        open.len() > 0,
{
    open.drop_last().push(open.last().push(tree))
}

/// What the machine yields once the expression `tree` is complete before token `next`, inside
/// the lists `open`.
pub open spec fn deliver(tokens: Seq<TokenView>, next: int, open: Seq<Seq<Tree>>, tree: Tree)
    -> Result<Tree, Response> {
    if open.len() == 0 {
        finish(tokens, next, tree)
    } else {
        parse_from(tokens, next, with_element(open, tree))
    }
}

/// What the machine yields from token `i` on, inside the lists `open`, or at the start of the
/// program where `open` is empty.
pub open spec fn parse_from(tokens: Seq<TokenView>, i: int, open: Seq<Seq<Tree>>) -> Result<
    Tree,
    Response,
>
    decreases tokens.len() - i,
{
    if i < 0 || i >= tokens.len() {
        Err(Response::EndOfProgram)
    } else if tokens[i].kind is OpenDelim {
        parse_from(tokens, i + 1, open.push(Seq::empty()))
    } else if tokens[i].kind is CloseDelim && open.len() == 0 {
        Err(Response::InvalidProgram)
    } else {
        let tree = if tokens[i].kind is CloseDelim {
            Tree::list(open.last())
        } else {
            atom_of(tokens[i].kind)
        };
        let outer = if tokens[i].kind is CloseDelim {
            open.drop_last()
        } else {
            open
        };
        if outer.len() == 0 {
            finish(tokens, i + 1, tree)
        } else {
            parse_from(tokens, i + 1, with_element(outer, tree))
        }
    }
}

/// Inside a list whose elements so far are `inner`, the machine yields what the grammar says
/// of the rest of the list: those elements and the others, delivered to the lists around.
pub proof fn lemma_machine_reads_list(
    tokens: Seq<TokenView>,
    i: int,
    outer: Seq<Seq<Tree>>,
    inner: Seq<Tree>,
)
    ensures
        parse_from(tokens, i, outer.push(inner)) == match rest_at(tokens, i) {
            Parsed::Fail { error } => Err::<Tree, Response>(error),
            Parsed::Done { tree, next } => deliver(tokens, next, outer, Tree::chain(inner, tree)),
        },
    decreases tokens.len() - i,
{
    let open = outer.push(inner);
    assert(open.drop_last() =~= outer);
    assert(open.last() == inner);
    if i < 0 || i >= tokens.len() {
    } else if tokens[i].kind is CloseDelim {
    } else {
        lemma_parsed_bounds(tokens, i);
        if tokens[i].kind is OpenDelim {
            lemma_machine_reads_list(tokens, i + 1, open, Seq::empty());
        }
        match expr_at(tokens, i) {
            Parsed::Fail { error } => {},
            Parsed::Done { tree: first, next } => {
                assert(Tree::chain(Seq::empty(), first) == first);
                assert(with_element(open, first) =~= outer.push(inner.push(first)));
                lemma_machine_reads_list(tokens, next, outer, inner.push(first));
                match rest_at(tokens, next) {
                    Parsed::Fail { error } => {},
                    Parsed::Done { tree: others, next: end } => {
                        Tree::lemma_chain_from_the_end(inner.push(first), others);
                        assert(inner.push(first).drop_last() =~= inner);
                    },
                }
            },
        }
    }
}

/// From the start of a program the machine yields what the grammar says.
pub proof fn lemma_machine_reads_program(tokens: Seq<TokenView>)
    requires
        tokens.len() > 0,
    ensures
        parse_from(tokens, 0, Seq::empty()) == parse_spec(tokens),
{
    let open = Seq::<Seq<Tree>>::empty();
    if tokens[0].kind is OpenDelim {
        lemma_machine_reads_list(tokens, 1, open, Seq::empty());
        match rest_at(tokens, 1) {
            Parsed::Fail { error } => {},
            Parsed::Done { tree, next } => {
                assert(Tree::chain(Seq::empty(), tree) == tree);
            },
        }
    }
}

} // verus!
