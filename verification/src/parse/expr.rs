//! Expressions, the reader's output, and their mathematical views.

use crate::lex::token::Decimal;
use vstd::prelude::*;

verus! {

/// A node of an expression tree. The two flags are kept for whoever evaluates the tree; the
/// reader leaves both unset.
#[derive(PartialEq, Debug)]
pub struct Expr {
    pub kind: ExprKind,
    pub marked: bool,
    pub mutable: bool,
}

/// What an expression is.
#[derive(PartialEq, Debug)]
pub enum ExprKind {
    Symbol(String),
    Number(Number),
    Str(String),
    Bool(bool),
    Pair(Pair),
    Nil,
}

/// A number and whether it is exact.
#[derive(PartialEq, Clone, Debug)]
pub struct Number {
    pub exact: bool,
    pub kind: NumberKind,
}

/// The two representations of a number.
#[derive(PartialEq, Clone, Debug)]
pub enum NumberKind {
    Int(i64),
    Real(Decimal),
}

/// A cell of two expressions, each owned by the cell alone.
#[derive(PartialEq, Debug)]
pub struct Pair {
    pub car: Box<Expr>,
    pub cdr: Box<Expr>,
}

/// The view of an `Expr`.
pub struct Tree {
    pub kind: TreeKind,
    pub marked: bool,
    pub mutable: bool,
}

/// The view of an `ExprKind`.
pub enum TreeKind {
    Symbol(Seq<char>),
    Int { value: i64, exact: bool },
    Real { text: Seq<char>, exact: bool },
    Str(Seq<char>),
    Bool(bool),
    Pair(Box<Tree>, Box<Tree>),
    Nil,
}

impl Tree {
    /// A node with both flags unset.
    pub open spec fn fresh(kind: TreeKind) -> Tree {
        Tree { kind, marked: false, mutable: false }
    }

    /// The empty list.
    pub open spec fn nil() -> Tree {
        Tree::fresh(TreeKind::Nil)
    }

    /// A fresh cell of `car` and `cdr`.
    pub open spec fn cons(car: Tree, cdr: Tree) -> Tree {
        Tree::fresh(TreeKind::Pair(Box::new(car), Box::new(cdr)))
    }

    /// The chain of fresh cells that holds `items` in order and ends in `tail`: a cell of the
    /// first item and the chain of the others.
    pub open spec fn chain(items: Seq<Tree>, tail: Tree) -> Tree
        decreases items.len(),
    {
        if items.len() == 0 {
            tail
        } else {
            Tree::cons(items[0], Tree::chain(items.drop_first(), tail))
        }
    }

    /// A chain can be built from its end: the last item goes into a cell with the tail.
    pub proof fn lemma_chain_from_the_end(items: Seq<Tree>, tail: Tree)
        requires
            items.len() > 0,
        ensures
            Tree::chain(items, tail) == Tree::chain(
                items.drop_last(),
                Tree::cons(items.last(), tail),
            ),
        decreases items.len(),
    {
        if items.len() == 1 {
            assert(items.drop_first().len() == 0);
            assert(items.drop_last().len() == 0);
        } else {
            Tree::lemma_chain_from_the_end(items.drop_first(), tail);
            assert(items.drop_first().drop_last() =~= items.drop_last().drop_first());
            assert(items.drop_last()[0] == items[0]);
            assert(items.drop_first().last() == items.last());
        }
    }

    /// The proper list of `items`: a chain that ends in the empty list.
    pub open spec fn list(items: Seq<Tree>) -> Tree {
        Tree::chain(items, Tree::nil())
    }
}

/// The tree that `expr` stands for.
pub open spec fn tree_of(expr: Expr) -> Tree
    decreases expr,
{
    Tree {
        kind: match expr.kind {
            ExprKind::Symbol(s) => TreeKind::Symbol(s@),
            ExprKind::Number(n) => match n.kind {
                NumberKind::Int(i) => TreeKind::Int { value: i, exact: n.exact },
                NumberKind::Real(d) => TreeKind::Real { text: d@, exact: n.exact },
            },
            ExprKind::Str(s) => TreeKind::Str(s@),
            ExprKind::Bool(b) => TreeKind::Bool(b),
            ExprKind::Pair(p) => TreeKind::Pair(
                Box::new(tree_of(*p.car)),
                Box::new(tree_of(*p.cdr)),
            ),
            ExprKind::Nil => TreeKind::Nil,
        },
        marked: expr.marked,
        mutable: expr.mutable,
    }
}

impl View for Expr {
    type V = Tree;

    open spec fn view(&self) -> Tree {
        tree_of(*self)
    }
}

/// The views of a sequence of expressions, in order.
pub open spec fn trees(items: Seq<Expr>) -> Seq<Tree> {
    items.map_values(|e: Expr| e@)
}

impl Expr {
    /// An expression of the given kind with both flags unset.
    pub fn new(kind: ExprKind) -> (expr: Expr)
        ensures
            expr.kind == kind,
            !expr.marked,
            !expr.mutable,
    {
        Expr { kind, marked: false, mutable: false }
    }

    /// The empty list.
    pub fn nil() -> (expr: Expr)
        ensures
            expr@ == Tree::nil(),
    {
        Expr::new(ExprKind::Nil)
    }

    /// A fresh cell of `car` and `cdr`.
    pub fn cons(car: Expr, cdr: Expr) -> (expr: Expr)
        ensures
            expr@ == Tree::cons(car@, cdr@),
    {
        Expr::new(ExprKind::Pair(Pair { car: Box::new(car), cdr: Box::new(cdr) }))
    }

    /// The proper list of `items`.
    pub fn list(items: Vec<Expr>) -> (expr: Expr)
        ensures
            expr@ == Tree::list(trees(items@)),
    {
        let ghost all = trees(items@);
        let mut items = items;
        let mut tail = Expr::nil();
        while items.len() > 0
            invariant
                Tree::list(all) == Tree::chain(trees(items@), tail@),
            decreases items.len(),
        {
            let ghost before = trees(items@);
            let last = items.pop().unwrap();
            proof {
                assert(trees(items@) =~= before.drop_last());
                assert(last@ == before.last());
                Tree::lemma_chain_from_the_end(before, tail@);
            }
            tail = Expr::cons(last, tail);
        }
        tail
    }
}

} // verus!
