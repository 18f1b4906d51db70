//! Expression trees, their mathematical model, and the operator table.

use crate::lexer::Sym;
use vstd::prelude::*;

verus! {

/// How a run of operators of one precedence groups.
#[derive(Clone, Copy, Debug, PartialEq, Eq, Structural)]
pub enum Assoc {
    /// `a - b - c` is `(a - b) - c`.
    Left,
    /// `a ^ b ^ c` is `a ^ (b ^ c)`.
    Right,
    /// `a + b + c` is one node with three operands.
    Flat,
}

/// The operators of the language.
#[derive(Clone, Copy, Debug, PartialEq, Eq, Structural)]
pub enum Op {
    Assign,
    SetDelayed,
    Rule,
    Or,
    And,
    Not,
    Equal,
    Unequal,
    Less,
    Greater,
    LessEqual,
    GreaterEqual,
    Plus,
    Subtract,
    Times,
    Divide,
    Power,
    Minus,
    Factorial,
}

/// The kinds of leaves.
#[derive(Clone, Copy, Debug, PartialEq, Eq, Structural)]
pub enum LeafKind {
    Symbol,
    Number,
    /// A string literal; its text is what stands between the quotes, with
    /// escapes as written.
    Str,
}

/// An expression with the character span `start..end` of its source text.
#[derive(Debug, PartialEq, Eq)]
pub struct Expr {
    pub kind: ExprKind,
    pub start: usize,
    pub end: usize,
}

#[derive(Debug, PartialEq, Eq)]
pub enum ExprKind {
    Leaf(LeafKind, String),
    /// `head[args...]`
    Call(Box<Expr>, Vec<Expr>),
    /// `{items...}`
    List(Vec<Expr>),
    /// An infix operator applied to two operands, or to two or more for a
    /// `Flat` operator.
    Infix(Op, Vec<Expr>),
    Prefix(Op, Box<Expr>),
    Postfix(Op, Box<Expr>),
    /// `(inner)`
    Group(Box<Expr>),
}

/// The model of an expression: the same tree over sequences and naturals.
pub struct Tree {
    pub kind: TreeKind,
    pub start: nat,
    pub end: nat,
}

pub enum TreeKind {
    Leaf(LeafKind, Seq<char>),
    Call(Box<Tree>, Seq<Tree>),
    List(Seq<Tree>),
    Infix(Op, Seq<Tree>),
    Prefix(Op, Box<Tree>),
    Postfix(Op, Box<Tree>),
    Group(Box<Tree>),
}

/// The model of an expression.
pub open spec fn tree_of(e: Expr) -> Tree
    decreases e, 1nat,
{
    let kind = match e.kind {
        ExprKind::Leaf(k, t) => TreeKind::Leaf(k, t@),
        ExprKind::Call(h, args) => TreeKind::Call(Box::new(tree_of(*h)), trees_of(args@)),
        ExprKind::List(items) => TreeKind::List(trees_of(items@)),
        ExprKind::Infix(op, args) => TreeKind::Infix(op, trees_of(args@)),
        ExprKind::Prefix(op, a) => TreeKind::Prefix(op, Box::new(tree_of(*a))),
        ExprKind::Postfix(op, a) => TreeKind::Postfix(op, Box::new(tree_of(*a))),
        ExprKind::Group(a) => TreeKind::Group(Box::new(tree_of(*a))),
    };
    Tree { kind, start: e.start as nat, end: e.end as nat }
}

/// The models of a sequence of expressions.
pub open spec fn trees_of(es: Seq<Expr>) -> Seq<Tree>
    decreases es, 0nat,
{
    if es.len() == 0 {
        Seq::empty()
    } else {
        trees_of(es.drop_last()).push(tree_of(es.last()))
    }
}

pub proof fn lemma_trees_of_push(es: Seq<Expr>, e: Expr)
    ensures
        trees_of(es.push(e)) == trees_of(es).push(tree_of(e)),
{
    assert(es.push(e).drop_last() =~= es);
}

pub proof fn lemma_trees_of_index(es: Seq<Expr>)
    ensures
        trees_of(es).len() == es.len(),
        forall|i: int| 0 <= i < es.len() ==> #[trigger] trees_of(es)[i] == tree_of(es[i]),
    decreases es.len(),
{
    if es.len() > 0 {
        lemma_trees_of_index(es.drop_last());
    }
}

/// The infix use of a symbol: its operator, precedence and grouping.
pub open spec fn infix_info(sym: Sym) -> Option<(Op, u32, Assoc)> {
    match sym {
        Sym::Assign => Some((Op::Assign, 40, Assoc::Right)),
        Sym::Define => Some((Op::SetDelayed, 40, Assoc::Right)),
        Sym::Arrow => Some((Op::Rule, 120, Assoc::Right)),
        Sym::OrOr => Some((Op::Or, 215, Assoc::Flat)),
        Sym::AndAnd => Some((Op::And, 225, Assoc::Flat)),
        Sym::EqEq => Some((Op::Equal, 290, Assoc::Flat)),
        Sym::BangEq => Some((Op::Unequal, 290, Assoc::Flat)),
        Sym::Less => Some((Op::Less, 290, Assoc::Left)),
        Sym::Greater => Some((Op::Greater, 290, Assoc::Left)),
        Sym::LessEq => Some((Op::LessEqual, 290, Assoc::Left)),
        Sym::GreaterEq => Some((Op::GreaterEqual, 290, Assoc::Left)),
        Sym::Plus => Some((Op::Plus, 310, Assoc::Flat)),
        Sym::Minus => Some((Op::Subtract, 310, Assoc::Left)),
        Sym::Star => Some((Op::Times, 400, Assoc::Flat)),
        Sym::Slash => Some((Op::Divide, 470, Assoc::Left)),
        Sym::Caret => Some((Op::Power, 590, Assoc::Right)),
        _ => None,
    }
}

/// The prefix use of a symbol: its operator and the precedence its operand is parsed at.
pub open spec fn prefix_info(sym: Sym) -> Option<(Op, u32)> {
    match sym {
        Sym::Minus => Some((Op::Minus, 480)),
        Sym::Bang => Some((Op::Not, 230)),
        _ => None,
    }
}

/// The postfix use of a symbol: its operator and precedence.
pub open spec fn postfix_info(sym: Sym) -> Option<(Op, u32)> {
    match sym {
        Sym::Bang => Some((Op::Factorial, 610)),
        _ => None,
    }
}

/// The operator table is unambiguous: after an operand a symbol is either
/// infix or postfix, never both; before an operand only the prefix use
/// applies.
pub proof fn lemma_operator_table_unambiguous(sym: Sym)
    ensures
        !(infix_info(sym) is Some && postfix_info(sym) is Some),
{
}

/// Looks up the infix use of a symbol in the operator table.
pub fn infix_op(sym: Sym) -> (r: Option<(Op, u32, Assoc)>)
    ensures
        r == infix_info(sym),
{
    match sym {
        Sym::Assign => Some((Op::Assign, 40, Assoc::Right)),
        Sym::Define => Some((Op::SetDelayed, 40, Assoc::Right)),
        Sym::Arrow => Some((Op::Rule, 120, Assoc::Right)),
        Sym::OrOr => Some((Op::Or, 215, Assoc::Flat)),
        Sym::AndAnd => Some((Op::And, 225, Assoc::Flat)),
        Sym::EqEq => Some((Op::Equal, 290, Assoc::Flat)),
        Sym::BangEq => Some((Op::Unequal, 290, Assoc::Flat)),
        Sym::Less => Some((Op::Less, 290, Assoc::Left)),
        Sym::Greater => Some((Op::Greater, 290, Assoc::Left)),
        Sym::LessEq => Some((Op::LessEqual, 290, Assoc::Left)),
        Sym::GreaterEq => Some((Op::GreaterEqual, 290, Assoc::Left)),
        Sym::Plus => Some((Op::Plus, 310, Assoc::Flat)),
        Sym::Minus => Some((Op::Subtract, 310, Assoc::Left)),
        Sym::Star => Some((Op::Times, 400, Assoc::Flat)),
        Sym::Slash => Some((Op::Divide, 470, Assoc::Left)),
        Sym::Caret => Some((Op::Power, 590, Assoc::Right)),
        _ => None,
    }
}

/// Looks up the prefix use of a symbol in the operator table.
pub fn prefix_op(sym: Sym) -> (r: Option<(Op, u32)>)
    ensures
        r == prefix_info(sym),
{
    match sym {
        Sym::Minus => Some((Op::Minus, 480)),
        Sym::Bang => Some((Op::Not, 230)),
        _ => None,
    }
}

/// Looks up the postfix use of a symbol in the operator table.
pub fn postfix_op(sym: Sym) -> (r: Option<(Op, u32)>)
    ensures
        r == postfix_info(sym),
{
    match sym {
        Sym::Bang => Some((Op::Factorial, 610)),
        _ => None,
    }
}

} // verus!
