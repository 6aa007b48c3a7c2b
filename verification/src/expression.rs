//! The nodes of an arithmetic expression tree: integer literals, one
//! unary operator and four binary operators. A node is built from finished
//! children and never changes; children are shared, so one sub-expression
//! can stand under several parents.

use vstd::prelude::*;
use std::rc::Rc;

verus! {

/// An integer constant.
#[derive(Debug, Clone, Copy)]
pub struct Value {
    pub val: i32,
}

/// The operator of a node with one child.
#[derive(Debug, Clone, Copy)]
pub enum UnaryOp {
    Neg,
}

/// The operator of a node with two children.
#[derive(Debug, Clone, Copy)]
pub enum BinOp {
    Add,
    Sub,
    Mul,
    Div,
}

/// An operator applied to one sub-expression.
#[derive(Debug, Clone)]
pub struct UnaryExpr {
    pub op: UnaryOp,
    pub value: Rc<Expr>,
}

/// An operator applied to a left and a right sub-expression.
#[derive(Debug, Clone)]
pub struct BinaryExpr {
    pub op: BinOp,
    pub left: Rc<Expr>,
    pub right: Rc<Expr>,
}

/// A node of any of the three kinds.
#[derive(Debug, Clone)]
pub enum Expr {
    Literal(Value),
    Unary(UnaryExpr),
    Binary(BinaryExpr),
}

impl Value {
    /// The literal `val`.
    pub fn new(val: i32) -> (v: Value)
        ensures
            v.val == val,
    {
        Value { val: val }
    }
}

impl UnaryExpr {
    /// The node that applies `op` to `value`.
    pub fn new(op: UnaryOp, value: Rc<Expr>) -> (e: UnaryExpr)
        ensures
            e.op == op,
            e.value == value,
    {
        UnaryExpr { op: op, value: value }
    }
}

impl BinaryExpr {
    /// The node that applies `op` to `left` and `right`, in that order.
    pub fn new(op: BinOp, left: Rc<Expr>, right: Rc<Expr>) -> (e: BinaryExpr)
        ensures
            e.op == op,
            e.left == left,
            e.right == right,
    {
        BinaryExpr { op: op, left: left, right: right }
    }
}

} // verus!
