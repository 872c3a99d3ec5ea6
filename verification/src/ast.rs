use vstd::prelude::*;

verus! {

/// A statement: the language has no statement sequencing, so a statement
/// wraps exactly one top-level expression.
#[derive(Debug, PartialEq)]
pub enum Stmt {
    Expr(Expr),
}

/// An expression tree.  Every node is exclusively owned by its parent;
/// trees are finite and acyclic by construction.  `Float` carries the
/// IEEE-754 single-precision bit pattern of the literal.
#[derive(Debug, PartialEq)]
pub enum Expr {
    If { cond: Box<Expr>, thn: Box<Expr>, els: Box<Expr> },
    Int(i32),
    Bool(bool),
    Float(u32),
    BinOp(Box<BinaryOperation>),
}

/// A binary operation; addition is the only one the language has.
#[derive(Debug, PartialEq)]
pub enum BinaryOperation {
    Add { left: Box<Expr>, right: Box<Expr> },
}

} // verus!
