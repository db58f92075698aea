//! The statement and expression trees the compiler consumes. An external
//! parser produces these; the compiler only walks them.

use vstd::prelude::*;

verus! {

/// Arithmetic and bitwise binary operators — the operators the constant
/// folder understands. Comparison, concatenation and logical operators
/// are outside this core.
#[derive(Debug, Clone, Copy, PartialEq, Eq, Structural)]
pub enum BinOp {
    Add,
    Minus,
    Mul,
    Div,
    IDiv,
    Mod,
    Pow,
    BAnd,
    BOr,
    BXor,
    Shl,
    Shr,
}

/// An expression. A `Float` literal carries its IEEE-754 bit pattern.
#[derive(Debug)]
pub enum Expr {
    Int(i64),
    Float(u64),
    Str(String),
    Nil,
    True,
    False,
    Name(String),
    BinExpr(Box<BinExpr>),
    ParenExpr(Box<Expr>),
}

/// A binary expression node.
#[derive(Debug)]
pub struct BinExpr {
    pub op: BinOp,
    pub left: Expr,
    pub right: Expr,
}

/// An assignment target. Only local names are assignable in this core;
/// indexed and parenthesised targets belong to the surrounding language.
#[derive(Debug)]
pub enum Assignable {
    Name(String),
}

/// `local n1, ..., nk = e1, ..., em`: declares fresh locals, with
/// initializers.
#[derive(Debug)]
pub struct LocalStat {
    pub names: Vec<String>,
    pub exprs: Vec<Expr>,
}

/// `t1, ..., tn = e1, ..., em`: assigns to already-bound targets.
#[derive(Debug)]
pub struct AssignStat {
    pub left: Vec<Assignable>,
    pub right: Vec<Expr>,
}

/// One statement.
#[derive(Debug)]
pub enum Stat {
    LocalStat(LocalStat),
    AssignStat(AssignStat),
}

/// An ordered statement sequence: one function body.
#[derive(Debug)]
pub struct Block {
    pub stats: Vec<Stat>,
}

} // verus!
