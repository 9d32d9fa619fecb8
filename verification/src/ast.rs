//! Abstract syntax trees.
//!
//! A parsed expression is a tree of complex-arithmetic operations over the
//! parameter `t`, the imaginary unit `i`, and numeric literals. Literals keep
//! the byte span of their text; the numeric value is materialized only by the
//! evaluation kernel. Function arity is encoded in the tree itself: every
//! registry function takes one argument, and `pow` becomes the binary power
//! operator, so an arity error can never reach evaluation.

use vstd::prelude::*;

verus! {

/// A registry function of one argument.
#[derive(Clone, Copy, Debug, PartialEq, Eq, Structural)]
pub enum Func {
    Exp,
    Sin,
    Cos,
    Sqrt,
    /// Magnitude, as a real-valued complex number.
    Abs,
    /// Complex conjugate.
    Conj,
    /// Real part, as a real-valued complex number.
    Re,
    /// Imaginary part, as a real-valued complex number.
    Im,
}

/// A binary operator.
#[derive(Clone, Copy, Debug, PartialEq, Eq, Structural)]
pub enum BinOp {
    Add,
    Sub,
    Mul,
    Div,
    Pow,
}

/// An expression tree. `Num` keeps the byte span `[start, end)` of its
/// literal in the input text.
#[derive(Debug, PartialEq, Eq)]
pub enum Expr {
    Num { start: usize, end: usize },
    /// The imaginary unit `i`.
    ImUnit,
    /// The parameter `t`.
    Param,
    Neg(Box<Expr>),
    Bin(BinOp, Box<Expr>, Box<Expr>),
    Call(Func, Box<Expr>),
}

/// Every literal span in the tree lies inside an input of length `n`.
pub open spec fn expr_wf(e: Expr, n: int) -> bool
    decreases e
{
    match e {
        Expr::Num { start, end } => start <= end <= n,
        Expr::ImUnit => true,
        Expr::Param => true,
        Expr::Neg(a) => expr_wf(*a, n),
        Expr::Bin(_, l, r) => expr_wf(*l, n) && expr_wf(*r, n),
        Expr::Call(_, a) => expr_wf(*a, n),
    }
}

/// Every expression of a list is well formed for an input of length `n`.
pub open spec fn exprs_wf(es: Seq<Expr>, n: int) -> bool {
    forall|k: int| 0 <= k < es.len() ==> expr_wf(#[trigger] es[k], n)
}

} // verus!
