//! Gate polynomials as explicit expression trees.
//!
//! A polynomial is built from constants and column queries at row-relative
//! rotations, combined with field addition, subtraction and multiplication.
//! Keeping the tree explicit lets the checker evaluate it without invoking
//! caller code, and lets expressions be inspected in isolation.

use crate::columns::{Column, Rotation};
use crate::field::Felt;
use vstd::prelude::*;

verus! {

/// A gate polynomial over column queries.
pub enum Expr {
    /// A constant field element.
    Constant(Felt),
    /// The value of a column at a rotation relative to the evaluated row.
    Query(Column, Rotation),
    /// The field sum of two polynomials.
    Add(Box<Expr>, Box<Expr>),
    /// The field difference of two polynomials.
    Sub(Box<Expr>, Box<Expr>),
    /// The field product of two polynomials.
    Mul(Box<Expr>, Box<Expr>),
}

impl Expr {
    /// Well-formedness: every constant in the tree is a reduced residue.
    pub open spec fn wf(self) -> bool
        decreases self,
    {
        match self {
            Expr::Constant(f) => f.inv(),
            Expr::Query(_, _) => true,
            Expr::Add(l, r) => l.wf() && r.wf(),
            Expr::Sub(l, r) => l.wf() && r.wf(),
            Expr::Mul(l, r) => l.wf() && r.wf(),
        }
    }
}

} // verus!
