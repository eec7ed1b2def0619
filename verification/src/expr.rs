//! Symbolic polynomial expressions over grid cells.
//!
//! An expression is an immutable tree; the combinators build new nodes, so
//! intermediate expressions can be shared structurally.  Evaluation lives in
//! the checker; here the tree and its well-formedness are defined: every
//! query must reference a column declared in the constraint system its gate
//! belongs to.

use vstd::prelude::*;
use crate::grid::{Column, ColumnKind, Rotation};

verus! {

#[derive(Debug)]
pub enum Expression {
    /// A constant field element.
    Constant(pasta_curves::Fp),
    /// The value of a cell: a column, at a gate's anchor row shifted by a
    /// rotation.
    Query(Column, Rotation),
    /// Additive inverse of a subexpression.
    Negate(Box<Expression>),
    /// Sum of two subexpressions.
    Sum(Box<Expression>, Box<Expression>),
    /// Product of two subexpressions.
    Product(Box<Expression>, Box<Expression>),
    /// A subexpression scaled by a constant field element.
    ScaledBy(Box<Expression>, pasta_curves::Fp),
}

/// Whether a column handle refers to a declared column, given how many
/// columns of each kind have been declared.
pub open spec fn column_declared(c: Column, na: int, ni: int, nf: int) -> bool {
    match c.kind {
        ColumnKind::Advice => c.index < na,
        ColumnKind::Instance => c.index < ni,
        ColumnKind::Fixed => c.index < nf,
    }
}

/// Whether every query in the expression references a declared column.
pub open spec fn expr_declared(e: Expression, na: int, ni: int, nf: int) -> bool
    decreases e,
{
    match e {
        Expression::Constant(_) => true,
        Expression::Query(c, _) => column_declared(c, na, ni, nf),
        Expression::Negate(a) => expr_declared(*a, na, ni, nf),
        Expression::Sum(a, b) => expr_declared(*a, na, ni, nf) && expr_declared(*b, na, ni, nf),
        Expression::Product(a, b) => expr_declared(*a, na, ni, nf) && expr_declared(
            *b,
            na,
            ni,
            nf,
        ),
        Expression::ScaledBy(a, _) => expr_declared(*a, na, ni, nf),
    }
}

/// Runtime check of `expr_declared`, used when a gate is registered.
pub fn check_declared(e: &Expression, na: usize, ni: usize, nf: usize) -> (r: bool)
    ensures
        r == expr_declared(*e, na as int, ni as int, nf as int),
    decreases *e,
{
    match e {
        Expression::Constant(_) => true,
        Expression::Query(c, _) => match c.kind {
            ColumnKind::Advice => c.index < na,
            ColumnKind::Instance => c.index < ni,
            ColumnKind::Fixed => c.index < nf,
        },
        Expression::Negate(a) => check_declared(a, na, ni, nf),
        Expression::Sum(a, b) => check_declared(a, na, ni, nf) && check_declared(b, na, ni, nf),
        Expression::Product(a, b) => check_declared(a, na, ni, nf) && check_declared(
            b,
            na,
            ni,
            nf,
        ),
        Expression::ScaledBy(a, _) => check_declared(a, na, ni, nf),
    }
}

impl Expression {
    /// A constant polynomial.
    pub fn constant(v: pasta_curves::Fp) -> (r: Expression)
        ensures
            r == Expression::Constant(v),
    {
        Expression::Constant(v)
    }

    /// The value of `column` at the anchor row shifted by `at`.
    pub fn query(column: Column, at: Rotation) -> (r: Expression)
        ensures
            r == Expression::Query(column, at),
    {
        Expression::Query(column, at)
    }

    /// The additive inverse of this expression.
    pub fn negated(self) -> (r: Expression)
        ensures
            r matches Expression::Negate(a) && *a == self,
    {
        Expression::Negate(Box::new(self))
    }

    /// The sum of this expression and `other`.
    pub fn plus(self, other: Expression) -> (r: Expression)
        ensures
            r matches Expression::Sum(a, b) && *a == self && *b == other,
    {
        Expression::Sum(Box::new(self), Box::new(other))
    }

    /// The product of this expression and `other`.
    pub fn times(self, other: Expression) -> (r: Expression)
        ensures
            r matches Expression::Product(a, b) && *a == self && *b == other,
    {
        Expression::Product(Box::new(self), Box::new(other))
    }

    /// This expression scaled by the constant `by`.
    pub fn scaled_by(self, by: pasta_curves::Fp) -> (r: Expression)
        ensures
            r matches Expression::ScaledBy(a, f) && *a == self && f == by,
    {
        Expression::ScaledBy(Box::new(self), by)
    }
}

} // verus!
