//! Arithmetic expression trees over circuit columns.
//!
//! An expression references advice and instance columns at relative row
//! offsets ("rotations"), selectors, and constants, combined by negation,
//! sum and product.  Rows are resolved later, at evaluation time, relative
//! to wherever a gate's selector is enabled, so one expression describes a
//! constraint for every active row at once.

use vstd::prelude::*;

use crate::field::FieldElement;
use crate::layout::AdviceColumn;
use crate::layout::InstanceColumn;
use crate::layout::Selector;

verus! {

/// A tagged arithmetic expression tree.
#[derive(Debug)]
pub enum Expression {
    /// A constant field element.
    Constant(FieldElement),
    /// The value of an advice column at `row + rotation`.
    Advice { column: usize, rotation: i32 },
    /// The value of an instance column at `row + rotation`.
    Instance { column: usize, rotation: i32 },
    /// A selector, read as 1 where enabled and 0 where not.
    Selector { selector: usize },
    /// Field negation of a subexpression.
    Negate(Box<Expression>),
    /// Field sum of two subexpressions.
    Sum(Box<Expression>, Box<Expression>),
    /// Field product of two subexpressions.
    Product(Box<Expression>, Box<Expression>),
}

/// Whether every column and selector the expression queries exists in a
/// system with `na` advice columns, `ni` instance columns and `ns`
/// selectors.
pub open spec fn expr_wf(e: Expression, na: int, ni: int, ns: int) -> bool
    decreases e,
{
    match e {
        Expression::Constant(_) => true,
        Expression::Advice { column, rotation } => column < na,
        Expression::Instance { column, rotation } => column < ni,
        Expression::Selector { selector } => selector < ns,
        Expression::Negate(inner) => expr_wf(*inner, na, ni, ns),
        Expression::Sum(a, b) => expr_wf(*a, na, ni, ns) && expr_wf(*b, na, ni, ns),
        Expression::Product(a, b) => expr_wf(*a, na, ni, ns) && expr_wf(*b, na, ni, ns),
    }
}

/// Whether every query of the expression, resolved at `row`, stays inside
/// `[0, rows)`.
pub open spec fn expr_rotations_ok(e: Expression, row: int, rows: int) -> bool
    decreases e,
{
    match e {
        Expression::Constant(_) => true,
        Expression::Advice { column, rotation } => 0 <= row + (rotation as int) < rows,
        Expression::Instance { column, rotation } => 0 <= row + (rotation as int) < rows,
        Expression::Selector { selector } => true,
        Expression::Negate(a) => expr_rotations_ok(*a, row, rows),
        Expression::Sum(a, b) => expr_rotations_ok(*a, row, rows) && expr_rotations_ok(
            *b,
            row,
            rows,
        ),
        Expression::Product(a, b) => expr_rotations_ok(*a, row, rows) && expr_rotations_ok(
            *b,
            row,
            rows,
        ),
    }
}

/// Checks [`expr_rotations_ok`]: every query resolved at `row` stays
/// inside `[0, rows)`.
pub fn check_rotations(e: &Expression, row: usize, rows: usize) -> (b: bool)
    requires
        row < rows,
        rows <= 0x10_0000,
    ensures
        b == expr_rotations_ok(*e, row as int, rows as int),
    decreases *e,
{
    match e {
        Expression::Constant(_) => true,
        Expression::Advice { column: _, rotation } => {
            let target: i64 = row as i64 + (*rotation) as i64;
            0 <= target && target < rows as i64
        },
        Expression::Instance { column: _, rotation } => {
            let target: i64 = row as i64 + (*rotation) as i64;
            0 <= target && target < rows as i64
        },
        Expression::Selector { selector: _ } => true,
        Expression::Negate(inner) => check_rotations(&**inner, row, rows),
        Expression::Sum(a, b) => {
            let la = check_rotations(&**a, row, rows);
            let lb = check_rotations(&**b, row, rows);
            la && lb
        },
        Expression::Product(a, b) => {
            let la = check_rotations(&**a, row, rows);
            let lb = check_rotations(&**b, row, rows);
            la && lb
        },
    }
}

/// Checks [`expr_wf`]: every queried column and selector is in range.
pub fn check_expr(e: &Expression, na: usize, ni: usize, ns: usize) -> (b: bool)
    ensures
        b == expr_wf(*e, na as int, ni as int, ns as int),
    decreases *e,
{
    match e {
        Expression::Constant(_) => true,
        Expression::Advice { column, rotation: _ } => *column < na,
        Expression::Instance { column, rotation: _ } => *column < ni,
        Expression::Selector { selector } => *selector < ns,
        Expression::Negate(inner) => check_expr(&**inner, na, ni, ns),
        Expression::Sum(a, b) => {
            let la = check_expr(&**a, na, ni, ns);
            let lb = check_expr(&**b, na, ni, ns);
            la && lb
        },
        Expression::Product(a, b) => {
            let la = check_expr(&**a, na, ni, ns);
            let lb = check_expr(&**b, na, ni, ns);
            la && lb
        },
    }
}

impl Expression {
    /// A constant expression.
    pub fn constant(f: FieldElement) -> (e: Expression)
        ensures
            e == Expression::Constant(f),
    {
        Expression::Constant(f)
    }

    /// A query of an advice column at the given rotation.
    pub fn advice(column: AdviceColumn, rotation: i32) -> (e: Expression)
        ensures
            e == (Expression::Advice { column: column.index, rotation }),
    {
        Expression::Advice { column: column.index, rotation }
    }

    /// A query of an instance column at the given rotation.
    pub fn instance(column: InstanceColumn, rotation: i32) -> (e: Expression)
        ensures
            e == (Expression::Instance { column: column.index, rotation }),
    {
        Expression::Instance { column: column.index, rotation }
    }

    /// A query of a selector: 1 where enabled, 0 elsewhere.
    pub fn selector(s: Selector) -> (e: Expression)
        ensures
            e == (Expression::Selector { selector: s.index }),
    {
        Expression::Selector { selector: s.index }
    }

    /// The negation of this expression.
    pub fn neg(self) -> (e: Expression)
        ensures
            e == Expression::Negate(Box::new(self)),
    {
        Expression::Negate(Box::new(self))
    }

    /// The sum of this expression and another.
    pub fn add(self, other: Expression) -> (e: Expression)
        ensures
            e == Expression::Sum(Box::new(self), Box::new(other)),
    {
        Expression::Sum(Box::new(self), Box::new(other))
    }

    /// The difference of this expression and another, as `self + (-other)`.
    pub fn sub(self, other: Expression) -> (e: Expression)
        ensures
            e == Expression::Sum(
                Box::new(self),
                Box::new(Expression::Negate(Box::new(other))),
            ),
    {
        Expression::Sum(Box::new(self), Box::new(Expression::Negate(Box::new(other))))
    }

    /// The product of this expression and another.
    pub fn mul(self, other: Expression) -> (e: Expression)
        ensures
            e == Expression::Product(Box::new(self), Box::new(other)),
    {
        Expression::Product(Box::new(self), Box::new(other))
    }
}

} // verus!
