//! Gate expressions.
//!
//! A gate is a set of polynomial expressions over advice cells at the current
//! and the next row. A gate is paired with a selector column: wherever that
//! selector is on, every one of its expressions must evaluate to the additive
//! identity.

use vstd::prelude::*;
use halo2_proofs::pasta::Fp;
use crate::field::{add_p, fp_add, fp_inv, fp_mul, fp_sub, fp_val, mul_p, sub_p};
use crate::table::Table;

verus! {

/// A row offset inside a gate expression: the current row or the one after it.
#[derive(Clone, Copy, Debug, PartialEq, Eq, Structural)]
pub enum Rot {
    Cur,
    Next,
}

/// The offset a rotation adds to the row a gate is evaluated at.
pub open spec fn rot_off(ro: Rot) -> int {
    match ro {
        Rot::Cur => 0,
        Rot::Next => 1,
    }
}

/// A polynomial expression tree over `(advice column, row offset)` references.
#[derive(Debug)]
pub enum Expr {
    Const(Fp),
    Advice(usize, Rot),
    Add(Box<Expr>, Box<Expr>),
    Sub(Box<Expr>, Box<Expr>),
    Mul(Box<Expr>, Box<Expr>),
}

/// Well-formedness of an expression against a number of advice columns:
/// every column reference is in range and every constant is canonical.
pub open spec fn expr_wf(e: Expr, n_advice: int) -> bool
    decreases e,
{
    match e {
        Expr::Const(c) => fp_inv(c),
        Expr::Advice(col, _) => col < n_advice,
        Expr::Add(l, r) => expr_wf(*l, n_advice) && expr_wf(*r, n_advice),
        Expr::Sub(l, r) => expr_wf(*l, n_advice) && expr_wf(*r, n_advice),
        Expr::Mul(l, r) => expr_wf(*l, n_advice) && expr_wf(*r, n_advice),
    }
}

/// The residue an expression evaluates to at a row of a table.
pub open spec fn eval_spec(e: Expr, t: Table, row: int) -> nat
    decreases e,
{
    match e {
        Expr::Const(c) => fp_val(c),
        Expr::Advice(col, ro) => fp_val(t.advice@[col as int]@[row + rot_off(ro)]),
        Expr::Add(l, r) => add_p(eval_spec(*l, t, row), eval_spec(*r, t, row)),
        Expr::Sub(l, r) => sub_p(eval_spec(*l, t, row), eval_spec(*r, t, row)),
        Expr::Mul(l, r) => mul_p(eval_spec(*l, t, row), eval_spec(*r, t, row)),
    }
}

/// Evaluates an expression at a row, substituting the current row for the
/// `Cur` offset and the one after it for `Next`. The row must have a next
/// row, since the expression may reference one.
pub fn eval(e: &Expr, t: &Table, row: usize) -> (r: Fp)
    requires
        t.wf(),
        expr_wf(*e, t.advice@.len() as int),
        row + 1 < t.n_rows,
    ensures
        fp_val(r) == eval_spec(*e, *t, row as int),
        fp_inv(r),
    decreases *e,
{
    match e {
        Expr::Const(c) => *c,
        Expr::Advice(col, ro) => {
            let at: usize = match ro {
                Rot::Cur => row,
                Rot::Next => row + 1,
            };
            t.advice[*col][at]
        },
        Expr::Add(l, r) => {
            let lv = eval(l, t, row);
            let rv = eval(r, t, row);
            fp_add(&lv, &rv)
        },
        Expr::Sub(l, r) => {
            let lv = eval(l, t, row);
            let rv = eval(r, t, row);
            fp_sub(&lv, &rv)
        },
        Expr::Mul(l, r) => {
            let lv = eval(l, t, row);
            let rv = eval(r, t, row);
            fp_mul(&lv, &rv)
        },
    }
}

/// A named selector together with the expressions it enforces: every
/// expression must evaluate to the additive identity on each row where the
/// selector is on.
#[derive(Debug)]
pub struct Gate {
    pub selector: usize,
    pub polys: Vec<Expr>,
}

/// Well-formedness of a gate against a table: the selector column exists and
/// every expression only references advice columns the table has.
pub open spec fn gate_wf(g: Gate, t: Table) -> bool {
    &&& g.selector < t.selectors@.len()
    &&& forall|i: int|
        0 <= i < g.polys@.len() ==> expr_wf(#[trigger] g.polys@[i], t.advice@.len() as int)
}

} // verus!
