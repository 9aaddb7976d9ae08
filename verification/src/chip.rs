//! The factorial chip: gate declaration, witness assignment, and the
//! copy-constraint binder.
//!
//! The chip declares two advice columns — a running product and a countdown —
//! one public instance column and one selector, and a gate of two
//! independently enforced expressions over adjacent rows. Letting `a`, `b` be
//! the running product and the countdown at the current row and `c`, `d` the
//! same cells at the next row, its gate requires `b - (d + 1) = 0` and
//! `c - (a * b) = 0` wherever the selector is on. The two checks stay
//! separate expressions on purpose: a single summed expression would only
//! force the sum to vanish, and errors of opposite sign could cancel.

use vstd::prelude::*;
use halo2_proofs::pasta::Fp;
use crate::field::{
    field_modulus, fp_from_u64, fp_inv, fp_mul, fp_one, fp_sub, fp_val, mul_p, sub_p,
};
use crate::schema::{declare_schema, AssignmentError, Schema, SchemaError};
use crate::expr::{expr_wf, Expr, Gate, Rot};
use crate::table::{CopyConstraint, Table};

verus! {

/// The countdown cell at row `r`: the seed lowered by one, then lowered by
/// one more on every later row. The engine counts down, so the closed form it
/// reaches is the descending factorial of the seed.
pub open spec fn countdown_at(seed: nat, r: int) -> nat
    decreases r,
{
    if r <= 0 {
        sub_p(seed, 1)
    } else {
        sub_p(countdown_at(seed, r - 1), 1)
    }
}

/// The running-product cell at row `r`: the seed at row 0, and at every later
/// row the previous product times the previous countdown.
pub open spec fn product_at(seed: nat, r: int) -> nat
    decreases r,
{
    if r <= 0 {
        seed
    } else {
        mul_p(product_at(seed, r - 1), countdown_at(seed, r - 1))
    }
}

/// The honest table for a seed and a row count: two advice columns holding
/// the recurrence, one selector on exactly the rows that have a next row, and
/// the seed as the first public value.
pub open spec fn assigned(t: Table, seed: nat, n: int) -> bool {
    &&& t.wf()
    &&& t.n_rows == n
    &&& t.advice@.len() == 2
    &&& t.selectors@.len() == 1
    &&& 2 <= n
    &&& seed < field_modulus()
    &&& t.instance@.len() >= 1
    &&& t.inst_val(0) == seed
    &&& forall|r: int| 0 <= r < n ==> #[trigger] t.cell_val(0, r) == product_at(seed, r)
    &&& forall|r: int| 0 <= r < n ==> #[trigger] t.cell_val(1, r) == countdown_at(seed, r)
    &&& forall|r: int| 0 <= r < n ==> (#[trigger] t.sel_on(0, r) <==> r < n - 1)
}

/// The countdown expression `b - (d + 1)`, over the countdown column at the
/// current and the next row.
pub open spec fn is_countdown_poly(e: Expr) -> bool {
    match e {
        Expr::Sub(b, s) => *b == Expr::Advice(1usize, Rot::Cur) && (match *s {
            Expr::Add(d, one) => *d == Expr::Advice(1usize, Rot::Next) && (match *one {
                Expr::Const(c) => fp_val(c) == 1 && fp_inv(c),
                _ => false,
            }),
            _ => false,
        }),
        _ => false,
    }
}

/// The product expression `c - (a * b)`, over both columns at the current row
/// and the running product at the next row.
pub open spec fn is_product_poly(e: Expr) -> bool {
    match e {
        Expr::Sub(c, m) => *c == Expr::Advice(0usize, Rot::Next) && (match *m {
            Expr::Mul(a, b) => *a == Expr::Advice(0usize, Rot::Cur) && *b == Expr::Advice(
                1usize,
                Rot::Cur,
            ),
            _ => false,
        }),
        _ => false,
    }
}

/// The factorial gate: selector 0 enforcing the countdown expression and the
/// product expression as two independent checks.
pub open spec fn is_factorial_gate(g: Gate) -> bool {
    &&& g.selector == 0
    &&& g.polys@.len() == 2
    &&& is_countdown_poly(g.polys@[0])
    &&& is_product_poly(g.polys@[1])
}

/// The fixed configuration: the declared schema and the declared gate.
#[derive(Debug)]
pub struct FactorialConfig {
    pub schema: Schema,
    pub gate: Gate,
}

/// The engine around one fixed configuration.
#[derive(Debug)]
pub struct FactorialChip {
    pub config: FactorialConfig,
}

/// The factorial of `n`.
pub open spec fn fact_spec(n: nat) -> nat
    decreases n,
{
    if n == 0 {
        1
    } else {
        n * fact_spec((n - 1) as nat)
    }
}

impl FactorialChip {
    /// Wraps a configuration.
    pub fn construct(config: FactorialConfig) -> (c: Self)
        ensures
            c.config == config,
    {
        FactorialChip { config }
    }

    /// Declares the schema — two advice columns, one instance column, one
    /// selector — and the two-expression recurrence gate. Pure configuration,
    /// called once per circuit definition.
    pub fn configure() -> (c: FactorialConfig)
        ensures
            c.schema.n_advice == 2,
            c.schema.n_selectors == 1,
            is_factorial_gate(c.gate),
            forall|i: int|
                0 <= i < c.gate.polys@.len() ==> expr_wf(#[trigger] c.gate.polys@[i], 2),
    {
        let schema = match declare_schema(2, 1) {
            Ok(s) => s,
            Err(_) => vstd::pervasive::unreached(),
        };
        let one = fp_one();
        let countdown_poly = Expr::Sub(
            Box::new(Expr::Advice(1, Rot::Cur)),
            Box::new(Expr::Add(Box::new(Expr::Advice(1, Rot::Next)), Box::new(Expr::Const(one)))),
        );
        let product_poly = Expr::Sub(
            Box::new(Expr::Advice(0, Rot::Next)),
            Box::new(
                Expr::Mul(Box::new(Expr::Advice(0, Rot::Cur)), Box::new(Expr::Advice(1, Rot::Cur))),
            ),
        );
        let ghost cp = countdown_poly;
        let ghost pp = product_poly;
        let mut polys: Vec<Expr> = Vec::new();
        polys.push(countdown_poly);
        polys.push(product_poly);
        proof {
            reveal_with_fuel(crate::expr::expr_wf, 6);
            assert(expr_wf(cp, 2));
            assert(expr_wf(pp, 2));
        }
        FactorialConfig { schema, gate: Gate { selector: 0, polys } }
    }

    /// Witness assignment: walks the rows in order and fills both advice
    /// columns from the public seed. Row 0 copies the seed into the running
    /// product and derives the countdown as seed minus one; every later row
    /// multiplies the product by the previous countdown and lowers the
    /// countdown by one. The selector is on exactly on the rows that have a
    /// next row. Fails exactly when fewer than two rows are requested or the
    /// instance supplies no seed.
    pub fn calculate(&self, n_rows: usize, instance: Vec<Fp>) -> (r: Result<
        Table,
        AssignmentError,
    >)
        requires
            forall|i: int| 0 <= i < instance@.len() ==> fp_inv(#[trigger] instance@[i]),
        ensures
            r is Ok <==> (n_rows >= 2 && instance@.len() >= 1),
            r matches Err(e) ==> ((e == AssignmentError::RowCountTooSmall) <==> n_rows < 2) && ((e
                == AssignmentError::MissingSeed) <==> (n_rows >= 2 && instance@.len() == 0)),
            r matches Ok(t) ==> assigned(t, fp_val(instance@[0]), n_rows as int) && t.instance@
                == instance@,
    {
        if n_rows < 2 {
            return Err(AssignmentError::RowCountTooSmall);
        }
        if instance.len() == 0 {
            return Err(AssignmentError::MissingSeed);
        }
        let ghost seed = fp_val(instance@[0]);
        let one = fp_one();
        let seed_cell = instance[0];
        let mut col_a: Vec<Fp> = Vec::new();
        let mut col_b: Vec<Fp> = Vec::new();
        let mut sel: Vec<bool> = Vec::new();
        col_a.push(seed_cell);
        col_b.push(fp_sub(&seed_cell, &one));
        sel.push(true);
        let mut row: usize = 1;
        while row < n_rows
            invariant
                1 <= row <= n_rows,
                2 <= n_rows,
                col_a@.len() == row,
                col_b@.len() == row,
                sel@.len() == row,
                fp_val(one) == 1,
                fp_inv(one),
                forall|i: int|
                    0 <= i < row ==> fp_val(#[trigger] col_a@[i]) == product_at(seed, i) && fp_inv(
                        col_a@[i],
                    ),
                forall|i: int|
                    0 <= i < row ==> fp_val(#[trigger] col_b@[i]) == countdown_at(seed, i)
                        && fp_inv(col_b@[i]),
                forall|i: int| 0 <= i < row ==> (#[trigger] sel@[i] <==> i < n_rows - 1),
            decreases n_rows - row,
        {
            let a_prev = col_a[row - 1];
            let b_prev = col_b[row - 1];
            col_a.push(fp_mul(&a_prev, &b_prev));
            col_b.push(fp_sub(&b_prev, &one));
            sel.push(row < n_rows - 1);
            row = row + 1;
        }
        let mut advice: Vec<Vec<Fp>> = Vec::new();
        advice.push(col_a);
        advice.push(col_b);
        let mut selectors: Vec<Vec<bool>> = Vec::new();
        selectors.push(sel);
        Ok(Table { n_rows, advice, selectors, instance })
    }

    /// The copy-constraint binder: records that the given assigned private
    /// cell must equal the public instance value at `instance_row`. Fails
    /// exactly when the cell or the instance row lies outside the table.
    pub fn expose_public(&self, t: &Table, col: usize, row: usize, instance_row: usize) -> (r:
        Result<CopyConstraint, AssignmentError>)
        ensures
            r is Ok <==> (col < t.advice@.len() && row < t.n_rows && instance_row
                < t.instance@.len()),
            r matches Ok(c) ==> c == (CopyConstraint { col, row, instance_row }) && c.wf(*t),
            r matches Err(e) ==> ((e == AssignmentError::CellOutOfRange) <==> (col
                >= t.advice@.len() || row >= t.n_rows)) && ((e
                == AssignmentError::InstanceRowOutOfRange) <==> (col < t.advice@.len() && row
                < t.n_rows && instance_row >= t.instance@.len())),
    {
        if col >= t.advice.len() || row >= t.n_rows {
            Err(AssignmentError::CellOutOfRange)
        } else if instance_row >= t.instance.len() {
            Err(AssignmentError::InstanceRowOutOfRange)
        } else {
            Ok(CopyConstraint { col, row, instance_row })
        }
    }
}

/// Calculates the factorial of `n` as a field element, to be passed as the
/// expected public output.
pub fn factorial(n: u64) -> (r: Fp)
    requires
        1 <= n,
    ensures
        fp_val(r) == fact_spec(n as nat) % field_modulus(),
        fp_inv(r),
{
    let mut acc = fp_one();
    proof {
        crate::field::lemma_mod_small(1);
    }
    let mut k: u64 = 0;
    while k < n
        invariant
            k <= n,
            fp_val(acc) == fact_spec(k as nat) % field_modulus(),
            fp_inv(acc),
        decreases n - k,
    {
        k = k + 1;
        let kf = fp_from_u64(k);
        let next = fp_mul(&acc, &kf);
        proof {
            vstd::arithmetic::div_mod::lemma_mul_mod_noop_left(
                fact_spec((k - 1) as nat) as int,
                k as int,
                field_modulus() as int,
            );
            assert(fact_spec(k as nat) == (k as nat) * fact_spec((k - 1) as nat));
            assert(fact_spec((k - 1) as nat) * (k as nat) == (k as nat) * fact_spec(
                (k - 1) as nat,
            )) by (nonlinear_arith);
        }
        acc = next;
    }
    acc
}

} // verus!
