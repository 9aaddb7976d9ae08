//! Laws of the engine, proved once and for all:
//!
//! - an honestly assigned table, with the factorial gate and correctly chosen
//!   public values, is accepted;
//! - the running product at the final row is exactly the product of the
//!   countdown sequence from the seed down to its terminal value, and the
//!   full factorial when the row count equals the seed;
//! - overwriting any single assigned cell with a different value makes the
//!   verifier reject, with a failure referencing the mutated row or the row
//!   before it (whose gate reads the mutated row).

use vstd::prelude::*;
use crate::field::{
    add_p, field_modulus, fp_val, lemma_mod_small, lemma_sub_p_zero, lemma_sub_then_add_one, mul_p,
    sub_p,
};
use crate::expr::{eval_spec, Expr, Gate};
use crate::chip::{
    assigned, countdown_at, fact_spec, is_countdown_poly, is_factorial_gate, is_product_poly,
    product_at,
};
use crate::table::{CopyConstraint, Table};
use crate::verify::{accept, copies_ok, gate_fails_at, gate_row_ok, gates_ok};

verus! {

/// A reduced sum stays below the modulus.
pub proof fn lemma_add_p_bound(a: nat, b: nat)
    ensures
        add_p(a, b) < field_modulus(),
{
    vstd::arithmetic::div_mod::lemma_mod_bound((a + b) as int, field_modulus() as int);
}

/// A reduced difference stays below the modulus.
pub proof fn lemma_sub_p_bound(a: nat, b: nat)
    ensures
        sub_p(a, b) < field_modulus(),
{
    vstd::arithmetic::div_mod::lemma_mod_bound(
        (a + field_modulus()) - b,
        field_modulus() as int,
    );
}

/// A reduced product stays below the modulus.
pub proof fn lemma_mul_p_bound(a: nat, b: nat)
    ensures
        mul_p(a, b) < field_modulus(),
{
    vstd::arithmetic::div_mod::lemma_mod_bound((a * b) as int, field_modulus() as int);
}

/// Adding one is injective on canonical residues.
pub proof fn lemma_add_p_one_injective(x: nat, y: nat)
    requires
        x < field_modulus(),
        y < field_modulus(),
        add_p(x, 1) == add_p(y, 1),
    ensures
        x == y,
{
    let m = field_modulus();
    if x + 1 < m {
        lemma_mod_small((x + 1) as nat);
    } else {
        vstd::arithmetic::div_mod::lemma_mod_self_0(m as int);
    }
    if y + 1 < m {
        lemma_mod_small((y + 1) as nat);
    } else {
        vstd::arithmetic::div_mod::lemma_mod_self_0(m as int);
    }
}

/// The countdown column always holds a canonical residue.
pub proof fn lemma_countdown_bound(seed: nat, r: int)
    ensures
        countdown_at(seed, r) < field_modulus(),
{
    if r <= 0 {
        lemma_sub_p_bound(seed, 1);
    } else {
        lemma_sub_p_bound(countdown_at(seed, r - 1), 1);
    }
}

/// What the countdown expression evaluates to, and when it vanishes: exactly
/// when the countdown cell equals the next row's countdown cell plus one.
pub proof fn lemma_countdown_poly_eval(e: Expr, t: Table, row: int)
    requires
        is_countdown_poly(e),
        t.wf(),
        t.advice@.len() >= 2,
        0 <= row,
        row + 1 < t.n_rows,
    ensures
        eval_spec(e, t, row) == sub_p(t.cell_val(1, row), add_p(t.cell_val(1, row + 1), 1)),
        (eval_spec(e, t, row) == 0) <==> (t.cell_val(1, row) == add_p(t.cell_val(1, row + 1), 1)),
{
    match e {
        Expr::Sub(b, s) => {
            match *s {
                Expr::Add(d, one) => {
                    match *one {
                        Expr::Const(c) => {
                            assert(eval_spec(e, t, row) == sub_p(
                                eval_spec(*b, t, row),
                                eval_spec(*s, t, row),
                            ));
                            assert(eval_spec(*s, t, row) == add_p(
                                eval_spec(*d, t, row),
                                eval_spec(*one, t, row),
                            ));
                            assert(eval_spec(*one, t, row) == fp_val(c));
                            assert(eval_spec(*b, t, row) == t.cell_val(1, row));
                            assert(eval_spec(*d, t, row) == t.cell_val(1, row + 1));
                            assert(eval_spec(*s, t, row) == add_p(t.cell_val(1, row + 1), 1));
                            assert(fp_val(t.advice@[1]@[row]) < field_modulus());
                            lemma_add_p_bound(t.cell_val(1, row + 1), 1);
                            lemma_sub_p_zero(t.cell_val(1, row), add_p(t.cell_val(1, row + 1), 1));
                        },
                        _ => {
                            assert(false);
                        },
                    }
                },
                _ => {
                    assert(false);
                },
            }
        },
        _ => {
            assert(false);
        },
    }
}

/// What the product expression evaluates to, and when it vanishes: exactly
/// when the next row's running product equals the current product times the
/// current countdown.
pub proof fn lemma_product_poly_eval(e: Expr, t: Table, row: int)
    requires
        is_product_poly(e),
        t.wf(),
        t.advice@.len() >= 2,
        0 <= row,
        row + 1 < t.n_rows,
    ensures
        eval_spec(e, t, row) == sub_p(
            t.cell_val(0, row + 1),
            mul_p(t.cell_val(0, row), t.cell_val(1, row)),
        ),
        (eval_spec(e, t, row) == 0) <==> (t.cell_val(0, row + 1) == mul_p(
            t.cell_val(0, row),
            t.cell_val(1, row),
        )),
{
    match e {
        Expr::Sub(c, s) => {
            match *s {
                Expr::Mul(a, b) => {
                    assert(eval_spec(e, t, row) == sub_p(
                        eval_spec(*c, t, row),
                        eval_spec(*s, t, row),
                    ));
                    assert(eval_spec(*s, t, row) == mul_p(
                        eval_spec(*a, t, row),
                        eval_spec(*b, t, row),
                    ));
                    assert(eval_spec(*c, t, row) == t.cell_val(0, row + 1));
                    assert(eval_spec(*a, t, row) == t.cell_val(0, row));
                    assert(eval_spec(*b, t, row) == t.cell_val(1, row));
                    assert(fp_val(t.advice@[0]@[row + 1]) < field_modulus());
                    lemma_mul_p_bound(t.cell_val(0, row), t.cell_val(1, row));
                    lemma_sub_p_zero(
                        t.cell_val(0, row + 1),
                        mul_p(t.cell_val(0, row), t.cell_val(1, row)),
                    );
                },
                _ => {
                    assert(false);
                },
            }
        },
        _ => {
            assert(false);
        },
    }
}

/// The two standard copy bindings: the seed into the first advice cell, and
/// the final running product into the second public slot.
pub open spec fn standard_bindings(n: int) -> Seq<CopyConstraint> {
    seq![
        CopyConstraint { col: 0usize, row: 0usize, instance_row: 0usize },
        CopyConstraint { col: 0usize, row: (n - 1) as usize, instance_row: 1usize },
    ]
}

/// Law: witness assignment followed by verification accepts. An honestly
/// assigned table, checked against the factorial gate and the two standard
/// copy bindings, with the second public value chosen as the recurrence's
/// final product, satisfies every constraint: `verify` on it returns zero
/// violations.
pub proof fn lemma_assign_then_verify_accepts(t: Table, g: Gate, seed: nat, n: int)
    requires
        assigned(t, seed, n),
        is_factorial_gate(g),
        t.instance@.len() >= 2,
        t.inst_val(1) == product_at(seed, n - 1),
    ensures
        accept(t, seq![g], standard_bindings(n)),
{
    assert forall|row: int| 0 <= row < n - 1 implies (eval_spec(g.polys@[0], t, row) == 0
        && eval_spec(g.polys@[1], t, row) == 0) by {
        lemma_countdown_poly_eval(g.polys@[0], t, row);
        lemma_product_poly_eval(g.polys@[1], t, row);
        assert(t.cell_val(1, row) == countdown_at(seed, row));
        assert(t.cell_val(1, row + 1) == countdown_at(seed, row + 1));
        assert(countdown_at(seed, row + 1) == sub_p(countdown_at(seed, row), 1));
        lemma_countdown_bound(seed, row);
        lemma_sub_then_add_one(countdown_at(seed, row));
        assert(t.cell_val(0, row + 1) == product_at(seed, row + 1));
        assert(product_at(seed, row + 1) == mul_p(product_at(seed, row), countdown_at(seed, row)));
    }
    let gs = seq![g];
    assert forall|g0: int, row: int| 0 <= g0 < gs.len() && 0 <= row < t.n_rows implies gate_row_ok(
        t,
        gs[g0],
        row,
    ) by {
        assert(gs[g0] == g);
        if t.sel_on(0, row) {
            assert(row < n - 1);
            assert forall|i: int| 0 <= i < g.polys@.len() implies eval_spec(
                #[trigger] g.polys@[i],
                t,
                row,
            ) == 0 by {
                assert(i == 0 || i == 1);
            }
        }
    }
    assert(gates_ok(t, gs));
    let cs = standard_bindings(n);
    assert forall|k: int| 0 <= k < cs.len() implies (#[trigger] cs[k]).holds(t) by {
        if k == 0 {
            assert(t.cell_val(0, 0) == product_at(seed, 0));
            assert(product_at(seed, 0) == seed);
        } else {
            assert(t.cell_val(0, n - 1) == product_at(seed, n - 1));
        }
    }
    assert(copies_ok(t, cs));
}

/// The product of `a * (a - 1) * ... * b`, or one when `a < b`.
pub open spec fn desc_product(a: nat, b: nat) -> nat
    decreases a,
{
    if a < b || a == 0 {
        1
    } else {
        a * desc_product((a - 1) as nat, b)
    }
}

/// Peeling the lowest factor off a descending product.
pub proof fn lemma_desc_split_low(a: nat, b: nat)
    requires
        1 <= b <= a,
    ensures
        desc_product(a, b) == desc_product(a, (b + 1) as nat) * b,
    decreases a,
{
    if a == b {
        assert(desc_product(a, b) == a * desc_product((a - 1) as nat, b));
        assert(desc_product((a - 1) as nat, b) == 1);
        assert(desc_product(a, (b + 1) as nat) == 1);
    } else {
        lemma_desc_split_low((a - 1) as nat, b);
        assert(desc_product(a, b) == a * desc_product((a - 1) as nat, b));
        assert(desc_product(a, (b + 1) as nat) == a * desc_product((a - 1) as nat, (b + 1) as nat));
        assert(desc_product(a, b) == a * (desc_product((a - 1) as nat, (b + 1) as nat) * b));
        vstd::arithmetic::mul::lemma_mul_is_associative(
            a as int,
            desc_product((a - 1) as nat, (b + 1) as nat) as int,
            b as int,
        );
    }
}

/// The descending product down to one is the factorial.
pub proof fn lemma_desc_is_fact(n: nat)
    ensures
        desc_product(n, 1) == fact_spec(n),
    decreases n,
{
    if n != 0 {
        lemma_desc_is_fact((n - 1) as nat);
    }
}

/// While it has not wrapped, the countdown column holds exactly
/// `seed - 1 - r`.
pub proof fn lemma_countdown_exact(seed: nat, r: int)
    requires
        0 <= r <= seed - 1,
        seed < field_modulus(),
    ensures
        countdown_at(seed, r) == seed - 1 - r,
    decreases r,
{
    let m = field_modulus() as int;
    if r == 0 {
        vstd::arithmetic::div_mod::lemma_mod_multiples_vanish(1, seed - 1, m);
        lemma_mod_small((seed - 1) as nat);
    } else {
        lemma_countdown_exact(seed, r - 1);
        vstd::arithmetic::div_mod::lemma_mod_multiples_vanish(1, seed - 1 - r, m);
        lemma_mod_small((seed - 1 - r) as nat);
    }
}

/// Law: the running product reproduces the closed form exactly. At row `r`
/// (before the countdown wraps) it is the reduced product of the countdown
/// sequence from the seed down to `seed - r`.
pub proof fn lemma_product_closed_form(seed: nat, r: int)
    requires
        0 <= r <= seed - 1,
        seed < field_modulus(),
    ensures
        product_at(seed, r) == desc_product(seed, (seed - r) as nat) % field_modulus(),
    decreases r,
{
    let m = field_modulus();
    if r == 0 {
        assert(product_at(seed, 0) == seed);
        assert((seed - 0) as nat == seed);
        assert(desc_product(seed, seed) == seed * desc_product((seed - 1) as nat, seed));
        assert(desc_product((seed - 1) as nat, seed) == 1);
        lemma_mod_small(seed);
        vstd::arithmetic::mul::lemma_mul_basics(seed as int);
        assert(desc_product(seed, seed) == seed);
        assert(desc_product(seed, (seed - r) as nat) == seed);
        assert(product_at(seed, r) == desc_product(seed, (seed - r) as nat) % field_modulus());
    } else {
        lemma_product_closed_form(seed, r - 1);
        lemma_countdown_exact(seed, r - 1);
        let hi = desc_product(seed, (seed - (r - 1)) as nat);
        let low = (seed - r) as nat;
        assert(countdown_at(seed, r - 1) == low);
        assert(product_at(seed, r) == mul_p(product_at(seed, r - 1), countdown_at(seed, r - 1)));
        assert(product_at(seed, r) == mul_p(hi % m, low));
        vstd::arithmetic::div_mod::lemma_mul_mod_noop_left(hi as int, low as int, m as int);
        assert(mul_p(hi % m, low) == (hi * low) % m);
        lemma_desc_split_low(seed, low);
        assert((low + 1) as nat == (seed - (r - 1)) as nat);
        assert(desc_product(seed, low) == desc_product(seed, (low + 1) as nat) * low);
        assert(desc_product(seed, low) == hi * low);
        assert(product_at(seed, r) == (hi * low) % m);
        assert(product_at(seed, r) == desc_product(seed, (seed - r) as nat) % field_modulus());
    }
}

/// Law: with the row count equal to the seed, the final running product is
/// the seed's full factorial, reduced.
pub proof fn lemma_final_row_is_factorial(t: Table, seed: nat, n: int)
    requires
        assigned(t, seed, n),
        n == seed,
    ensures
        t.cell_val(0, n - 1) == fact_spec(seed) % field_modulus(),
{
    lemma_product_closed_form(seed, n - 1);
    assert((seed - (n - 1)) as nat == 1nat);
    lemma_desc_is_fact(seed);
}

/// Law: mutating any single assigned cell is detected. If one advice cell of
/// an honestly assigned table is overwritten with a different value, then
/// either the seed's copy binding breaks (for the very first cell) or the
/// factorial gate fails at the mutated row or at the row before it — the row
/// whose gate expressions read the mutated cell. By `verify`'s contract the
/// violation list is then not empty.
pub proof fn lemma_mutation_detected(t: Table, t2: Table, g: Gate, seed: nat, n: int, col: int, row: int)
    requires
        assigned(t, seed, n),
        is_factorial_gate(g),
        0 <= col < 2,
        0 <= row < n,
        t2.wf(),
        t2.same_but_cell(t, col, row),
        t2.cell_val(col, row) != t.cell_val(col, row),
    ensures
        col == 0 && row == 0 ==> !(CopyConstraint {
            col: 0usize,
            row: 0usize,
            instance_row: 0usize,
        }).holds(t2),
        !(col == 0 && row == 0) ==> gate_fails_at(t2, g, if row == 0 { 0 } else { row - 1 }),
{
    let m = field_modulus();
    assert(t2.n_rows == t.n_rows);
    assert(t2.advice@.len() == t.advice@.len());
    assert forall|c: int, r: int|
        0 <= c < 2 && 0 <= r < n && !(c == col && r == row) implies t2.cell_val(c, r)
        == t.cell_val(c, r) by {
        assert(t.advice@[c]@.len() == t.n_rows);
        assert(t2.advice@[c]@[r] == t.advice@[c]@[r]);
    }
    assert forall|s: int, r: int| 0 <= s < t.selectors@.len() && 0 <= r < n implies t2.sel_on(s, r)
        == t.sel_on(s, r) by {
        assert(t2.selectors@ == t.selectors@);
    }
    if col == 0 && row == 0 {
        assert(t2.instance@ == t.instance@);
        assert(t.cell_val(0, 0) == product_at(seed, 0));
        assert(t2.inst_val(0) == seed);
    } else {
        let anchor = if row == 0 { 0int } else { row - 1 };
        assert(t.sel_on(0, anchor) <==> anchor < n - 1);
        assert(anchor < n - 1);
        assert(t2.sel_on(g.selector as int, anchor));
        if col == 1 {
            // The countdown expression at the anchor row reads the mutated
            // countdown cell and no longer balances.
            lemma_countdown_poly_eval(g.polys@[0], t2, anchor);
            let b = t2.cell_val(1, anchor);
            let d = t2.cell_val(1, anchor + 1);
            lemma_countdown_bound(seed, anchor);
            lemma_sub_then_add_one(countdown_at(seed, anchor));
            if row == 0 {
                // The mutated cell is `b`; `d` is honest.
                assert(d == countdown_at(seed, 1));
                assert(countdown_at(seed, 1) == sub_p(countdown_at(seed, 0), 1));
                assert(add_p(d, 1) == countdown_at(seed, 0));
                assert(b != countdown_at(seed, 0));
            } else {
                // The mutated cell is `d`; `b` is honest.
                assert(b == countdown_at(seed, anchor));
                assert(d != countdown_at(seed, row));
                assert(countdown_at(seed, row) == sub_p(countdown_at(seed, anchor), 1));
                lemma_sub_p_bound(countdown_at(seed, anchor), 1);
                if eval_spec(g.polys@[0], t2, anchor) == 0 {
                    assert(b == add_p(d, 1));
                    assert(b == add_p(countdown_at(seed, row), 1));
                    assert(t2.advice@[1]@[row] == t2.advice@[1]@[anchor + 1]);
                    assert(d < m);
                    lemma_add_p_one_injective(d, countdown_at(seed, row));
                    assert(false);
                }
            }
            assert(eval_spec(g.polys@[0], t2, anchor) != 0);
            assert(gate_fails_at(t2, g, anchor));
        } else {
            // `col == 0`, `row >= 1`: the product expression at the row
            // before reads the mutated running product as its next-row cell.
            lemma_product_poly_eval(g.polys@[1], t2, anchor);
            assert(t2.cell_val(0, anchor) == product_at(seed, anchor));
            assert(t2.cell_val(1, anchor) == countdown_at(seed, anchor));
            assert(t2.cell_val(0, anchor + 1) != product_at(seed, row));
            assert(product_at(seed, row) == mul_p(product_at(seed, anchor), countdown_at(seed, anchor)));
            assert(eval_spec(g.polys@[1], t2, anchor) != 0);
            assert(gate_fails_at(t2, g, anchor));
        }
    }
}

/// Law: a mutated table is rejected. Any single-cell mutation of an honestly
/// assigned table, checked with the factorial gate and any copy-constraint
/// list containing the seed binding, fails verification: by `verify`'s
/// contract the violation list is not empty.
pub proof fn lemma_mutation_rejected(
    t: Table,
    t2: Table,
    g: Gate,
    cs: Seq<CopyConstraint>,
    seed: nat,
    n: int,
    col: int,
    row: int,
)
    requires
        assigned(t, seed, n),
        is_factorial_gate(g),
        0 <= col < 2,
        0 <= row < n,
        t2.wf(),
        t2.same_but_cell(t, col, row),
        t2.cell_val(col, row) != t.cell_val(col, row),
        cs.contains(CopyConstraint { col: 0usize, row: 0usize, instance_row: 0usize }),
    ensures
        !accept(t2, seq![g], cs),
{
    lemma_mutation_detected(t, t2, g, seed, n, col, row);
    if col == 0 && row == 0 {
        let c0 = CopyConstraint { col: 0usize, row: 0usize, instance_row: 0usize };
        let k = choose|k: int| 0 <= k < cs.len() && cs[k] == c0;
        assert(!copies_ok(t2, cs)) by {
            assert(!cs[k].holds(t2));
        }
    } else {
        let anchor = if row == 0 { 0int } else { row - 1 };
        assert(gate_fails_at(t2, g, anchor));
        assert(t2.n_rows == n);
        assert(!gate_row_ok(t2, seq![g][0], anchor));
        assert(!gates_ok(t2, seq![g]));
    }
}

} // verus!
