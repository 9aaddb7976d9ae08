//! The constraint verifier.
//!
//! For every row and every declared gate: wherever a gate's selector is on,
//! every one of that gate's expressions must evaluate to the additive
//! identity there. Then every recorded copy constraint must hold exactly.
//! The scan over rows short-circuits on the first violating row found per
//! gate — one reported violation per failing gate — but the verdict `accept`
//! is yielded only when no violation exists anywhere.

use vstd::prelude::*;
use crate::field::{fp_eq, fp_zero};
use crate::expr::{eval, eval_spec, gate_wf, Gate};
use crate::table::{CopyConstraint, Table};

verus! {

/// A reported constraint failure: a proof built from the table would be
/// rejected. Gates are referenced by their index in the declared gate list.
#[derive(Clone, Copy, Debug, PartialEq, Eq, Structural)]
pub enum Violation {
    /// Some expression of a gate does not vanish at the row although that
    /// gate's selector is on there.
    Gate { gate: usize, row: usize },
    /// The advice cell `(col, row)` differs from the public instance value
    /// at `instance_row`.
    Copy { col: usize, row: usize, instance_row: usize },
}

/// A row satisfies a gate: wherever its selector is on, every one of
/// its expressions evaluates to the additive identity.
pub open spec fn gate_row_ok(t: Table, g: Gate, row: int) -> bool {
    t.sel_on(g.selector as int, row) ==> forall|i: int|
        0 <= i < g.polys@.len() ==> eval_spec(#[trigger] g.polys@[i], t, row) == 0
}

/// A gate fails at a row: its selector is on and some expression of it does
/// not vanish.
pub open spec fn gate_fails_at(t: Table, g: Gate, row: int) -> bool {
    t.sel_on(g.selector as int, row) && exists|i: int|
        0 <= i < g.polys@.len() && eval_spec(#[trigger] g.polys@[i], t, row) != 0
}

/// Every gate holds on every row of the table.
pub open spec fn gates_ok(t: Table, gs: Seq<Gate>) -> bool {
    forall|g: int, row: int|
        0 <= g < gs.len() && 0 <= row < t.n_rows ==> #[trigger] gate_row_ok(t, gs[g], row)
}

/// Every recorded copy constraint holds.
pub open spec fn copies_ok(t: Table, cs: Seq<CopyConstraint>) -> bool {
    forall|k: int| 0 <= k < cs.len() ==> (#[trigger] cs[k]).holds(t)
}

/// The table satisfies every gate on every row and every copy constraint,
/// so the verifier accepts it.
pub open spec fn accept(t: Table, gs: Seq<Gate>, cs: Seq<CopyConstraint>) -> bool {
    gates_ok(t, gs) && copies_ok(t, cs)
}

/// The first row at or after `from` where a gate fails, if any.
pub open spec fn first_gate_fail_from(t: Table, g: Gate, from: int) -> Option<int>
    decreases t.n_rows - from,
{
    if from < 0 || from >= t.n_rows {
        None
    } else if gate_fails_at(t, g, from) {
        Some(from)
    } else {
        first_gate_fail_from(t, g, from + 1)
    }
}

/// A reported violation names a genuine failure in the table.
pub open spec fn violation_real(
    t: Table,
    gs: Seq<Gate>,
    cs: Seq<CopyConstraint>,
    v: Violation,
) -> bool {
    match v {
        Violation::Gate { gate, row } => gate < gs.len() && gate_fails_at(
            t,
            gs[gate as int],
            row as int,
        ),
        Violation::Copy { col, row, instance_row } => {
            &&& col < t.advice@.len()
            &&& row < t.n_rows
            &&& instance_row < t.instance@.len()
            &&& t.cell_val(col as int, row as int) != t.inst_val(instance_row as int)
        },
    }
}

/// `first_gate_fail_from` finds exactly the first failing row at or after
/// `from`, and finds none exactly when no row from there on fails.
pub proof fn lemma_first_fail_char(t: Table, g: Gate, from: int)
    requires
        0 <= from,
    ensures
        (first_gate_fail_from(t, g, from) is None) <==> (forall|r: int|
            from <= r < t.n_rows ==> !gate_fails_at(t, g, r)),
        first_gate_fail_from(t, g, from) matches Some(r0) ==> from <= r0 < t.n_rows
            && gate_fails_at(t, g, r0),
    decreases t.n_rows - from,
{
    if from < t.n_rows && !gate_fails_at(t, g, from) {
        lemma_first_fail_char(t, g, from + 1);
    }
}

/// Scans the rows in order and returns the first row where a gate fails,
/// or nothing if that gate holds everywhere.
fn first_gate_failure(t: &Table, g: &Gate) -> (r: Option<usize>)
    requires
        t.wf(),
        gate_wf(*g, *t),
    ensures
        match r {
            Some(row) => first_gate_fail_from(*t, *g, 0) == Some(row as int),
            None => first_gate_fail_from(*t, *g, 0) is None,
        },
{
    let zero = fp_zero();
    let mut row: usize = 0;
    while row < t.n_rows
        invariant
            t.wf(),
            gate_wf(*g, *t),
            row <= t.n_rows,
            first_gate_fail_from(*t, *g, 0) == first_gate_fail_from(*t, *g, row as int),
            crate::field::fp_val(zero) == 0,
            crate::field::fp_inv(zero),
        decreases t.n_rows - row,
    {
        proof {
            assert(t.selectors@[g.selector as int]@.len() == t.n_rows);
        }
        if t.selectors[g.selector][row] {
            proof {
                assert(t.sel_on(g.selector as int, row as int));
            }
            let mut i: usize = 0;
            let mut bad: bool = false;
            while i < g.polys.len()
                invariant
                    t.wf(),
                    gate_wf(*g, *t),
                    row + 1 < t.n_rows,
                    i <= g.polys@.len(),
                    crate::field::fp_val(zero) == 0,
                    crate::field::fp_inv(zero),
                    bad <==> exists|j: int|
                        0 <= j < i && eval_spec(#[trigger] g.polys@[j], *t, row as int) != 0,
                decreases g.polys@.len() - i,
            {
                let v = eval(&g.polys[i], t, row);
                if !fp_eq(&v, &zero) {
                    proof {
                        assert(eval_spec(g.polys@[i as int], *t, row as int) != 0);
                    }
                    bad = true;
                }
                i = i + 1;
            }
            if bad {
                proof {
                    assert(gate_fails_at(*t, *g, row as int));
                    assert(first_gate_fail_from(*t, *g, row as int) == Some(row as int));
                }
                return Some(row);
            }
            proof {
                assert(!gate_fails_at(*t, *g, row as int));
            }
        } else {
            proof {
                assert(!gate_fails_at(*t, *g, row as int));
            }
        }
        row = row + 1;
    }
    None
}

/// Evaluates every declared gate at every row of the fully assigned table
/// and checks every bound copy constraint; returns the list of violations,
/// empty exactly when the table is accepted. Per gate, at most the first
/// failing row is reported; every copy-constraint mismatch is reported.
pub fn verify(t: &Table, gates: &Vec<Gate>, copies: &Vec<CopyConstraint>) -> (out: Vec<Violation>)
    requires
        t.wf(),
        forall|g: int| 0 <= g < gates@.len() ==> gate_wf(#[trigger] gates@[g], *t),
        forall|k: int| 0 <= k < copies@.len() ==> (#[trigger] copies@[k]).wf(*t),
    ensures
        (out@.len() == 0) <==> accept(*t, gates@, copies@),
        forall|g: int|
            0 <= g < gates@.len() ==> (match first_gate_fail_from(*t, #[trigger] gates@[g], 0) {
                Some(r) => out@.contains(
                    Violation::Gate { gate: g as usize, row: r as usize },
                ),
                None => true,
            }),
        forall|k: int|
            0 <= k < copies@.len() && !(#[trigger] copies@[k]).holds(*t) ==> out@.contains(
                Violation::Copy {
                    col: copies@[k].col,
                    row: copies@[k].row,
                    instance_row: copies@[k].instance_row,
                },
            ),
        forall|i: int|
            0 <= i < out@.len() ==> violation_real(*t, gates@, copies@, #[trigger] out@[i]),
{
    let mut out: Vec<Violation> = Vec::new();
    let mut g: usize = 0;
    while g < gates.len()
        invariant
            t.wf(),
            forall|g2: int| 0 <= g2 < gates@.len() ==> gate_wf(#[trigger] gates@[g2], *t),
            forall|k: int| 0 <= k < copies@.len() ==> (#[trigger] copies@[k]).wf(*t),
            g <= gates@.len(),
            (out@.len() == 0) <==> (forall|g2: int|
                0 <= g2 < g ==> first_gate_fail_from(*t, #[trigger] gates@[g2], 0) is None),
            forall|g2: int|
                0 <= g2 < g ==> (match first_gate_fail_from(*t, #[trigger] gates@[g2], 0) {
                    Some(r) => out@.contains(
                        Violation::Gate { gate: g2 as usize, row: r as usize },
                    ),
                    None => true,
                }),
            forall|i: int|
                0 <= i < out@.len() ==> violation_real(*t, gates@, copies@, #[trigger] out@[i]),
        decreases gates@.len() - g,
    {
        let ghost old_out = out@;
        match first_gate_failure(t, &gates[g]) {
            Some(row) => {
                proof {
                    lemma_first_fail_char(*t, gates@[g as int], 0);
                }
                out.push(Violation::Gate { gate: g, row });
                proof {
                    assert forall|y: Violation| old_out.contains(y) implies out@.contains(y) by {
                        let i = choose|i: int| 0 <= i < old_out.len() && old_out[i] == y;
                        assert(out@[i] == y);
                    }
                    assert(out@[old_out.len() as int] == (Violation::Gate { gate: g, row }));
                    assert(out@.contains(Violation::Gate { gate: g, row }));
                }
            },
            None => {},
        }
        g = g + 1;
    }
    let ghost gates_done = out@;
    let mut k: usize = 0;
    while k < copies.len()
        invariant
            t.wf(),
            forall|g2: int| 0 <= g2 < gates@.len() ==> gate_wf(#[trigger] gates@[g2], *t),
            forall|k2: int| 0 <= k2 < copies@.len() ==> (#[trigger] copies@[k2]).wf(*t),
            k <= copies@.len(),
            (out@.len() == 0) <==> ((forall|g2: int|
                0 <= g2 < gates@.len() ==> first_gate_fail_from(*t, #[trigger] gates@[g2], 0)
                    is None) && (forall|k2: int| 0 <= k2 < k ==> (#[trigger] copies@[k2]).holds(
                *t,
            ))),
            forall|g2: int|
                0 <= g2 < gates@.len() ==> (match first_gate_fail_from(
                    *t,
                    #[trigger] gates@[g2],
                    0,
                ) {
                    Some(r) => out@.contains(
                        Violation::Gate { gate: g2 as usize, row: r as usize },
                    ),
                    None => true,
                }),
            forall|k2: int|
                0 <= k2 < k && !(#[trigger] copies@[k2]).holds(*t) ==> out@.contains(
                    Violation::Copy {
                        col: copies@[k2].col,
                        row: copies@[k2].row,
                        instance_row: copies@[k2].instance_row,
                    },
                ),
            forall|i: int|
                0 <= i < out@.len() ==> violation_real(*t, gates@, copies@, #[trigger] out@[i]),
        decreases copies@.len() - k,
    {
        let c = copies[k];
        let av = t.cell(c.col, c.row);
        proof {
            assert(crate::field::fp_inv(t.instance@[c.instance_row as int]));
        }
        let iv = t.instance[c.instance_row];
        let ghost old_out = out@;
        if !fp_eq(&av, &iv) {
            out.push(Violation::Copy { col: c.col, row: c.row, instance_row: c.instance_row });
            proof {
                assert forall|y: Violation| old_out.contains(y) implies out@.contains(y) by {
                    let i = choose|i: int| 0 <= i < old_out.len() && old_out[i] == y;
                    assert(out@[i] == y);
                }
                assert(out@[old_out.len() as int] == (Violation::Copy {
                    col: c.col,
                    row: c.row,
                    instance_row: c.instance_row,
                }));
                assert(out@.contains(
                    Violation::Copy { col: c.col, row: c.row, instance_row: c.instance_row },
                ));
            }
        }
        k = k + 1;
    }
    proof {
        assert forall|g2: int| 0 <= g2 < gates@.len() implies ((first_gate_fail_from(
            *t,
            gates@[g2],
            0,
        ) is None) <==> (forall|row: int|
            0 <= row < t.n_rows ==> gate_row_ok(*t, gates@[g2], row))) by {
            lemma_first_fail_char(*t, gates@[g2], 0);
            assert forall|row: int| 0 <= row < t.n_rows implies (!gate_fails_at(
                *t,
                gates@[g2],
                row,
            ) <==> gate_row_ok(*t, gates@[g2], row)) by {}
        }
    }
    out
}

} // verus!
