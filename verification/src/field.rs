//! The boundary to the finite field.
//!
//! Cell values live in the Pallas base field, supplied by `pasta_curves`
//! through `halo2_proofs`. The engine needs only the additive and
//! multiplicative identities, addition, subtraction, multiplication and
//! equality, so exactly those are declared here. Contracts speak of the
//! canonical residue of an element, a natural number below the modulus.

use vstd::prelude::*;
use halo2_proofs::pasta::Fp;

verus! {

#[verifier::external_type_specification]
#[verifier::external_body]
pub struct ExFp(Fp);

/// The order of the Pallas base field, as `pasta_curves` documents it:
/// p = 0x40000000000000000000000000000000224698fc094cf91b992d30ed00000001.
pub open spec fn field_modulus() -> nat {
    0x40000000000000000000000000000000 * 0x10000000000000000 * 0x10000000000000000
        + 0x224698fc094cf91b992d30ed00000001
}

/// The canonical residue a field element stands for. `pasta_curves` keeps
/// elements in Montgomery form; this names the number an element denotes,
/// which is below the modulus for every element the crate ever handles.
pub uninterp spec fn fp_val(x: Fp) -> nat;

/// A field element in canonical range. Every element produced by the
/// operations below satisfies this.
pub open spec fn fp_inv(x: Fp) -> bool {
    fp_val(x) < field_modulus()
}

/// Addition of residues.
pub open spec fn add_p(a: nat, b: nat) -> nat {
    (a + b) % field_modulus()
}

/// Subtraction of residues (total; meaningful for residues below the modulus).
pub open spec fn sub_p(a: nat, b: nat) -> nat {
    (((a + field_modulus()) - b) % (field_modulus() as int)) as nat
}

/// Multiplication of residues.
pub open spec fn mul_p(a: nat, b: nat) -> nat {
    (a * b) % field_modulus()
}

/// Relies on `Fp::zero`: the additive identity, residue 0.
#[verifier::external_body]
pub(crate) fn fp_zero() -> (r: Fp)
    ensures
        fp_val(r) == 0,
        fp_inv(r),
{
    Fp::zero()
}

/// Relies on `Fp::one`: the multiplicative identity, residue 1.
#[verifier::external_body]
pub(crate) fn fp_one() -> (r: Fp)
    ensures
        fp_val(r) == 1,
        fp_inv(r),
{
    Fp::one()
}

/// Relies on `<Fp as From<u64>>::from`: the canonical embedding of a 64-bit
/// integer, which is below the modulus, so no reduction happens.
#[verifier::external_body]
pub(crate) fn fp_from_u64(x: u64) -> (r: Fp)
    ensures
        fp_val(r) == x as nat,
        fp_inv(r),
{
    Fp::from(x)
}

/// Relies on `Add for &Fp`: field addition, reduced to canonical range.
#[verifier::external_body]
pub(crate) fn fp_add(a: &Fp, b: &Fp) -> (r: Fp)
    requires
        fp_inv(*a),
        fp_inv(*b),
    ensures
        fp_val(r) == add_p(fp_val(*a), fp_val(*b)),
        fp_inv(r),
{
    a + b
}

/// Relies on `Sub for &Fp`: field subtraction, reduced to canonical range.
#[verifier::external_body]
pub(crate) fn fp_sub(a: &Fp, b: &Fp) -> (r: Fp)
    requires
        fp_inv(*a),
        fp_inv(*b),
    ensures
        fp_val(r) == sub_p(fp_val(*a), fp_val(*b)),
        fp_inv(r),
{
    a - b
}

/// Relies on `Mul for &Fp`: field multiplication, reduced to canonical range.
#[verifier::external_body]
pub(crate) fn fp_mul(a: &Fp, b: &Fp) -> (r: Fp)
    requires
        fp_inv(*a),
        fp_inv(*b),
    ensures
        fp_val(r) == mul_p(fp_val(*a), fp_val(*b)),
        fp_inv(r),
{
    a * b
}

/// Relies on `PartialEq for Fp`: two elements are equal exactly when they
/// denote the same residue (the Montgomery form of a residue is unique).
#[verifier::external_body]
pub(crate) fn fp_eq(a: &Fp, b: &Fp) -> (r: bool)
    requires
        fp_inv(*a),
        fp_inv(*b),
    ensures
        r <==> fp_val(*a) == fp_val(*b),
{
    a == b
}

/// A residue difference vanishes exactly on equal residues.
pub proof fn lemma_sub_p_zero(a: nat, b: nat)
    requires
        a < field_modulus(),
        b < field_modulus(),
    ensures
        (sub_p(a, b) == 0) <==> (a == b),
{
    let m = field_modulus() as int;
    let v = (a + field_modulus()) - b;
    if a == b {
        vstd::arithmetic::div_mod::lemma_mod_self_0(m);
    } else if v < m {
        vstd::arithmetic::div_mod::lemma_small_mod((v) as nat, field_modulus());
    } else {
        vstd::arithmetic::div_mod::lemma_mod_multiples_vanish(1, v - m, m);
        vstd::arithmetic::div_mod::lemma_small_mod((v - m) as nat, field_modulus());
    }
}

/// Subtracting one and adding one back round-trips on canonical residues.
pub proof fn lemma_sub_then_add_one(x: nat)
    requires
        x < field_modulus(),
    ensures
        add_p(sub_p(x, 1), 1) == x,
{
    let m = field_modulus() as int;
    if x >= 1 {
        vstd::arithmetic::div_mod::lemma_mod_multiples_vanish(1, x - 1, m);
        vstd::arithmetic::div_mod::lemma_small_mod((x - 1) as nat, field_modulus());
        vstd::arithmetic::div_mod::lemma_small_mod(x, field_modulus());
    } else {
        vstd::arithmetic::div_mod::lemma_small_mod((m - 1) as nat, field_modulus());
        vstd::arithmetic::div_mod::lemma_mod_self_0(m);
    }
}

/// A canonical residue is its own remainder.
pub proof fn lemma_mod_small(a: nat)
    requires
        a < field_modulus(),
    ensures
        a % field_modulus() == a,
{
    vstd::arithmetic::div_mod::lemma_small_mod(a, field_modulus());
}

} // verus!
