//! The trusted boundary around the field capability.
//!
//! Field elements are values of `pasta_curves::Fp`, the Pallas base field.
//! The crate never looks inside one: every element is modelled by the
//! canonical integer it stands for, `fe_val`, and the handful of arithmetic
//! operations the checker needs are wrapped here with contracts phrased as
//! integer arithmetic modulo the field order.

use vstd::prelude::*;
use vstd::arithmetic::div_mod::{
    lemma_add_mod_noop_right, lemma_fundamental_div_mod_converse_mod, lemma_mod_bound,
    lemma_small_mod,
};

verus! {

#[verifier::external_type_specification]
#[verifier::external_body]
pub struct ExFp(pasta_curves::Fp);

/// The canonical integer in `[0, fp_order)` that a field element stands for.
pub uninterp spec fn fe_val(a: pasta_curves::Fp) -> int;

/// The order of the Pallas base field.
pub open spec fn fp_order() -> int {
    0x40000000000000000000000000000000224698fc094cf91b992d30ed00000001int
}

pub open spec fn fadd(a: int, b: int) -> int {
    (a + b) % fp_order()
}

pub open spec fn fsub(a: int, b: int) -> int {
    (a - b) % fp_order()
}

pub open spec fn fmul(a: int, b: int) -> int {
    (a * b) % fp_order()
}

pub open spec fn fneg(a: int) -> int {
    (-a) % fp_order()
}

/// Relies on `Add for pasta_curves::Fp`: addition in the field, on canonical
/// representatives.
#[verifier::external_body]
pub fn fe_add(a: &pasta_curves::Fp, b: &pasta_curves::Fp) -> (r: pasta_curves::Fp)
    ensures
        fe_val(r) == fadd(fe_val(*a), fe_val(*b)),
{
    *a + *b
}

/// Relies on `Mul for pasta_curves::Fp`: multiplication in the field, on
/// canonical representatives.
#[verifier::external_body]
pub fn fe_mul(a: &pasta_curves::Fp, b: &pasta_curves::Fp) -> (r: pasta_curves::Fp)
    ensures
        fe_val(r) == fmul(fe_val(*a), fe_val(*b)),
{
    *a * *b
}

/// Relies on `Neg for pasta_curves::Fp`: additive inverse in the field.
#[verifier::external_body]
pub fn fe_neg(a: &pasta_curves::Fp) -> (r: pasta_curves::Fp)
    ensures
        fe_val(r) == fneg(fe_val(*a)),
{
    -*a
}

/// Relies on `Clone for pasta_curves::Fp`: a copy stands for the same
/// integer.
#[verifier::external_body]
pub fn fe_clone(a: &pasta_curves::Fp) -> (r: pasta_curves::Fp)
    ensures
        fe_val(r) == fe_val(*a),
{
    a.clone()
}

/// Relies on `PartialEq for pasta_curves::Fp`: elements are kept in reduced
/// form, so representation equality is equality of canonical representatives.
#[verifier::external_body]
pub fn fe_eq(a: &pasta_curves::Fp, b: &pasta_curves::Fp) -> (r: bool)
    ensures
        r == (fe_val(*a) == fe_val(*b)),
{
    *a == *b
}

/// Relies on `PartialEq for pasta_curves::Fp` and `ff::Field::ZERO`, the
/// additive identity, whose canonical representative is zero.
#[verifier::external_body]
pub fn fe_is_zero(a: &pasta_curves::Fp) -> (r: bool)
    ensures
        r == (fe_val(*a) == 0),
{
    *a == <pasta_curves::Fp as ff::Field>::ZERO
}

/// Adding the additive inverse is subtraction in the field.
pub proof fn lemma_fadd_fneg(x: int, y: int)
    ensures
        fadd(x, fneg(y)) == fsub(x, y),
{
    lemma_add_mod_noop_right(x, -y, fp_order());
}

/// A difference of two canonical representatives vanishes modulo the field
/// order exactly when they are the same integer.
pub proof fn lemma_fsub_eq_zero(x: int, y: int)
    requires
        0 <= x < fp_order(),
        0 <= y < fp_order(),
    ensures
        (fsub(x, y) == 0) <==> (x == y),
{
    if x == y {
        lemma_small_mod(0, fp_order() as nat);
    } else if x > y {
        lemma_small_mod((x - y) as nat, fp_order() as nat);
    } else {
        lemma_fundamental_div_mod_converse_mod(x - y, fp_order(), -1, x - y + fp_order());
    }
}

/// A product reduced modulo the field order is a canonical representative.
pub proof fn lemma_fmul_bound(x: int, y: int)
    ensures
        0 <= fmul(x, y) < fp_order(),
{
    lemma_mod_bound(x * y, fp_order());
}

} // verus!
