//! Grid values: either a known field element or `Unknown`.
//!
//! `Unknown` models the structural pass, where no witness exists yet.  All
//! arithmetic on `Unknown` propagates `Unknown`, and an `Unknown` value never
//! participates in a satisfaction check.  A value is modelled as an
//! `Option<int>`: the canonical representative of the element, if known.

use vstd::prelude::*;
use crate::field::{fadd, fe_add, fe_clone, fe_mul, fe_neg, fe_val, fmul, fneg};

verus! {

pub enum Val {
    Known(pasta_curves::Fp),
    Unknown,
}

impl View for Val {
    type V = Option<int>;

    open spec fn view(&self) -> Option<int> {
        match self {
            Val::Known(f) => Some(fe_val(*f)),
            Val::Unknown => None,
        }
    }
}

pub open spec fn lift_neg(a: Option<int>) -> Option<int> {
    match a {
        Some(x) => Some(fneg(x)),
        None => None,
    }
}

pub open spec fn lift_add(a: Option<int>, b: Option<int>) -> Option<int> {
    match (a, b) {
        (Some(x), Some(y)) => Some(fadd(x, y)),
        _ => None,
    }
}

pub open spec fn lift_mul(a: Option<int>, b: Option<int>) -> Option<int> {
    match (a, b) {
        (Some(x), Some(y)) => Some(fmul(x, y)),
        _ => None,
    }
}

pub fn val_clone(v: &Val) -> (r: Val)
    ensures
        r@ == v@,
{
    match v {
        Val::Known(f) => Val::Known(fe_clone(f)),
        Val::Unknown => Val::Unknown,
    }
}

pub fn val_neg(v: &Val) -> (r: Val)
    ensures
        r@ == lift_neg(v@),
{
    match v {
        Val::Known(f) => Val::Known(fe_neg(f)),
        Val::Unknown => Val::Unknown,
    }
}

pub fn val_add(a: &Val, b: &Val) -> (r: Val)
    ensures
        r@ == lift_add(a@, b@),
{
    match (a, b) {
        (Val::Known(x), Val::Known(y)) => Val::Known(fe_add(x, y)),
        _ => Val::Unknown,
    }
}

pub fn val_mul(a: &Val, b: &Val) -> (r: Val)
    ensures
        r@ == lift_mul(a@, b@),
{
    match (a, b) {
        (Val::Known(x), Val::Known(y)) => Val::Known(fe_mul(x, y)),
        _ => Val::Unknown,
    }
}

} // verus!
