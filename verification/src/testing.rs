//! Assertion helpers for approximate vector equality.
//!
//! In verified code an assertion is a proof obligation, not a runtime
//! check: these helpers demand their condition up front, so calling one
//! is exactly asserting it, discharged by the verifier. Code outside the
//! verifier should branch on [`crate::vec::approx_eq`] instead.

use crate::fixed::Fx;
use crate::vec::{v_len, v_sub, Vec3, APPROX_ERROR_RAW};
use vstd::prelude::*;

verus! {

/// Assert that `a` and `b` differ by a vector shorter than `error`.
pub fn assert_approx_eq_error(a: Vec3, b: Vec3, error: Fx)
    requires
        v_len(v_sub(a@, b@)) < error@,
{
}

/// Assert that `a` and `b` differ by less than the default tolerance.
pub fn assert_approx_eq(a: Vec3, b: Vec3)
    requires
        v_len(v_sub(a@, b@)) < APPROX_ERROR_RAW as int,
{
    assert_approx_eq_error(a, b, Fx { raw: APPROX_ERROR_RAW });
}

} // verus!
