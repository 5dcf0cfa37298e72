//! Fixed-point helpers of the interest rate model.
use vstd::prelude::*;
use crate::fixed_point::{checked_mul_div, mul_div_defined, mul_div_value, SCALE, BASIS_POINTS};

verus! {

/// Value of `bp` basis points in 18-decimal fixed point.
pub open spec fn bp_value(bp: u32) -> int {
    (bp as int) * (SCALE as int) / (BASIS_POINTS as int)
}

/// Converts a basis-point value (`1/10000`) into 18-decimal fixed point.
pub fn from_basis_points(bp: u32) -> (r: i128)
    ensures
        r == bp_value(bp),
        r == bp * 100_000_000_000_000,
{
    assert((bp as int) * 1_000_000_000_000_000_000 / 10_000 == (bp as int) * 100_000_000_000_000) by (nonlinear_arith);
    (bp as i128) * SCALE / BASIS_POINTS
}

/// Computes `(a * b) / denom`, rounding toward zero; the caller guarantees
/// that the divisor is not zero and that nothing overflows.
pub fn mul_div(a: i128, b: i128, denom: i128) -> (r: i128)
    requires
        mul_div_defined(a as int, b as int, denom as int),
    ensures
        r == mul_div_value(a as int, b as int, denom as int),
{
    match checked_mul_div(a, b, denom) {
        Some(v) => v,
        None => 0,
    }
}

} // verus!

verus! {

/// A basis-point value is that many units of `1e14`.
pub proof fn lemma_bp_value(bp: u32)
    ensures
        bp_value(bp) == bp * 100_000_000_000_000,
        0 <= bp_value(bp),
{
    assert((bp as int) * 1_000_000_000_000_000_000 / 10_000 == (bp as int) * 100_000_000_000_000)
        by (nonlinear_arith);
}

} // verus!
