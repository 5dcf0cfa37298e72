//! Fixed-point helpers of the lending pool (18-decimal, `i128`-based).
use vstd::prelude::*;
use crate::fixed_point::{checked_mul_div, mul_div_defined, mul_div_value};

verus! {

/// Fixed-point scale: `1e18` is `1.0`.
pub const SCALE: i128 = 1_000_000_000_000_000_000i128;

/// Computes `(a * b) / c`, rounding toward zero; the caller guarantees that
/// the divisor is not zero and that the product and the quotient fit in
/// `i128`.
pub fn mul_div(a: i128, b: i128, c: i128) -> (r: i128)
    requires
        mul_div_defined(a as int, b as int, c as int),
    ensures
        r == mul_div_value(a as int, b as int, c as int),
{
    match checked_mul_div(a, b, c) {
        Some(v) => v,
        None => 0,
    }
}

} // verus!
