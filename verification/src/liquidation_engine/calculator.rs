//! Close-factor and liquidation bonus calculations.
//!
//! Token amounts and USD prices are 18-decimal fixed point; basis-point
//! parameters are `1/10000`.
use vstd::prelude::*;
use crate::big_nat::{div_u128, from_u128, mul_small, mul_u128};
use crate::fixed_point::in_i128;
use super::LiquidationError;

verus! {

/// `debt_amount * debt_price / collateral_price`: the repaid debt valued in
/// units of the collateral, for positive operands.
pub open spec fn collateral_value(debt_amount: int, debt_price: int, collateral_price: int) -> int {
    (debt_amount * debt_price) / collateral_price
}

/// The collateral a liquidator receives for positive operands:
/// `debt_amount * debt_price * (10000 + bonus) / (collateral_price * 10000)`,
/// computed exactly and rounded down once.
pub open spec fn seize_value(
    debt_amount: int,
    debt_price: int,
    collateral_price: int,
    liquidation_bonus: u32,
) -> int {
    (debt_amount * (debt_price * (10_000 + liquidation_bonus))) / (collateral_price * 10_000)
}

/// The error `calculate_collateral_to_seize` reports, if any, checked in
/// order: the debt amount, the collateral price, the debt price, then
/// whether the result fits in `i128` (the intermediate products are exact
/// and never overflow).
pub open spec fn seize_error(
    debt_amount: int,
    debt_price: int,
    collateral_price: int,
    liquidation_bonus: u32,
) -> Option<LiquidationError> {
    if debt_amount <= 0 {
        Some(LiquidationError::NonPositiveDebtAmount)
    } else if collateral_price <= 0 {
        Some(LiquidationError::NonPositiveCollateralPrice)
    } else if debt_price <= 0 {
        Some(LiquidationError::NonPositiveDebtPrice)
    } else if !in_i128(seize_value(debt_amount, debt_price, collateral_price, liquidation_bonus)) {
        Some(LiquidationError::Overflow)
    } else {
        None
    }
}

/// Maximum debt a single liquidation may repay: half of the outstanding
/// debt (rounded down), and nothing when there is no debt.
pub open spec fn close_factor(total_debt: int) -> int {
    if total_debt <= 0 {
        0
    } else {
        total_debt / 2
    }
}

/// Computes the amount of collateral a liquidator is entitled to receive:
/// `debt_amount * debt_price * (10000 + liquidation_bonus) / (collateral_price * 10000)`.
pub fn calculate_collateral_to_seize(
    debt_amount: i128,
    debt_price: i128,
    collateral_price: i128,
    liquidation_bonus: u32,
) -> (r: Result<i128, LiquidationError>)
    ensures
        match r {
            Ok(v) => seize_error(
                debt_amount as int,
                debt_price as int,
                collateral_price as int,
                liquidation_bonus,
            ) is None && v == seize_value(
                debt_amount as int,
                debt_price as int,
                collateral_price as int,
                liquidation_bonus,
            ),
            Err(e) => seize_error(
                debt_amount as int,
                debt_price as int,
                collateral_price as int,
                liquidation_bonus,
            ) == Some(e),
        },
{
    if debt_amount <= 0 {
        return Err(LiquidationError::NonPositiveDebtAmount);
    }
    if collateral_price <= 0 {
        return Err(LiquidationError::NonPositiveCollateralPrice);
    }
    if debt_price <= 0 {
        return Err(LiquidationError::NonPositiveDebtPrice);
    }
    let weight: u64 = 10_000 + liquidation_bonus as u64;
    let debt_value = mul_u128(&from_u128(debt_amount as u128), debt_price as u128);
    let numerator = mul_small(&debt_value, weight);
    let denominator = mul_small(&from_u128(collateral_price as u128), 10_000);
    proof {
        assert(debt_amount * debt_price * weight == debt_amount * (debt_price * weight))
            by (nonlinear_arith);
        assert(collateral_price * 10_000 > 0) by (nonlinear_arith)
            requires
                collateral_price > 0,
        ;
    }
    match div_u128(&numerator, &denominator) {
        Some(q) => {
            if q <= 0x7fff_ffff_ffff_ffff_ffff_ffff_ffff_ffff {
                Ok(q as i128)
            } else {
                Err(LiquidationError::Overflow)
            }
        },
        None => Err(LiquidationError::Overflow),
    }
}

/// Applies the 50% close factor to a borrower's total outstanding debt.
pub fn apply_close_factor(total_debt: i128) -> (r: i128)
    ensures
        r == close_factor(total_debt as int),
{
    if total_debt <= 0 {
        return 0;
    }
    total_debt / 2
}

} // verus!
