//! Decisions of the liquidation engine: when a position may be liquidated,
//! how much of its debt a liquidation repays, and how much collateral the
//! liquidator receives for it.
pub mod calculator;
pub mod laws;

use vstd::prelude::*;
use crate::fixed_point::SCALE;
use self::calculator::{
    apply_close_factor, calculate_collateral_to_seize, close_factor, seize_error, seize_value,
};

verus! {

/// The liquidation engine; it holds no state of its own besides the
/// address of the pool it serves.
#[derive(Clone, Copy, Debug, PartialEq, Eq)]
pub struct LiquidationEngine;

/// Why a liquidation is refused.
#[derive(Clone, Copy, Debug, PartialEq, Eq)]
pub enum LiquidationError {
    NonPositiveDebtAmount,
    NonPositiveCollateralPrice,
    NonPositiveDebtPrice,
    Overflow,
    NotLiquidatable,
    NoLiquidatableDebt,
}

impl LiquidationError {
    /// The text of `message`.
    pub open spec fn message_text(self) -> Seq<char> {
        match self {
            LiquidationError::NonPositiveDebtAmount => "LiquidationEngine: debt amount must be positive"@,
            LiquidationError::NonPositiveCollateralPrice => "LiquidationEngine: collateral price must be positive"@,
            LiquidationError::NonPositiveDebtPrice => "LiquidationEngine: debt price must be positive"@,
            LiquidationError::Overflow => "LiquidationEngine: fixed-point arithmetic overflow"@,
            LiquidationError::NotLiquidatable => "LiquidationEngine: position is not liquidatable"@,
            LiquidationError::NoLiquidatableDebt => "LiquidationEngine: no liquidatable debt"@,
        }
    }

    /// The message with which the contract aborts on this error.
    pub fn message(&self) -> (r: &'static str)
        ensures
            r@ == self.message_text(),
    {
        match self {
            LiquidationError::NonPositiveDebtAmount => "LiquidationEngine: debt amount must be positive",
            LiquidationError::NonPositiveCollateralPrice => "LiquidationEngine: collateral price must be positive",
            LiquidationError::NonPositiveDebtPrice => "LiquidationEngine: debt price must be positive",
            LiquidationError::Overflow => "LiquidationEngine: fixed-point arithmetic overflow",
            LiquidationError::NotLiquidatable => "LiquidationEngine: position is not liquidatable",
            LiquidationError::NoLiquidatableDebt => "LiquidationEngine: no liquidatable debt",
        }
    }
}

/// What a liquidation repays and seizes.
#[derive(Clone, Copy, Debug, PartialEq, Eq)]
pub struct LiquidationPlan {
    /// Debt of the borrower that the liquidator repays.
    pub debt_amount: i128,
    /// Collateral moved from the borrower to the liquidator.
    pub collateral_amount: i128,
}

/// The debt a liquidation of `debt_amount` repays: the request capped at
/// the close factor of the outstanding debt.
pub open spec fn capped_debt(debt_amount: int, outstanding: int) -> int {
    if debt_amount > close_factor(outstanding) {
        close_factor(outstanding)
    } else {
        debt_amount
    }
}

/// The error a liquidation request meets before prices are involved.
pub open spec fn liquidation_amount_error(debt_amount: int, health_factor: int, outstanding: int) -> Option<
    LiquidationError,
> {
    if debt_amount <= 0 {
        Some(LiquidationError::NonPositiveDebtAmount)
    } else if health_factor >= SCALE {
        Some(LiquidationError::NotLiquidatable)
    } else if capped_debt(debt_amount, outstanding) <= 0 {
        Some(LiquidationError::NoLiquidatableDebt)
    } else {
        None
    }
}

impl LiquidationEngine {
    /// A position is liquidatable when its health factor is below 1.0.
    pub fn is_liquidatable(health_factor: i128) -> (r: bool)
        ensures
            r == (health_factor < SCALE),
    {
        health_factor < SCALE
    }

    /// The most debt a liquidator may repay in one transaction.
    pub fn max_liquidatable_amount(outstanding: i128) -> (r: i128)
        ensures
            r == close_factor(outstanding as int),
    {
        apply_close_factor(outstanding)
    }

    /// Checks a liquidation request against the borrower's health factor
    /// and outstanding debt, and returns the debt it repays.
    pub fn liquidation_amount(debt_amount: i128, health_factor: i128, outstanding: i128) -> (r:
        Result<i128, LiquidationError>)
        ensures
            match r {
                Ok(v) => liquidation_amount_error(
                    debt_amount as int,
                    health_factor as int,
                    outstanding as int,
                ) is None && v == capped_debt(debt_amount as int, outstanding as int),
                Err(e) => liquidation_amount_error(
                    debt_amount as int,
                    health_factor as int,
                    outstanding as int,
                ) == Some(e),
            },
    {
        if debt_amount <= 0 {
            return Err(LiquidationError::NonPositiveDebtAmount);
        }
        if health_factor >= SCALE {
            return Err(LiquidationError::NotLiquidatable);
        }
        let max = apply_close_factor(outstanding);
        let actual_debt = if debt_amount > max {
            max
        } else {
            debt_amount
        };
        if actual_debt <= 0 {
            return Err(LiquidationError::NoLiquidatableDebt);
        }
        Ok(actual_debt)
    }

    /// Decides a liquidation: the position must be liquidatable, the repaid
    /// debt is capped at the close factor, and the collateral seized is the
    /// repaid debt's value in collateral plus the collateral asset's bonus.
    pub fn liquidate(
        debt_amount: i128,
        health_factor: i128,
        outstanding: i128,
        debt_price: i128,
        collateral_price: i128,
        liquidation_bonus: u32,
    ) -> (r: Result<LiquidationPlan, LiquidationError>)
        ensures
            match r {
                Ok(plan) => {
                    &&& liquidation_amount_error(
                        debt_amount as int,
                        health_factor as int,
                        outstanding as int,
                    ) is None
                    &&& plan.debt_amount == capped_debt(debt_amount as int, outstanding as int)
                    &&& seize_error(
                        plan.debt_amount as int,
                        debt_price as int,
                        collateral_price as int,
                        liquidation_bonus,
                    ) is None
                    &&& plan.collateral_amount == seize_value(
                        plan.debt_amount as int,
                        debt_price as int,
                        collateral_price as int,
                        liquidation_bonus,
                    )
                },
                Err(e) => match liquidation_amount_error(
                    debt_amount as int,
                    health_factor as int,
                    outstanding as int,
                ) {
                    Some(first) => e == first,
                    None => seize_error(
                        capped_debt(debt_amount as int, outstanding as int),
                        debt_price as int,
                        collateral_price as int,
                        liquidation_bonus,
                    ) == Some(e),
                },
            },
    {
        let actual_debt = match Self::liquidation_amount(debt_amount, health_factor, outstanding) {
            Ok(v) => v,
            Err(e) => return Err(e),
        };
        match calculate_collateral_to_seize(
            actual_debt,
            debt_price,
            collateral_price,
            liquidation_bonus,
        ) {
            Ok(collateral_amount) => Ok(LiquidationPlan { debt_amount: actual_debt, collateral_amount }),
            Err(e) => Err(e),
        }
    }
}

} // verus!
