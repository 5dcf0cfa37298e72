//! Kinked (two-slope) utilization-based interest rate model:
//!
//! ```text
//! borrow_rate(util) =
//!     base_rate + slope1 * (util / optimal)                              if util <= optimal
//!     base_rate + slope1 + slope2 * ((util - optimal) / (1 - optimal))   otherwise
//!
//! supply_rate = borrow_rate * util * (1 - reserve_factor)
//! ```
//!
//! Parameters are basis points (`1/10000`); every returned rate is 18-decimal
//! fixed point (`1e18` == 100%).
pub mod laws;
pub mod math;

use vstd::prelude::*;
use crate::fixed_point::{checked_mul_div, in_i128, lemma_trunc_div_pos_divisor, trunc_div, SCALE};
use self::math::{bp_value, from_basis_points};

verus! {

/// The model's parameters, in basis points.
#[derive(Clone, Copy, Debug, PartialEq, Eq)]
pub struct InterestRateModel {
    /// Borrow rate at 0% utilization (e.g. 200 = 2%).
    pub base_rate: u32,
    /// Rate added between 0% utilization and the kink (e.g. 1000 = 10%).
    pub slope1: u32,
    /// Rate added between the kink and 100% utilization (e.g. 30000 = 300%).
    pub slope2: u32,
    /// Utilization at the kink (e.g. 8000 = 80%).
    pub optimal_utilization: u32,
}

/// Why a rate could not be configured or computed.
#[derive(Clone, Copy, Debug, PartialEq, Eq)]
pub enum RateModelError {
    BaseRateTooHigh,
    Slope1TooHigh,
    Slope2TooHigh,
    OptimalUtilizationTooHigh,
    OptimalUtilizationZero,
    ReserveFactorTooHigh,
    /// A fixed-point division by a zero divisor.
    DivisionByZero,
    /// A fixed-point product or quotient does not fit in `i128`.
    Overflow,
    /// The sum of the rate components does not fit in `i128`.
    BorrowRateOverflow,
}

impl RateModelError {
    /// The text of `message`.
    pub open spec fn message_text(self) -> Seq<char> {
        match self {
            RateModelError::BaseRateTooHigh => "InterestRateModel: base rate exceeds 100%"@,
            RateModelError::Slope1TooHigh => "InterestRateModel: slope1 exceeds 10000%"@,
            RateModelError::Slope2TooHigh => "InterestRateModel: slope2 exceeds 10000%"@,
            RateModelError::OptimalUtilizationTooHigh => "InterestRateModel: optimal utilization exceeds 100%"@,
            RateModelError::OptimalUtilizationZero => "InterestRateModel: optimal utilization must be non-zero"@,
            RateModelError::ReserveFactorTooHigh => "InterestRateModel: reserve factor exceeds 100%"@,
            RateModelError::DivisionByZero => "InterestRateModel: division by zero"@,
            RateModelError::Overflow => "InterestRateModel: fixed-point arithmetic overflow"@,
            RateModelError::BorrowRateOverflow => "InterestRateModel: borrow rate overflow"@,
        }
    }

    /// The message with which the contract aborts on this error.
    pub fn message(&self) -> (r: &'static str)
        ensures
            r@ == self.message_text(),
    {
        match self {
            RateModelError::BaseRateTooHigh => "InterestRateModel: base rate exceeds 100%",
            RateModelError::Slope1TooHigh => "InterestRateModel: slope1 exceeds 10000%",
            RateModelError::Slope2TooHigh => "InterestRateModel: slope2 exceeds 10000%",
            RateModelError::OptimalUtilizationTooHigh => "InterestRateModel: optimal utilization exceeds 100%",
            RateModelError::OptimalUtilizationZero => "InterestRateModel: optimal utilization must be non-zero",
            RateModelError::ReserveFactorTooHigh => "InterestRateModel: reserve factor exceeds 100%",
            RateModelError::DivisionByZero => "InterestRateModel: division by zero",
            RateModelError::Overflow => "InterestRateModel: fixed-point arithmetic overflow",
            RateModelError::BorrowRateOverflow => "InterestRateModel: borrow rate overflow",
        }
    }
}

/// Utilization `total_borrows / total_deposits` in fixed point, capped at
/// 100%, and 0 when either total is not positive.
pub open spec fn utilization(total_deposits: int, total_borrows: int) -> int {
    if total_deposits <= 0 || total_borrows <= 0 {
        0
    } else {
        let u = trunc_div(total_borrows * SCALE, total_deposits);
        if u > SCALE {
            SCALE as int
        } else {
            u
        }
    }
}

/// The utilization can be computed without overflow.
pub open spec fn utilization_defined(total_deposits: int, total_borrows: int) -> bool {
    total_deposits <= 0 || total_borrows <= 0 || in_i128(total_borrows * SCALE)
}

/// Whether the products of the supply-rate computation fit in `i128`.
pub open spec fn supply_rate_defined(borrow_rate: int, util: int, reserve_factor: u32) -> bool {
    let net = SCALE - bp_value(reserve_factor);
    &&& in_i128(borrow_rate * util)
    &&& in_i128(trunc_div(borrow_rate * util, SCALE as int) * net)
}

/// `borrow_rate * util * (1 - reserve_factor)`, each product rounded toward
/// zero.
pub open spec fn supply_rate_value(borrow_rate: int, util: int, reserve_factor: u32) -> int {
    let net = SCALE - bp_value(reserve_factor);
    trunc_div(trunc_div(borrow_rate * util, SCALE as int) * net, SCALE as int)
}

impl InterestRateModel {
    /// The bounds that `initialize` enforces.
    pub open spec fn valid(self) -> bool {
        &&& self.base_rate <= 10_000
        &&& self.slope1 <= 1_000_000
        &&& self.slope2 <= 1_000_000
        &&& self.optimal_utilization <= 10_000
        &&& self.optimal_utilization > 0
    }

    /// The error `initialize` reports for these parameters, checked in order.
    pub open spec fn initialize_error(self) -> Option<RateModelError> {
        if self.base_rate > 10_000 {
            Some(RateModelError::BaseRateTooHigh)
        } else if self.slope1 > 1_000_000 {
            Some(RateModelError::Slope1TooHigh)
        } else if self.slope2 > 1_000_000 {
            Some(RateModelError::Slope2TooHigh)
        } else if self.optimal_utilization > 10_000 {
            Some(RateModelError::OptimalUtilizationTooHigh)
        } else if self.optimal_utilization == 0 {
            Some(RateModelError::OptimalUtilizationZero)
        } else {
            None
        }
    }

    /// The kinked borrow rate at utilization `util`.
    pub open spec fn kinked_rate(self, util: int) -> int {
        let base = bp_value(self.base_rate);
        let s1 = bp_value(self.slope1);
        let s2 = bp_value(self.slope2);
        let opt = bp_value(self.optimal_utilization);
        if util <= opt {
            base + trunc_div(s1 * util, opt)
        } else {
            base + s1 + trunc_div(s2 * (util - opt), SCALE - opt)
        }
    }

    /// The error met when the borrow rate at `util` is computed, if any.
    pub open spec fn rate_error(self, util: int) -> Option<RateModelError> {
        let base = bp_value(self.base_rate);
        let s1 = bp_value(self.slope1);
        let s2 = bp_value(self.slope2);
        let opt = bp_value(self.optimal_utilization);
        if util <= opt {
            if opt == 0 {
                Some(RateModelError::DivisionByZero)
            } else if !in_i128(s1 * util) {
                Some(RateModelError::Overflow)
            } else if !in_i128(base + trunc_div(s1 * util, opt)) {
                Some(RateModelError::BorrowRateOverflow)
            } else {
                None
            }
        } else {
            if !in_i128(s2 * (util - opt)) {
                Some(RateModelError::Overflow)
            } else if !in_i128(base + s1 + trunc_div(s2 * (util - opt), SCALE - opt)) {
                Some(RateModelError::BorrowRateOverflow)
            } else {
                None
            }
        }
    }

    /// The error `get_borrow_rate` reports for these totals, if any.
    pub open spec fn borrow_rate_error(self, total_deposits: int, total_borrows: int) -> Option<
        RateModelError,
    > {
        if !utilization_defined(total_deposits, total_borrows) {
            Some(RateModelError::Overflow)
        } else {
            self.rate_error(utilization(total_deposits, total_borrows))
        }
    }

    /// The borrow rate for these totals.
    pub open spec fn borrow_rate(self, total_deposits: int, total_borrows: int) -> int {
        self.kinked_rate(utilization(total_deposits, total_borrows))
    }

    /// The error `get_supply_rate` reports, if any.
    pub open spec fn supply_rate_error(
        self,
        total_deposits: int,
        total_borrows: int,
        reserve_factor: u32,
    ) -> Option<RateModelError> {
        if reserve_factor > 10_000 {
            Some(RateModelError::ReserveFactorTooHigh)
        } else if self.borrow_rate_error(total_deposits, total_borrows) is Some {
            self.borrow_rate_error(total_deposits, total_borrows)
        } else if !supply_rate_defined(
            self.borrow_rate(total_deposits, total_borrows),
            utilization(total_deposits, total_borrows),
            reserve_factor,
        ) {
            Some(RateModelError::Overflow)
        } else {
            None
        }
    }

    /// Validates and stores the parameters: base rate at most 100%, slopes
    /// at most 10000%, optimal utilization in (0%, 100%].
    pub fn initialize(
        base_rate: u32,
        slope1: u32,
        slope2: u32,
        optimal_utilization: u32,
    ) -> (r: Result<InterestRateModel, RateModelError>)
        ensures
            ({
                let m = InterestRateModel { base_rate, slope1, slope2, optimal_utilization };
                match r {
                    Ok(model) => model == m && m.initialize_error() is None,
                    Err(e) => m.initialize_error() == Some(e),
                }
            }),
            r is Ok <==> (InterestRateModel { base_rate, slope1, slope2, optimal_utilization }).valid(),
    {
        if base_rate > 10_000 {
            return Err(RateModelError::BaseRateTooHigh);
        }
        if slope1 > 1_000_000 {
            return Err(RateModelError::Slope1TooHigh);
        }
        if slope2 > 1_000_000 {
            return Err(RateModelError::Slope2TooHigh);
        }
        if optimal_utilization > 10_000 {
            return Err(RateModelError::OptimalUtilizationTooHigh);
        }
        if optimal_utilization == 0 {
            return Err(RateModelError::OptimalUtilizationZero);
        }
        Ok(InterestRateModel { base_rate, slope1, slope2, optimal_utilization })
    }

    /// Base rate in basis points.
    pub fn get_base_rate(&self) -> (r: u32)
        ensures
            r == self.base_rate,
    {
        self.base_rate
    }

    /// Slope below the kink in basis points.
    pub fn get_slope1(&self) -> (r: u32)
        ensures
            r == self.slope1,
    {
        self.slope1
    }

    /// Slope above the kink in basis points.
    pub fn get_slope2(&self) -> (r: u32)
        ensures
            r == self.slope2,
    {
        self.slope2
    }

    /// Optimal utilization in basis points.
    pub fn get_optimal_utilization(&self) -> (r: u32)
        ensures
            r == self.optimal_utilization,
    {
        self.optimal_utilization
    }

    /// Utilization ratio (18-decimal fixed point), capped at 100%.
    pub fn get_utilization_rate(total_deposits: i128, total_borrows: i128) -> (r: Result<
        i128,
        RateModelError,
    >)
        ensures
            match r {
                Ok(u) => utilization_defined(total_deposits as int, total_borrows as int) && u
                    == utilization(total_deposits as int, total_borrows as int),
                Err(e) => !utilization_defined(total_deposits as int, total_borrows as int) && e
                    == RateModelError::Overflow,
            },
    {
        if total_deposits <= 0 || total_borrows <= 0 {
            return Ok(0);
        }
        proof {
            lemma_trunc_div_pos_divisor(total_borrows * SCALE, total_deposits as int);
        }
        match checked_mul_div(total_borrows, SCALE, total_deposits) {
            Some(u) => {
                if u > SCALE {
                    Ok(SCALE)
                } else {
                    Ok(u)
                }
            },
            None => Err(RateModelError::Overflow),
        }
    }

    /// Annualized borrow rate (18-decimal fixed point) for these totals.
    pub fn get_borrow_rate(&self, total_deposits: i128, total_borrows: i128) -> (r: Result<
        i128,
        RateModelError,
    >)
        ensures
            match r {
                Ok(v) => self.borrow_rate_error(total_deposits as int, total_borrows as int) is None
                    && v == self.borrow_rate(total_deposits as int, total_borrows as int),
                Err(e) => self.borrow_rate_error(total_deposits as int, total_borrows as int)
                    == Some(e),
            },
    {
        let base_rate = from_basis_points(self.base_rate);
        let slope1 = from_basis_points(self.slope1);
        let slope2 = from_basis_points(self.slope2);
        let optimal = from_basis_points(self.optimal_utilization);
        let utilization = match Self::get_utilization_rate(total_deposits, total_borrows) {
            Ok(u) => u,
            Err(e) => return Err(e),
        };
        proof {
            lemma_utilization_bounds(total_deposits as int, total_borrows as int);
        }
        if utilization <= optimal {
            proof {
                if optimal > 0 {
                    lemma_trunc_div_pos_divisor(slope1 * utilization, optimal as int);
                }
            }
            let slope_part = match checked_mul_div(slope1, utilization, optimal) {
                Some(v) => v,
                None => {
                    if optimal == 0 {
                        return Err(RateModelError::DivisionByZero);
                    } else {
                        return Err(RateModelError::Overflow);
                    }
                },
            };
            match base_rate.checked_add(slope_part) {
                Some(rate) => Ok(rate),
                None => Err(RateModelError::BorrowRateOverflow),
            }
        } else {
            let excess = utilization - optimal;
            let one_minus_optimal = SCALE - optimal;
            proof {
                lemma_trunc_div_pos_divisor(slope2 * excess, one_minus_optimal as int);
            }
            let slope_part = match checked_mul_div(slope2, excess, one_minus_optimal) {
                Some(v) => v,
                None => return Err(RateModelError::Overflow),
            };
            match (base_rate + slope1).checked_add(slope_part) {
                Some(rate) => Ok(rate),
                None => Err(RateModelError::BorrowRateOverflow),
            }
        }
    }

    /// Annualized supply rate (18-decimal fixed point):
    /// `borrow_rate * utilization * (1 - reserve_factor)`.
    pub fn get_supply_rate(
        &self,
        total_deposits: i128,
        total_borrows: i128,
        reserve_factor: u32,
    ) -> (r: Result<i128, RateModelError>)
        ensures
            match r {
                Ok(v) => self.supply_rate_error(
                    total_deposits as int,
                    total_borrows as int,
                    reserve_factor,
                ) is None && v == supply_rate_value(
                    self.borrow_rate(total_deposits as int, total_borrows as int),
                    utilization(total_deposits as int, total_borrows as int),
                    reserve_factor,
                ),
                Err(e) => self.supply_rate_error(
                    total_deposits as int,
                    total_borrows as int,
                    reserve_factor,
                ) == Some(e),
            },
    {
        if reserve_factor > 10_000 {
            return Err(RateModelError::ReserveFactorTooHigh);
        }
        let borrow_rate = match self.get_borrow_rate(total_deposits, total_borrows) {
            Ok(v) => v,
            Err(e) => return Err(e),
        };
        let utilization = match Self::get_utilization_rate(total_deposits, total_borrows) {
            Ok(u) => u,
            Err(e) => return Err(e),
        };
        let reserve_factor_18 = from_basis_points(reserve_factor);
        let net = SCALE - reserve_factor_18;
        proof {
            lemma_trunc_div_pos_divisor(borrow_rate * utilization, SCALE as int);
        }
        let partial = match checked_mul_div(borrow_rate, utilization, SCALE) {
            Some(v) => v,
            None => return Err(RateModelError::Overflow),
        };
        proof {
            lemma_trunc_div_pos_divisor(partial * net, SCALE as int);
        }
        match checked_mul_div(partial, net, SCALE) {
            Some(v) => Ok(v),
            None => Err(RateModelError::Overflow),
        }
    }
}

/// The utilization ratio always lies between 0% and 100%.
pub proof fn lemma_utilization_bounds(total_deposits: int, total_borrows: int)
    ensures
        0 <= utilization(total_deposits, total_borrows) <= SCALE,
{
    if total_deposits > 0 && total_borrows > 0 {
        lemma_trunc_div_pos_divisor(total_borrows * SCALE, total_deposits);
        assert(total_borrows * SCALE >= 0) by (nonlinear_arith)
            requires
                total_borrows > 0,
        ;
    }
}

} // verus!
