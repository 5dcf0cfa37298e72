//! Tests of the interest rate model.
//!
//! Default model under test: `base_rate = 200` (2%), `slope1 = 1000` (10%),
//! `slope2 = 30000` (300%), `optimal_utilization = 8000` (80%).

use lumenlend::interest_rate_model::math::{from_basis_points, mul_div};
use lumenlend::interest_rate_model::{InterestRateModel, RateModelError};

/// 18-decimal fixed-point scale (`1.0`).
const ONE: i128 = 1_000_000_000_000_000_000;

const BASE_RATE: i128 = 200 * ONE / 10_000; // 0.02
const SLOPE1_RATE: i128 = 1000 * ONE / 10_000; // 0.10
const SLOPE2_RATE: i128 = 30000 * ONE / 10_000; // 3.00
const OPTIMAL_RATE: i128 = 8000 * ONE / 10_000; // 0.80

const BASE_RATE_AT_OPTIMAL: i128 = BASE_RATE + SLOPE1_RATE; // 0.12
const BASE_RATE_AT_100: i128 = BASE_RATE + SLOPE1_RATE + SLOPE2_RATE; // 3.12

fn with_model<F: FnOnce(&InterestRateModel)>(f: F) {
    let model = InterestRateModel::initialize(200, 1000, 30000, 8000).unwrap();
    f(&model);
}

fn initialize_or_panic(base: u32, s1: u32, s2: u32, opt: u32) -> InterestRateModel {
    match InterestRateModel::initialize(base, s1, s2, opt) {
        Ok(m) => m,
        Err(e) => panic!("{}", e.message()),
    }
}

fn utilization(total_deposits: i128, total_borrows: i128) -> i128 {
    InterestRateModel::get_utilization_rate(total_deposits, total_borrows).unwrap()
}

#[test]
fn test_initialize_stores_parameters() {
    with_model(|client| {
        assert_eq!(client.get_borrow_rate(1_000, 0).unwrap(), BASE_RATE);
        assert_eq!(client.get_borrow_rate(1_000, 800).unwrap(), BASE_RATE_AT_OPTIMAL);
        assert_eq!(client.get_borrow_rate(1_000, 1_000).unwrap(), BASE_RATE_AT_100);
    });
}

#[test]
#[should_panic(expected = "optimal utilization must be non-zero")]
fn test_initialize_rejects_zero_optimal_utilization() {
    initialize_or_panic(200, 1000, 30000, 0);
}

#[test]
#[should_panic(expected = "base rate exceeds 100%")]
fn test_initialize_rejects_base_rate_above_100_percent() {
    initialize_or_panic(10_001, 1000, 30000, 8000);
}

#[test]
fn test_utilization_rate_zero_borrows_is_zero() {
    with_model(|_client| {
        assert_eq!(utilization(1_000, 0), 0);
    });
}

#[test]
fn test_utilization_rate_zero_deposits_is_zero() {
    with_model(|_client| {
        assert_eq!(utilization(0, 500), 0);
    });
}

#[test]
fn test_utilization_rate_fifty_percent() {
    with_model(|_client| {
        assert_eq!(utilization(1_000, 500), 50 * ONE / 100);
    });
}

#[test]
fn test_utilization_rate_at_optimal() {
    with_model(|_client| {
        assert_eq!(utilization(1_000, 800), OPTIMAL_RATE);
    });
}

#[test]
fn test_utilization_rate_one_hundred_percent() {
    with_model(|_client| {
        assert_eq!(utilization(1_000, 1_000), ONE);
    });
}

#[test]
fn test_utilization_rate_capped_at_100_percent() {
    with_model(|_client| {
        assert_eq!(utilization(1_000, 1_200), ONE);
    });
}

#[test]
fn test_borrow_rate_zero_utilization_is_base_rate() {
    with_model(|client| {
        assert_eq!(client.get_borrow_rate(1_000, 0).unwrap(), BASE_RATE);
    });
}

#[test]
fn test_borrow_rate_at_optimal_is_base_plus_slope1() {
    with_model(|client| {
        assert_eq!(client.get_borrow_rate(1_000, 800).unwrap(), BASE_RATE_AT_OPTIMAL);
    });
}

#[test]
fn test_borrow_rate_below_optimal_is_linear() {
    with_model(|client| {
        // 50% utilization => 2% + 10% * (50/80) = 8.25%.
        let expected = BASE_RATE + SLOPE1_RATE * 50 / 80;
        assert_eq!(client.get_borrow_rate(1_000, 500).unwrap(), expected);
    });
}

#[test]
fn test_borrow_rate_above_optimal_uses_slope2() {
    with_model(|client| {
        // 90% utilization => 2% + 10% + 300% * (10/20) = 162%.
        let expected = BASE_RATE_AT_OPTIMAL + SLOPE2_RATE * 10 / 20;
        assert_eq!(client.get_borrow_rate(1_000, 900).unwrap(), expected);
    });
}

#[test]
fn test_borrow_rate_at_100_percent_is_maximum() {
    with_model(|client| {
        assert_eq!(client.get_borrow_rate(1_000, 1_000).unwrap(), BASE_RATE_AT_100);
    });
}

#[test]
fn test_borrow_rate_zero_deposits_does_not_panic() {
    with_model(|client| {
        assert_eq!(client.get_borrow_rate(0, 0).unwrap(), BASE_RATE);
    });
}

#[test]
fn test_supply_rate_zero_utilization_is_zero() {
    with_model(|client| {
        assert_eq!(client.get_supply_rate(1_000, 0, 1000).unwrap(), 0);
    });
}

#[test]
fn test_supply_rate_at_optimal_with_reserve_factor() {
    with_model(|client| {
        // 12% borrow rate * 80% utilization * (1 - 10% reserve) = 8.64%.
        let expected =
            BASE_RATE_AT_OPTIMAL * OPTIMAL_RATE / ONE * (ONE - 1000 * ONE / 10_000) / ONE;
        assert_eq!(client.get_supply_rate(1_000, 800, 1000).unwrap(), expected);
    });
}

#[test]
fn test_supply_rate_no_reserve_factor() {
    with_model(|client| {
        // 12% borrow rate * 80% utilization * (1 - 0) = 9.6%.
        let expected = BASE_RATE_AT_OPTIMAL * OPTIMAL_RATE / ONE;
        assert_eq!(client.get_supply_rate(1_000, 800, 0).unwrap(), expected);
    });
}

#[test]
fn test_supply_rate_zero_deposits_does_not_panic() {
    with_model(|client| {
        assert_eq!(client.get_supply_rate(0, 0, 1000).unwrap(), 0);
    });
}

#[test]
fn test_supply_rate_full_reserve_factor_is_zero() {
    with_model(|client| {
        assert_eq!(client.get_supply_rate(1_000, 800, 10_000).unwrap(), 0);
    });
}

// ---------------------------------------------------------------------------
// Further cases: the documented rate table, errors, and the helpers.
// ---------------------------------------------------------------------------

#[test]
fn rate_table_at_testnet_parameters() {
    with_model(|client| {
        // 0% -> 2%, 40% -> 7%, 80% -> 12%, 90% -> 162%, 100% -> 312%.
        assert_eq!(client.get_borrow_rate(1_000, 0).unwrap(), 20_000_000_000_000_000);
        assert_eq!(client.get_borrow_rate(1_000, 400).unwrap(), 70_000_000_000_000_000);
        assert_eq!(client.get_borrow_rate(1_000, 800).unwrap(), 120_000_000_000_000_000);
        assert_eq!(client.get_borrow_rate(1_000, 900).unwrap(), 1_620_000_000_000_000_000);
        assert_eq!(client.get_borrow_rate(1_000, 1_000).unwrap(), 3_120_000_000_000_000_000);
    });
}

#[test]
fn supply_rate_worked_example_is_8_64_percent() {
    with_model(|client| {
        assert_eq!(client.get_supply_rate(1_000, 800, 1000).unwrap(), 86_400_000_000_000_000);
    });
}

#[test]
fn borrow_rate_never_decreases_with_utilization() {
    with_model(|client| {
        let mut previous = 0;
        for borrows in (0..=1_000).step_by(50) {
            let rate = client.get_borrow_rate(1_000, borrows).unwrap();
            assert!(rate >= previous);
            previous = rate;
        }
    });
}

#[test]
fn supply_rate_never_exceeds_borrow_rate() {
    with_model(|client| {
        for borrows in (0..=1_000).step_by(100) {
            let borrow = client.get_borrow_rate(1_000, borrows).unwrap();
            let supply = client.get_supply_rate(1_000, borrows, 1000).unwrap();
            assert!(0 <= supply && supply <= borrow);
        }
    });
}

#[test]
fn initialize_rejects_each_bound() {
    assert_eq!(InterestRateModel::initialize(200, 1_000_001, 0, 8000), Err(RateModelError::Slope1TooHigh));
    assert_eq!(InterestRateModel::initialize(200, 0, 1_000_001, 8000), Err(RateModelError::Slope2TooHigh));
    assert_eq!(
        InterestRateModel::initialize(200, 0, 0, 10_001),
        Err(RateModelError::OptimalUtilizationTooHigh)
    );
    assert_eq!(InterestRateModel::initialize(10_001, 0, 0, 0), Err(RateModelError::BaseRateTooHigh));
    let m = InterestRateModel::initialize(10_000, 1_000_000, 1_000_000, 10_000).unwrap();
    assert_eq!(m.get_base_rate(), 10_000);
    assert_eq!(m.get_slope1(), 1_000_000);
    assert_eq!(m.get_slope2(), 1_000_000);
    assert_eq!(m.get_optimal_utilization(), 10_000);
}

#[test]
fn utilization_overflow_is_reported() {
    assert_eq!(InterestRateModel::get_utilization_rate(1, i128::MAX), Err(RateModelError::Overflow));
    with_model(|client| {
        assert_eq!(client.get_borrow_rate(1, i128::MAX), Err(RateModelError::Overflow));
        assert_eq!(client.get_supply_rate(1, i128::MAX, 0), Err(RateModelError::Overflow));
    });
}

#[test]
fn uninitialized_model_divides_by_zero() {
    let zero = InterestRateModel { base_rate: 0, slope1: 0, slope2: 0, optimal_utilization: 0 };
    assert_eq!(zero.get_borrow_rate(1_000, 0), Err(RateModelError::DivisionByZero));
    // Above a zero kink, slope2 applies over the whole range.
    assert_eq!(zero.get_borrow_rate(1_000, 500), Ok(0));
}

#[test]
fn supply_rate_rejects_reserve_factor_above_100_percent() {
    with_model(|client| {
        assert_eq!(client.get_supply_rate(1_000, 800, 10_001), Err(RateModelError::ReserveFactorTooHigh));
    });
}

#[test]
fn oversized_slopes_overflow() {
    let big = InterestRateModel {
        base_rate: u32::MAX,
        slope1: u32::MAX,
        slope2: u32::MAX,
        optimal_utilization: 1,
    };
    assert_eq!(big.get_borrow_rate(1_000, 1_000), Err(RateModelError::Overflow));
    let below = InterestRateModel { base_rate: 0, slope1: u32::MAX, slope2: 0, optimal_utilization: 10_000 };
    assert_eq!(below.get_borrow_rate(1_000, 1_000), Err(RateModelError::Overflow));
}

#[test]
fn from_basis_points_scales_to_18_decimals() {
    assert_eq!(from_basis_points(200), 20_000_000_000_000_000);
    assert_eq!(from_basis_points(10_000), ONE);
    assert_eq!(from_basis_points(0), 0);
    assert_eq!(from_basis_points(u32::MAX), 429_496_729_500_000_000_000_000);
}

#[test]
fn mul_div_rounds_toward_zero() {
    assert_eq!(mul_div(7, 1, 2), 3);
    assert_eq!(mul_div(-7, 1, 2), -3);
    assert_eq!(mul_div(7, -1, 2), -3);
    assert_eq!(mul_div(ONE, ONE, ONE), ONE);
}

#[test]
fn error_messages_match_the_contract() {
    assert_eq!(RateModelError::Overflow.message(), "InterestRateModel: fixed-point arithmetic overflow");
    assert_eq!(RateModelError::DivisionByZero.message(), "InterestRateModel: division by zero");
    assert_eq!(RateModelError::BorrowRateOverflow.message(), "InterestRateModel: borrow rate overflow");
}
