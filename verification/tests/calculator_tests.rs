//! Tests of the liquidation calculations.

use lumenlend::liquidation_engine::calculator::{apply_close_factor, calculate_collateral_to_seize};
use lumenlend::liquidation_engine::{LiquidationEngine, LiquidationError, LiquidationPlan};

const SCALE: i128 = 1_000_000_000_000_000_000;

#[test]
fn test_calculate_collateral_to_seize_with_bonus() {
    // debt_amount = 10 tokens, debt_price = 1 USD, collateral_price = 1 USD, bonus = 5%.
    let debt = 10 * SCALE;
    let debt_price = SCALE;
    let collateral_price = SCALE;
    let bonus = 500;

    let seize = calculate_collateral_to_seize(debt, debt_price, collateral_price, bonus).unwrap();
    // expect: 10 * 1e18 * 10500 / (1e18 * 10000) = 10.5 tokens
    assert_eq!(seize, 10 * SCALE * 1050 / 1000);
}

#[test]
fn test_calculate_collateral_to_seize_no_bonus() {
    let debt = 5 * SCALE;
    let seize = calculate_collateral_to_seize(debt, SCALE, SCALE, 0).unwrap();
    assert_eq!(seize, 5 * SCALE);
}

#[test]
fn test_calculate_collateral_to_seize_scales_price_difference() {
    // Debt priced at 2 USD; collateral at 1 USD, no bonus.
    let debt = 4 * SCALE;
    let debt_price = 2 * SCALE;
    let collateral_price = SCALE;
    let seize = calculate_collateral_to_seize(debt, debt_price, collateral_price, 0).unwrap();
    assert_eq!(seize, 8 * SCALE);
}

#[test]
#[should_panic]
fn test_calculate_collateral_to_seize_zero_collateral_price() {
    calculate_collateral_to_seize(SCALE, SCALE, 0, 500).unwrap();
}

#[test]
fn test_apply_close_factor_half() {
    assert_eq!(apply_close_factor(100), 50);
    assert_eq!(apply_close_factor(0), 0);
}

#[test]
fn test_apply_close_factor_odd_debt() {
    // Integer division: 99 / 2 = 49.
    assert_eq!(apply_close_factor(99), 49);
}

// ---------------------------------------------------------------------------
// Further cases.
// ---------------------------------------------------------------------------

#[test]
fn seize_rejects_each_non_positive_operand_in_order() {
    assert_eq!(calculate_collateral_to_seize(0, 0, 0, 0), Err(LiquidationError::NonPositiveDebtAmount));
    assert_eq!(calculate_collateral_to_seize(1, 0, 0, 0), Err(LiquidationError::NonPositiveCollateralPrice));
    assert_eq!(calculate_collateral_to_seize(1, 0, 1, 0), Err(LiquidationError::NonPositiveDebtPrice));
    assert_eq!(calculate_collateral_to_seize(-5, SCALE, SCALE, 0), Err(LiquidationError::NonPositiveDebtAmount));
}

#[test]
fn seize_overflow_is_reported() {
    assert_eq!(calculate_collateral_to_seize(i128::MAX, 2, 1, 0), Err(LiquidationError::Overflow));
    // The result fits before the bonus and not after it.
    assert_eq!(calculate_collateral_to_seize(i128::MAX / 2, 1, 1, 500), Ok(89_324_121_316_746_346_659_135_834_450_839_155_506));
    assert_eq!(calculate_collateral_to_seize(i128::MAX / 2, 2, 1, 500), Err(LiquidationError::Overflow));
    // Intermediate products beyond i128 are exact; only the result must fit.
    assert_eq!(calculate_collateral_to_seize(1, i128::MAX, 1, 0), Ok(i128::MAX));
    assert_eq!(calculate_collateral_to_seize(1, 1, i128::MAX, 0), Ok(0));
    let big: i128 = 1 << 123;
    assert_eq!(calculate_collateral_to_seize(1, big, big, 0), Ok(1));
    assert_eq!(calculate_collateral_to_seize(1, i128::MAX, 1, 1), Err(LiquidationError::Overflow));
}

#[test]
fn seize_worked_example_from_the_docs() {
    // 50 USDC at $1.00 repaid against XLM at $0.06 with a 5% bonus: 875 XLM.
    let seize = calculate_collateral_to_seize(50 * SCALE, SCALE, 60_000_000_000_000_000, 500).unwrap();
    assert_eq!(seize, 875 * SCALE);
}

#[test]
fn seize_covers_the_repaid_value() {
    for bonus in [0u32, 100, 500, 1000] {
        let seize = calculate_collateral_to_seize(7 * SCALE, 3 * SCALE, 2 * SCALE, bonus).unwrap();
        assert!(seize >= 7 * 3 * SCALE / 2);
    }
}

#[test]
fn close_factor_of_negative_debt_is_zero() {
    assert_eq!(apply_close_factor(-10), 0);
    assert_eq!(apply_close_factor(1), 0);
    assert_eq!(apply_close_factor(i128::MAX), i128::MAX / 2);
}

#[test]
fn engine_liquidatable_below_one() {
    assert!(LiquidationEngine::is_liquidatable(SCALE - 1));
    assert!(!LiquidationEngine::is_liquidatable(SCALE));
    assert!(!LiquidationEngine::is_liquidatable(i128::MAX));
    assert_eq!(LiquidationEngine::max_liquidatable_amount(40 * SCALE), 20 * SCALE);
}

#[test]
fn engine_liquidation_amount_checks_in_order() {
    assert_eq!(
        LiquidationEngine::liquidation_amount(0, 0, 100),
        Err(LiquidationError::NonPositiveDebtAmount)
    );
    assert_eq!(
        LiquidationEngine::liquidation_amount(10, SCALE, 100),
        Err(LiquidationError::NotLiquidatable)
    );
    assert_eq!(
        LiquidationEngine::liquidation_amount(10, SCALE - 1, 1),
        Err(LiquidationError::NoLiquidatableDebt)
    );
    assert_eq!(LiquidationEngine::liquidation_amount(10, 0, 100), Ok(10));
    assert_eq!(LiquidationEngine::liquidation_amount(100, 0, 100), Ok(50));
}

#[test]
fn engine_liquidate_plans_debt_and_collateral() {
    let plan = LiquidationEngine::liquidate(10 * SCALE, SCALE / 2, 40 * SCALE, SCALE, SCALE / 4, 500);
    assert_eq!(plan, Ok(LiquidationPlan { debt_amount: 10 * SCALE, collateral_amount: 42 * SCALE }));
    let capped = LiquidationEngine::liquidate(100 * SCALE, SCALE / 2, 40 * SCALE, SCALE, SCALE / 4, 500);
    assert_eq!(capped, Ok(LiquidationPlan { debt_amount: 20 * SCALE, collateral_amount: 84 * SCALE }));
    assert_eq!(
        LiquidationEngine::liquidate(10 * SCALE, SCALE / 2, 40 * SCALE, SCALE, 0, 500),
        Err(LiquidationError::NonPositiveCollateralPrice)
    );
    assert_eq!(
        LiquidationEngine::liquidate(10 * SCALE, 2 * SCALE, 40 * SCALE, SCALE, SCALE, 500),
        Err(LiquidationError::NotLiquidatable)
    );
}

#[test]
fn liquidation_error_messages() {
    assert_eq!(LiquidationError::NotLiquidatable.message(), "LiquidationEngine: position is not liquidatable");
}
