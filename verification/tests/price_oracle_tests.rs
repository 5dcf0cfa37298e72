//! Tests of the price feed checks.

use lumenlend::price_oracle::feed::ReflectorPriceResponse;
use lumenlend::price_oracle::{OracleError, PriceOracle, PriceResult, DEFAULT_MAX_PRICE_AGE};

fn get_price_or_panic(oracle: &PriceOracle, response: ReflectorPriceResponse, now: u64) -> i128 {
    match oracle.get_price(response, now) {
        Ok(p) => p,
        Err(e) => panic!("{}", e.message()),
    }
}

#[test]
#[should_panic]
fn test_stale_price_panics() {
    let oracle = PriceOracle::initialize();
    // A price reported at t = 1000, read well past the 300 s window.
    let response = ReflectorPriceResponse { price: 1_000_000_000_000_00i128, timestamp: 1_000 };
    let _ = get_price_or_panic(&oracle, response, 1_000 + 301);
}

#[test]
fn test_get_price_scales_14_to_18_decimal() {
    let oracle = PriceOracle::initialize();
    let now = 0;
    // Reflector reports price in 14-decimal fixed point. 1.0 USD = 1e14.
    let response = ReflectorPriceResponse { price: 1_000_000_000_000_00i128, timestamp: now };
    let price = get_price_or_panic(&oracle, response, now);
    assert_eq!(price, 1_000_000_000_000_000_000i128);
}

#[test]
fn test_get_prices_batch() {
    let oracle = PriceOracle::initialize();
    let now = 0;
    let response = ReflectorPriceResponse { price: 2_000_000_000_000_00i128, timestamp: now };
    let responses = vec![response, response];
    let prices = oracle.get_prices(&responses, now).unwrap();
    assert_eq!(prices.len(), 2);
    assert_eq!(prices[0], 2_000_000_000_000_000_000i128);
    assert_eq!(prices[1], 2_000_000_000_000_000_000i128);
}

// ---------------------------------------------------------------------------
// Further cases.
// ---------------------------------------------------------------------------

#[test]
fn default_and_custom_staleness_threshold() {
    assert_eq!(PriceOracle::initialize().max_price_age, DEFAULT_MAX_PRICE_AGE);
    assert_eq!(PriceOracle::initialize_with_config(60).max_price_age, 60);
}

#[test]
fn price_exactly_at_threshold_is_fresh() {
    let oracle = PriceOracle::initialize();
    let response = ReflectorPriceResponse { price: 5, timestamp: 1_000 };
    assert_eq!(oracle.get_price(response, 1_300), Ok(50_000));
    assert_eq!(oracle.get_price(response, 1_301), Err(OracleError::StalePrice));
    // A report from the future is never stale.
    assert_eq!(oracle.get_price(response, 10), Ok(50_000));
}

#[test]
fn fetch_and_last_updated_keep_the_timestamp() {
    let oracle = PriceOracle::initialize_with_config(10);
    let response = ReflectorPriceResponse { price: 7, timestamp: 42 };
    assert_eq!(
        oracle.fetch_price_from_reflector(response, 50),
        Ok(PriceResult { price: 70_000, timestamp: 42 })
    );
    assert_eq!(oracle.last_updated(response, 50), Ok(42));
    assert_eq!(oracle.last_updated(response, 53), Err(OracleError::StalePrice));
}

#[test]
fn scaling_overflow_is_reported() {
    let oracle = PriceOracle::initialize();
    let response = ReflectorPriceResponse { price: i128::MAX / 100, timestamp: 0 };
    assert_eq!(oracle.get_price(response, 0), Err(OracleError::PriceOverflow));
    assert_eq!(OracleError::PriceOverflow.message(), "PriceOracle: price overflow during scaling");
}

#[test]
fn batch_fails_on_the_first_bad_report() {
    let oracle = PriceOracle::initialize();
    let fresh = ReflectorPriceResponse { price: 1, timestamp: 1_000 };
    let stale = ReflectorPriceResponse { price: 1, timestamp: 0 };
    let huge = ReflectorPriceResponse { price: i128::MAX, timestamp: 1_000 };
    assert_eq!(oracle.get_prices(&vec![fresh, stale, huge], 1_000), Err(OracleError::StalePrice));
    assert_eq!(oracle.get_prices(&vec![fresh, huge, stale], 1_000), Err(OracleError::PriceOverflow));
    assert_eq!(oracle.get_prices(&vec![], 1_000), Ok(vec![]));
}
