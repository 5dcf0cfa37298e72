//! Normalisation and staleness checks of Reflector price reports.
pub mod feed;
pub mod laws;

use vstd::prelude::*;
use crate::fixed_point::in_i128;
use self::feed::ReflectorPriceResponse;

verus! {

/// Default staleness threshold: 5 minutes (300 seconds).
pub const DEFAULT_MAX_PRICE_AGE: u64 = 300;

/// Reflector prices are 14-decimal fixed point; this factor scales them to
/// 18 decimals.
pub const REFLECTOR_SCALE_FACTOR: i128 = 10_000;

/// The oracle's configuration: how old a report may be.
#[derive(Clone, Copy, Debug, PartialEq, Eq)]
pub struct PriceOracle {
    pub max_price_age: u64,
}

/// A checked price: 18-decimal USD price and the report's timestamp.
#[derive(Clone, Copy, Debug, PartialEq, Eq)]
pub struct PriceResult {
    pub price: i128,
    pub timestamp: u64,
}

/// Why a price report is refused.
#[derive(Clone, Copy, Debug, PartialEq, Eq)]
pub enum OracleError {
    StalePrice,
    PriceOverflow,
}

impl OracleError {
    /// The text of `message`.
    pub open spec fn message_text(self) -> Seq<char> {
        match self {
            OracleError::StalePrice => "PriceOracle: stale price"@,
            OracleError::PriceOverflow => "PriceOracle: price overflow during scaling"@,
        }
    }

    /// The message with which the contract aborts on this error.
    pub fn message(&self) -> (r: &'static str)
        ensures
            r@ == self.message_text(),
    {
        match self {
            OracleError::StalePrice => "PriceOracle: stale price",
            OracleError::PriceOverflow => "PriceOracle: price overflow during scaling",
        }
    }
}

/// A report made at `timestamp` is stale at `now` when it is older than
/// `max_price_age`; a report from the future is never stale.
pub open spec fn is_stale(now: u64, timestamp: u64, max_price_age: u64) -> bool {
    now > timestamp && now - timestamp > max_price_age
}

impl PriceOracle {
    /// The error a report meets at `now`, if any.
    pub open spec fn report_error(self, response: ReflectorPriceResponse, now: u64) -> Option<
        OracleError,
    > {
        if is_stale(now, response.timestamp, self.max_price_age) {
            Some(OracleError::StalePrice)
        } else if !in_i128(response.price * REFLECTOR_SCALE_FACTOR) {
            Some(OracleError::PriceOverflow)
        } else {
            None
        }
    }

    /// No report before index `n` meets an error.
    pub open spec fn all_fresh(self, responses: Seq<ReflectorPriceResponse>, n: int, now: u64) -> bool {
        forall|i: int| 0 <= i < n ==> (#[trigger] self.report_error(responses[i], now)) is None
    }

    /// An oracle with the default staleness threshold.
    pub fn initialize() -> (r: PriceOracle)
        ensures
            r.max_price_age == DEFAULT_MAX_PRICE_AGE,
    {
        Self::initialize_with_config(DEFAULT_MAX_PRICE_AGE)
    }

    /// An oracle with a custom staleness threshold.
    pub fn initialize_with_config(max_price_age: u64) -> (r: PriceOracle)
        ensures
            r.max_price_age == max_price_age,
    {
        PriceOracle { max_price_age }
    }

    /// Checks a report for staleness and scales it from 14 to 18 decimals.
    pub fn fetch_price_from_reflector(&self, response: ReflectorPriceResponse, now: u64) -> (r:
        Result<PriceResult, OracleError>)
        ensures
            match r {
                Ok(p) => self.report_error(response, now) is None && p.price == response.price
                    * REFLECTOR_SCALE_FACTOR && p.timestamp == response.timestamp,
                Err(e) => self.report_error(response, now) == Some(e),
            },
    {
        let price_14 = response.price;
        let timestamp = response.timestamp;
        if now > timestamp && (now - timestamp) > self.max_price_age {
            return Err(OracleError::StalePrice);
        }
        match price_14.checked_mul(REFLECTOR_SCALE_FACTOR) {
            Some(price_18) => Ok(PriceResult { price: price_18, timestamp }),
            None => Err(OracleError::PriceOverflow),
        }
    }

    /// The 18-decimal USD price of a fresh report.
    pub fn get_price(&self, response: ReflectorPriceResponse, now: u64) -> (r: Result<
        i128,
        OracleError,
    >)
        ensures
            match r {
                Ok(p) => self.report_error(response, now) is None && p == response.price
                    * REFLECTOR_SCALE_FACTOR,
                Err(e) => self.report_error(response, now) == Some(e),
            },
    {
        match self.fetch_price_from_reflector(response, now) {
            Ok(result) => Ok(result.price),
            Err(e) => Err(e),
        }
    }

    /// The timestamp of a fresh report.
    pub fn last_updated(&self, response: ReflectorPriceResponse, now: u64) -> (r: Result<
        u64,
        OracleError,
    >)
        ensures
            match r {
                Ok(t) => self.report_error(response, now) is None && t == response.timestamp,
                Err(e) => self.report_error(response, now) == Some(e),
            },
    {
        match self.fetch_price_from_reflector(response, now) {
            Ok(result) => Ok(result.timestamp),
            Err(e) => Err(e),
        }
    }

    /// The 18-decimal prices of a batch of reports, in order; the first
    /// refused report refuses the batch.
    pub fn get_prices(&self, responses: &Vec<ReflectorPriceResponse>, now: u64) -> (r: Result<
        Vec<i128>,
        OracleError,
    >)
        ensures
            match r {
                Ok(prices) => {
                    &&& self.all_fresh(responses@, responses@.len() as int, now)
                    &&& prices@.len() == responses@.len()
                    &&& forall|i: int|
                        0 <= i < prices@.len() ==> #[trigger] prices@[i] == responses@[i].price
                            * REFLECTOR_SCALE_FACTOR
                },
                Err(e) => exists|i: int|
                    0 <= i < responses@.len() && self.all_fresh(responses@, i, now)
                        && #[trigger] self.report_error(responses@[i], now) == Some(e),
            },
    {
        let mut prices: Vec<i128> = Vec::new();
        let n = responses.len();
        let mut k: usize = 0;
        while k < n
            invariant
                n == responses@.len(),
                k <= n,
                prices@.len() == k,
                self.all_fresh(responses@, k as int, now),
                forall|i: int|
                    0 <= i < k ==> #[trigger] prices@[i] == responses@[i].price
                        * REFLECTOR_SCALE_FACTOR,
            decreases n - k,
        {
            match self.get_price(responses[k], now) {
                Ok(price) => prices.push(price),
                Err(e) => return Err(e),
            }
            k = k + 1;
        }
        Ok(prices)
    }
}

} // verus!
