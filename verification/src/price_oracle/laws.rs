//! Properties of the price feed.
use vstd::prelude::*;
use super::feed::ReflectorPriceResponse;
use super::{OracleError, PriceOracle};

verus! {

/// A report is accepted exactly when it is at most `max_price_age` seconds
/// old at `now` (a report from the future is never too old) and its price,
/// scaled from 14 to 18 decimals by `10^4`, fits in `i128`; a report that is
/// too old is refused as stale before anything else.
pub proof fn law_fresh_reports_are_accepted(
    oracle: PriceOracle,
    response: ReflectorPriceResponse,
    now: u64,
)
    ensures
        ({
            let too_old = now > response.timestamp && now - response.timestamp
                > oracle.max_price_age;
            let scaled = response.price * 10_000;
            &&& (oracle.report_error(response, now) is None <==> !too_old && i128::MIN <= scaled
                <= i128::MAX)
            &&& (too_old ==> oracle.report_error(response, now) == Some(OracleError::StalePrice))
        }),
{
}

} // verus!
