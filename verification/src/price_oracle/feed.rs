//! The price report of a Reflector oracle.
use vstd::prelude::*;

verus! {

/// A price response from the Reflector oracle: a 14-decimal USD price and
/// the time at which it was reported.
#[derive(Clone, Copy, Debug, PartialEq, Eq)]
pub struct ReflectorPriceResponse {
    pub price: i128,
    pub timestamp: u64,
}

} // verus!
