//! Verified core of the LumenLend lending protocol: the fixed-point
//! arithmetic, the kinked interest rate model, the receipt-token ledger,
//! the price-feed normalisation, the lending pool's accounting and the
//! liquidation calculations.
//!
//! Accounts and assets are integer identifiers: an account or asset is an
//! `u64`, and the caller that owns the storage decides which identifier
//! stands for which address.

pub mod big_nat;
pub mod fixed_point;
pub mod pair_key;
pub mod interest_rate_model;
pub mod liquidation_engine;
pub mod price_oracle;
pub mod ltoken;
pub mod lending_pool;
