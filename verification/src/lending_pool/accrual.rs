//! Interest accrual: before every state-changing operation the borrow index
//! of the asset grows by `borrow_rate * elapsed / year` and its deposit index
//! by `supply_rate * elapsed / year`.
use vstd::prelude::*;
use crate::fixed_point::{in_i128, trunc_div, wide_mul_div, SCALE};
use super::storage::AssetState;
use super::storage::{read_asset_state, write_asset_state};
use super::{with_state, LendingPool, PoolError};

verus! {

/// Seconds in a (365-day) year.
pub const SECONDS_PER_YEAR: i128 = 31_536_000i128;

/// The annual rates (18-decimal fixed point) of the interest rate model at
/// an asset's totals: the borrow rate drives the borrow index and the
/// supply rate the deposit index.
#[derive(Clone, Copy, Debug, PartialEq, Eq)]
pub struct AccrualRates {
    pub borrow_rate: i128,
    pub supply_rate: i128,
}

/// Seconds since the last update; zero when the clock went backwards.
pub open spec fn elapsed(now: u64, last_update: u64) -> int {
    if now > last_update {
        now - last_update
    } else {
        0
    }
}

/// Interest accrues only when time has passed and the asset has deposits;
/// otherwise only the timestamp moves.
pub open spec fn accrual_due(state: AssetState, now: u64) -> bool {
    elapsed(now, state.last_update_timestamp) != 0 && state.total_deposits != 0
}

/// The interest `rate * elapsed / year` accrued since the last update, in
/// fixed point, rounded toward zero.
pub open spec fn accrual(state: AssetState, now: u64, rate: i128) -> int {
    trunc_div(rate * elapsed(now, state.last_update_timestamp), SECONDS_PER_YEAR as int)
}

/// The growth factor `1 + rate * elapsed / year` in fixed point.
pub open spec fn growth_factor(state: AssetState, now: u64, rate: i128) -> int {
    SCALE + accrual(state, now, rate)
}

/// Growing `index` at `rate` can be computed on `i128`.
pub open spec fn growth_defined(state: AssetState, now: u64, rate: i128, index: i128) -> bool {
    &&& in_i128(accrual(state, now, rate))
    &&& in_i128(growth_factor(state, now, rate))
    &&& in_i128(trunc_div(index * growth_factor(state, now, rate), SCALE as int))
}

/// `index` grown at `rate`: `index * (1 + rate * elapsed / year)`.
pub open spec fn grown(state: AssetState, now: u64, rate: i128, index: i128) -> int {
    trunc_div(index * growth_factor(state, now, rate), SCALE as int)
}

/// The error accrual meets, if any.
pub open spec fn accrue_error(state: AssetState, now: u64, rates: AccrualRates) -> Option<PoolError> {
    if !accrual_due(state, now) {
        None
    } else if !growth_defined(state, now, rates.borrow_rate, state.borrow_index) {
        Some(PoolError::Overflow)
    } else if !growth_defined(state, now, rates.supply_rate, state.deposit_index) {
        Some(PoolError::Overflow)
    } else {
        None
    }
}

/// The state after accrual at `now` with the given rates.
pub open spec fn accrued(state: AssetState, now: u64, rates: AccrualRates) -> AssetState {
    if !accrual_due(state, now) {
        AssetState { last_update_timestamp: now, ..state }
    } else {
        AssetState {
            borrow_index: grown(state, now, rates.borrow_rate, state.borrow_index) as i128,
            deposit_index: grown(state, now, rates.supply_rate, state.deposit_index) as i128,
            last_update_timestamp: now,
            ..state
        }
    }
}

impl AssetState {
    /// Whether accrual at `now` needs the interest rate model's rates.
    pub fn accrual_due(&self, now: u64) -> (r: bool)
        ensures
            r == accrual_due(*self, now),
    {
        let elapsed = now.saturating_sub(self.last_update_timestamp);
        elapsed != 0 && self.total_deposits != 0
    }

    /// `index` grown at `rate` over the time elapsed up to `now`, which
    /// must be after the last update.
    fn grow(&self, now: u64, rate: i128, index: i128) -> (r: Option<i128>)
        requires
            now > self.last_update_timestamp,
        ensures
            r is Some <==> growth_defined(*self, now, rate, index),
            r matches Some(v) ==> v == grown(*self, now, rate, index),
    {
        let elapsed = now - self.last_update_timestamp;
        let accrual = match wide_mul_div(rate, elapsed as i128, SECONDS_PER_YEAR) {
            Some(v) => v,
            None => return None,
        };
        let factor = match SCALE.checked_add(accrual) {
            Some(v) => v,
            None => return None,
        };
        wide_mul_div(index, factor, SCALE)
    }

    /// The state after accruing interest at `now`; `rates` are the model's
    /// annual rates at this state's totals and are only read when accrual is
    /// due.
    pub fn accrue(&self, now: u64, rates: AccrualRates) -> (r: Result<AssetState, PoolError>)
        ensures
            match r {
                Ok(s) => accrue_error(*self, now, rates) is None && s == accrued(*self, now, rates),
                Err(e) => accrue_error(*self, now, rates) == Some(e),
            },
    {
        let mut state = *self;
        let elapsed = now.saturating_sub(state.last_update_timestamp);
        if elapsed == 0 || state.total_deposits == 0 {
            state.last_update_timestamp = now;
            return Ok(state);
        }
        let new_borrow_index = match self.grow(now, rates.borrow_rate, state.borrow_index) {
            Some(v) => v,
            None => return Err(PoolError::Overflow),
        };
        let new_deposit_index = match self.grow(now, rates.supply_rate, state.deposit_index) {
            Some(v) => v,
            None => return Err(PoolError::Overflow),
        };
        state.borrow_index = new_borrow_index;
        state.deposit_index = new_deposit_index;
        state.last_update_timestamp = now;
        Ok(state)
    }
}

/// The error accruing interest on `asset` in the pool meets, if any.
pub open spec fn pool_accrue_error(
    s: super::PoolState,
    asset: u64,
    now: u64,
    rates: AccrualRates,
) -> Option<PoolError> {
    if !s.states.contains_key(asset) {
        Some(PoolError::AssetNotRegistered)
    } else {
        accrue_error(s.states[asset], now, rates)
    }
}

/// Whether accruing interest on `asset` at `now` needs the model's rates.
pub fn needs_rates(pool: &LendingPool, asset: u64, now: u64) -> (r: bool)
    ensures
        r == (pool@.states.contains_key(asset) && accrual_due(pool@.states[asset], now)),
{
    match read_asset_state(pool, asset) {
        Some(state) => state.accrual_due(now),
        None => false,
    }
}

/// Accrues interest on `asset` up to `now`.
pub fn accrue_interest(pool: &mut LendingPool, asset: u64, now: u64, rates: AccrualRates) -> (r: Result<
    (),
    PoolError,
>)
    ensures
        match r {
            Ok(_) => pool_accrue_error(old(pool)@, asset, now, rates) is None
                && final(pool)@ == with_state(
                old(pool)@,
                asset,
                accrued(old(pool)@.states[asset], now, rates),
            ),
            Err(e) => pool_accrue_error(old(pool)@, asset, now, rates) == Some(e)
                && final(pool)@ == old(pool)@,
        },
{
    let state = match read_asset_state(pool, asset) {
        Some(s) => s,
        None => return Err(PoolError::AssetNotRegistered),
    };
    match state.accrue(now, rates) {
        Ok(new_state) => {
            write_asset_state(pool, asset, new_state);
            Ok(())
        },
        Err(e) => Err(e),
    }
}

} // verus!
