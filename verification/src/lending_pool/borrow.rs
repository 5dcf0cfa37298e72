//! Borrowing an asset against existing collateral.
use vstd::prelude::*;
use crate::fixed_point::{in_i128, SCALE};
use super::accrual::{accrued, pool_accrue_error, AccrualRates};
use super::health::{health_error, health_factor};
use super::storage::AssetState;
use super::{with_borrow, with_state, LendingPool, PoolError, PoolState};
use super::health::get_health_factor;
use super::storage::{get_user_borrow, read_asset_config, read_asset_state, set_user_borrow, write_asset_state};

verus! {

/// The error a borrow meets, if any, in the order the checks are made. The
/// health check is made on the borrower's position before the borrow.
pub open spec fn borrow_error(
    s: PoolState,
    borrower: u64,
    asset: u64,
    amount: i128,
    now: u64,
    rates: AccrualRates,
    prices: Seq<i128>,
) -> Option<PoolError> {
    let st = accrued(s.states[asset], now, rates);
    let liquidity = st.total_deposits - st.total_borrows;
    if amount <= 0 {
        Some(PoolError::BorrowAmountNotPositive)
    } else if pool_accrue_error(s, asset, now, rates) is Some {
        pool_accrue_error(s, asset, now, rates)
    } else if !s.configs.contains_key(asset) {
        Some(PoolError::AssetNotRegistered)
    } else if !s.configs[asset].is_active {
        Some(PoolError::BorrowAssetNotActive)
    } else if !in_i128(liquidity) {
        Some(PoolError::Overflow)
    } else if liquidity < amount {
        Some(PoolError::BorrowInsufficientLiquidity)
    } else if health_error(s, borrower, prices) is Some {
        health_error(s, borrower, prices)
    } else if health_factor(s, borrower, prices) < SCALE {
        Some(PoolError::BorrowHealthFactorTooLow)
    } else if !in_i128(st.total_borrows + amount) {
        Some(PoolError::Overflow)
    } else if !in_i128(s.borrows[(borrower, asset)] + amount) {
        Some(PoolError::Overflow)
    } else {
        None
    }
}

/// The pool after a borrow: interest is accrued, then the asset's total
/// borrows and the borrower's borrow both grow by `amount`.
pub open spec fn borrowed(
    s: PoolState,
    borrower: u64,
    asset: u64,
    amount: i128,
    now: u64,
    rates: AccrualRates,
) -> PoolState {
    let st = accrued(s.states[asset], now, rates);
    let s1 = with_state(s, asset, AssetState { total_borrows: (st.total_borrows + amount) as i128, ..st });
    with_borrow(s1, borrower, asset, (s.borrows[(borrower, asset)] + amount) as i128)
}

/// Lends `amount` of `asset` to `borrower`. Interest on the asset is
/// accrued first; the asset must be active and have the liquidity, and
/// the borrower's health factor at `prices` (one per listed asset) must
/// be at least 1.0. A refused borrow changes nothing.
pub fn borrow(
    pool: &mut LendingPool,
    borrower: u64,
    asset: u64,
    amount: i128,
    now: u64,
    rates: AccrualRates,
    prices: &Vec<i128>,
) -> (r: Result<(), PoolError>)
    requires
        prices@.len() == old(pool)@.assets.len(),
    ensures
        match r {
            Ok(_) => borrow_error(old(pool)@, borrower, asset, amount, now, rates, prices@)
                is None && final(pool)@ == borrowed(
                old(pool)@,
                borrower,
                asset,
                amount,
                now,
                rates,
            ),
            Err(e) => borrow_error(
                old(pool)@,
                borrower,
                asset,
                amount,
                now,
                rates,
                prices@,
            ) == Some(e) && final(pool)@ == old(pool)@,
        },
{
    if amount <= 0 {
        return Err(PoolError::BorrowAmountNotPositive);
    }
    let state = match read_asset_state(pool, asset) {
        Some(s) => s,
        None => return Err(PoolError::AssetNotRegistered),
    };
    let mut state = match state.accrue(now, rates) {
        Ok(s) => s,
        Err(e) => return Err(e),
    };
    let config = match read_asset_config(pool, asset) {
        Some(c) => c,
        None => return Err(PoolError::AssetNotRegistered),
    };
    if !config.is_active {
        return Err(PoolError::BorrowAssetNotActive);
    }
    let total_liquidity = match state.total_deposits.checked_sub(state.total_borrows) {
        Some(v) => v,
        None => return Err(PoolError::Overflow),
    };
    if total_liquidity < amount {
        return Err(PoolError::BorrowInsufficientLiquidity);
    }
    let hf = match get_health_factor(pool, borrower, prices) {
        Ok(v) => v,
        Err(e) => return Err(e),
    };
    if hf < SCALE {
        return Err(PoolError::BorrowHealthFactorTooLow);
    }
    let new_total = match state.total_borrows.checked_add(amount) {
        Some(v) => v,
        None => return Err(PoolError::Overflow),
    };
    let user_borrow = get_user_borrow(pool, borrower, asset);
    let new_user_borrow = match user_borrow.checked_add(amount) {
        Some(v) => v,
        None => return Err(PoolError::Overflow),
    };
    state.total_borrows = new_total;
    write_asset_state(pool, asset, state);
    set_user_borrow(pool, borrower, asset, new_user_borrow);
    Ok(())
}

} // verus!
