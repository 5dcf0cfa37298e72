//! Repaying a borrow position.
use vstd::prelude::*;
use crate::fixed_point::in_i128;
use super::accrual::{accrued, pool_accrue_error, AccrualRates};
use super::storage::AssetState;
use super::{with_borrow, with_state, LendingPool, PoolError, PoolState};
use super::storage::{get_user_borrow, has_asset_config, read_asset_state, set_user_borrow, write_asset_state};

verus! {

/// The part of `amount` that is applied to an outstanding borrow: no more
/// than what is owed.
pub open spec fn repay_amount(amount: i128, outstanding: i128) -> i128 {
    if amount <= outstanding {
        amount
    } else {
        outstanding
    }
}

/// The error a repayment meets, if any, in the order the checks are made.
pub open spec fn repay_error(
    s: PoolState,
    repayer: u64,
    asset: u64,
    amount: i128,
    now: u64,
    rates: AccrualRates,
) -> Option<PoolError> {
    let ra = repay_amount(amount, s.borrows[(repayer, asset)]);
    if amount <= 0 {
        Some(PoolError::RepayAmountNotPositive)
    } else if pool_accrue_error(s, asset, now, rates) is Some {
        pool_accrue_error(s, asset, now, rates)
    } else if !s.configs.contains_key(asset) {
        Some(PoolError::AssetNotRegistered)
    } else if ra == 0 {
        Some(PoolError::NothingToRepay)
    } else if !in_i128(accrued(s.states[asset], now, rates).total_borrows - ra) {
        Some(PoolError::Overflow)
    } else if !in_i128(s.borrows[(repayer, asset)] - ra) {
        Some(PoolError::Overflow)
    } else {
        None
    }
}

/// The pool after a repayment: interest is accrued, then the asset's total
/// borrows and the repayer's borrow both shrink by the repaid amount.
pub open spec fn repaid(
    s: PoolState,
    repayer: u64,
    asset: u64,
    amount: i128,
    now: u64,
    rates: AccrualRates,
) -> PoolState {
    let ra = repay_amount(amount, s.borrows[(repayer, asset)]);
    let st = accrued(s.states[asset], now, rates);
    let s1 = with_state(s, asset, AssetState { total_borrows: (st.total_borrows - ra) as i128, ..st });
    with_borrow(s1, repayer, asset, (s.borrows[(repayer, asset)] - ra) as i128)
}

/// Repays up to `amount` of `repayer`'s borrow of `asset` (never more
/// than is owed) and returns the amount applied. Interest on the asset is
/// accrued first. A refused repayment changes nothing.
pub fn repay(
    pool: &mut LendingPool,
    repayer: u64,
    asset: u64,
    amount: i128,
    now: u64,
    rates: AccrualRates,
) -> (r: Result<i128, PoolError>)
    ensures
        match r {
            Ok(applied) => {
                &&& repay_error(old(pool)@, repayer, asset, amount, now, rates) is None
                &&& applied == repay_amount(amount, old(pool)@.borrows[(repayer, asset)])
                &&& final(pool)@ == repaid(old(pool)@, repayer, asset, amount, now, rates)
            },
            Err(e) => repay_error(old(pool)@, repayer, asset, amount, now, rates) == Some(
                e,
            ) && final(pool)@ == old(pool)@,
        },
{
    if amount <= 0 {
        return Err(PoolError::RepayAmountNotPositive);
    }
    let state = match read_asset_state(pool, asset) {
        Some(s) => s,
        None => return Err(PoolError::AssetNotRegistered),
    };
    let mut state = match state.accrue(now, rates) {
        Ok(s) => s,
        Err(e) => return Err(e),
    };
    if !has_asset_config(pool, asset) {
        return Err(PoolError::AssetNotRegistered);
    }
    let user_borrow = get_user_borrow(pool, repayer, asset);
    let repay_amount = if amount <= user_borrow {
        amount
    } else {
        user_borrow
    };
    if repay_amount == 0 {
        return Err(PoolError::NothingToRepay);
    }
    let new_total = match state.total_borrows.checked_sub(repay_amount) {
        Some(v) => v,
        None => return Err(PoolError::Overflow),
    };
    let new_user_borrow = match user_borrow.checked_sub(repay_amount) {
        Some(v) => v,
        None => return Err(PoolError::Overflow),
    };
    state.total_borrows = new_total;
    write_asset_state(pool, asset, state);
    set_user_borrow(pool, repayer, asset, new_user_borrow);
    Ok(repay_amount)
}

} // verus!
