//! Withdrawing deposited collateral.
use vstd::prelude::*;
use crate::fixed_point::{in_i128, SCALE};
use super::accrual::{accrued, pool_accrue_error, AccrualRates};
use super::health::{health_error, health_factor};
use super::storage::AssetState;
use super::{with_deposit, with_state, LendingPool, PoolError, PoolState};
use super::health::get_health_factor;
use super::storage::{get_user_deposit, has_asset_config, read_asset_state, set_user_deposit, write_asset_state};

verus! {

/// The error a withdrawal meets, if any, in the order the checks are made.
/// The health check is made on the position as it would be after the
/// withdrawal.
pub open spec fn withdraw_error(
    s: PoolState,
    withdrawer: u64,
    asset: u64,
    amount: i128,
    now: u64,
    rates: AccrualRates,
    prices: Seq<i128>,
) -> Option<PoolError> {
    let st = accrued(s.states[asset], now, rates);
    let liquidity = st.total_deposits - st.total_borrows;
    let balance = s.deposits[(withdrawer, asset)];
    let after = with_deposit(s, withdrawer, asset, (balance - amount) as i128);
    if amount <= 0 {
        Some(PoolError::WithdrawAmountNotPositive)
    } else if pool_accrue_error(s, asset, now, rates) is Some {
        pool_accrue_error(s, asset, now, rates)
    } else if !s.configs.contains_key(asset) {
        Some(PoolError::AssetNotRegistered)
    } else if balance < amount {
        Some(PoolError::InsufficientLTokenBalance)
    } else if !in_i128(liquidity) {
        Some(PoolError::Overflow)
    } else if liquidity < amount {
        Some(PoolError::WithdrawInsufficientLiquidity)
    } else if health_error(after, withdrawer, prices) is Some {
        health_error(after, withdrawer, prices)
    } else if health_factor(after, withdrawer, prices) < SCALE {
        Some(PoolError::WithdrawHealthFactorTooLow)
    } else if !in_i128(st.total_deposits - amount) {
        Some(PoolError::Overflow)
    } else {
        None
    }
}

/// The pool after a withdrawal: interest is accrued, then the asset's total
/// deposits and the withdrawer's deposit both shrink by `amount`.
pub open spec fn withdrawn(
    s: PoolState,
    withdrawer: u64,
    asset: u64,
    amount: i128,
    now: u64,
    rates: AccrualRates,
) -> PoolState {
    let st = accrued(s.states[asset], now, rates);
    let s1 = with_state(s, asset, AssetState { total_deposits: (st.total_deposits - amount) as i128, ..st });
    with_deposit(s1, withdrawer, asset, (s.deposits[(withdrawer, asset)] - amount) as i128)
}

/// Withdraws `amount` of `withdrawer`'s deposit of `asset`. Interest on
/// the asset is accrued first; the withdrawer must hold the deposit, the
/// pool must have the liquidity, and the withdrawer's health factor at
/// `prices` (one per listed asset) after the withdrawal must be at least
/// 1.0. A refused withdrawal changes nothing.
pub fn withdraw(
    pool: &mut LendingPool,
    withdrawer: u64,
    asset: u64,
    amount: i128,
    now: u64,
    rates: AccrualRates,
    prices: &Vec<i128>,
) -> (r: Result<(), PoolError>)
    requires
        prices@.len() == old(pool)@.assets.len(),
    ensures
        match r {
            Ok(_) => withdraw_error(
                old(pool)@,
                withdrawer,
                asset,
                amount,
                now,
                rates,
                prices@,
            ) is None && final(pool)@ == withdrawn(
                old(pool)@,
                withdrawer,
                asset,
                amount,
                now,
                rates,
            ),
            Err(e) => withdraw_error(
                old(pool)@,
                withdrawer,
                asset,
                amount,
                now,
                rates,
                prices@,
            ) == Some(e) && final(pool)@ == old(pool)@,
        },
{
    if amount <= 0 {
        return Err(PoolError::WithdrawAmountNotPositive);
    }
    let state = match read_asset_state(pool, asset) {
        Some(s) => s,
        None => return Err(PoolError::AssetNotRegistered),
    };
    let mut state = match state.accrue(now, rates) {
        Ok(s) => s,
        Err(e) => return Err(e),
    };
    if !has_asset_config(pool, asset) {
        return Err(PoolError::AssetNotRegistered);
    }
    let balance = get_user_deposit(pool, withdrawer, asset);
    if balance < amount {
        return Err(PoolError::InsufficientLTokenBalance);
    }
    let total_liquidity = match state.total_deposits.checked_sub(state.total_borrows) {
        Some(v) => v,
        None => return Err(PoolError::Overflow),
    };
    if total_liquidity < amount {
        return Err(PoolError::WithdrawInsufficientLiquidity);
    }
    let new_total = state.total_deposits.checked_sub(amount);
    let ghost before = pool@;
    proof {
        pool.lemma_view_total();
    }
    set_user_deposit(pool, withdrawer, asset, balance - amount);
    let refusal = match get_health_factor(pool, withdrawer, prices) {
        Ok(hf) => {
            if hf < SCALE {
                Some(PoolError::WithdrawHealthFactorTooLow)
            } else if new_total.is_none() {
                Some(PoolError::Overflow)
            } else {
                None
            }
        },
        Err(e) => Some(e),
    };
    match refusal {
        Some(e) => {
            set_user_deposit(pool, withdrawer, asset, balance);
            assert(pool@.deposits =~= before.deposits);
            Err(e)
        },
        None => {
            state.total_deposits = new_total.unwrap();
            write_asset_state(pool, asset, state);
            assert(pool@.deposits =~= withdrawn(before, withdrawer, asset, amount, now, rates).deposits);
            Ok(())
        },
    }
}

} // verus!
