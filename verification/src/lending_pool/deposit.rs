//! Depositing an asset into the pool.
use vstd::prelude::*;
use crate::fixed_point::{in_i128, trunc_div, wide_mul_div, wide_mul_div_defined, SCALE};
use super::accrual::{accrued, pool_accrue_error, AccrualRates};
use super::storage::AssetState;
use super::{with_deposit, with_state, LendingPool, PoolError, PoolState};
use super::storage::{get_user_deposit, read_asset_config, read_asset_state, set_user_deposit, write_asset_state};

verus! {

/// lTokens minted for `amount` of the underlying at `exchange_rate`.
pub open spec fn ltokens_for(amount: i128, exchange_rate: i128) -> int {
    trunc_div(amount * SCALE, exchange_rate as int)
}

/// The lTokens that stand for `amount` of the underlying at
/// `exchange_rate`; `None` when the rate is zero or the result does not fit
/// in `i128`.
pub fn ltokens_for_amount(amount: i128, exchange_rate: i128) -> (r: Option<i128>)
    ensures
        r is Some <==> exchange_rate != 0 && wide_mul_div_defined(
            amount as int,
            SCALE as int,
            exchange_rate as int,
        ),
        r matches Some(v) ==> v == ltokens_for(amount, exchange_rate),
{
    if exchange_rate == 0 {
        return None;
    }
    wide_mul_div(amount, SCALE, exchange_rate)
}

/// The error a deposit meets, if any, in the order the checks are made.
pub open spec fn deposit_error(
    s: PoolState,
    depositor: u64,
    asset: u64,
    amount: i128,
    now: u64,
    rates: AccrualRates,
    exchange_rate: i128,
) -> Option<PoolError> {
    if amount <= 0 {
        Some(PoolError::DepositAmountNotPositive)
    } else if pool_accrue_error(s, asset, now, rates) is Some {
        pool_accrue_error(s, asset, now, rates)
    } else if !s.configs.contains_key(asset) {
        Some(PoolError::AssetNotRegistered)
    } else if !s.configs[asset].is_active {
        Some(PoolError::DepositAssetNotActive)
    } else if exchange_rate == 0 {
        Some(PoolError::DivisionByZero)
    } else if !wide_mul_div_defined(amount as int, SCALE as int, exchange_rate as int) {
        Some(PoolError::Overflow)
    } else if !in_i128(accrued(s.states[asset], now, rates).total_deposits + amount) {
        Some(PoolError::Overflow)
    } else if !in_i128(s.deposits[(depositor, asset)] + amount) {
        Some(PoolError::Overflow)
    } else {
        None
    }
}

/// The pool after a deposit: interest is accrued, then the asset's total
/// deposits and the depositor's deposit both grow by `amount`.
pub open spec fn deposited(
    s: PoolState,
    depositor: u64,
    asset: u64,
    amount: i128,
    now: u64,
    rates: AccrualRates,
) -> PoolState {
    let st = accrued(s.states[asset], now, rates);
    let s1 = with_state(
        s,
        asset,
        AssetState { total_deposits: (st.total_deposits + amount) as i128, ..st },
    );
    with_deposit(s1, depositor, asset, (s.deposits[(depositor, asset)] + amount) as i128)
}

/// Deposits `amount` of `asset` for `depositor` and returns the number of
/// lTokens to mint at the lToken's `exchange_rate`. Interest on the asset
/// is accrued first; `rates` is the model's rate at the asset's
/// current totals, read only when accrual is due. A refused deposit
/// changes nothing.
pub fn deposit(
    pool: &mut LendingPool,
    depositor: u64,
    asset: u64,
    amount: i128,
    now: u64,
    rates: AccrualRates,
    exchange_rate: i128,
) -> (r: Result<i128, PoolError>)
    ensures
        match r {
            Ok(ltokens) => {
                &&& deposit_error(
                    old(pool)@,
                    depositor,
                    asset,
                    amount,
                    now,
                    rates,
                    exchange_rate,
                ) is None
                &&& ltokens == ltokens_for(amount, exchange_rate)
                &&& final(pool)@ == deposited(
                    old(pool)@,
                    depositor,
                    asset,
                    amount,
                    now,
                    rates,
                )
            },
            Err(e) => deposit_error(
                old(pool)@,
                depositor,
                asset,
                amount,
                now,
                rates,
                exchange_rate,
            ) == Some(e) && final(pool)@ == old(pool)@,
        },
{
    if amount <= 0 {
        return Err(PoolError::DepositAmountNotPositive);
    }
    let state = match read_asset_state(pool, asset) {
        Some(s) => s,
        None => return Err(PoolError::AssetNotRegistered),
    };
    let mut state = match state.accrue(now, rates) {
        Ok(s) => s,
        Err(e) => return Err(e),
    };
    let config = match read_asset_config(pool, asset) {
        Some(c) => c,
        None => return Err(PoolError::AssetNotRegistered),
    };
    if !config.is_active {
        return Err(PoolError::DepositAssetNotActive);
    }
    if exchange_rate == 0 {
        return Err(PoolError::DivisionByZero);
    }
    let ltoken_amount = match wide_mul_div(amount, SCALE, exchange_rate) {
        Some(v) => v,
        None => return Err(PoolError::Overflow),
    };
    let new_total = match state.total_deposits.checked_add(amount) {
        Some(v) => v,
        None => return Err(PoolError::Overflow),
    };
    let user_deposit = get_user_deposit(pool, depositor, asset);
    let new_user_deposit = match user_deposit.checked_add(amount) {
        Some(v) => v,
        None => return Err(PoolError::Overflow),
    };
    state.total_deposits = new_total;
    write_asset_state(pool, asset, state);
    set_user_deposit(pool, depositor, asset, new_user_deposit);
    Ok(ltoken_amount)
}

} // verus!
