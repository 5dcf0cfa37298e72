//! Records the lending pool keeps per asset.
use vstd::prelude::*;
use crate::pair_key::{lemma_pair_key_injective, make_pair_key};
use super::{with_borrow, with_config, with_deposit, with_state, LendingPool};

verus! {

/// Risk parameters configured per supported asset, in basis points.
#[derive(Clone, Copy, Debug, PartialEq, Eq)]
pub struct AssetConfig {
    /// Loan-to-value ratio (e.g. 7500 = 75%).
    pub ltv: u32,
    /// Ratio at which collateral counts toward the health factor (e.g. 8000 = 80%).
    pub liquidation_threshold: u32,
    /// Bonus a liquidator receives when seizing this asset (e.g. 500 = 5%).
    pub liquidation_bonus: u32,
    /// Protocol cut of the interest paid by borrowers (e.g. 1000 = 10%).
    pub reserve_factor: u32,
    /// Whether deposits and borrows are accepted.
    pub is_active: bool,
}

/// Accrual and liquidity state tracked per supported asset.
#[derive(Clone, Copy, Debug, PartialEq, Eq)]
pub struct AssetState {
    pub total_deposits: i128,
    pub total_borrows: i128,
    pub last_update_timestamp: u64,
    pub borrow_index: i128,
    pub deposit_index: i128,
}


/// The risk parameters of `asset`, if it is registered.
pub fn read_asset_config(pool: &LendingPool, asset: u64) -> (r: Option<AssetConfig>)
    ensures
        r == (if pool@.configs.contains_key(asset) {
            Some(pool@.configs[asset])
        } else {
            None
        }),
{
    match pool.configs.get(&asset) {
        Some(c) => Some(*c),
        None => None,
    }
}

/// Stores the risk parameters of `asset`.
pub fn write_asset_config(pool: &mut LendingPool, asset: u64, config: AssetConfig)
    ensures
        final(pool)@ == with_config(old(pool)@, asset, config),
{
    pool.configs.insert(asset, config);
}

/// Whether `asset` has risk parameters.
pub fn has_asset_config(pool: &LendingPool, asset: u64) -> (r: bool)
    ensures
        r == pool@.configs.contains_key(asset),
{
    pool.configs.contains_key(&asset)
}

/// The accrual state of `asset`, if it has one.
pub fn read_asset_state(pool: &LendingPool, asset: u64) -> (r: Option<AssetState>)
    ensures
        r == (if pool@.states.contains_key(asset) {
            Some(pool@.states[asset])
        } else {
            None
        }),
{
    match pool.states.get(&asset) {
        Some(s) => Some(*s),
        None => None,
    }
}

/// Stores the accrual state of `asset`.
pub fn write_asset_state(pool: &mut LendingPool, asset: u64, state: AssetState)
    ensures
        final(pool)@ == with_state(old(pool)@, asset, state),
{
    pool.states.insert(asset, state);
}

/// `user`'s deposit of `asset`.
pub fn get_user_deposit(pool: &LendingPool, user: u64, asset: u64) -> (r: i128)
    ensures
        r == pool@.deposits[(user, asset)],
{
    match pool.deposits.get(&make_pair_key(user, asset)) {
        Some(v) => *v,
        None => 0,
    }
}

/// Sets `user`'s deposit of `asset`.
pub fn set_user_deposit(pool: &mut LendingPool, user: u64, asset: u64, amount: i128)
    ensures
        final(pool)@ == with_deposit(old(pool)@, user, asset, amount),
{
    pool.deposits.insert(make_pair_key(user, asset), amount);
    assert forall|p: (u64, u64)| #[trigger]
        final(pool)@.deposits[p] == old(pool)@.deposits.insert((user, asset), amount)[p] by {
        lemma_pair_key_injective(p.0, p.1, user, asset);
    }
    assert(final(pool)@.deposits =~= old(pool)@.deposits.insert((user, asset), amount));
}

/// `user`'s outstanding borrow of `asset`.
pub fn get_user_borrow(pool: &LendingPool, user: u64, asset: u64) -> (r: i128)
    ensures
        r == pool@.borrows[(user, asset)],
{
    match pool.borrows.get(&make_pair_key(user, asset)) {
        Some(v) => *v,
        None => 0,
    }
}

/// Sets `user`'s outstanding borrow of `asset`.
pub fn set_user_borrow(pool: &mut LendingPool, user: u64, asset: u64, amount: i128)
    ensures
        final(pool)@ == with_borrow(old(pool)@, user, asset, amount),
{
    pool.borrows.insert(make_pair_key(user, asset), amount);
    assert forall|p: (u64, u64)| #[trigger]
        final(pool)@.borrows[p] == old(pool)@.borrows.insert((user, asset), amount)[p] by {
        lemma_pair_key_injective(p.0, p.1, user, asset);
    }
    assert(final(pool)@.borrows =~= old(pool)@.borrows.insert((user, asset), amount));
}

} // verus!
