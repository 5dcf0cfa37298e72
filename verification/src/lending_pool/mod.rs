//! The lending pool's accounting: registered assets, their risk parameters
//! and accrual state, and each user's deposit and borrow per asset.
//!
//! Users and assets are identified by `u64`. A deposit or borrow that was
//! never written reads as zero.
pub mod accrual;
pub mod borrow;
pub mod deposit;
pub mod health;
pub mod laws;
pub mod repay;
pub mod withdraw;
pub mod math;
pub mod storage;

use vstd::prelude::*;
use std::collections::HashMap;
use crate::pair_key::pair_key;
use self::storage::{AssetConfig, AssetState};

verus! {

broadcast use vstd::std_specs::hash::group_hash_axioms;

/// The pool's accounting tables.
pub struct LendingPool {
    assets: Vec<u64>,
    configs: HashMap<u64, AssetConfig>,
    states: HashMap<u64, AssetState>,
    deposits: HashMap<u128, i128>,
    borrows: HashMap<u128, i128>,
}

/// The abstract content of the pool. `deposits` and `borrows` map every
/// (user, asset) pair to an amount, zero where nothing was written.
pub struct PoolState {
    pub assets: Seq<u64>,
    pub configs: Map<u64, AssetConfig>,
    pub states: Map<u64, AssetState>,
    pub deposits: Map<(u64, u64), i128>,
    pub borrows: Map<(u64, u64), i128>,
}

impl PoolState {
    /// Every (user, asset) pair has a deposit and a borrow, as in the
    /// content of a pool.
    pub open spec fn total(self) -> bool {
        &&& forall|p: (u64, u64)| #[trigger] self.deposits.dom().contains(p)
        &&& forall|p: (u64, u64)| #[trigger] self.borrows.dom().contains(p)
    }

    /// The asset list names each asset once, and only registered ones.
    pub open spec fn assets_well_formed(self) -> bool {
        &&& forall|i: int, j: int|
            0 <= i < j < self.assets.len() ==> #[trigger] self.assets[i] != #[trigger] self.assets[j]
        &&& forall|i: int| 0 <= i < self.assets.len() ==> self.configs.contains_key(#[trigger] self.assets[i])
    }
}

/// Writes one user's deposit of one asset.
pub open spec fn with_deposit(s: PoolState, user: u64, asset: u64, amount: i128) -> PoolState {
    PoolState { deposits: s.deposits.insert((user, asset), amount), ..s }
}

/// Writes one user's borrow of one asset.
pub open spec fn with_borrow(s: PoolState, user: u64, asset: u64, amount: i128) -> PoolState {
    PoolState { borrows: s.borrows.insert((user, asset), amount), ..s }
}

/// Writes the state of one asset.
pub open spec fn with_state(s: PoolState, asset: u64, state: AssetState) -> PoolState {
    PoolState { states: s.states.insert(asset, state), ..s }
}

/// Writes the configuration of one asset.
pub open spec fn with_config(s: PoolState, asset: u64, config: AssetConfig) -> PoolState {
    PoolState { configs: s.configs.insert(asset, config), ..s }
}

/// The state of an asset right after it is registered at `now`.
pub open spec fn initial_state(now: u64) -> AssetState {
    AssetState {
        total_deposits: 0,
        total_borrows: 0,
        last_update_timestamp: now,
        borrow_index: 1_000_000_000_000_000_000,
        deposit_index: 1_000_000_000_000_000_000,
    }
}

/// The configuration `add_asset` registers: active, with the given
/// parameters.
pub open spec fn registered_config(
    ltv: u32,
    liquidation_threshold: u32,
    liquidation_bonus: u32,
    reserve_factor: u32,
) -> AssetConfig {
    AssetConfig { ltv, liquidation_threshold, liquidation_bonus, reserve_factor, is_active: true }
}

/// The pool after `add_asset` registers `asset`.
pub open spec fn added_asset(s: PoolState, asset: u64, config: AssetConfig, now: u64) -> PoolState {
    let s1 = with_config(s, asset, config);
    let s2 = if s.states.contains_key(asset) {
        s1
    } else {
        with_state(s1, asset, initial_state(now))
    };
    PoolState { assets: s2.assets.push(asset), ..s2 }
}

/// Why a pool operation is refused.
#[derive(Clone, Copy, Debug, PartialEq, Eq)]
pub enum PoolError {
    DepositAmountNotPositive,
    BorrowAmountNotPositive,
    RepayAmountNotPositive,
    WithdrawAmountNotPositive,
    AssetNotRegistered,
    AssetConfigNotFound,
    AssetAlreadyRegistered,
    DepositAssetNotActive,
    BorrowAssetNotActive,
    BorrowInsufficientLiquidity,
    WithdrawInsufficientLiquidity,
    BorrowHealthFactorTooLow,
    WithdrawHealthFactorTooLow,
    NothingToRepay,
    InsufficientLTokenBalance,
    LiquidationDebtNotPositive,
    LiquidationDebtExceedsBorrow,
    LiquidationCollateralExceedsDeposit,
    DivisionByZero,
    Overflow,
}

impl PoolError {
    /// The text of `message`.
    pub open spec fn message_text(self) -> Seq<char> {
        match self {
            PoolError::DepositAmountNotPositive => "deposit: amount must be positive"@,
            PoolError::BorrowAmountNotPositive => "borrow: amount must be positive"@,
            PoolError::RepayAmountNotPositive => "repay: amount must be positive"@,
            PoolError::WithdrawAmountNotPositive => "withdraw: amount must be positive"@,
            PoolError::AssetNotRegistered => "Asset not registered"@,
            PoolError::AssetConfigNotFound => "Asset config not found"@,
            PoolError::AssetAlreadyRegistered => "LendingPool: asset already registered"@,
            PoolError::DepositAssetNotActive => "deposit: asset not active"@,
            PoolError::BorrowAssetNotActive => "borrow: asset not active"@,
            PoolError::BorrowInsufficientLiquidity => "borrow: insufficient liquidity"@,
            PoolError::WithdrawInsufficientLiquidity => "withdraw: insufficient liquidity"@,
            PoolError::BorrowHealthFactorTooLow => "borrow: health factor below 1.0"@,
            PoolError::WithdrawHealthFactorTooLow => "withdraw: health factor would drop below 1.0"@,
            PoolError::NothingToRepay => "repay: no outstanding borrow to repay"@,
            PoolError::InsufficientLTokenBalance => "withdraw: insufficient lToken balance"@,
            PoolError::LiquidationDebtNotPositive => "execute_liquidation: debt amount must be positive"@,
            PoolError::LiquidationDebtExceedsBorrow => "execute_liquidation: debt exceeds borrower's outstanding borrow"@,
            PoolError::LiquidationCollateralExceedsDeposit => "execute_liquidation: collateral exceeds borrower's deposit"@,
            PoolError::DivisionByZero => "mul_div: division by zero"@,
            PoolError::Overflow => "LendingPool: arithmetic overflow"@,
        }
    }

    /// The message with which the contract aborts on this error.
    pub fn message(&self) -> (r: &'static str)
        ensures
            r@ == self.message_text(),
    {
        match self {
            PoolError::DepositAmountNotPositive => "deposit: amount must be positive",
            PoolError::BorrowAmountNotPositive => "borrow: amount must be positive",
            PoolError::RepayAmountNotPositive => "repay: amount must be positive",
            PoolError::WithdrawAmountNotPositive => "withdraw: amount must be positive",
            PoolError::AssetNotRegistered => "Asset not registered",
            PoolError::AssetConfigNotFound => "Asset config not found",
            PoolError::AssetAlreadyRegistered => "LendingPool: asset already registered",
            PoolError::DepositAssetNotActive => "deposit: asset not active",
            PoolError::BorrowAssetNotActive => "borrow: asset not active",
            PoolError::BorrowInsufficientLiquidity => "borrow: insufficient liquidity",
            PoolError::WithdrawInsufficientLiquidity => "withdraw: insufficient liquidity",
            PoolError::BorrowHealthFactorTooLow => "borrow: health factor below 1.0",
            PoolError::WithdrawHealthFactorTooLow => "withdraw: health factor would drop below 1.0",
            PoolError::NothingToRepay => "repay: no outstanding borrow to repay",
            PoolError::InsufficientLTokenBalance => "withdraw: insufficient lToken balance",
            PoolError::LiquidationDebtNotPositive => "execute_liquidation: debt amount must be positive",
            PoolError::LiquidationDebtExceedsBorrow => "execute_liquidation: debt exceeds borrower's outstanding borrow",
            PoolError::LiquidationCollateralExceedsDeposit => "execute_liquidation: collateral exceeds borrower's deposit",
            PoolError::DivisionByZero => "mul_div: division by zero",
            PoolError::Overflow => "LendingPool: arithmetic overflow",
        }
    }
}

impl View for LendingPool {
    type V = PoolState;

    closed spec fn view(&self) -> PoolState {
        PoolState {
            assets: self.assets@,
            configs: self.configs@,
            states: self.states@,
            deposits: Map::new(
                |p: (u64, u64)| true,
                |p: (u64, u64)|
                    if self.deposits@.contains_key(pair_key(p.0, p.1)) {
                        self.deposits@[pair_key(p.0, p.1)]
                    } else {
                        0i128
                    },
            ),
            borrows: Map::new(
                |p: (u64, u64)| true,
                |p: (u64, u64)|
                    if self.borrows@.contains_key(pair_key(p.0, p.1)) {
                        self.borrows@[pair_key(p.0, p.1)]
                    } else {
                        0i128
                    },
            ),
        }
    }
}

impl LendingPool {
    /// An empty pool: no assets, no positions.
    pub fn new() -> (r: LendingPool)
        ensures
            r@.assets == Seq::<u64>::empty(),
            r@.assets_well_formed(),
            r@.configs == Map::<u64, AssetConfig>::empty(),
            r@.states == Map::<u64, AssetState>::empty(),
            forall|p: (u64, u64)| r@.deposits[p] == 0 && r@.borrows[p] == 0,
    {
        LendingPool {
            assets: Vec::new(),
            configs: HashMap::new(),
            states: HashMap::new(),
            deposits: HashMap::new(),
            borrows: HashMap::new(),
        }
    }

    /// The content of a pool covers every (user, asset) pair.
    pub proof fn lemma_view_total(&self)
        ensures
            self@.total(),
    {
    }

    /// Appends `asset` to the list of supported assets.
    fn add_to_asset_list(&mut self, asset: u64)
        ensures
            final(self)@ == (PoolState { assets: old(self)@.assets.push(asset), ..old(self)@ }),
    {
        self.assets.push(asset);
    }

    /// Number of supported assets.
    pub fn asset_count(&self) -> (r: usize)
        ensures
            r == self@.assets.len(),
    {
        self.assets.len()
    }

    /// Registers a new asset with its risk parameters: it becomes active,
    /// gets a fresh accrual state stamped `now` if it had none, and joins the
    /// asset list. An asset that is already registered is refused.
    pub fn add_asset(
        &mut self,
        asset: u64,
        ltv: u32,
        liquidation_threshold: u32,
        liquidation_bonus: u32,
        reserve_factor: u32,
        now: u64,
    ) -> (r: Result<(), PoolError>)
        ensures
            match r {
                Ok(_) => !old(self)@.configs.contains_key(asset) && final(self)@ == added_asset(
                    old(self)@,
                    asset,
                    registered_config(ltv, liquidation_threshold, liquidation_bonus, reserve_factor),
                    now,
                ),
                Err(e) => old(self)@.configs.contains_key(asset) && e
                    == PoolError::AssetAlreadyRegistered && final(self)@ == old(self)@,
            },
            old(self)@.assets_well_formed() ==> final(self)@.assets_well_formed(),
    {
        if storage::has_asset_config(self, asset) {
            return Err(PoolError::AssetAlreadyRegistered);
        }
        let config = AssetConfig {
            ltv,
            liquidation_threshold,
            liquidation_bonus,
            reserve_factor,
            is_active: true,
        };
        storage::write_asset_config(self, asset, config);
        if storage::read_asset_state(self, asset).is_none() {
            let state = AssetState {
                total_deposits: 0,
                total_borrows: 0,
                last_update_timestamp: now,
                borrow_index: math::SCALE,
                deposit_index: math::SCALE,
            };
            storage::write_asset_state(self, asset, state);
        }
        self.add_to_asset_list(asset);
        Ok(())
    }

    /// The liquidation bonus (basis points) of a registered asset.
    pub fn get_asset_liquidation_bonus(&self, asset: u64) -> (r: Result<u32, PoolError>)
        ensures
            match r {
                Ok(b) => self@.configs.contains_key(asset) && b
                    == self@.configs[asset].liquidation_bonus,
                Err(e) => !self@.configs.contains_key(asset) && e == PoolError::AssetNotRegistered,
            },
    {
        match storage::read_asset_config(self, asset) {
            Some(config) => Ok(config.liquidation_bonus),
            None => Err(PoolError::AssetNotRegistered),
        }
    }
}

} // verus!
