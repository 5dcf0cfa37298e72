//! Scenario tests of the lending pool, the interest rate model, the lToken
//! ledger and the liquidation engine working together, as the contracts do.

use std::collections::HashMap;

use lumenlend::interest_rate_model::InterestRateModel;
use lumenlend::lending_pool::accrual::{needs_rates, AccrualRates};
use lumenlend::lending_pool::borrow::borrow;
use lumenlend::lending_pool::deposit::deposit;
use lumenlend::lending_pool::health::{
    execute_liquidation, get_health_factor, get_price, get_total_collateral_usd, get_total_debt_usd,
    usd_value,
};
use lumenlend::lending_pool::repay::repay;
use lumenlend::lending_pool::storage::{
    get_user_borrow, get_user_deposit, has_asset_config, read_asset_config, read_asset_state,
    set_user_borrow, set_user_deposit, write_asset_config, write_asset_state, AssetConfig,
    AssetState,
};
use lumenlend::lending_pool::withdraw::withdraw;
use lumenlend::lending_pool::math::mul_div;
use lumenlend::lending_pool::{LendingPool, PoolError};
use lumenlend::liquidation_engine::calculator::calculate_collateral_to_seize;
use lumenlend::liquidation_engine::LiquidationEngine;
use lumenlend::ltoken::mint::mint;
use lumenlend::ltoken::LToken;

const SCALE: i128 = 1_000_000_000_000_000_000;

/// Rates for calls that accrue no interest.
const NO_RATES: AccrualRates = AccrualRates { borrow_rate: 0, supply_rate: 0 };

/// The pool's own account in the token ledgers.
const POOL: u64 = 0;

/// A minimal token that refuses transfers beyond the sender's balance.
#[derive(Default)]
struct MockToken {
    balances: HashMap<u64, i128>,
}

impl MockToken {
    fn mint(&mut self, to: u64, amount: i128) {
        *self.balances.entry(to).or_insert(0) += amount;
    }

    fn balance(&self, owner: u64) -> i128 {
        *self.balances.get(&owner).unwrap_or(&0)
    }

    fn transfer(&mut self, from: u64, to: u64, amount: i128) {
        let from_balance = self.balance(from);
        assert!(from_balance >= amount, "MockToken: insufficient balance");
        self.balances.insert(from, from_balance - amount);
        let to_balance = self.balance(to);
        self.balances.insert(to, to_balance + amount);
    }
}

/// A price oracle that reports 1 USD unless told otherwise.
#[derive(Default)]
struct MockOracle {
    prices: HashMap<u64, i128>,
}

impl MockOracle {
    fn set_price(&mut self, asset: u64, price: i128) {
        self.prices.insert(asset, price);
    }

    fn get_price(&self, asset: u64) -> i128 {
        *self.prices.get(&asset).unwrap_or(&1_000_000_000_000_000_000i128)
    }
}

/// The contracts of one deployment, driven the way the contract entry
/// points drive the library.
struct Protocol {
    pool: LendingPool,
    irm: InterestRateModel,
    oracle: MockOracle,
    assets: Vec<u64>,
    ltokens: HashMap<u64, LToken>,
    tokens: HashMap<u64, MockToken>,
    now: u64,
}

fn or_panic<T>(r: Result<T, PoolError>) -> T {
    match r {
        Ok(v) => v,
        Err(e) => panic!("{}", e.message()),
    }
}

impl Protocol {
    fn new() -> Protocol {
        Protocol {
            pool: LendingPool::new(),
            irm: InterestRateModel::initialize(200, 1000, 30000, 8000).unwrap(),
            oracle: MockOracle::default(),
            assets: Vec::new(),
            ltokens: HashMap::new(),
            tokens: HashMap::new(),
            now: 0,
        }
    }

    fn add_asset(&mut self, asset: u64, ltv: u32, lt: u32, lb: u32, rf: u32) {
        or_panic(self.pool.add_asset(asset, ltv, lt, lb, rf, self.now));
        self.assets.push(asset);
        self.ltokens.insert(asset, LToken::initialize());
        self.tokens.entry(asset).or_default();
    }

    fn token(&mut self, asset: u64) -> &mut MockToken {
        self.tokens.entry(asset).or_default()
    }

    fn prices(&self) -> Vec<i128> {
        self.assets.iter().map(|a| get_price(Some(self.oracle.get_price(*a)))).collect()
    }

    fn rate(&self, asset: u64) -> AccrualRates {
        if needs_rates(&self.pool, asset, self.now) {
            let state = read_asset_state(&self.pool, asset).unwrap();
            let config = read_asset_config(&self.pool, asset).unwrap();
            AccrualRates {
                borrow_rate: self.irm.get_borrow_rate(state.total_deposits, state.total_borrows).unwrap(),
                supply_rate: self
                    .irm
                    .get_supply_rate(state.total_deposits, state.total_borrows, config.reserve_factor)
                    .unwrap(),
            }
        } else {
            NO_RATES
        }
    }

    fn deposit(&mut self, user: u64, asset: u64, amount: i128) {
        let rate = self.rate(asset);
        let exchange_rate = match self.ltokens.get(&asset) {
            Some(l) => l.exchange_rate().unwrap(),
            None => SCALE,
        };
        let minted = or_panic(deposit(&mut self.pool, user, asset, amount, self.now, rate, exchange_rate));
        self.token(asset).transfer(user, POOL, amount);
        mint(self.ltokens.get_mut(&asset).unwrap(), user, minted).unwrap();
    }

    fn borrow(&mut self, user: u64, asset: u64, amount: i128) {
        let rate = self.rate(asset);
        let prices = self.prices();
        or_panic(borrow(&mut self.pool, user, asset, amount, self.now, rate, &prices));
        self.token(asset).transfer(POOL, user, amount);
    }

    fn repay(&mut self, user: u64, asset: u64, amount: i128) {
        let rate = self.rate(asset);
        or_panic(repay(&mut self.pool, user, asset, amount, self.now, rate));
        self.token(asset).transfer(user, POOL, amount);
    }

    fn withdraw(&mut self, user: u64, asset: u64, amount: i128) {
        let rate = self.rate(asset);
        let prices = self.prices();
        or_panic(withdraw(&mut self.pool, user, asset, amount, self.now, rate, &prices));
        self.token(asset).transfer(POOL, user, amount);
    }

    fn health_factor(&self, user: u64) -> i128 {
        or_panic(get_health_factor(&self.pool, user, &self.prices()))
    }

    fn is_liquidatable(&self, borrower: u64) -> bool {
        LiquidationEngine::is_liquidatable(self.health_factor(borrower))
    }

    fn max_liquidatable_amount(&self, borrower: u64, debt_asset: u64) -> i128 {
        LiquidationEngine::max_liquidatable_amount(get_user_borrow(&self.pool, borrower, debt_asset))
    }

    fn liquidate(&mut self, liquidator: u64, borrower: u64, debt_asset: u64, collateral_asset: u64, amount: i128) {
        let hf = self.health_factor(borrower);
        let outstanding = get_user_borrow(&self.pool, borrower, debt_asset);
        let actual = match LiquidationEngine::liquidation_amount(amount, hf, outstanding) {
            Ok(v) => v,
            Err(e) => panic!("{}", e.message()),
        };
        let debt_price = self.oracle.get_price(debt_asset);
        let collateral_price = self.oracle.get_price(collateral_asset);
        let bonus = or_panic(self.pool.get_asset_liquidation_bonus(collateral_asset));
        let seize = match calculate_collateral_to_seize(actual, debt_price, collateral_price, bonus) {
            Ok(v) => v,
            Err(e) => panic!("{}", e.message()),
        };
        or_panic(execute_liquidation(
            &mut self.pool,
            liquidator,
            borrower,
            debt_asset,
            collateral_asset,
            actual,
            seize,
        ));
    }
}

// ---------------------------------------------------------------------------
// Deposits
// ---------------------------------------------------------------------------

#[test]
#[should_panic]
fn test_deposit_zero_amount_fails() {
    let mut p = Protocol::new();
    let user = 1;
    let asset = 99;
    let amount = 0i128;
    p.deposit(user, asset, amount); // Should panic
}

// ---------------------------------------------------------------------------
// Borrows
// ---------------------------------------------------------------------------

const ADMIN: u64 = 1;
const USER: u64 = 2;
const ASSET: u64 = 10;

fn setup() -> Protocol {
    let mut p = Protocol::new();
    p.token(ASSET).mint(ADMIN, 100_000_000_000_000_000_000i128);
    p.add_asset(ASSET, 7500, 8000, 500, 1000);
    p
}

#[test]
fn test_borrow_within_ltv_succeeds() {
    let p = setup();
    let hf = p.health_factor(USER);
    assert!(hf >= 1_000_000_000_000_000_000i128, "Health factor should be >= 1.0 when no debt");
}

#[test]
#[should_panic]
fn test_borrow_exceeds_ltv_fails() {
    let mut p = setup();
    let amount = 10_000_000_000_000_000_001i128;
    p.borrow(USER, ASSET, amount);
}

#[test]
#[should_panic]
fn test_borrow_insufficient_liquidity_fails() {
    let mut p = setup();
    p.borrow(USER, ASSET, 1_000_000_000_000_000_000i128);
}

#[test]
fn test_borrow_updates_debt() {
    let mut p = setup();
    let deposit_amount = 10_000_000_000_000_000_000i128;
    p.deposit(ADMIN, ASSET, deposit_amount);

    let borrow_amount = 5_000_000_000_000_000_000i128;
    p.borrow(USER, ASSET, borrow_amount);

    let user_borrow = get_user_borrow(&p.pool, USER, ASSET);
    assert_eq!(user_borrow, borrow_amount, "User's borrow should be updated");
}

// ---------------------------------------------------------------------------
// Repayments
// ---------------------------------------------------------------------------

#[test]
fn test_full_repayment_clears_debt() {
    let mut p = setup();
    p.deposit(ADMIN, ASSET, 10_000_000_000_000_000_000i128);
    let borrow_amount = 3_000_000_000_000_000_000i128;
    p.borrow(USER, ASSET, borrow_amount);

    let repay_amount = 3_000_000_000_000_000_000i128;
    p.repay(USER, ASSET, repay_amount);

    let user_borrow = get_user_borrow(&p.pool, USER, ASSET);
    assert_eq!(user_borrow, 0, "Full repayment should clear all debt");
}

#[test]
fn test_partial_repayment_reduces_debt() {
    let mut p = setup();
    p.deposit(ADMIN, ASSET, 10_000_000_000_000_000_000i128);
    let borrow_amount = 3_000_000_000_000_000_000i128;
    p.borrow(USER, ASSET, borrow_amount);

    let repay_amount = 2_000_000_000_000_000_000i128;
    p.repay(USER, ASSET, repay_amount);

    let user_borrow = get_user_borrow(&p.pool, USER, ASSET);
    assert_eq!(user_borrow, 1_000_000_000_000_000_000i128, "Partial repayment should reduce debt");
}

#[test]
#[should_panic]
fn test_repay_more_than_debt_caps_at_debt() {
    let mut p = setup();
    p.deposit(ADMIN, ASSET, 10_000_000_000_000_000_000i128);
    let borrow_amount = 2_000_000_000_000_000_000i128;
    p.borrow(USER, ASSET, borrow_amount);

    // The debt is capped at 2, but the repayer only holds 2 of the 5 sent.
    let repay_amount = 5_000_000_000_000_000_000i128;
    p.repay(USER, ASSET, repay_amount);
}

// ---------------------------------------------------------------------------
// Liquidations
// ---------------------------------------------------------------------------

const SUPPLIER: u64 = 2;
const BORROWER: u64 = 3;
const LIQUIDATOR: u64 = 4;
const XLM: u64 = 20;
const USDC: u64 = 21;

fn scenario(crash_price: bool) -> Protocol {
    let mut p = Protocol::new();

    p.token(XLM).mint(BORROWER, 1000 * SCALE);
    p.add_asset(XLM, 7500, 8000, 500, 1000);
    p.oracle.set_price(XLM, SCALE);

    p.token(USDC).mint(SUPPLIER, 1000 * SCALE);
    p.token(USDC).mint(LIQUIDATOR, 1000 * SCALE);
    p.add_asset(USDC, 8000, 8500, 500, 1000);
    p.oracle.set_price(USDC, SCALE);
    p.deposit(SUPPLIER, USDC, 100 * SCALE);

    // Borrower: 100 XLM collateral, 40 USDC debt.
    p.deposit(BORROWER, XLM, 100 * SCALE);
    p.borrow(BORROWER, USDC, 40 * SCALE);

    if crash_price {
        // Crash XLM to $0.25.
        p.oracle.set_price(XLM, 250_000_000_000_000_000i128);
    }
    p
}

#[test]
fn test_liquidation_flow_seizes_collateral() {
    let mut p = scenario(true);

    let hf = p.health_factor(BORROWER);
    assert!(hf < SCALE);
    assert!(p.is_liquidatable(BORROWER));

    assert_eq!(p.max_liquidatable_amount(BORROWER, USDC), 20 * SCALE);

    let debt_before = get_user_borrow(&p.pool, BORROWER, USDC);
    let collateral_before = get_user_deposit(&p.pool, BORROWER, XLM);

    p.liquidate(LIQUIDATOR, BORROWER, USDC, XLM, 10 * SCALE);

    let debt_after = get_user_borrow(&p.pool, BORROWER, USDC);
    assert_eq!(debt_before - debt_after, 10 * SCALE);

    // Collateral seized: 10e18 * 1e18 * 10_500 / (2.5e17 * 10_000) = 42e18.
    let collateral_after = get_user_deposit(&p.pool, BORROWER, XLM);
    assert_eq!(collateral_before - collateral_after, 42 * SCALE);

    let liquidator_collateral = get_user_deposit(&p.pool, LIQUIDATOR, XLM);
    assert_eq!(liquidator_collateral, 42 * SCALE);
}

#[test]
#[should_panic(expected = "not liquidatable")]
fn test_liquidate_healthy_position_panics() {
    let mut p = scenario(false);

    let hf = p.health_factor(BORROWER);
    assert!(hf >= SCALE);
    assert!(!p.is_liquidatable(BORROWER));

    p.liquidate(LIQUIDATOR, BORROWER, USDC, XLM, 10 * SCALE);
}

#[test]
fn test_close_factor_caps_liquidation_amount() {
    let mut p = scenario(true);

    // Try to liquidate the entire debt (100 USDC > 50% close factor).
    p.liquidate(LIQUIDATOR, BORROWER, USDC, XLM, 100 * SCALE);

    // Only 50% of the debt (20 USDC) is allowed to be repaid.
    assert_eq!(get_user_borrow(&p.pool, BORROWER, USDC), 20 * SCALE);
}

// ---------------------------------------------------------------------------
// Further scenarios
// ---------------------------------------------------------------------------

#[test]
fn liquidation_worked_example_from_the_docs() {
    let mut p = Protocol::new();
    p.token(XLM).mint(BORROWER, 2000 * SCALE);
    p.token(USDC).mint(SUPPLIER, 1000 * SCALE);
    p.add_asset(XLM, 7500, 8000, 500, 1000);
    p.add_asset(USDC, 8000, 8500, 500, 1000);
    p.oracle.set_price(XLM, 100_000_000_000_000_000); // $0.10
    p.deposit(SUPPLIER, USDC, 500 * SCALE);
    p.deposit(BORROWER, XLM, 2000 * SCALE);
    p.borrow(BORROWER, USDC, 100 * SCALE);

    // 2,000 XLM = $200, 80% threshold, $100 debt: health 1.6.
    assert_eq!(p.health_factor(BORROWER), 1_600_000_000_000_000_000);

    // XLM drops to $0.06: health 0.96, liquidatable.
    p.oracle.set_price(XLM, 60_000_000_000_000_000);
    assert_eq!(p.health_factor(BORROWER), 960_000_000_000_000_000);
    assert_eq!(p.max_liquidatable_amount(BORROWER, USDC), 50 * SCALE);

    // The liquidator closes 50 USDC and receives 875 XLM.
    p.liquidate(LIQUIDATOR, BORROWER, USDC, XLM, 50 * SCALE);
    assert_eq!(get_user_deposit(&p.pool, LIQUIDATOR, XLM), 875 * SCALE);
    assert_eq!(get_user_deposit(&p.pool, BORROWER, XLM), 1125 * SCALE);
    assert_eq!(get_user_borrow(&p.pool, BORROWER, USDC), 50 * SCALE);

    // Healthy again: 1,125 XLM = $67.50, 80% of it over $50 of debt.
    assert_eq!(p.health_factor(BORROWER), 1_080_000_000_000_000_000);
}

#[test]
fn health_factor_and_totals() {
    let p = scenario(true);
    let prices = p.prices();
    assert_eq!(get_total_collateral_usd(&p.pool, BORROWER, &prices), Ok(25 * SCALE));
    assert_eq!(get_total_debt_usd(&p.pool, BORROWER, &prices), Ok(40 * SCALE));
    assert_eq!(p.health_factor(BORROWER), SCALE / 2);
    // Without debt the health factor is i128::MAX.
    assert_eq!(p.health_factor(SUPPLIER), i128::MAX);
    assert_eq!(get_total_debt_usd(&p.pool, SUPPLIER, &prices), Ok(0));
}

#[test]
fn deposit_then_withdraw_restores_the_position() {
    let mut p = setup();
    p.deposit(ADMIN, ASSET, 10 * SCALE);
    let before = read_asset_state(&p.pool, ASSET).unwrap();
    let prices = p.prices();
    deposit(&mut p.pool, USER, ASSET, 3 * SCALE, 0, NO_RATES, SCALE).unwrap();
    assert_eq!(read_asset_state(&p.pool, ASSET).unwrap().total_deposits, 13 * SCALE);
    withdraw(&mut p.pool, USER, ASSET, 3 * SCALE, 0, NO_RATES, &prices).unwrap();
    assert_eq!(read_asset_state(&p.pool, ASSET).unwrap(), before);
    assert_eq!(get_user_deposit(&p.pool, USER, ASSET), 0);
}

#[test]
fn withdraw_returns_funds_and_keeps_health() {
    let mut p = scenario(false);
    // Borrower: 100 XLM ($100, 80% => $80) against $40 of debt.
    // Withdrawing 40 XLM leaves $48 weighted collateral: health 1.2.
    p.withdraw(BORROWER, XLM, 40 * SCALE);
    assert_eq!(get_user_deposit(&p.pool, BORROWER, XLM), 60 * SCALE);
    assert_eq!(read_asset_state(&p.pool, XLM).unwrap().total_deposits, 60 * SCALE);
    assert_eq!(p.tokens[&XLM].balance(BORROWER), 940 * SCALE);
    assert_eq!(p.health_factor(BORROWER), 1_200_000_000_000_000_000);
}

#[test]
fn withdraw_that_would_leave_the_position_unhealthy_is_refused() {
    let mut p = scenario(false);
    let prices = p.prices();
    // 60 XLM out leaves $32 weighted collateral against $40 of debt.
    let r = withdraw(&mut p.pool, BORROWER, XLM, 60 * SCALE, 0, NO_RATES, &prices);
    assert_eq!(r, Err(PoolError::WithdrawHealthFactorTooLow));
    assert_eq!(r.unwrap_err().message(), "withdraw: health factor would drop below 1.0");
}

#[test]
fn refused_operations_change_nothing() {
    let mut p = scenario(false);
    let prices = p.prices();
    let state_before = read_asset_state(&p.pool, XLM).unwrap();
    assert_eq!(
        withdraw(&mut p.pool, BORROWER, XLM, 60 * SCALE, 0, NO_RATES, &prices),
        Err(PoolError::WithdrawHealthFactorTooLow)
    );
    assert_eq!(get_user_deposit(&p.pool, BORROWER, XLM), 100 * SCALE);
    assert_eq!(read_asset_state(&p.pool, XLM).unwrap(), state_before);
    assert_eq!(
        withdraw(&mut p.pool, BORROWER, XLM, 101 * SCALE, 0, NO_RATES, &prices),
        Err(PoolError::InsufficientLTokenBalance)
    );
    assert_eq!(
        withdraw(&mut p.pool, SUPPLIER, USDC, 100 * SCALE, 0, NO_RATES, &prices),
        Err(PoolError::WithdrawInsufficientLiquidity)
    );
    assert_eq!(withdraw(&mut p.pool, SUPPLIER, USDC, 0, 0, NO_RATES, &prices), Err(PoolError::WithdrawAmountNotPositive));
    assert_eq!(get_user_deposit(&p.pool, SUPPLIER, USDC), 100 * SCALE);
}

#[test]
fn borrow_then_repay_restores_debt() {
    let mut p = scenario(false);
    let before = read_asset_state(&p.pool, USDC).unwrap();
    p.borrow(BORROWER, USDC, 5 * SCALE);
    p.repay(BORROWER, USDC, 5 * SCALE);
    assert_eq!(read_asset_state(&p.pool, USDC).unwrap(), before);
    assert_eq!(get_user_borrow(&p.pool, BORROWER, USDC), 40 * SCALE);
}

#[test]
fn borrow_is_refused_while_unhealthy() {
    let mut p = scenario(true);
    let prices = p.prices();
    assert_eq!(
        borrow(&mut p.pool, BORROWER, USDC, SCALE, 0, NO_RATES, &prices),
        Err(PoolError::BorrowHealthFactorTooLow)
    );
    assert_eq!(borrow(&mut p.pool, BORROWER, USDC, 0, 0, NO_RATES, &prices), Err(PoolError::BorrowAmountNotPositive));
    assert_eq!(borrow(&mut p.pool, BORROWER, 77, SCALE, 0, NO_RATES, &prices), Err(PoolError::AssetNotRegistered));
}

#[test]
fn inactive_assets_refuse_deposits_and_borrows() {
    let mut p = setup();
    let config = read_asset_config(&p.pool, ASSET).unwrap();
    write_asset_config(&mut p.pool, ASSET, AssetConfig { is_active: false, ..config });
    let prices = p.prices();
    assert_eq!(
        deposit(&mut p.pool, ADMIN, ASSET, SCALE, 0, NO_RATES, SCALE),
        Err(PoolError::DepositAssetNotActive)
    );
    assert_eq!(
        borrow(&mut p.pool, ADMIN, ASSET, SCALE, 0, NO_RATES, &prices),
        Err(PoolError::BorrowAssetNotActive)
    );
}

#[test]
fn deposit_mints_at_the_exchange_rate() {
    let mut p = setup();
    // The first deposit mints at 1.0.
    p.deposit(ADMIN, ASSET, 10 * SCALE);
    assert_eq!(p.ltokens[&ASSET].balance(ADMIN), 10 * SCALE);
    // Minting recorded the underlying, so the rate is still 1.0.
    let rate = p.ltokens[&ASSET].exchange_rate().unwrap();
    assert_eq!(rate, SCALE);
    assert_eq!(deposit(&mut p.pool, ADMIN, ASSET, SCALE, 0, NO_RATES, 0), Err(PoolError::DivisionByZero));
    assert_eq!(deposit(&mut p.pool, ADMIN, ASSET, 10 * SCALE, 0, NO_RATES, 2 * SCALE), Ok(5 * SCALE));
    assert_eq!(deposit(&mut p.pool, ADMIN, ASSET, i128::MAX, 0, NO_RATES, SCALE), Err(PoolError::Overflow));
    assert_eq!(get_user_deposit(&p.pool, ADMIN, ASSET), 20 * SCALE);
    assert_eq!(deposit(&mut p.pool, ADMIN, 77, SCALE, 0, NO_RATES, SCALE), Err(PoolError::AssetNotRegistered));
}

#[test]
fn repay_without_debt_is_refused() {
    let mut p = setup();
    assert_eq!(repay(&mut p.pool, USER, ASSET, SCALE, 0, NO_RATES), Err(PoolError::NothingToRepay));
    assert_eq!(repay(&mut p.pool, USER, ASSET, 0, 0, NO_RATES), Err(PoolError::RepayAmountNotPositive));
    assert_eq!(repay(&mut p.pool, USER, 77, SCALE, 0, NO_RATES), Err(PoolError::AssetNotRegistered));
}

#[test]
fn interest_accrues_over_time() {
    let mut p = setup();
    p.deposit(ADMIN, ASSET, 10 * SCALE);
    p.borrow(USER, ASSET, 8 * SCALE);
    // One year later at 80% utilization the borrow rate is 12%.
    p.now = 31_536_000;
    assert!(needs_rates(&p.pool, ASSET, p.now));
    p.repay(USER, ASSET, SCALE);
    let state = read_asset_state(&p.pool, ASSET).unwrap();
    assert_eq!(state.borrow_index, 1_120_000_000_000_000_000);
    // The deposit index grows at the supply rate: 12% * 80% * (1 - 10%).
    assert_eq!(state.deposit_index, 1_086_400_000_000_000_000);
    assert_eq!(state.last_update_timestamp, 31_536_000);
    assert_eq!(state.total_borrows, 7 * SCALE);
    assert!(!needs_rates(&p.pool, ASSET, p.now));
}

#[test]
fn add_asset_registers_once() {
    let mut p = setup();
    assert!(has_asset_config(&p.pool, ASSET));
    assert_eq!(p.pool.add_asset(ASSET, 1, 1, 1, 1, 5), Err(PoolError::AssetAlreadyRegistered));
    assert_eq!(read_asset_config(&p.pool, ASSET).unwrap().ltv, 7500);
    assert_eq!(p.pool.asset_count(), 1);
    let state = read_asset_state(&p.pool, ASSET).unwrap();
    assert_eq!(
        state,
        AssetState {
            total_deposits: 0,
            total_borrows: 0,
            last_update_timestamp: 0,
            borrow_index: SCALE,
            deposit_index: SCALE
        }
    );
    assert_eq!(p.pool.get_asset_liquidation_bonus(ASSET), Ok(500));
    assert_eq!(p.pool.get_asset_liquidation_bonus(7), Err(PoolError::AssetNotRegistered));
}

#[test]
fn collateral_total_values_each_listed_asset() {
    let mut pool = LendingPool::new();
    pool.add_asset(5, 7500, 8000, 500, 1000, 0).unwrap();
    set_user_deposit(&mut pool, 1, 5, 3 * SCALE);
    assert_eq!(get_total_collateral_usd(&pool, 1, &vec![2 * SCALE]), Ok(6 * SCALE));
}

#[test]
fn health_factor_uses_the_exact_sums() {
    // One unit of debt at $0.50 and no collateral: the position has debt,
    // so its health factor is zero, not i128::MAX.
    let mut pool = LendingPool::new();
    pool.add_asset(5, 7500, 8000, 500, 1000, 0).unwrap();
    set_user_borrow(&mut pool, 1, 5, 1);
    assert_eq!(get_health_factor(&pool, 1, &vec![SCALE / 2]), Ok(0));
    // The USD total of that debt rounds toward zero.
    assert_eq!(get_total_debt_usd(&pool, 1, &vec![SCALE / 2]), Ok(0));
    // Deposit 1 and borrow 1 at $1 with an 80% threshold: 0.8.
    set_user_deposit(&mut pool, 1, 5, 1);
    assert_eq!(get_health_factor(&pool, 1, &vec![SCALE]), Ok(800_000_000_000_000_000));
    // Collateral 10 * 0.5 * 80% = 4 over debt 3 * 0.5 = 1.5, at full precision.
    set_user_borrow(&mut pool, 1, 5, 3);
    set_user_deposit(&mut pool, 1, 5, 10);
    assert_eq!(get_health_factor(&pool, 1, &vec![SCALE / 2]), Ok(2_666_666_666_666_666_666));
    // Amounts whose products exceed i128 are still valued exactly.
    set_user_borrow(&mut pool, 1, 5, i128::MAX);
    set_user_deposit(&mut pool, 1, 5, i128::MAX);
    assert_eq!(get_health_factor(&pool, 1, &vec![i128::MAX]), Ok(799_999_999_999_999_999));
    // A negative price makes the debt negative, and the factor with it.
    set_user_deposit(&mut pool, 1, 5, 0);
    set_user_borrow(&mut pool, 1, 5, 2);
    set_user_deposit(&mut pool, 1, 5, 5);
    assert_eq!(get_health_factor(&pool, 1, &vec![-SCALE]), Ok(2 * SCALE));
}

#[test]
fn valuation_overflow_is_reported() {
    let mut pool = LendingPool::new();
    pool.add_asset(5, 7500, 8000, 500, 1000, 0).unwrap();
    set_user_borrow(&mut pool, 1, 5, i128::MAX);
    assert_eq!(get_total_debt_usd(&pool, 1, &vec![i128::MAX]), Err(PoolError::Overflow));
    // A health factor that does not fit in i128 is refused.
    set_user_borrow(&mut pool, 1, 5, 1);
    set_user_deposit(&mut pool, 1, 5, i128::MAX);
    assert_eq!(get_health_factor(&pool, 1, &vec![1]), Err(PoolError::Overflow));
}

#[test]
fn execute_liquidation_checks_in_order() {
    let mut pool = LendingPool::new();
    pool.add_asset(5, 7500, 8000, 500, 1000, 0).unwrap();
    set_user_borrow(&mut pool, 1, 5, 10);
    set_user_deposit(&mut pool, 1, 5, 20);
    assert_eq!(execute_liquidation(&mut pool, 2, 1, 5, 5, 0, 1), Err(PoolError::LiquidationDebtNotPositive));
    assert_eq!(execute_liquidation(&mut pool, 2, 1, 5, 5, 11, 1), Err(PoolError::LiquidationDebtExceedsBorrow));
    assert_eq!(
        execute_liquidation(&mut pool, 2, 1, 5, 5, 5, 21),
        Err(PoolError::LiquidationCollateralExceedsDeposit)
    );
    // Self-liquidation keeps the collateral where it is.
    execute_liquidation(&mut pool, 1, 1, 5, 5, 5, 15).unwrap();
    assert_eq!(get_user_deposit(&pool, 1, 5), 20);
    assert_eq!(get_user_borrow(&pool, 1, 5), 5);
    // Total borrows saturate at the bottom of the range.
    assert_eq!(read_asset_state(&pool, 5).unwrap().total_borrows, -5);
    let mut state = read_asset_state(&pool, 5).unwrap();
    state.total_borrows = i128::MIN;
    write_asset_state(&mut pool, 5, state);
    execute_liquidation(&mut pool, 2, 1, 5, 5, 5, 0).unwrap();
    assert_eq!(read_asset_state(&pool, 5).unwrap().total_borrows, i128::MIN);
}

#[test]
fn usd_value_and_fallback_price() {
    assert_eq!(usd_value(2000 * SCALE, SCALE / 10), Some(200 * SCALE));
    assert_eq!(usd_value(SCALE / 2, 3 * SCALE), Some(3 * SCALE / 2));
    assert_eq!(usd_value(3, -SCALE / 2), Some(-1));
    assert_eq!(usd_value(i128::MAX, 2), Some(340_282_366_920_938_463_463));
    assert_eq!(usd_value(i128::MAX, 2 * SCALE), None);
    assert_eq!(get_price(None), SCALE);
    assert_eq!(get_price(Some(7)), 7);
    assert_eq!(mul_div(6, 7, 4), 10);
}

#[test]
fn pool_error_messages() {
    assert_eq!(PoolError::DepositAmountNotPositive.message(), "deposit: amount must be positive");
    assert_eq!(PoolError::BorrowInsufficientLiquidity.message(), "borrow: insufficient liquidity");
    assert_eq!(PoolError::NothingToRepay.message(), "repay: no outstanding borrow to repay");
}
