//! Properties of the pool's accounting that span several operations.
use vstd::prelude::*;
use crate::fixed_point::SCALE;
use super::accrual::{accrual_due, accrue_error, accrued, grown, growth_factor, AccrualRates};
use super::borrow::{borrow_error, borrowed};
use super::deposit::{deposit_error, deposited};
use super::health::{
    collateral_term, collateral_usd_term, debt_term, debt_usd_term, health_error, health_factor,
    health_scan_error, health_step_ok, liquidated, liquidation_error, total_collateral, total_debt,
    total_debt_usd, weighted_collateral,
};
use super::repay::{repaid, repay_error};
use super::storage::AssetState;
use super::withdraw::{withdraw_error, withdrawn};
use super::storage::AssetConfig;
use super::{added_asset, with_borrow, with_config, with_deposit, with_state, PoolState};

verus! {

/// Accruing twice at the same time is the same as accruing once: the
/// second accrual finds no elapsed time and changes nothing.
pub proof fn law_accrue_idempotent(state: AssetState, now: u64, rate1: AccrualRates, rate2: AccrualRates)
    requires
        accrue_error(state, now, rate1) is None,
    ensures
        accrue_error(accrued(state, now, rate1), now, rate2) is None,
        accrued(accrued(state, now, rate1), now, rate2) == accrued(state, now, rate1),
{
}

/// Growing a non-negative index at a non-negative rate never lowers it.
proof fn lemma_grown_at_least(state: AssetState, now: u64, rate: i128, index: i128)
    requires
        rate >= 0,
        index >= 0,
    ensures
        grown(state, now, rate, index) >= index,
{
    let el = super::accrual::elapsed(now, state.last_update_timestamp);
    let s = SCALE as int;
    assert(rate * el >= 0) by (nonlinear_arith)
        requires
            rate >= 0,
            el >= 0,
    ;
    crate::fixed_point::lemma_floor_div_bounds(rate * el, 31_536_000);
    let f = growth_factor(state, now, rate);
    assert(f >= s);
    assert(index * s <= index * f) by (nonlinear_arith)
        requires
            index >= 0,
            f >= s,
    ;
    crate::fixed_point::lemma_floor_div_monotonic(index * s, index * f, s);
    crate::fixed_point::lemma_floor_div_cancel(index as int, s);
    assert(index * f >= 0) by (nonlinear_arith)
        requires
            index >= 0,
            f >= s,
            s > 0,
    ;
}

/// Accrual at non-negative rates never lowers the indices, never touches
/// the totals, and stamps the state with the current time; the borrow index
/// grows at the borrow rate and the deposit index at the supply rate.
pub proof fn law_accrue_indices_grow(state: AssetState, now: u64, rate: AccrualRates)
    requires
        accrue_error(state, now, rate) is None,
        rate.borrow_rate >= 0,
        rate.supply_rate >= 0,
        state.borrow_index >= 0,
        state.deposit_index >= 0,
    ensures
        accrued(state, now, rate).borrow_index >= state.borrow_index,
        accrued(state, now, rate).deposit_index >= state.deposit_index,
        accrual_due(state, now) ==> accrued(state, now, rate).borrow_index == grown(
            state,
            now,
            rate.borrow_rate,
            state.borrow_index,
        ),
        accrual_due(state, now) ==> accrued(state, now, rate).deposit_index == grown(
            state,
            now,
            rate.supply_rate,
            state.deposit_index,
        ),
        accrued(state, now, rate).total_deposits == state.total_deposits,
        accrued(state, now, rate).total_borrows == state.total_borrows,
        accrued(state, now, rate).last_update_timestamp == now,
{
    if accrual_due(state, now) {
        lemma_grown_at_least(state, now, rate.borrow_rate, state.borrow_index);
        lemma_grown_at_least(state, now, rate.supply_rate, state.deposit_index);
    }
}

/// The asset list stays free of duplicates and of unregistered assets:
/// registering a new asset, and writing a configuration, an accrual state
/// or a position, all keep it so.
pub proof fn law_asset_list_stays_well_formed(
    s: PoolState,
    asset: u64,
    config: AssetConfig,
    state: AssetState,
    user: u64,
    amount: i128,
    now: u64,
)
    requires
        s.assets_well_formed(),
    ensures
        !s.configs.contains_key(asset) ==> added_asset(s, asset, config, now).assets_well_formed(),
        with_config(s, asset, config).assets_well_formed(),
        with_state(s, asset, state).assets_well_formed(),
        with_deposit(s, user, asset, amount).assets_well_formed(),
        with_borrow(s, user, asset, amount).assets_well_formed(),
{
    if !s.configs.contains_key(asset) {
        let a = added_asset(s, asset, config, now);
        assert forall|i: int| 0 <= i < s.assets.len() implies s.assets[i] != asset by {
            assert(s.configs.contains_key(s.assets[i]));
        }
        assert(a.assets =~= s.assets.push(asset));
    }
}

/// The pool after accruing interest on `asset` alone.
pub open spec fn accrued_pool(s: PoolState, asset: u64, now: u64, rate: AccrualRates) -> PoolState {
    with_state(s, asset, accrued(s.states[asset], now, rate))
}

/// Repaying right away what was just borrowed always succeeds (for a
/// non-negative prior borrow) and leaves the pool as a bare accrual would.
pub proof fn law_repay_undoes_borrow(
    s: PoolState,
    user: u64,
    asset: u64,
    amount: i128,
    now: u64,
    rate: AccrualRates,
    prices: Seq<i128>,
    repay_rate: AccrualRates,
)
    requires
        s.total(),
        s.borrows[(user, asset)] >= 0,
        borrow_error(s, user, asset, amount, now, rate, prices) is None,
    ensures
        repay_error(borrowed(s, user, asset, amount, now, rate), user, asset, amount, now, repay_rate)
            is None,
        repaid(borrowed(s, user, asset, amount, now, rate), user, asset, amount, now, repay_rate)
            == accrued_pool(s, asset, now, rate),
{
    let b = borrowed(s, user, asset, amount, now, rate);
    let r = repaid(b, user, asset, amount, now, repay_rate);
    let a = accrued_pool(s, asset, now, rate);
    assert(r.states =~= a.states);
    assert(r.borrows =~= a.borrows);
}

/// Withdrawing right away what was just deposited, when allowed, leaves the
/// pool as a bare accrual would.
pub proof fn law_withdraw_undoes_deposit(
    s: PoolState,
    user: u64,
    asset: u64,
    amount: i128,
    now: u64,
    rate: AccrualRates,
    exchange_rate: i128,
    prices: Seq<i128>,
    withdraw_rate: AccrualRates,
)
    requires
        s.total(),
        deposit_error(s, user, asset, amount, now, rate, exchange_rate) is None,
        withdraw_error(
            deposited(s, user, asset, amount, now, rate),
            user,
            asset,
            amount,
            now,
            withdraw_rate,
            prices,
        ) is None,
    ensures
        withdrawn(deposited(s, user, asset, amount, now, rate), user, asset, amount, now, withdraw_rate)
            == accrued_pool(s, asset, now, rate),
{
    let d = deposited(s, user, asset, amount, now, rate);
    let w = withdrawn(d, user, asset, amount, now, withdraw_rate);
    let a = accrued_pool(s, asset, now, rate);
    assert(w.states =~= a.states);
    assert(w.deposits =~= a.deposits);
}

/// Every operation moves an asset's totals in step with the one position it
/// touches: a deposit or withdrawal changes the depositor's deposit and the
/// total deposits by the same amount, a borrow or repayment changes the
/// borrower's borrow and the total borrows by the same amount, and no other
/// position changes.
pub proof fn law_totals_move_with_positions(
    s: PoolState,
    user: u64,
    asset: u64,
    amount: i128,
    now: u64,
    rate: AccrualRates,
    exchange_rate: i128,
    prices: Seq<i128>,
    other: (u64, u64),
)
    requires
        s.total(),
        other != (user, asset),
    ensures
        deposit_error(s, user, asset, amount, now, rate, exchange_rate) is None ==> {
            let n = deposited(s, user, asset, amount, now, rate);
            &&& n.states[asset].total_deposits - accrued(s.states[asset], now, rate).total_deposits
                == amount
            &&& n.deposits[(user, asset)] - s.deposits[(user, asset)] == amount
            &&& n.deposits[other] == s.deposits[other]
            &&& n.borrows == s.borrows
        },
        withdraw_error(s, user, asset, amount, now, rate, prices) is None ==> {
            let n = withdrawn(s, user, asset, amount, now, rate);
            &&& accrued(s.states[asset], now, rate).total_deposits - n.states[asset].total_deposits
                == amount
            &&& s.deposits[(user, asset)] - n.deposits[(user, asset)] == amount
            &&& n.deposits[other] == s.deposits[other]
            &&& n.borrows == s.borrows
        },
        borrow_error(s, user, asset, amount, now, rate, prices) is None ==> {
            let n = borrowed(s, user, asset, amount, now, rate);
            &&& n.states[asset].total_borrows - accrued(s.states[asset], now, rate).total_borrows
                == amount
            &&& n.borrows[(user, asset)] - s.borrows[(user, asset)] == amount
            &&& n.borrows[other] == s.borrows[other]
            &&& n.deposits == s.deposits
        },
        repay_error(s, user, asset, amount, now, rate) is None ==> {
            let n = repaid(s, user, asset, amount, now, rate);
            let applied = super::repay::repay_amount(amount, s.borrows[(user, asset)]);
            &&& accrued(s.states[asset], now, rate).total_borrows - n.states[asset].total_borrows
                == applied
            &&& s.borrows[(user, asset)] - n.borrows[(user, asset)] == applied
            &&& applied != 0 && applied <= amount
            &&& n.borrows[other] == s.borrows[other]
            &&& n.deposits == s.deposits
        },
{
}

/// A liquidation moves collateral between the borrower and the liquidator
/// without creating or destroying any, and cancels exactly the repaid debt.
pub proof fn law_liquidation_conserves_collateral(
    s: PoolState,
    liquidator: u64,
    borrower: u64,
    debt_asset: u64,
    collateral_asset: u64,
    debt_amount: i128,
    collateral_amount: i128,
    other: u64,
)
    requires
        s.total(),
        liquidation_error(
            s,
            liquidator,
            borrower,
            debt_asset,
            collateral_asset,
            debt_amount,
            collateral_amount,
        ) is None,
        other != liquidator,
        other != borrower,
    ensures
        ({
            let n = liquidated(
                s,
                liquidator,
                borrower,
                debt_asset,
                collateral_asset,
                debt_amount,
                collateral_amount,
            );
            &&& n.deposits[(borrower, collateral_asset)] + n.deposits[(liquidator, collateral_asset)]
                == s.deposits[(borrower, collateral_asset)] + s.deposits[(
                liquidator,
                collateral_asset,
            )]
            &&& liquidator != borrower ==> n.deposits[(liquidator, collateral_asset)] == s.deposits[(
                liquidator,
                collateral_asset,
            )] + collateral_amount
            &&& liquidator == borrower ==> n.deposits == s.deposits
            &&& n.deposits[(other, collateral_asset)] == s.deposits[(other, collateral_asset)]
            &&& n.borrows[(borrower, debt_asset)] == s.borrows[(borrower, debt_asset)]
                - debt_amount
            &&& n.borrows[(other, debt_asset)] == s.borrows[(other, debt_asset)]
            &&& forall|a: u64| #[trigger]
                n.states.contains_key(a) ==> n.states[a].total_deposits
                    == s.states[a].total_deposits
            &&& n.states.dom() == s.states.dom()
            &&& (s.states.contains_key(debt_asset) && s.states[debt_asset].total_borrows
                - debt_amount >= i128::MIN) ==> n.states[debt_asset].total_borrows
                == s.states[debt_asset].total_borrows - debt_amount
        }),
{
    let n = liquidated(
        s,
        liquidator,
        borrower,
        debt_asset,
        collateral_asset,
        debt_amount,
        collateral_amount,
    );
    if liquidator == borrower {
        assert(n.deposits =~= s.deposits);
    }
    if s.states.contains_key(debt_asset) {
        assert(n.states.dom() =~= s.states.dom());
    } else {
        assert(n.states.dom() =~= s.states.dom());
    }
}

} // verus!

verus! {

/// The health computation reads only the asset list, the configurations
/// and the positions, never the accrual states.
pub proof fn lemma_health_ignores_states(s: PoolState, t: PoolState, user: u64, prices: Seq<i128>, n: int)
    requires
        s.assets == t.assets,
        s.configs == t.configs,
        s.deposits == t.deposits,
        s.borrows == t.borrows,
    ensures
        weighted_collateral(s, user, prices, n) == weighted_collateral(t, user, prices, n),
        total_debt(s, user, prices, n) == total_debt(t, user, prices, n),
        health_scan_error(s, user, prices, n) == health_scan_error(t, user, prices, n),
    decreases n,
{
    if n > 0 {
        lemma_health_ignores_states(s, t, user, prices, n - 1);
        assert(collateral_term(s, user, prices, n - 1) == collateral_term(t, user, prices, n - 1));
        assert(debt_term(s, user, prices, n - 1) == debt_term(t, user, prices, n - 1));
        assert(health_step_ok(s, user, prices, n - 1) == health_step_ok(t, user, prices, n - 1));
    }
}

/// A withdrawal that is allowed leaves the withdrawer with a health factor
/// of at least 1.0.
pub proof fn law_withdraw_leaves_position_healthy(
    s: PoolState,
    user: u64,
    asset: u64,
    amount: i128,
    now: u64,
    rate: AccrualRates,
    prices: Seq<i128>,
)
    requires
        withdraw_error(s, user, asset, amount, now, rate, prices) is None,
    ensures
        health_error(withdrawn(s, user, asset, amount, now, rate), user, prices) is None,
        health_factor(withdrawn(s, user, asset, amount, now, rate), user, prices) >= SCALE,
{
    let after = with_deposit(s, user, asset, (s.deposits[(user, asset)] - amount) as i128);
    let w = withdrawn(s, user, asset, amount, now, rate);
    assert(w.deposits =~= after.deposits);
    lemma_health_ignores_states(w, after, user, prices, s.assets.len() as int);
}

} // verus!

verus! {

/// At a non-negative price and threshold, a weighted collateral term is
/// non-negative and grows with the deposit.
proof fn lemma_weighted_term_monotone(a1: int, a2: int, p: int, t: int)
    requires
        0 <= a1 <= a2,
        p >= 0,
        t >= 0,
    ensures
        0 <= crate::fixed_point::trunc_div(a1 * p * t, 10_000) <= crate::fixed_point::trunc_div(
            a2 * p * t,
            10_000,
        ),
{
    assert(0 <= a1 * p * t <= a2 * p * t) by (nonlinear_arith)
        requires
            0 <= a1 <= a2,
            p >= 0,
            t >= 0,
    ;
    crate::fixed_point::lemma_floor_div_monotonic(a1 * p * t, a2 * p * t, 10_000);
    crate::fixed_point::lemma_floor_div_bounds(a1 * p * t, 10_000);
}

/// At a non-negative price, a debt term is non-negative and grows with the
/// borrow.
proof fn lemma_debt_term_monotone(a1: int, a2: int, p: int)
    requires
        0 <= a1 <= a2,
        p >= 0,
    ensures
        0 <= a1 * p <= a2 * p,
{
    assert(0 <= a1 * p <= a2 * p) by (nonlinear_arith)
        requires
            0 <= a1 <= a2,
            p >= 0,
    ;
}

/// Larger deposits (at non-negative prices) never lower the weighted
/// collateral, and it is never negative.
proof fn lemma_weighted_collateral_monotone(
    s: PoolState,
    t: PoolState,
    user: u64,
    prices: Seq<i128>,
    n: int,
)
    requires
        s.assets == t.assets,
        s.configs == t.configs,
        n <= s.assets.len(),
        forall|i: int| 0 <= i < n ==> #[trigger] prices[i] >= 0,
        forall|i: int|
            0 <= i < n ==> t.deposits[(user, #[trigger] s.assets[i])] >= s.deposits[(
                user,
                s.assets[i],
            )],
    ensures
        0 <= weighted_collateral(s, user, prices, n) <= weighted_collateral(t, user, prices, n),
    decreases n,
{
    if n > 0 {
        lemma_weighted_collateral_monotone(s, t, user, prices, n - 1);
        let i = n - 1;
        let a = s.assets[i];
        assert(prices[i] >= 0);
        let ds = s.deposits[(user, a)];
        let dt = t.deposits[(user, a)];
        assert(dt >= ds);
        let lt = s.configs[a].liquidation_threshold;
        if ds > 0 {
            lemma_weighted_term_monotone(ds as int, dt as int, prices[i] as int, lt as int);
        } else if dt > 0 {
            lemma_weighted_term_monotone(0, dt as int, prices[i] as int, lt as int);
        }
        assert(collateral_term(s, user, prices, i) <= collateral_term(t, user, prices, i));
        assert(collateral_term(s, user, prices, i) >= 0);
    }
}

/// Smaller borrows (at non-negative prices) never raise the debt value, and
/// it is never negative.
proof fn lemma_total_debt_monotone(s: PoolState, t: PoolState, user: u64, prices: Seq<i128>, n: int)
    requires
        s.assets == t.assets,
        n <= s.assets.len(),
        forall|i: int| 0 <= i < n ==> #[trigger] prices[i] >= 0,
        forall|i: int|
            0 <= i < n ==> t.borrows[(user, #[trigger] s.assets[i])] <= 0 || t.borrows[(
                user,
                s.assets[i],
            )] <= s.borrows[(user, s.assets[i])],
    ensures
        0 <= total_debt(t, user, prices, n) <= total_debt(s, user, prices, n),
    decreases n,
{
    if n > 0 {
        lemma_total_debt_monotone(s, t, user, prices, n - 1);
        let i = n - 1;
        let a = s.assets[i];
        assert(prices[i] >= 0);
        let bs = s.borrows[(user, a)];
        let bt = t.borrows[(user, a)];
        assert(bt <= 0 || bt <= bs);
        if bt > 0 {
            lemma_debt_term_monotone(bt as int, bs as int, prices[i] as int);
        } else if bs > 0 {
            lemma_debt_term_monotone(0, bs as int, prices[i] as int);
        }
        assert(debt_term(t, user, prices, i) <= debt_term(s, user, prices, i));
        assert(debt_term(t, user, prices, i) >= 0);
    }
}

/// More weighted collateral and less debt never give a lower health factor
/// than one that was computed without error.
proof fn lemma_health_factor_monotone(s: PoolState, t: PoolState, user: u64, prices: Seq<i128>)
    requires
        s.assets == t.assets,
        health_error(s, user, prices) is None,
        0 <= weighted_collateral(s, user, prices, s.assets.len() as int) <= weighted_collateral(
            t,
            user,
            prices,
            s.assets.len() as int,
        ),
        0 <= total_debt(t, user, prices, s.assets.len() as int) <= total_debt(
            s,
            user,
            prices,
            s.assets.len() as int,
        ),
    ensures
        health_factor(t, user, prices) >= health_factor(s, user, prices),
{
    let n = s.assets.len() as int;
    let ws = weighted_collateral(s, user, prices, n);
    let wt = weighted_collateral(t, user, prices, n);
    let ds = total_debt(s, user, prices, n);
    let dt = total_debt(t, user, prices, n);
    let sc = SCALE as int;
    if dt > 0 {
        assert(0 <= ws * sc <= wt * sc) by (nonlinear_arith)
            requires
                0 <= ws <= wt,
                sc > 0,
        ;
        crate::fixed_point::lemma_floor_div_monotonic(ws * sc, wt * sc, dt);
        vstd::arithmetic::div_mod::lemma_div_is_ordered_by_denominator(ws * sc, dt, ds);
    }
}

/// A deposit never lowers anyone's health factor at non-negative prices (a
/// health factor that could be computed before the deposit).
pub proof fn law_deposit_never_lowers_health(
    s: PoolState,
    depositor: u64,
    asset: u64,
    amount: i128,
    now: u64,
    rate: AccrualRates,
    exchange_rate: i128,
    prices: Seq<i128>,
    user: u64,
)
    requires
        s.total(),
        deposit_error(s, depositor, asset, amount, now, rate, exchange_rate) is None,
        prices.len() == s.assets.len(),
        forall|i: int| 0 <= i < prices.len() ==> #[trigger] prices[i] >= 0,
        health_error(s, user, prices) is None,
    ensures
        health_factor(deposited(s, depositor, asset, amount, now, rate), user, prices)
            >= health_factor(s, user, prices),
{
    let t = deposited(s, depositor, asset, amount, now, rate);
    let n = s.assets.len() as int;
    assert forall|i: int| 0 <= i < n implies t.deposits[(user, #[trigger] s.assets[i])]
        >= s.deposits[(user, s.assets[i])] by {}
    assert forall|i: int| 0 <= i < n implies t.borrows[(user, #[trigger] s.assets[i])] <= 0
        || t.borrows[(user, s.assets[i])] <= s.borrows[(user, s.assets[i])] by {}
    lemma_weighted_collateral_monotone(s, t, user, prices, n);
    lemma_total_debt_monotone(s, t, user, prices, n);
    lemma_health_factor_monotone(s, t, user, prices);
}

/// A repayment never lowers anyone's health factor at non-negative prices
/// (a health factor that could be computed before the repayment).
pub proof fn law_repay_never_lowers_health(
    s: PoolState,
    repayer: u64,
    asset: u64,
    amount: i128,
    now: u64,
    rate: AccrualRates,
    prices: Seq<i128>,
    user: u64,
)
    requires
        s.total(),
        repay_error(s, repayer, asset, amount, now, rate) is None,
        prices.len() == s.assets.len(),
        forall|i: int| 0 <= i < prices.len() ==> #[trigger] prices[i] >= 0,
        health_error(s, user, prices) is None,
    ensures
        health_factor(repaid(s, repayer, asset, amount, now, rate), user, prices) >= health_factor(
            s,
            user,
            prices,
        ),
{
    let t = repaid(s, repayer, asset, amount, now, rate);
    let n = s.assets.len() as int;
    assert forall|i: int| 0 <= i < n implies t.deposits[(user, #[trigger] s.assets[i])]
        >= s.deposits[(user, s.assets[i])] by {}
    assert forall|i: int| 0 <= i < n implies t.borrows[(user, #[trigger] s.assets[i])] <= 0
        || t.borrows[(user, s.assets[i])] <= s.borrows[(user, s.assets[i])] by {}
    lemma_weighted_collateral_monotone(s, t, user, prices, n);
    lemma_total_debt_monotone(s, t, user, prices, n);
    lemma_health_factor_monotone(s, t, user, prices);
}

} // verus!

verus! {

/// Accrual follows `index * (1 + rate * elapsed / year)` over any elapsed
/// time, however short: when time has passed and the asset has deposits,
/// the borrow index grows at the borrow rate and the deposit index at the
/// supply rate, each product rounded toward zero; otherwise only the clock
/// moves. The totals never change, and accrual fails exactly when one of
/// these values does not fit in `i128`. With a positive rate, at least one
/// unit of interest and an index of at least 1.0, the index strictly grows.
pub proof fn law_accrual_formula(state: AssetState, now: u64, rates: AccrualRates)
    ensures
        ({
            let e = now - state.last_update_timestamp;
            let due = now > state.last_update_timestamp && state.total_deposits != 0;
            let ab = crate::fixed_point::trunc_div(rates.borrow_rate * e, 31_536_000);
            let asup = crate::fixed_point::trunc_div(rates.supply_rate * e, 31_536_000);
            let nb = crate::fixed_point::trunc_div(state.borrow_index * (SCALE + ab), SCALE as int);
            let nd = crate::fixed_point::trunc_div(state.deposit_index * (SCALE + asup), SCALE as int);
            let r = accrued(state, now, rates);
            &&& (accrue_error(state, now, rates) is None <==> (!due || (
                crate::fixed_point::in_i128(ab)
                && crate::fixed_point::in_i128(SCALE + ab)
                && crate::fixed_point::in_i128(nb)
                && crate::fixed_point::in_i128(asup)
                && crate::fixed_point::in_i128(SCALE + asup)
                && crate::fixed_point::in_i128(nd))))
            &&& r.last_update_timestamp == now
            &&& r.total_deposits == state.total_deposits
            &&& r.total_borrows == state.total_borrows
            &&& (!due ==> r.borrow_index == state.borrow_index && r.deposit_index == state.deposit_index)
            &&& (due && accrue_error(state, now, rates) is None ==> r.borrow_index == nb
                && r.deposit_index == nd)
            &&& (due && accrue_error(state, now, rates) is None && rates.borrow_rate > 0
                && rates.borrow_rate * e >= 31_536_000 && state.borrow_index >= SCALE
                ==> r.borrow_index > state.borrow_index)
        }),
{
    let e = now - state.last_update_timestamp;
    let due = now > state.last_update_timestamp && state.total_deposits != 0;
    let ab = crate::fixed_point::trunc_div(rates.borrow_rate * e, 31_536_000);
    let bi = state.borrow_index as int;
    let s = SCALE as int;
    if due && accrue_error(state, now, rates) is None && rates.borrow_rate > 0
        && rates.borrow_rate * e >= 31_536_000 && bi >= s {
        let x = rates.borrow_rate * e;
        crate::fixed_point::lemma_floor_div_monotonic(31_536_000, x, 31_536_000);
        crate::fixed_point::lemma_floor_div_cancel(1, 31_536_000);
        assert(ab >= 1);
        assert(bi * (s + ab) >= bi * s + bi) by (nonlinear_arith)
            requires
                ab >= 1,
                bi >= s,
                s > 0,
        ;
        assert(bi * s + bi == (bi + 1) * s + (bi - s)) by (nonlinear_arith);
        assert(bi * (s + ab) >= (bi + 1) * s) by (nonlinear_arith)
            requires
                bi * (s + ab) >= bi * s + bi,
                bi >= s,
        ;
        assert(bi * (s + ab) >= 0) by (nonlinear_arith)
            requires
                ab >= 1,
                bi >= s,
                s > 0,
        ;
        crate::fixed_point::lemma_floor_div_monotonic((bi + 1) * s, bi * (s + ab), s);
        crate::fixed_point::lemma_floor_div_cancel(bi + 1, s);
    }
}

/// A borrow that succeeds lends no more than the asset's available
/// liquidity: afterwards the asset's total borrows, grown by exactly the
/// amount lent, are still covered by its total deposits, and the borrower's
/// debt grows by the amount. It is positive, the asset is registered and
/// active, and the borrower's health factor before the loan was at least
/// 1.0.
pub proof fn law_borrow_within_liquidity(
    s: PoolState,
    borrower: u64,
    asset: u64,
    amount: i128,
    now: u64,
    rates: AccrualRates,
    prices: Seq<i128>,
)
    requires
        borrow_error(s, borrower, asset, amount, now, rates, prices) is None,
    ensures
        amount > 0,
        s.configs.contains_key(asset) && s.configs[asset].is_active,
        borrowed(s, borrower, asset, amount, now, rates).states[asset].total_borrows
            == s.states[asset].total_borrows + amount,
        borrowed(s, borrower, asset, amount, now, rates).states[asset].total_borrows
            <= borrowed(s, borrower, asset, amount, now, rates).states[asset].total_deposits,
        borrowed(s, borrower, asset, amount, now, rates).states[asset].total_deposits
            == s.states[asset].total_deposits,
        borrowed(s, borrower, asset, amount, now, rates).borrows[(borrower, asset)]
            == s.borrows[(borrower, asset)] + amount,
        health_error(s, borrower, prices) is None,
        health_factor(s, borrower, prices) >= SCALE,
{
    law_accrual_formula(s.states[asset], now, rates);
}

/// A repayment that succeeds applies `min(amount, outstanding)`: never
/// more than what is owed nor more than offered, so a non-negative debt
/// never becomes negative; the asset's total borrows shrink by the same
/// amount.
pub proof fn law_repay_applies_at_most_the_debt(
    s: PoolState,
    repayer: u64,
    asset: u64,
    amount: i128,
    now: u64,
    rates: AccrualRates,
)
    requires
        repay_error(s, repayer, asset, amount, now, rates) is None,
        s.borrows[(repayer, asset)] >= 0,
    ensures
        ({
            let owed = s.borrows[(repayer, asset)] as int;
            let applied = super::repay::repay_amount(amount, s.borrows[(repayer, asset)]) as int;
            let after = repaid(s, repayer, asset, amount, now, rates);
            &&& 0 < applied
            &&& applied <= owed
            &&& applied <= amount
            &&& (applied == amount || applied == owed)
            &&& after.borrows[(repayer, asset)] == owed - applied
            &&& after.borrows[(repayer, asset)] >= 0
            &&& (amount >= owed ==> after.borrows[(repayer, asset)] == 0)
            &&& after.states[asset].total_borrows == s.states[asset].total_borrows - applied
        }),
{
    law_accrual_formula(s.states[asset], now, rates);
}

/// Depositing into one more listed asset adds exactly that deposit's
/// threshold-weighted value `deposit * price * threshold / 10000` to the
/// weighted collateral, whatever the other assets hold.
pub proof fn law_weighted_collateral_adds_each_asset(
    s: PoolState,
    user: u64,
    prices: Seq<i128>,
    k: int,
    d: i128,
)
    requires
        s.assets_well_formed(),
        0 <= k < s.assets.len(),
        s.deposits[(user, s.assets[k])] <= 0,
        d > 0,
    ensures
        weighted_collateral(
            with_deposit(s, user, s.assets[k], d),
            user,
            prices,
            s.assets.len() as int,
        ) == weighted_collateral(s, user, prices, s.assets.len() as int)
            + crate::fixed_point::trunc_div(
            d * prices[k] * s.configs[s.assets[k]].liquidation_threshold,
            10_000,
        ),
{
    lemma_weighted_adds(s, user, prices, k, d, s.assets.len() as int);
}

proof fn lemma_weighted_adds(s: PoolState, user: u64, prices: Seq<i128>, k: int, d: i128, n: int)
    requires
        s.assets_well_formed(),
        0 <= k < s.assets.len(),
        0 <= n <= s.assets.len(),
        s.deposits[(user, s.assets[k])] <= 0,
        d > 0,
    ensures
        weighted_collateral(with_deposit(s, user, s.assets[k], d), user, prices, n)
            == weighted_collateral(s, user, prices, n) + (if k < n {
            crate::fixed_point::trunc_div(
                d * prices[k] * s.configs[s.assets[k]].liquidation_threshold,
                10_000,
            )
        } else {
            0
        }),
    decreases n,
{
    if n > 0 {
        lemma_weighted_adds(s, user, prices, k, d, n - 1);
        let t = with_deposit(s, user, s.assets[k], d);
        if n - 1 != k {
            assert(s.assets[n - 1] != s.assets[k]);
            assert(t.deposits[(user, s.assets[n - 1])] == s.deposits[(user, s.assets[n - 1])]);
            assert(collateral_term(t, user, prices, n - 1) == collateral_term(s, user, prices, n - 1));
        }
    }
}

/// Borrowing one more listed asset adds exactly `borrow * price` to the
/// debt, whatever the other assets hold.
pub proof fn law_total_debt_adds_each_asset(
    s: PoolState,
    user: u64,
    prices: Seq<i128>,
    k: int,
    b: i128,
)
    requires
        s.assets_well_formed(),
        0 <= k < s.assets.len(),
        s.borrows[(user, s.assets[k])] <= 0,
        b > 0,
    ensures
        total_debt(with_borrow(s, user, s.assets[k], b), user, prices, s.assets.len() as int)
            == total_debt(s, user, prices, s.assets.len() as int) + b * prices[k],
{
    lemma_debt_adds(s, user, prices, k, b, s.assets.len() as int);
}

proof fn lemma_debt_adds(s: PoolState, user: u64, prices: Seq<i128>, k: int, b: i128, n: int)
    requires
        s.assets_well_formed(),
        0 <= k < s.assets.len(),
        0 <= n <= s.assets.len(),
        s.borrows[(user, s.assets[k])] <= 0,
        b > 0,
    ensures
        total_debt(with_borrow(s, user, s.assets[k], b), user, prices, n) == total_debt(
            s,
            user,
            prices,
            n,
        ) + (if k < n {
            b * prices[k]
        } else {
            0
        }),
    decreases n,
{
    if n > 0 {
        lemma_debt_adds(s, user, prices, k, b, n - 1);
        let t = with_borrow(s, user, s.assets[k], b);
        if n - 1 != k {
            assert(s.assets[n - 1] != s.assets[k]);
            assert(t.borrows[(user, s.assets[n - 1])] == s.borrows[(user, s.assets[n - 1])]);
            assert(debt_term(t, user, prices, n - 1) == debt_term(s, user, prices, n - 1));
        }
    }
}

/// Depositing into one more listed asset adds exactly that deposit's USD
/// value `deposit * price / 1e18` to the user's total collateral, whatever
/// the other assets hold.
pub proof fn law_total_collateral_adds_each_asset(
    s: PoolState,
    user: u64,
    prices: Seq<i128>,
    k: int,
    d: i128,
)
    requires
        s.assets_well_formed(),
        0 <= k < s.assets.len(),
        s.deposits[(user, s.assets[k])] <= 0,
        d > 0,
    ensures
        total_collateral(with_deposit(s, user, s.assets[k], d), user, prices, s.assets.len() as int)
            == total_collateral(s, user, prices, s.assets.len() as int)
            + crate::fixed_point::trunc_div(d * prices[k], SCALE as int),
{
    lemma_collateral_adds(s, user, prices, k, d, s.assets.len() as int);
}

proof fn lemma_collateral_adds(s: PoolState, user: u64, prices: Seq<i128>, k: int, d: i128, n: int)
    requires
        s.assets_well_formed(),
        0 <= k < s.assets.len(),
        0 <= n <= s.assets.len(),
        s.deposits[(user, s.assets[k])] <= 0,
        d > 0,
    ensures
        total_collateral(with_deposit(s, user, s.assets[k], d), user, prices, n)
            == total_collateral(s, user, prices, n) + (if k < n {
            crate::fixed_point::trunc_div(d * prices[k], SCALE as int)
        } else {
            0
        }),
    decreases n,
{
    if n > 0 {
        lemma_collateral_adds(s, user, prices, k, d, n - 1);
        let t = with_deposit(s, user, s.assets[k], d);
        if n - 1 != k {
            assert(s.assets[n - 1] != s.assets[k]);
            assert(t.deposits[(user, s.assets[n - 1])] == s.deposits[(user, s.assets[n - 1])]);
            assert(collateral_usd_term(t, user, prices, n - 1) == collateral_usd_term(
                s,
                user,
                prices,
                n - 1,
            ));
        }
    }
}

/// Borrowing one more listed asset adds exactly that borrow's USD value
/// `borrow * price / 1e18` to the user's total debt in USD, whatever the
/// other assets hold.
pub proof fn law_total_debt_usd_adds_each_asset(
    s: PoolState,
    user: u64,
    prices: Seq<i128>,
    k: int,
    b: i128,
)
    requires
        s.assets_well_formed(),
        0 <= k < s.assets.len(),
        s.borrows[(user, s.assets[k])] <= 0,
        b > 0,
    ensures
        total_debt_usd(with_borrow(s, user, s.assets[k], b), user, prices, s.assets.len() as int)
            == total_debt_usd(s, user, prices, s.assets.len() as int)
            + crate::fixed_point::trunc_div(b * prices[k], SCALE as int),
{
    lemma_debt_usd_adds(s, user, prices, k, b, s.assets.len() as int);
}

proof fn lemma_debt_usd_adds(s: PoolState, user: u64, prices: Seq<i128>, k: int, b: i128, n: int)
    requires
        s.assets_well_formed(),
        0 <= k < s.assets.len(),
        0 <= n <= s.assets.len(),
        s.borrows[(user, s.assets[k])] <= 0,
        b > 0,
    ensures
        total_debt_usd(with_borrow(s, user, s.assets[k], b), user, prices, n) == total_debt_usd(
            s,
            user,
            prices,
            n,
        ) + (if k < n {
            crate::fixed_point::trunc_div(b * prices[k], SCALE as int)
        } else {
            0
        }),
    decreases n,
{
    if n > 0 {
        lemma_debt_usd_adds(s, user, prices, k, b, n - 1);
        let t = with_borrow(s, user, s.assets[k], b);
        if n - 1 != k {
            assert(s.assets[n - 1] != s.assets[k]);
            assert(t.borrows[(user, s.assets[n - 1])] == s.borrows[(user, s.assets[n - 1])]);
            assert(debt_usd_term(t, user, prices, n - 1) == debt_usd_term(s, user, prices, n - 1));
        }
    }
}

/// A user without any positive deposit or borrow has no weighted
/// collateral, no debt and no USD totals.
pub proof fn law_sums_vanish_without_positions(s: PoolState, user: u64, prices: Seq<i128>, n: int)
    requires
        n <= s.assets.len(),
        forall|i: int| 0 <= i < n ==> s.deposits[(user, #[trigger] s.assets[i])] <= 0,
        forall|i: int| 0 <= i < n ==> s.borrows[(user, #[trigger] s.assets[i])] <= 0,
    ensures
        weighted_collateral(s, user, prices, n) == 0,
        total_debt(s, user, prices, n) == 0,
        total_collateral(s, user, prices, n) == 0,
        total_debt_usd(s, user, prices, n) == 0,
    decreases n,
{
    if n > 0 {
        law_sums_vanish_without_positions(s, user, prices, n - 1);
        assert(s.deposits[(user, s.assets[n - 1])] <= 0);
        assert(s.borrows[(user, s.assets[n - 1])] <= 0);
    }
}

} // verus!

verus! {

/// A computed health factor is the threshold-weighted collateral times
/// 1e18 divided by the debt, rounded down: with positive debt and
/// non-negative collateral, `hf * debt <= collateral * 1e18 < (hf + 1) * debt`;
/// without debt it is `i128::MAX`.
pub proof fn law_health_factor_is_the_ratio(s: PoolState, user: u64, prices: Seq<i128>)
    requires
        health_error(s, user, prices) is None,
    ensures
        ({
            let n = s.assets.len() as int;
            let w = weighted_collateral(s, user, prices, n);
            let d = total_debt(s, user, prices, n);
            let hf = health_factor(s, user, prices);
            &&& (d == 0 ==> hf == i128::MAX)
            &&& (d > 0 && w >= 0 ==> 0 <= hf && hf * d <= w * SCALE && w * SCALE < (hf + 1) * d)
        }),
{
    let n = s.assets.len() as int;
    let w = weighted_collateral(s, user, prices, n);
    let d = total_debt(s, user, prices, n);
    if d > 0 && w >= 0 {
        assert(w * SCALE >= 0) by (nonlinear_arith)
            requires
                w >= 0,
        ;
        crate::fixed_point::lemma_floor_bracket(w * SCALE, d);
    }
}

/// A deposit that succeeds is positive, goes to an active asset at a
/// non-zero exchange rate, and raises the depositor's deposit and the
/// asset's total deposits by exactly the amount, leaving the total borrows;
/// the lTokens minted are the amount divided by the exchange rate, rounded
/// down.
pub proof fn law_deposit_records_the_amount(
    s: PoolState,
    depositor: u64,
    asset: u64,
    amount: i128,
    now: u64,
    rates: AccrualRates,
    exchange_rate: i128,
)
    requires
        deposit_error(s, depositor, asset, amount, now, rates, exchange_rate) is None,
    ensures
        amount > 0,
        exchange_rate != 0,
        s.configs.contains_key(asset) && s.configs[asset].is_active,
        deposited(s, depositor, asset, amount, now, rates).deposits[(depositor, asset)]
            == s.deposits[(depositor, asset)] + amount,
        deposited(s, depositor, asset, amount, now, rates).states[asset].total_deposits
            == s.states[asset].total_deposits + amount,
        deposited(s, depositor, asset, amount, now, rates).states[asset].total_borrows
            == s.states[asset].total_borrows,
        exchange_rate > 0 ==> ({
            let l = super::deposit::ltokens_for(amount, exchange_rate);
            &&& 0 <= l
            &&& l * exchange_rate <= amount * SCALE
            &&& amount * SCALE < (l + 1) * exchange_rate
        }),
{
    law_accrual_formula(s.states[asset], now, rates);
    if exchange_rate > 0 {
        assert(amount * SCALE >= 0) by (nonlinear_arith)
            requires
                amount > 0,
        ;
        crate::fixed_point::lemma_floor_bracket(amount * SCALE, exchange_rate as int);
    }
}

/// A withdrawal that succeeds is positive, takes no more than the
/// withdrawer's deposit nor than the asset's available liquidity, and lowers
/// the deposit and the asset's total deposits by exactly the amount.
pub proof fn law_withdraw_within_deposit_and_liquidity(
    s: PoolState,
    withdrawer: u64,
    asset: u64,
    amount: i128,
    now: u64,
    rates: AccrualRates,
    prices: Seq<i128>,
)
    requires
        withdraw_error(s, withdrawer, asset, amount, now, rates, prices) is None,
    ensures
        0 < amount <= s.deposits[(withdrawer, asset)],
        amount <= s.states[asset].total_deposits - s.states[asset].total_borrows,
        withdrawn(s, withdrawer, asset, amount, now, rates).deposits[(withdrawer, asset)]
            == s.deposits[(withdrawer, asset)] - amount,
        withdrawn(s, withdrawer, asset, amount, now, rates).states[asset].total_deposits
            == s.states[asset].total_deposits - amount,
        withdrawn(s, withdrawer, asset, amount, now, rates).states[asset].total_borrows
            == s.states[asset].total_borrows,
{
    law_accrual_formula(s.states[asset], now, rates);
}

} // verus!

verus! {

/// A liquidation that is recorded repays a positive debt of at most what
/// the borrower owes, seizes no more collateral than the borrower holds,
/// and lowers the borrower's debt by exactly the repaid amount.
pub proof fn law_liquidation_within_position(
    s: PoolState,
    liquidator: u64,
    borrower: u64,
    debt_asset: u64,
    collateral_asset: u64,
    debt_amount: i128,
    collateral_amount: i128,
)
    requires
        liquidation_error(
            s,
            liquidator,
            borrower,
            debt_asset,
            collateral_asset,
            debt_amount,
            collateral_amount,
        ) is None,
    ensures
        0 < debt_amount <= s.borrows[(borrower, debt_asset)],
        collateral_amount <= s.deposits[(borrower, collateral_asset)],
        liquidated(
            s,
            liquidator,
            borrower,
            debt_asset,
            collateral_asset,
            debt_amount,
            collateral_amount,
        ).borrows[(borrower, debt_asset)] == s.borrows[(borrower, debt_asset)] - debt_amount,
{
}

/// Registering a new asset appends it to the asset list once, with the
/// given parameters and active, and gives it a fresh state stamped `now`
/// (indices at 1.0, no totals) unless it already had one.
pub proof fn law_add_asset_registers(s: PoolState, asset: u64, config: AssetConfig, now: u64)
    requires
        !s.configs.contains_key(asset),
    ensures
        ({
            let t = added_asset(s, asset, config, now);
            &&& t.assets == s.assets.push(asset)
            &&& t.configs == s.configs.insert(asset, config)
            &&& t.deposits == s.deposits
            &&& t.borrows == s.borrows
            &&& (s.states.contains_key(asset) ==> t.states == s.states)
            &&& (!s.states.contains_key(asset) ==> t.states[asset].total_deposits == 0
                && t.states[asset].total_borrows == 0 && t.states[asset].last_update_timestamp
                == now && t.states[asset].borrow_index == SCALE && t.states[asset].deposit_index
                == SCALE)
        }),
{
}

} // verus!
