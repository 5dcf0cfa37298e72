//! Health factor, collateral and debt valuation, and the accounting of a
//! liquidation.
use vstd::prelude::*;
use crate::big_nat::{add_nat, from_u128, le, mul_small, mul_u128, sub_nat, value, div_u128};
use crate::fixed_point::{in_i128, trunc_div, wide_mul_div, SCALE};
use super::{LendingPool, PoolError, PoolState};
use super::storage::{get_user_borrow, get_user_deposit, read_asset_config, read_asset_state, set_user_borrow, set_user_deposit, write_asset_state};

verus! {

/// The value in USD (18 decimals) of `amount` at `price`:
/// `amount * price / 1e18`, rounded toward zero.
pub open spec fn usd_value_spec(amount: int, price: int) -> int {
    trunc_div(amount * price, SCALE as int)
}

/// The valuation of `amount` at `price` fits in `i128`.
pub open spec fn usd_value_defined(amount: int, price: int) -> bool {
    in_i128(usd_value_spec(amount, price))
}

/// Values `amount` at `price` in 18-decimal USD; `None` when the value
/// does not fit in `i128`.
pub fn usd_value(amount: i128, price: i128) -> (r: Option<i128>)
    ensures
        r is Some <==> usd_value_defined(amount as int, price as int),
        r matches Some(v) ==> v == usd_value_spec(amount as int, price as int),
{
    wide_mul_div(amount, price, SCALE)
}

/// The collateral of `user` in the `i`-th listed asset weighted by the
/// asset's liquidation threshold: `deposit * price * threshold / 10000`,
/// rounded toward zero; zero without a deposit.
pub open spec fn collateral_term(s: PoolState, user: u64, prices: Seq<i128>, i: int) -> int {
    let asset = s.assets[i];
    let deposit = s.deposits[(user, asset)];
    if deposit > 0 {
        trunc_div(deposit * prices[i] * s.configs[asset].liquidation_threshold, 10_000)
    } else {
        0
    }
}

/// The debt of `user` in the `i`-th listed asset: `borrow * price`; zero
/// without a borrow.
pub open spec fn debt_term(s: PoolState, user: u64, prices: Seq<i128>, i: int) -> int {
    let borrow = s.borrows[(user, s.assets[i])];
    if borrow > 0 {
        borrow * prices[i]
    } else {
        0
    }
}

/// The undiscounted collateral of `user` in the `i`-th listed asset, in
/// 18-decimal USD.
pub open spec fn collateral_usd_term(s: PoolState, user: u64, prices: Seq<i128>, i: int) -> int {
    let deposit = s.deposits[(user, s.assets[i])];
    if deposit > 0 {
        usd_value_spec(deposit as int, prices[i] as int)
    } else {
        0
    }
}

/// The debt of `user` in the `i`-th listed asset, in 18-decimal USD.
pub open spec fn debt_usd_term(s: PoolState, user: u64, prices: Seq<i128>, i: int) -> int {
    let borrow = s.borrows[(user, s.assets[i])];
    if borrow > 0 {
        usd_value_spec(borrow as int, prices[i] as int)
    } else {
        0
    }
}

/// Threshold-weighted collateral over the first `n` listed assets, at
/// full precision.
pub open spec fn weighted_collateral(s: PoolState, user: u64, prices: Seq<i128>, n: int) -> int
    decreases n,
{
    if n <= 0 {
        0
    } else {
        weighted_collateral(s, user, prices, n - 1) + collateral_term(s, user, prices, n - 1)
    }
}

/// Debt over the first `n` listed assets, at full precision.
pub open spec fn total_debt(s: PoolState, user: u64, prices: Seq<i128>, n: int) -> int
    decreases n,
{
    if n <= 0 {
        0
    } else {
        total_debt(s, user, prices, n - 1) + debt_term(s, user, prices, n - 1)
    }
}

/// Undiscounted collateral value over the first `n` listed assets, in
/// 18-decimal USD.
pub open spec fn total_collateral(s: PoolState, user: u64, prices: Seq<i128>, n: int) -> int
    decreases n,
{
    if n <= 0 {
        0
    } else {
        total_collateral(s, user, prices, n - 1) + collateral_usd_term(s, user, prices, n - 1)
    }
}

/// Debt value over the first `n` listed assets, in 18-decimal USD.
pub open spec fn total_debt_usd(s: PoolState, user: u64, prices: Seq<i128>, n: int) -> int
    decreases n,
{
    if n <= 0 {
        0
    } else {
        total_debt_usd(s, user, prices, n - 1) + debt_usd_term(s, user, prices, n - 1)
    }
}

/// The `i`-th step of the debt valuation in USD fits in `i128`.
pub open spec fn debt_step_ok(s: PoolState, user: u64, prices: Seq<i128>, i: int) -> bool {
    let borrow = s.borrows[(user, s.assets[i])];
    borrow > 0 ==> {
        &&& usd_value_defined(borrow as int, prices[i] as int)
        &&& in_i128(total_debt_usd(s, user, prices, i) + debt_usd_term(s, user, prices, i))
    }
}

/// The `i`-th step of the health computation succeeds: the asset has a
/// configuration (the sums themselves are exact and never overflow).
pub open spec fn health_step_ok(s: PoolState, user: u64, prices: Seq<i128>, i: int) -> bool {
    s.configs.contains_key(s.assets[i])
}

/// The first error met in the first `n` steps of the health computation.
pub open spec fn health_scan_error(s: PoolState, user: u64, prices: Seq<i128>, n: int) -> Option<
    PoolError,
>
    decreases n,
{
    if n <= 0 {
        None
    } else if health_scan_error(s, user, prices, n - 1) is Some {
        health_scan_error(s, user, prices, n - 1)
    } else if health_step_ok(s, user, prices, n - 1) {
        None
    } else {
        Some(PoolError::AssetConfigNotFound)
    }
}

/// The error computing `user`'s health factor meets, if any: a listed
/// asset without configuration, or a health factor outside `i128`.
pub open spec fn health_error(s: PoolState, user: u64, prices: Seq<i128>) -> Option<PoolError> {
    let n = s.assets.len() as int;
    let w = weighted_collateral(s, user, prices, n);
    let d = total_debt(s, user, prices, n);
    if health_scan_error(s, user, prices, n) is Some {
        health_scan_error(s, user, prices, n)
    } else if d != 0 && !in_i128(trunc_div(w * SCALE, d)) {
        Some(PoolError::Overflow)
    } else {
        None
    }
}

/// `user`'s health factor (1e18 == 1.0):
/// `(Σ deposit * price * threshold / 10000) * 1e18 / (Σ borrow * price)`
/// over the listed assets with a positive deposit or borrow, the sums exact,
/// each threshold division and the final one rounded toward zero; and
/// `i128::MAX` without debt.
pub open spec fn health_factor(s: PoolState, user: u64, prices: Seq<i128>) -> int {
    let n = s.assets.len() as int;
    let w = weighted_collateral(s, user, prices, n);
    let d = total_debt(s, user, prices, n);
    if d == 0 {
        i128::MAX as int
    } else {
        trunc_div(w * SCALE, d)
    }
}

/// Once a scan has met an error, scanning further reports the same error.
pub proof fn lemma_health_scan_error_sticks(s: PoolState, user: u64, prices: Seq<i128>, k: int, m: int)
    requires
        0 <= k <= m,
        health_scan_error(s, user, prices, k) is Some,
    ensures
        health_scan_error(s, user, prices, m) == health_scan_error(s, user, prices, k),
    decreases m - k,
{
    if m > k {
        lemma_health_scan_error_sticks(s, user, prices, k, m - 1);
    }
}

/// The price used for an asset: the oracle's price when the pool has an
/// oracle, and 1 USD otherwise.
pub fn get_price(oracle_price: Option<i128>) -> (r: i128)
    ensures
        r == (match oracle_price {
            Some(p) => p,
            None => SCALE,
        }),
{
    match oracle_price {
        Some(p) => p,
        None => SCALE,
    }
}

/// `|x|`.
pub open spec fn abs_int(x: int) -> int {
    if x < 0 {
        -x
    } else {
        x
    }
}

/// `|p|` as an unsigned number.
fn magnitude_of(p: i128) -> (r: u128)
    ensures
        r == abs_int(p as int),
{
    if p >= 0 {
        p as u128
    } else {
        (-(p + 1)) as u128 + 1
    }
}

/// Rounding toward zero through magnitudes and signs.
proof fn lemma_trunc_div_by_signs(x: int, d: int)
    requires
        d != 0,
    ensures
        trunc_div(x, d) == (if (x < 0) != (d < 0) {
            -(abs_int(x) / abs_int(d))
        } else {
            abs_int(x) / abs_int(d)
        }),
{
}

/// `floor(u * v * t / 10000)`, computed without overflow.
fn weighted_magnitude(u: u128, v: u128, t: u32) -> (r: Vec<u64>)
    ensures
        value(r@) == (u * v * t) / 10_000,
{
    let u1 = u / 10_000;
    let u0 = u % 10_000;
    let v1 = v / 10_000;
    let v0 = v % 10_000;
    proof {
        assert(u0 * v1 < 0x1_0000_0000_0000_0000_0000_0000_0000_0000) by (nonlinear_arith)
            requires
                u0 < 10_000,
                v1 * 10_000 <= v,
                v < 0x1_0000_0000_0000_0000_0000_0000_0000_0000,
                v1 >= 0,
        ;
        assert(u0 * v0 < 100_000_000) by (nonlinear_arith)
            requires
                u0 < 10_000,
                v0 < 10_000,
                u0 >= 0,
                v0 >= 0,
        ;
        assert(u0 * v0 * t < 0x1_0000_0000_0000_0000_0000_0000) by (nonlinear_arith)
            requires
                u0 < 10_000,
                v0 < 10_000,
                t < 0x1_0000_0000,
        ;
    }
    let cross = add_nat(&mul_u128(&from_u128(u1), v), &from_u128(u0 * v1));
    let whole = mul_small(&cross, t as u64);
    let small: u128 = u0 * v0 * t as u128;
    let rest = small / 10_000;
    let r = add_nat(&whole, &from_u128(rest));
    proof {
        let a = (u1 * v + u0 * v1) * t;
        assert(u == 10_000 * u1 + u0);
        assert(v == 10_000 * v1 + v0);
        assert(u * v * t == 10_000 * a + small) by (nonlinear_arith)
            requires
                u == 10_000 * u1 + u0,
                v == 10_000 * v1 + v0,
                a == (u1 * v + u0 * v1) * t,
                small == u0 * v0 * t,
        ;
        vstd::arithmetic::div_mod::lemma_fundamental_div_mod(small as int, 10_000);
        vstd::arithmetic::div_mod::lemma_mod_pos_bound(small as int, 10_000);
        vstd::arithmetic::div_mod::lemma_fundamental_div_mod_converse(
            u * v * t,
            10_000,
            a + rest,
            (small % 10_000) as int,
        );
    }
    r
}

/// The `i`-th collateral term as a signed pair of magnitudes.
proof fn lemma_collateral_term_parts(d: int, p: int, t: int)
    requires
        d > 0,
        t >= 0,
    ensures
        p >= 0 ==> trunc_div(d * p * t, 10_000) == (d * abs_int(p) * t) / 10_000,
        p < 0 ==> trunc_div(d * p * t, 10_000) == -((d * abs_int(p) * t) / 10_000),
{
    if p >= 0 {
        assert(d * p * t >= 0) by (nonlinear_arith)
            requires
                d > 0,
                p >= 0,
                t >= 0,
        ;
    } else {
        assert(d * p * t == -(d * abs_int(p) * t)) by (nonlinear_arith)
            requires
                abs_int(p) == -p,
        ;
        assert(d * abs_int(p) * t >= 0) by (nonlinear_arith)
            requires
                d > 0,
                abs_int(p) > 0,
                t >= 0,
        ;
        if d * abs_int(p) * t == 0 {
            assert(0int / 10_000 == 0);
        }
    }
}

/// `|a - b|` and whether `a < b`.
fn signed_difference(a: &Vec<u64>, b: &Vec<u64>) -> (r: (Vec<u64>, bool))
    ensures
        r.1 <==> value(a@) < value(b@),
        value(r.0@) == abs_int(value(a@) - value(b@)),
{
    let (c, borrow) = sub_nat(a, b);
    if borrow {
        let (e, _) = sub_nat(b, a);
        (e, true)
    } else {
        (c, false)
    }
}

/// `user`'s health factor (18-decimal fixed point, 1e18 == 1.0) at the
/// given prices, one per listed asset in list order.
pub fn get_health_factor(pool: &LendingPool, user: u64, prices: &Vec<i128>) -> (r: Result<i128, PoolError>)
    requires
        prices@.len() == pool@.assets.len(),
    ensures
        match r {
            Ok(hf) => health_error(pool@, user, prices@) is None && hf == health_factor(
                pool@,
                user,
                prices@,
            ),
            Err(e) => health_error(pool@, user, prices@) == Some(e),
        },
{
    let n = pool.assets.len();
    let ghost s = pool@;
    let mut w_pos: Vec<u64> = Vec::new();
    let mut w_neg: Vec<u64> = Vec::new();
    let mut d_pos: Vec<u64> = Vec::new();
    let mut d_neg: Vec<u64> = Vec::new();
    let mut i: usize = 0;
    while i < n
        invariant
            s == pool@,
            n == s.assets.len(),
            prices@.len() == n,
            i <= n,
            health_scan_error(s, user, prices@, i as int) is None,
            value(w_pos@) - value(w_neg@) == weighted_collateral(s, user, prices@, i as int),
            value(d_pos@) - value(d_neg@) == total_debt(s, user, prices@, i as int),
        decreases n - i,
    {
        let asset = pool.assets[i];
        let price = prices[i];
        let config = match read_asset_config(pool, asset) {
            Some(c) => c,
            None => {
                proof {
                    lemma_health_scan_error_sticks(s, user, prices@, i + 1, n as int);
                }
                return Err(PoolError::AssetConfigNotFound);
            },
        };
        let user_deposit = get_user_deposit(pool, user, asset);
        let user_borrow = get_user_borrow(pool, user, asset);
        let abs_price = magnitude_of(price);
        if user_deposit > 0 {
            let m = weighted_magnitude(user_deposit as u128, abs_price, config.liquidation_threshold);
            proof {
                lemma_collateral_term_parts(
                    user_deposit as int,
                    price as int,
                    config.liquidation_threshold as int,
                );
            }
            if price >= 0 {
                w_pos = add_nat(&w_pos, &m);
            } else {
                w_neg = add_nat(&w_neg, &m);
            }
        }
        if user_borrow > 0 {
            let m = mul_u128(&from_u128(user_borrow as u128), abs_price);
            proof {
                if price < 0 {
                    assert(user_borrow * price == -(user_borrow * abs_int(price as int)))
                        by (nonlinear_arith)
                        requires
                            abs_int(price as int) == -price,
                    ;
                }
            }
            if price >= 0 {
                d_pos = add_nat(&d_pos, &m);
            } else {
                d_neg = add_nat(&d_neg, &m);
            }
        }
        i = i + 1;
    }
    let ghost w = weighted_collateral(s, user, prices@, n as int);
    let ghost d = total_debt(s, user, prices@, n as int);
    let (debt, debt_negative) = signed_difference(&d_pos, &d_neg);
    let zero: Vec<u64> = Vec::new();
    if le(&debt, &zero) {
        return Ok(i128::MAX);
    }
    let (collateral, collateral_negative) = signed_difference(&w_pos, &w_neg);
    let numerator = mul_small(&collateral, 1_000_000_000_000_000_000);
    proof {
        lemma_trunc_div_by_signs(w * SCALE, d);
        assert(abs_int(w * SCALE) == abs_int(w) * SCALE) by (nonlinear_arith);
        assert((w * SCALE < 0) == (w < 0)) by (nonlinear_arith);
    }
    match div_u128(&numerator, &debt) {
        Some(q) => {
            if collateral_negative != debt_negative && q > 0 {
                if q <= 0x8000_0000_0000_0000_0000_0000_0000_0000 {
                    if q == 0x8000_0000_0000_0000_0000_0000_0000_0000 {
                        Ok(i128::MIN)
                    } else {
                        Ok(-(q as i128))
                    }
                } else {
                    Err(PoolError::Overflow)
                }
            } else if q <= 0x7fff_ffff_ffff_ffff_ffff_ffff_ffff_ffff {
                Ok(q as i128)
            } else {
                Err(PoolError::Overflow)
            }
        },
        None => Err(PoolError::Overflow),
    }
}

/// The `i`-th step of the collateral valuation fits in `i128`.
pub open spec fn collateral_step_ok(s: PoolState, user: u64, prices: Seq<i128>, i: int) -> bool {
    let deposit = s.deposits[(user, s.assets[i])];
    deposit > 0 ==> {
        &&& usd_value_defined(deposit as int, prices[i] as int)
        &&& in_i128(total_collateral(s, user, prices, i) + collateral_usd_term(s, user, prices, i))
    }
}

/// `a - b` clamped to the range of `i128`.
pub open spec fn saturating_sub_i128(a: i128, b: i128) -> i128 {
    if a - b > i128::MAX {
        i128::MAX
    } else if a - b < i128::MIN {
        i128::MIN
    } else {
        (a - b) as i128
    }
}

/// The error a liquidation's accounting meets, if any, in the order the
/// checks are made.
pub open spec fn liquidation_error(
    s: PoolState,
    liquidator: u64,
    borrower: u64,
    debt_asset: u64,
    collateral_asset: u64,
    debt_amount: i128,
    collateral_amount: i128,
) -> Option<PoolError> {
    let borrower_debt = s.borrows[(borrower, debt_asset)];
    let borrower_collateral = s.deposits[(borrower, collateral_asset)];
    let new_borrower_collateral = borrower_collateral - collateral_amount;
    let liquidator_collateral = if liquidator == borrower {
        new_borrower_collateral
    } else {
        s.deposits[(liquidator, collateral_asset)] as int
    };
    if debt_amount <= 0 {
        Some(PoolError::LiquidationDebtNotPositive)
    } else if borrower_debt < debt_amount {
        Some(PoolError::LiquidationDebtExceedsBorrow)
    } else if borrower_collateral < collateral_amount {
        Some(PoolError::LiquidationCollateralExceedsDeposit)
    } else if !in_i128(new_borrower_collateral) {
        Some(PoolError::Overflow)
    } else if !in_i128(liquidator_collateral + collateral_amount) {
        Some(PoolError::Overflow)
    } else {
        None
    }
}

/// The pool after a liquidation: the borrower's debt and the asset's total
/// borrows shrink by `debt_amount` (the total saturating), and
/// `collateral_amount` of the collateral moves from the borrower's deposit
/// to the liquidator's.
pub open spec fn liquidated(
    s: PoolState,
    liquidator: u64,
    borrower: u64,
    debt_asset: u64,
    collateral_asset: u64,
    debt_amount: i128,
    collateral_amount: i128,
) -> PoolState {
    let s1 = super::with_borrow(
        s,
        borrower,
        debt_asset,
        (s.borrows[(borrower, debt_asset)] - debt_amount) as i128,
    );
    let s2 = if s.states.contains_key(debt_asset) {
        let st = s.states[debt_asset];
        super::with_state(
            s1,
            debt_asset,
            super::storage::AssetState {
                total_borrows: saturating_sub_i128(st.total_borrows, debt_amount),
                ..st
            },
        )
    } else {
        s1
    };
    let s3 = super::with_deposit(
        s2,
        borrower,
        collateral_asset,
        (s.deposits[(borrower, collateral_asset)] - collateral_amount) as i128,
    );
    super::with_deposit(
        s3,
        liquidator,
        collateral_asset,
        (s3.deposits[(liquidator, collateral_asset)] + collateral_amount) as i128,
    )
}

/// `user`'s total collateral value in USD (18 decimals) at the given
/// prices, one per listed asset in list order.
pub fn get_total_collateral_usd(pool: &LendingPool, user: u64, prices: &Vec<i128>) -> (r: Result<
    i128,
    PoolError,
>)
    requires
        prices@.len() == pool@.assets.len(),
    ensures
        match r {
            Ok(v) => (forall|i: int|
                0 <= i < pool@.assets.len() ==> #[trigger] collateral_step_ok(
                    pool@,
                    user,
                    prices@,
                    i,
                )) && v == total_collateral(pool@, user, prices@, pool@.assets.len() as int),
            Err(e) => e == PoolError::Overflow && exists|i: int|
                0 <= i < pool@.assets.len() && !#[trigger] collateral_step_ok(
                    pool@,
                    user,
                    prices@,
                    i,
                ),
        },
{
    let n = pool.assets.len();
    let ghost s = pool@;
    let mut total: i128 = 0;
    let mut i: usize = 0;
    while i < n
        invariant
            s == pool@,
            n == s.assets.len(),
            prices@.len() == n,
            i <= n,
            forall|j: int| 0 <= j < i ==> #[trigger] collateral_step_ok(s, user, prices@, j),
            total == total_collateral(s, user, prices@, i as int),
        decreases n - i,
    {
        let asset = pool.assets[i];
        let user_deposit = get_user_deposit(pool, user, asset);
        if user_deposit > 0 {
            let value = match usd_value(user_deposit, prices[i]) {
                Some(v) => v,
                None => {
                    assert(!collateral_step_ok(s, user, prices@, i as int));
                    return Err(PoolError::Overflow);
                },
            };
            total = match total.checked_add(value) {
                Some(v) => v,
                None => {
                    assert(!collateral_step_ok(s, user, prices@, i as int));
                    return Err(PoolError::Overflow);
                },
            };
        }
        i = i + 1;
    }
    Ok(total)
}

/// `user`'s total debt value in USD (18 decimals) at the given prices,
/// one per listed asset in list order.
pub fn get_total_debt_usd(pool: &LendingPool, user: u64, prices: &Vec<i128>) -> (r: Result<
    i128,
    PoolError,
>)
    requires
        prices@.len() == pool@.assets.len(),
    ensures
        match r {
            Ok(v) => (forall|i: int|
                0 <= i < pool@.assets.len() ==> #[trigger] debt_step_ok(pool@, user, prices@, i))
                && v == total_debt_usd(pool@, user, prices@, pool@.assets.len() as int),
            Err(e) => e == PoolError::Overflow && exists|i: int|
                0 <= i < pool@.assets.len() && !#[trigger] debt_step_ok(
                    pool@,
                    user,
                    prices@,
                    i,
                ),
        },
{
    let n = pool.assets.len();
    let ghost s = pool@;
    let mut total: i128 = 0;
    let mut i: usize = 0;
    while i < n
        invariant
            s == pool@,
            n == s.assets.len(),
            prices@.len() == n,
            i <= n,
            forall|j: int| 0 <= j < i ==> #[trigger] debt_step_ok(s, user, prices@, j),
            total == total_debt_usd(s, user, prices@, i as int),
        decreases n - i,
    {
        let asset = pool.assets[i];
        let user_borrow = get_user_borrow(pool, user, asset);
        if user_borrow > 0 {
            let value = match usd_value(user_borrow, prices[i]) {
                Some(v) => v,
                None => {
                    assert(!debt_step_ok(s, user, prices@, i as int));
                    return Err(PoolError::Overflow);
                },
            };
            total = match total.checked_add(value) {
                Some(v) => v,
                None => {
                    assert(!debt_step_ok(s, user, prices@, i as int));
                    return Err(PoolError::Overflow);
                },
            };
        }
        i = i + 1;
    }
    Ok(total)
}

/// Records a liquidation: reduces `borrower`'s debt in `debt_asset` by
/// `debt_amount` (and the asset's total borrows, saturating), and moves
/// `collateral_amount` of `collateral_asset` from `borrower`'s deposit to
/// `liquidator`'s. A refused liquidation changes nothing.
pub fn execute_liquidation(
    pool: &mut LendingPool,
    liquidator: u64,
    borrower: u64,
    debt_asset: u64,
    collateral_asset: u64,
    debt_amount: i128,
    collateral_amount: i128,
) -> (r: Result<(), PoolError>)
    ensures
        match r {
            Ok(_) => liquidation_error(
                old(pool)@,
                liquidator,
                borrower,
                debt_asset,
                collateral_asset,
                debt_amount,
                collateral_amount,
            ) is None && final(pool)@ == liquidated(
                old(pool)@,
                liquidator,
                borrower,
                debt_asset,
                collateral_asset,
                debt_amount,
                collateral_amount,
            ),
            Err(e) => liquidation_error(
                old(pool)@,
                liquidator,
                borrower,
                debt_asset,
                collateral_asset,
                debt_amount,
                collateral_amount,
            ) == Some(e) && final(pool)@ == old(pool)@,
        },
{
    if debt_amount <= 0 {
        return Err(PoolError::LiquidationDebtNotPositive);
    }
    let borrower_debt = get_user_borrow(pool, borrower, debt_asset);
    if borrower_debt < debt_amount {
        return Err(PoolError::LiquidationDebtExceedsBorrow);
    }
    let borrower_collateral = get_user_deposit(pool, borrower, collateral_asset);
    if borrower_collateral < collateral_amount {
        return Err(PoolError::LiquidationCollateralExceedsDeposit);
    }
    let new_borrower_collateral = match borrower_collateral.checked_sub(collateral_amount) {
        Some(v) => v,
        None => return Err(PoolError::Overflow),
    };
    let liquidator_collateral = if liquidator == borrower {
        new_borrower_collateral
    } else {
        get_user_deposit(pool, liquidator, collateral_asset)
    };
    let new_liquidator_collateral = match liquidator_collateral.checked_add(collateral_amount) {
        Some(v) => v,
        None => return Err(PoolError::Overflow),
    };
    set_user_borrow(pool, borrower, debt_asset, borrower_debt - debt_amount);
    match read_asset_state(pool, debt_asset) {
        Some(mut state) => {
            state.total_borrows = match state.total_borrows.checked_sub(debt_amount) {
                Some(v) => v,
                None => i128::MIN,
            };
            write_asset_state(pool, debt_asset, state);
        },
        None => {},
    }
    set_user_deposit(pool, borrower, collateral_asset, new_borrower_collateral);
    set_user_deposit(pool, liquidator, collateral_asset, new_liquidator_collateral);
    Ok(())
}

} // verus!
