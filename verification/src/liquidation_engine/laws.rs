//! Properties of the liquidation rules.
use vstd::prelude::*;
use crate::fixed_point::{
    lemma_floor_div_bounds, lemma_floor_div_cancel, lemma_floor_div_monotonic, SCALE,
};
use super::calculator::{close_factor, collateral_value, seize_error, seize_value};
use super::{capped_debt, liquidation_amount_error};

verus! {

/// The close factor never exceeds half of the outstanding debt and is never
/// negative.
pub proof fn law_close_factor_at_most_half(total_debt: int)
    ensures
        0 <= close_factor(total_debt),
        total_debt > 0 ==> 2 * close_factor(total_debt) <= total_debt,
        total_debt > 0 ==> total_debt <= 2 * close_factor(total_debt) + 1,
        total_debt <= 0 ==> close_factor(total_debt) == 0,
{
}

/// An accepted liquidation request concerns an unhealthy position and
/// repays a positive amount that is at most what was requested and at most
/// half of the outstanding debt.
pub proof fn law_liquidation_repays_at_most_half(
    debt_amount: int,
    health_factor: int,
    outstanding: int,
)
    requires
        liquidation_amount_error(debt_amount, health_factor, outstanding) is None,
    ensures
        health_factor < SCALE,
        0 < capped_debt(debt_amount, outstanding) <= debt_amount,
        2 * capped_debt(debt_amount, outstanding) <= outstanding,
        capped_debt(debt_amount, outstanding) == debt_amount || capped_debt(debt_amount, outstanding)
            == outstanding / 2,
{
}

/// With a non-negative bonus the liquidator receives at least the value of
/// the debt it repaid.
pub proof fn law_seize_covers_repaid_value(
    debt_amount: int,
    debt_price: int,
    collateral_price: int,
    liquidation_bonus: u32,
)
    requires
        debt_amount > 0,
        debt_price > 0,
        collateral_price > 0,
    ensures
        seize_value(debt_amount, debt_price, collateral_price, liquidation_bonus)
            >= collateral_value(debt_amount, debt_price, collateral_price),
        collateral_value(debt_amount, debt_price, collateral_price) >= 0,
{
    let x = debt_amount * debt_price;
    let k = 10_000 + liquidation_bonus;
    let den = collateral_price * 10_000;
    assert(x > 0) by (nonlinear_arith)
        requires
            x == debt_amount * debt_price,
            debt_amount > 0,
            debt_price > 0,
    ;
    lemma_floor_div_bounds(x, collateral_price);
    let v = collateral_value(debt_amount, debt_price, collateral_price);
    vstd::arithmetic::div_mod::lemma_fundamental_div_mod(x, collateral_price);
    vstd::arithmetic::div_mod::lemma_mod_pos_bound(x, collateral_price);
    assert(v * collateral_price <= x) by (nonlinear_arith)
        requires
            x == collateral_price * v + x % collateral_price,
            x % collateral_price >= 0,
    ;
    assert(v * den <= debt_amount * (debt_price * k)) by (nonlinear_arith)
        requires
            v * collateral_price <= x,
            v >= 0,
            x == debt_amount * debt_price,
            den == collateral_price * 10_000,
            k >= 10_000,
            x > 0,
    ;
    assert(den > 0) by (nonlinear_arith)
        requires
            collateral_price > 0,
            den == collateral_price * 10_000,
    ;
    lemma_floor_div_monotonic(v * den, debt_amount * (debt_price * k), den);
    lemma_floor_div_cancel(v, den);
}

/// Repaying more debt never seizes less collateral.
pub proof fn law_seize_monotonic_in_debt(
    d1: int,
    d2: int,
    debt_price: int,
    collateral_price: int,
    liquidation_bonus: u32,
)
    requires
        0 < d1 <= d2,
        debt_price > 0,
        collateral_price > 0,
    ensures
        seize_value(d1, debt_price, collateral_price, liquidation_bonus) <= seize_value(
            d2,
            debt_price,
            collateral_price,
            liquidation_bonus,
        ),
{
    let k = 10_000 + liquidation_bonus;
    let den = collateral_price * 10_000;
    assert(d1 * (debt_price * k) <= d2 * (debt_price * k)) by (nonlinear_arith)
        requires
            0 < d1 <= d2,
            debt_price > 0,
            k >= 10_000,
    ;
    assert(den > 0) by (nonlinear_arith)
        requires
            collateral_price > 0,
            den == collateral_price * 10_000,
    ;
    lemma_floor_div_monotonic(d1 * (debt_price * k), d2 * (debt_price * k), den);
}

/// Without a bonus and at equal prices the liquidator receives exactly the
/// amount of debt it repaid.
pub proof fn law_seize_at_par(debt_amount: int, price: int)
    requires
        debt_amount > 0,
        price > 0,
    ensures
        seize_value(debt_amount, price, price, 0) == debt_amount,
{
    let den = price * 10_000;
    assert(den >= 1) by (nonlinear_arith)
        requires
            price > 0,
            den == price * 10_000,
    ;
    assert(debt_amount * (price * (10_000 + 0u32)) == debt_amount * den);
    lemma_floor_div_cancel(debt_amount, den);
}

} // verus!

verus! {

/// The collateral seized is the exact quotient of the repaid debt's value,
/// raised by the bonus, by the collateral price: with
/// `n = debt * debt_price * (10000 + bonus)` and
/// `m = collateral_price * 10000`, `seize * m <= n < (seize + 1) * m`.
pub proof fn law_seize_is_the_exact_quotient(
    debt_amount: int,
    debt_price: int,
    collateral_price: int,
    liquidation_bonus: u32,
)
    requires
        seize_error(debt_amount, debt_price, collateral_price, liquidation_bonus) is None,
    ensures
        ({
            let q = seize_value(debt_amount, debt_price, collateral_price, liquidation_bonus);
            let n = debt_amount * debt_price * (10_000 + liquidation_bonus);
            let m = collateral_price * 10_000;
            &&& 0 <= q
            &&& q * m <= n
            &&& n < (q + 1) * m
        }),
{
    let k = 10_000 + liquidation_bonus;
    assert(debt_amount * (debt_price * k) == debt_amount * debt_price * k) by (nonlinear_arith);
    assert(debt_amount * debt_price * k > 0) by (nonlinear_arith)
        requires
            debt_amount > 0,
            debt_price > 0,
            k > 0,
    ;
    assert(collateral_price * 10_000 > 0) by (nonlinear_arith)
        requires
            collateral_price > 0,
    ;
    crate::fixed_point::lemma_floor_bracket(debt_amount * debt_price * k, collateral_price * 10_000);
}

} // verus!
