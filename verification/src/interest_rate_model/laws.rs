//! Properties of the rate model that hold for every validated configuration.
use vstd::prelude::*;
use crate::fixed_point::{
    lemma_floor_div_bounds, lemma_floor_div_cancel, lemma_floor_div_monotonic, trunc_div, SCALE,
};
use super::math::{bp_value, lemma_bp_value};
use super::{supply_rate_defined, supply_rate_value, InterestRateModel};

verus! {

/// A validated model computes a borrow rate at every utilization between
/// 0% and 100% without any error.
pub proof fn law_valid_model_rate_defined(model: InterestRateModel, util: int)
    requires
        model.valid(),
        0 <= util <= SCALE,
    ensures
        model.rate_error(util) is None,
        model.kinked_rate(util) >= bp_value(model.base_rate),
{
    lemma_bp_value(model.base_rate);
    lemma_bp_value(model.slope1);
    lemma_bp_value(model.slope2);
    lemma_bp_value(model.optimal_utilization);
    let s1 = bp_value(model.slope1);
    let s2 = bp_value(model.slope2);
    let opt = bp_value(model.optimal_utilization);
    if util <= opt {
        assert(0 <= s1 * util <= 100_000_000_000_000_000_000 * 1_000_000_000_000_000_000)
            by (nonlinear_arith)
            requires
                0 <= s1 <= 100_000_000_000_000_000_000,
                0 <= util <= 1_000_000_000_000_000_000,
        ;
        lemma_floor_div_bounds(s1 * util, opt);
    } else {
        assert(0 <= s2 * (util - opt) <= 100_000_000_000_000_000_000 * 1_000_000_000_000_000_000)
            by (nonlinear_arith)
            requires
                0 <= s2 <= 100_000_000_000_000_000_000,
                0 <= util - opt <= 1_000_000_000_000_000_000,
        ;
        lemma_floor_div_bounds(s2 * (util - opt), SCALE - opt);
    }
}

/// The borrow rate of a validated model never decreases as utilization
/// grows: it rises gently up to the kink and steeply above it.
pub proof fn law_borrow_rate_monotonic(model: InterestRateModel, u1: int, u2: int)
    requires
        model.valid(),
        0 <= u1 <= u2 <= SCALE,
    ensures
        model.kinked_rate(u1) <= model.kinked_rate(u2),
{
    lemma_bp_value(model.slope1);
    lemma_bp_value(model.slope2);
    lemma_bp_value(model.optimal_utilization);
    let s1 = bp_value(model.slope1);
    let s2 = bp_value(model.slope2);
    let opt = bp_value(model.optimal_utilization);
    if u2 <= opt {
        assert(s1 * u1 <= s1 * u2) by (nonlinear_arith)
            requires
                s1 >= 0,
                u1 <= u2,
        ;
        lemma_floor_div_monotonic(s1 * u1, s1 * u2, opt);
    } else if u1 > opt {
        assert(s2 * (u1 - opt) <= s2 * (u2 - opt)) by (nonlinear_arith)
            requires
                s2 >= 0,
                u1 <= u2,
        ;
        lemma_floor_div_monotonic(s2 * (u1 - opt), s2 * (u2 - opt), SCALE - opt);
    } else {
        assert(s1 * u1 <= s1 * opt) by (nonlinear_arith)
            requires
                s1 >= 0,
                u1 <= opt,
        ;
        lemma_floor_div_monotonic(s1 * u1, s1 * opt, opt);
        lemma_floor_div_cancel(s1, opt);
        assert(s2 * (u2 - opt) >= 0) by (nonlinear_arith)
            requires
                s2 >= 0,
                u2 > opt,
        ;
        lemma_floor_div_bounds(s2 * (u2 - opt), SCALE - opt);
    }
}

/// A validated model charges exactly the base rate at 0% utilization,
/// base + slope1 at the kink, and base + slope1 + slope2 at 100% (when the
/// kink is below 100%).
pub proof fn law_borrow_rate_anchors(model: InterestRateModel)
    requires
        model.valid(),
    ensures
        model.kinked_rate(0) == bp_value(model.base_rate),
        model.kinked_rate(bp_value(model.optimal_utilization)) == bp_value(model.base_rate)
            + bp_value(model.slope1),
        bp_value(model.optimal_utilization) < SCALE ==> model.kinked_rate(SCALE as int) == bp_value(
            model.base_rate,
        ) + bp_value(model.slope1) + bp_value(model.slope2),
{
    lemma_bp_value(model.slope1);
    lemma_bp_value(model.slope2);
    lemma_bp_value(model.optimal_utilization);
    let s1 = bp_value(model.slope1);
    let s2 = bp_value(model.slope2);
    let opt = bp_value(model.optimal_utilization);
    assert(s1 * 0 == 0) by (nonlinear_arith);
    lemma_floor_div_cancel(s1, opt);
    if opt < SCALE {
        lemma_floor_div_cancel(s2, SCALE - opt);
    }
}

/// With a non-negative borrow rate, a utilization between 0% and 100% and a
/// reserve factor of at most 100%, the supply rate lies between zero and the
/// borrow rate; it is zero at 0% utilization and with a 100% reserve factor.
pub proof fn law_supply_rate_bounded(borrow_rate: int, util: int, reserve_factor: u32)
    requires
        0 <= borrow_rate,
        0 <= util <= SCALE,
        reserve_factor <= 10_000,
        supply_rate_defined(borrow_rate, util, reserve_factor),
    ensures
        0 <= supply_rate_value(borrow_rate, util, reserve_factor) <= borrow_rate,
        util == 0 ==> supply_rate_value(borrow_rate, util, reserve_factor) == 0,
        reserve_factor == 10_000 ==> supply_rate_value(borrow_rate, util, reserve_factor) == 0,
{
    lemma_bp_value(reserve_factor);
    let net = SCALE - bp_value(reserve_factor);
    let s = SCALE as int;
    assert(0 <= borrow_rate * util <= borrow_rate * s) by (nonlinear_arith)
        requires
            0 <= borrow_rate,
            0 <= util <= s,
    ;
    lemma_floor_div_monotonic(borrow_rate * util, borrow_rate * s, s);
    lemma_floor_div_cancel(borrow_rate, s);
    lemma_floor_div_bounds(borrow_rate * util, s);
    let partial = trunc_div(borrow_rate * util, s);
    assert(0 <= partial * net <= partial * s) by (nonlinear_arith)
        requires
            0 <= partial,
            0 <= net <= s,
    ;
    lemma_floor_div_monotonic(partial * net, partial * s, s);
    lemma_floor_div_cancel(partial, s);
    lemma_floor_div_bounds(partial * net, s);
    if util == 0 {
        assert(borrow_rate * util == 0) by (nonlinear_arith)
            requires
                util == 0,
        ;
    }
    if reserve_factor == 10_000 {
        assert(partial * net == 0) by (nonlinear_arith)
            requires
                net == 0,
        ;
    }
}

} // verus!

verus! {

/// For a validated model, `get_borrow_rate` fails only when the utilization
/// itself overflows.
pub proof fn law_valid_model_borrow_rate_defined(
    model: InterestRateModel,
    total_deposits: int,
    total_borrows: int,
)
    requires
        model.valid(),
        super::utilization_defined(total_deposits, total_borrows),
    ensures
        model.borrow_rate_error(total_deposits, total_borrows) is None,
{
    super::lemma_utilization_bounds(total_deposits, total_borrows);
    law_valid_model_rate_defined(model, super::utilization(total_deposits, total_borrows));
}

} // verus!

verus! {

/// Utilization is the borrowed share of the deposits, rounded down and
/// capped at 100%: zero when either total is not positive, exactly 1.0 when
/// the borrows reach the deposits, and otherwise the `u` with
/// `u * deposits <= borrows * 1e18 < (u + 1) * deposits`.
pub proof fn law_utilization_is_the_capped_ratio(total_deposits: int, total_borrows: int)
    ensures
        ({
            let u = super::utilization(total_deposits, total_borrows);
            &&& (total_deposits <= 0 || total_borrows <= 0 ==> u == 0)
            &&& (total_deposits > 0 && total_borrows >= total_deposits ==> u == SCALE)
            &&& (0 < total_borrows < total_deposits ==> 0 <= u < SCALE && u * total_deposits
                <= total_borrows * SCALE && total_borrows * SCALE < (u + 1) * total_deposits)
        }),
{
    if total_deposits > 0 && total_borrows > 0 {
        let x = total_borrows * SCALE;
        assert(x >= 0) by (nonlinear_arith)
            requires
                total_borrows > 0,
                x == total_borrows * SCALE,
        ;
        crate::fixed_point::lemma_floor_bracket(x, total_deposits);
        if total_borrows >= total_deposits {
            assert(x >= SCALE * total_deposits) by (nonlinear_arith)
                requires
                    total_borrows >= total_deposits,
                    x == total_borrows * SCALE,
                    total_deposits > 0,
            ;
            lemma_floor_div_monotonic(SCALE * total_deposits, x, total_deposits);
            lemma_floor_div_cancel(SCALE as int, total_deposits);
        } else {
            assert(x < SCALE * total_deposits) by (nonlinear_arith)
                requires
                    total_borrows < total_deposits,
                    x == total_borrows * SCALE,
            ;
            let q = x / total_deposits;
            assert(q < SCALE) by (nonlinear_arith)
                requires
                    q * total_deposits <= x,
                    x < SCALE * total_deposits,
                    total_deposits > 0,
            ;
        }
    }
}

/// A validated model's borrow rate interpolates linearly: from the base
/// rate up to base + slope1 at the kink, `(rate - base) * kink <=
/// slope1 * u < (rate - base + 1) * kink`; above the kink, from there to
/// base + slope1 + slope2 at 100%, `(rate - base - slope1) * (1 - kink) <=
/// slope2 * (u - kink) < (rate - base - slope1 + 1) * (1 - kink)`. The
/// parameters are basis points, `1e14` each in fixed point.
pub proof fn law_kinked_rate_interpolates(model: InterestRateModel, u: int)
    requires
        model.valid(),
        0 <= u <= SCALE,
    ensures
        ({
            let base = model.base_rate * 100_000_000_000_000;
            let s1 = model.slope1 * 100_000_000_000_000;
            let s2 = model.slope2 * 100_000_000_000_000;
            let kink = model.optimal_utilization * 100_000_000_000_000;
            let r = model.kinked_rate(u);
            &&& (u <= kink ==> (r - base) * kink <= s1 * u && s1 * u < (r - base + 1) * kink)
            &&& (u > kink ==> (r - base - s1) * (SCALE - kink) <= s2 * (u - kink) && s2 * (u
                - kink) < (r - base - s1 + 1) * (SCALE - kink))
        }),
{
    lemma_bp_value(model.base_rate);
    lemma_bp_value(model.slope1);
    lemma_bp_value(model.slope2);
    lemma_bp_value(model.optimal_utilization);
    let s1 = bp_value(model.slope1);
    let s2 = bp_value(model.slope2);
    let kink = bp_value(model.optimal_utilization);
    assert(kink > 0);
    if u <= kink {
        assert(s1 * u >= 0) by (nonlinear_arith)
            requires
                s1 >= 0,
                u >= 0,
        ;
        crate::fixed_point::lemma_floor_bracket(s1 * u, kink);
    } else {
        assert(s2 * (u - kink) >= 0) by (nonlinear_arith)
            requires
                s2 >= 0,
                u > kink,
        ;
        crate::fixed_point::lemma_floor_bracket(s2 * (u - kink), SCALE - kink);
    }
}

/// The supply rate is the borrow rate times the utilization, then times
/// one minus the reserve factor, each product rounded down: with
/// `part = borrow_rate * u / 1e18` and `net = 1e18 - reserve * 1e14`,
/// `part * 1e18 <= borrow_rate * u < (part + 1) * 1e18` and
/// `supply * 1e18 <= part * net < (supply + 1) * 1e18`.
pub proof fn law_supply_rate_is_the_product(borrow_rate: int, u: int, reserve_factor: u32)
    requires
        borrow_rate >= 0,
        0 <= u <= SCALE,
        reserve_factor <= 10_000,
    ensures
        ({
            let part = (borrow_rate * u) / (SCALE as int);
            let net = SCALE - reserve_factor * 100_000_000_000_000;
            let p = supply_rate_value(borrow_rate, u, reserve_factor);
            &&& part * SCALE <= borrow_rate * u
            &&& borrow_rate * u < (part + 1) * SCALE
            &&& p * SCALE <= part * net
            &&& part * net < (p + 1) * SCALE
        }),
{
    lemma_bp_value(reserve_factor);
    let net = SCALE - bp_value(reserve_factor);
    assert(net >= 0);
    assert(borrow_rate * u >= 0) by (nonlinear_arith)
        requires
            borrow_rate >= 0,
            u >= 0,
    ;
    crate::fixed_point::lemma_floor_bracket(borrow_rate * u, SCALE as int);
    let part = (borrow_rate * u) / (SCALE as int);
    assert(part * net >= 0) by (nonlinear_arith)
        requires
            part >= 0,
            net >= 0,
    ;
    crate::fixed_point::lemma_floor_bracket(part * net, SCALE as int);
}

} // verus!
