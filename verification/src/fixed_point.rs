//! 18-decimal fixed-point arithmetic on `i128`, shared by every module.
use vstd::prelude::*;

verus! {

/// `1.0` in 18-decimal fixed point.
pub const SCALE: i128 = 1_000_000_000_000_000_000;

/// Number of basis points in `1.0`.
pub const BASIS_POINTS: i128 = 10_000;

/// `x` is a value of `i128`.
pub open spec fn in_i128(x: int) -> bool {
    i128::MIN <= x <= i128::MAX
}

/// Integer division rounding toward zero, as Rust's `/` on signed integers.
pub open spec fn trunc_div(x: int, d: int) -> int {
    if x >= 0 {
        if d > 0 {
            x / d
        } else {
            -(x / (-d))
        }
    } else {
        if d > 0 {
            -((-x) / d)
        } else {
            (-x) / (-d)
        }
    }
}

/// `(a * b) / d`, computed exactly and rounded toward zero.
pub open spec fn mul_div_value(a: int, b: int, d: int) -> int {
    trunc_div(a * b, d)
}

/// `(a * b) / d` can be computed on `i128`: the divisor is not zero, the
/// product fits and so does the quotient.
pub open spec fn mul_div_defined(a: int, b: int, d: int) -> bool {
    &&& d != 0
    &&& in_i128(a * b)
    &&& in_i128(trunc_div(a * b, d))
}

/// Computes `(a * b) / d` with checked arithmetic: `None` exactly when the
/// divisor is zero, the product overflows, or the quotient overflows.
pub fn checked_mul_div(a: i128, b: i128, d: i128) -> (r: Option<i128>)
    ensures
        r is Some <==> mul_div_defined(a as int, b as int, d as int),
        r matches Some(v) ==> v == mul_div_value(a as int, b as int, d as int),
{
    match a.checked_mul(b) {
        Some(product) => product.checked_div(d),
        None => None,
    }
}

} // verus!

verus! {

/// Dividing by a positive divisor moves a value toward zero and keeps it in
/// the range of `i128`.
pub proof fn lemma_trunc_div_pos_divisor(x: int, d: int)
    requires
        d >= 1,
    ensures
        x >= 0 ==> 0 <= trunc_div(x, d) <= x,
        x < 0 ==> x <= trunc_div(x, d) <= 0,
        in_i128(x) ==> in_i128(trunc_div(x, d)),
{
    if x >= 0 {
        lemma_floor_div_bounds(x, d);
    } else {
        lemma_floor_div_bounds(-x, d);
    }
}

/// `0 <= x / d <= x` for a non-negative `x` and a positive `d`.
pub proof fn lemma_floor_div_bounds(x: int, d: int)
    requires
        x >= 0,
        d >= 1,
    ensures
        0 <= x / d <= x,
{
    vstd::arithmetic::div_mod::lemma_div_pos_is_pos(x, d);
    vstd::arithmetic::div_mod::lemma_div_is_ordered_by_denominator(x, 1, d);
}

/// Floor division by a positive divisor is monotonic.
pub proof fn lemma_floor_div_monotonic(x: int, y: int, d: int)
    requires
        x <= y,
        d >= 1,
    ensures
        x / d <= y / d,
{
    vstd::arithmetic::div_mod::lemma_div_is_ordered(x, y, d);
}

/// `(x * d) / d == x` for a positive `d`.
pub proof fn lemma_floor_div_cancel(x: int, d: int)
    requires
        d >= 1,
    ensures
        (x * d) / d == x,
{
    vstd::arithmetic::div_mod::lemma_div_multiples_vanish(x, d);
    vstd::arithmetic::mul::lemma_mul_is_commutative(x, d);
}

} // verus!

verus! {

/// `(a * b) / d` rounded toward zero is a value of `i128` (the product
/// itself may be far larger).
pub open spec fn wide_mul_div_defined(a: int, b: int, d: int) -> bool {
    d != 0 && in_i128(trunc_div(a * b, d))
}

/// `floor(a * b / c)` for magnitudes up to `2^127`, or `None` when it
/// exceeds `limit`. The product is never formed: `b` is consumed bit by bit
/// while the quotient and remainder of `a * 2^i` by `c` are kept.
fn floor_mul_div_u128(a: u128, b: u128, c: u128, limit: u128) -> (r: Option<u128>)
    requires
        a <= 0x8000_0000_0000_0000_0000_0000_0000_0000,
        b <= 0x8000_0000_0000_0000_0000_0000_0000_0000,
        0 < c <= 0x8000_0000_0000_0000_0000_0000_0000_0000,
        limit <= 0x8000_0000_0000_0000_0000_0000_0000_0000,
    ensures
        r is Some <==> (a * b) / (c as int) <= limit,
        r matches Some(v) ==> v == (a * b) / (c as int),
{
    let ghost ai = a as int;
    let ghost bi = b as int;
    let ghost ci = c as int;
    let ghost target = (ai * bi) / ci;
    proof {
        vstd::arithmetic::div_mod::lemma_fundamental_div_mod(ai, ci);
        vstd::arithmetic::div_mod::lemma_mod_pos_bound(ai, ci);
        assert(ai * bi >= 0) by (nonlinear_arith)
            requires
                ai >= 0,
                bi >= 0,
        ;
    }
    if b == 0 {
        proof {
            assert(ai * bi == 0) by (nonlinear_arith)
                requires
                    bi == 0,
            ;
        }
        return Some(0);
    }
    // `a * p == pq * c + pr` for the current power of two `p`.
    let mut pq: u128 = a / c;
    let mut pr: u128 = a % c;
    // `a * low == acc_q * c + acc_r` where `low` is the part of `b` below `p`.
    let mut acc_q: u128 = 0;
    let mut acc_r: u128 = 0;
    let mut rest: u128 = b;
    let ghost mut p: int = 1;
    let ghost mut low: int = 0;
    proof {
        assert(ai * 1 <= ai * bi) by (nonlinear_arith)
            requires
                ai >= 0,
                bi >= 1,
        ;
        vstd::arithmetic::div_mod::lemma_div_is_ordered(ai, ai * bi, ci);
    }
    proof {
        assert(ai * 1 == pq * ci + pr) by (nonlinear_arith)
            requires
                ai == ci * (ai / ci) + ai % ci,
                pq == ai / ci,
                pr == ai % ci,
        ;
    }
    if pq > limit {
        return None;
    }
    while rest > 0
        invariant
            ai == a,
            bi == b,
            ci == c,
            target == (ai * bi) / ci,
            0 < c <= 0x8000_0000_0000_0000_0000_0000_0000_0000,
            limit <= 0x8000_0000_0000_0000_0000_0000_0000_0000,
            ai >= 0,
            bi >= 1,
            p >= 1,
            0 <= low < p,
            bi == rest * p + low,
            rest > 0 ==> ai * p == pq * ci + pr,
            pr < c,
            ai * low == acc_q * ci + acc_r,
            acc_r < c,
            pq <= limit,
            acc_q <= limit,
            rest > 0 ==> p <= bi,
            pq <= target,
            acc_q <= target,
        decreases rest,
    {
        let bit = rest % 2;
        let next_rest = rest / 2;
        let ghost new_low = bit * p + low;
        proof {
            assert(rest == 2 * next_rest + bit);
            assert(bi == next_rest * (2 * p) + new_low) by (nonlinear_arith)
                requires
                    bi == rest * p + low,
                    rest == 2 * next_rest + bit,
                    new_low == bit * p + low,
            ;
            assert(0 <= new_low < 2 * p) by (nonlinear_arith)
                requires
                    0 <= low < p,
                    bit == 0 || bit == 1,
                    new_low == bit * p + low,
            ;
            assert(ai * new_low <= ai * bi) by (nonlinear_arith)
                requires
                    ai >= 0,
                    0 <= new_low <= bi,
            ;
        }
        if bit == 1 {
            // acc += a * p
            let sum_r = acc_r + pr;
            let carry: u128 = if sum_r >= c { 1 } else { 0 };
            let new_r = if sum_r >= c { sum_r - c } else { sum_r };
            let ghost q_sum: int = acc_q + pq + carry;
            proof {
                assert(ai * new_low == q_sum * ci + new_r) by (nonlinear_arith)
                    requires
                        ai * low == acc_q * ci + acc_r,
                        ai * p == pq * ci + pr,
                        new_low == p + low,
                        q_sum == acc_q + pq + carry,
                        acc_r + pr == new_r + carry * ci,
                ;
                lemma_quotient_le_target(ai, new_low, bi, ci, q_sum, new_r as int);
            }
            let new_q = match acc_q.checked_add(pq) {
                Some(v) => match v.checked_add(carry) {
                    Some(w) => w,
                    None => return None,
                },
                None => return None,
            };
            if new_q > limit {
                return None;
            }
            acc_q = new_q;
            acc_r = new_r;
        } else {
            proof {
                assert(new_low == low);
            }
        }
        if next_rest > 0 {
            // p doubles: a * 2p = 2 * pq * c + 2 * pr
            let twice_r = 2 * pr;
            let carry: u128 = if twice_r >= c { 1 } else { 0 };
            let new_pr = if twice_r >= c { twice_r - c } else { twice_r };
            let ghost pq_int: int = 2 * pq + carry;
            proof {
                assert(ai * (2 * p) == pq_int * ci + new_pr) by (nonlinear_arith)
                    requires
                        ai * p == pq * ci + pr,
                        pq_int == 2 * pq + carry,
                        2 * pr == new_pr + carry * ci,
                ;
                assert(2 * p <= bi) by (nonlinear_arith)
                    requires
                        bi == next_rest * (2 * p) + new_low,
                        next_rest >= 1,
                        new_low >= 0,
                        p >= 1,
                ;
                lemma_quotient_le_target(ai, 2 * p, bi, ci, pq_int, new_pr as int);
            }
            let new_pq = match pq.checked_mul(2) {
                Some(v) => match v.checked_add(carry) {
                    Some(w) => w,
                    None => return None,
                },
                None => return None,
            };
            if new_pq > limit {
                return None;
            }
            pq = new_pq;
            pr = new_pr;
        }
        proof {
            p = 2 * p;
            low = new_low;
        }
        rest = next_rest;
    }
    proof {
        assert(low == bi) by (nonlinear_arith)
            requires
                bi == rest * p + low,
                rest == 0,
        ;
        vstd::arithmetic::div_mod::lemma_fundamental_div_mod_converse(
            ai * bi,
            ci,
            acc_q as int,
            acc_r as int,
        );
    }
    Some(acc_q)
}

/// If `a * x == q * c + r` with `0 <= r < c` and `x <= b`, then `q` is the
/// quotient of `a * x` and at most the quotient of `a * b`.
proof fn lemma_quotient_le_target(a: int, x: int, b: int, c: int, q: int, r: int)
    requires
        a >= 0,
        0 <= x <= b,
        c > 0,
        a * x == q * c + r,
        0 <= r < c,
    ensures
        q == (a * x) / c,
        q <= (a * b) / c,
{
    vstd::arithmetic::div_mod::lemma_fundamental_div_mod_converse(a * x, c, q, r);
    assert(a * x <= a * b) by (nonlinear_arith)
        requires
            a >= 0,
            x <= b,
    ;
    vstd::arithmetic::div_mod::lemma_div_is_ordered(a * x, a * b, c);
}

} // verus!

verus! {

/// Absolute value.
pub open spec fn abs(x: int) -> int {
    if x < 0 {
        -x
    } else {
        x
    }
}

/// Rounding toward zero is the floor of the magnitudes, with the sign of
/// the operands.
proof fn lemma_trunc_div_magnitude(a: int, b: int, c: int)
    requires
        c != 0,
    ensures
        trunc_div(a * b, c) == (if ((a < 0) != (b < 0)) != (c < 0) {
            -((abs(a) * abs(b)) / abs(c))
        } else {
            (abs(a) * abs(b)) / abs(c)
        }),
{
    let m = abs(a) * abs(b);
    assert(abs(a * b) == m && m >= 0) by (nonlinear_arith)
        requires
            m == abs(a) * abs(b),
    ;
    assert((a * b >= 0) == (a == 0 || b == 0 || ((a < 0) == (b < 0)))) by (nonlinear_arith);
    if a == 0 || b == 0 {
        assert(a * b == 0 && m == 0) by (nonlinear_arith)
            requires
                a == 0 || b == 0,
                m == abs(a) * abs(b),
        ;
        assert(0int / abs(c) == 0);
    }
}

/// Magnitude of an `i128` as an `u128` (at most `2^127`).
fn magnitude(x: i128) -> (r: u128)
    ensures
        r == abs(x as int),
        r <= 0x8000_0000_0000_0000_0000_0000_0000_0000,
{
    if x < 0 {
        ((-(x + 1)) as u128) + 1
    } else {
        x as u128
    }
}

/// Computes `(a * b) / c` rounded toward zero without forming the product:
/// `None` exactly when the divisor is zero or the quotient does not fit in
/// `i128`.
pub fn wide_mul_div(a: i128, b: i128, c: i128) -> (r: Option<i128>)
    ensures
        r is Some <==> wide_mul_div_defined(a as int, b as int, c as int),
        r matches Some(v) ==> v == trunc_div(a * b, c as int),
{
    if c == 0 {
        return None;
    }
    let ma = magnitude(a);
    let mb = magnitude(b);
    let mc = magnitude(c);
    let negative = ((a < 0) != (b < 0)) != (c < 0);
    let limit: u128 = if negative {
        0x8000_0000_0000_0000_0000_0000_0000_0000
    } else {
        0x7fff_ffff_ffff_ffff_ffff_ffff_ffff_ffff
    };
    proof {
        lemma_trunc_div_magnitude(a as int, b as int, c as int);
    }
    match floor_mul_div_u128(ma, mb, mc, limit) {
        None => None,
        Some(m) => {
            if negative {
                if m == 0x8000_0000_0000_0000_0000_0000_0000_0000 {
                    Some(i128::MIN)
                } else {
                    Some(-(m as i128))
                }
            } else {
                Some(m as i128)
            }
        },
    }
}

/// A quotient rounded down brackets its numerator:
/// `(x / d) * d <= x < (x / d + 1) * d` for `x >= 0` and `d > 0`.
pub proof fn lemma_floor_bracket(x: int, d: int)
    requires
        x >= 0,
        d > 0,
    ensures
        x / d >= 0,
        (x / d) * d <= x,
        x < (x / d + 1) * d,
{
    vstd::arithmetic::div_mod::lemma_fundamental_div_mod(x, d);
    vstd::arithmetic::div_mod::lemma_mod_pos_bound(x, d);
    vstd::arithmetic::div_mod::lemma_div_pos_is_pos(x, d);
    assert((x / d) * d == d * (x / d)) by (nonlinear_arith);
    assert((x / d + 1) * d == d * (x / d) + d) by (nonlinear_arith);
}

} // verus!
