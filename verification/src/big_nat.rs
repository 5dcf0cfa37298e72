//! Natural numbers of any size, held as little-endian vectors of 64-bit
//! limbs, for exact products, sums and quotients whose intermediate values
//! do not fit in 128 bits.
use vstd::prelude::*;

verus! {

/// The base of a limb: `2^64`.
pub open spec fn limb_base() -> nat {
    0x1_0000_0000_0000_0000
}

/// `limb_base()^k`: the weight of limb `k`.
pub open spec fn place(k: nat) -> nat
    decreases k,
{
    if k == 0 {
        1
    } else {
        limb_base() * place((k - 1) as nat)
    }
}

/// Limb `i` of `s`, zero outside the vector.
pub open spec fn limb(s: Seq<u64>, i: int) -> nat {
    if 0 <= i < s.len() {
        s[i] as nat
    } else {
        0
    }
}

/// The value of the first `i` limbs of `s`.
pub open spec fn digits(s: Seq<u64>, i: nat) -> nat
    decreases i,
{
    if i == 0 {
        0
    } else {
        digits(s, (i - 1) as nat) + limb(s, i - 1) * place((i - 1) as nat)
    }
}

/// The number that the limbs `s` stand for.
pub open spec fn value(s: Seq<u64>) -> nat {
    digits(s, s.len())
}

/// The first `i` limbs are worth less than the weight of limb `i`.
pub proof fn lemma_digits_bound(s: Seq<u64>, i: nat)
    ensures
        digits(s, i) < place(i),
    decreases i,
{
    if i > 0 {
        let k = (i - 1) as nat;
        lemma_digits_bound(s, k);
        let l = limb(s, i - 1);
        assert(l < limb_base());
        assert(digits(s, k) + l * place(k) < limb_base() * place(k)) by (nonlinear_arith)
            requires
                digits(s, k) < place(k),
                l < limb_base(),
        ;
    }
}

/// Limbs past the end of a vector add nothing.
pub proof fn lemma_digits_beyond(s: Seq<u64>, i: nat)
    requires
        i >= s.len(),
    ensures
        digits(s, i) == value(s),
    decreases i,
{
    if i > s.len() {
        lemma_digits_beyond(s, (i - 1) as nat);
        assert(limb(s, i - 1) == 0);
    }
}

/// Pushing a limb leaves the value of the limbs before it unchanged.
pub proof fn lemma_digits_push(s: Seq<u64>, x: u64, i: nat)
    requires
        i <= s.len(),
    ensures
        digits(s.push(x), i) == digits(s, i),
    decreases i,
{
    if i > 0 {
        lemma_digits_push(s, x, (i - 1) as nat);
        assert(limb(s.push(x), i - 1) == limb(s, i - 1));
    }
}

/// A vector that starts with a zero limb is worth `limb_base()` times the
/// rest.
pub proof fn lemma_digits_shift(s: Seq<u64>, i: nat)
    ensures
        digits(seq![0u64].add(s), i + 1) == limb_base() * digits(s, i),
    decreases i,
{
    let t = seq![0u64].add(s);
    if i == 0 {
        assert(limb(t, 0) == 0);
        assert(place(0) == 1);
        assert(digits(t, 1) == digits(t, 0) + limb(t, 0) * place(0));
        assert(digits(t, 0) == 0);
        assert(digits(s, 0) == 0);
    } else {
        let k = (i - 1) as nat;
        lemma_digits_shift(s, k);
        assert(limb(t, i as int) == limb(s, k as int));
        assert(digits(t, i + 1) == digits(t, i) + limb(s, k as int) * place(i));
        assert(place(i) == limb_base() * place(k));
        assert(limb_base() * digits(s, k) + limb(s, k as int) * (limb_base() * place(k))
            == limb_base() * (digits(s, k) + limb(s, k as int) * place(k))) by (nonlinear_arith);
    }
}

/// Limb `i` of `a`, zero past its end.
fn limb_at(a: &Vec<u64>, i: usize) -> (r: u64)
    ensures
        r == limb(a@, i as int),
{
    if i < a.len() {
        a[i]
    } else {
        0
    }
}

/// The limbs of `x`.
pub fn from_u128(x: u128) -> (r: Vec<u64>)
    ensures
        value(r@) == x,
{
    let lo = (x % 0x1_0000_0000_0000_0000) as u64;
    let hi = (x / 0x1_0000_0000_0000_0000) as u64;
    let mut r: Vec<u64> = Vec::new();
    r.push(lo);
    r.push(hi);
    proof {
        assert(r@.len() == 2);
        assert(limb(r@, 0) == lo);
        assert(limb(r@, 1) == hi);
        assert(place(0) == 1);
        assert(place(1) == limb_base() * place(0));
        assert(digits(r@, 0) == 0);
        assert(digits(r@, 1) == digits(r@, 0) + lo * place(0));
        assert(digits(r@, 2) == digits(r@, 1) + hi * place(1));
        vstd::arithmetic::div_mod::lemma_fundamental_div_mod(x as int, limb_base() as int);
    }
    r
}

/// `a + b`.
pub fn add_nat(a: &Vec<u64>, b: &Vec<u64>) -> (c: Vec<u64>)
    ensures
        value(c@) == value(a@) + value(b@),
{
    let n = if a.len() < b.len() {
        b.len()
    } else {
        a.len()
    };
    let mut c: Vec<u64> = Vec::new();
    let mut carry: u64 = 0;
    let mut i: usize = 0;
    while i < n
        invariant
            i <= n,
            n == a.len() || n == b.len(),
            n >= a.len(),
            n >= b.len(),
            c.len() == i,
            carry <= 1,
            digits(c@, i as nat) + carry * place(i as nat) == digits(a@, i as nat) + digits(
                b@,
                i as nat,
            ),
        decreases n - i,
    {
        let x: u128 = limb_at(a, i) as u128 + limb_at(b, i) as u128 + carry as u128;
        let lo = (x % 0x1_0000_0000_0000_0000) as u64;
        let hi = (x / 0x1_0000_0000_0000_0000) as u64;
        proof {
            lemma_digits_push(c@, lo, i as nat);
            let p = place(i as nat);
            let ga = limb(a@, i as int);
            let gb = limb(b@, i as int);
            assert(x == lo + hi * limb_base());
            assert(digits(c@, i as nat) + lo * p + hi * (limb_base() * p) == digits(a@, i as nat)
                + ga * p + digits(b@, i as nat) + gb * p) by (nonlinear_arith)
                requires
                    digits(c@, i as nat) + carry * p == digits(a@, i as nat) + digits(b@, i as nat),
                    x == lo + hi * limb_base(),
                    x == ga + gb + carry,
            ;
        }
        c.push(lo);
        carry = hi;
        i = i + 1;
    }
    proof {
        lemma_digits_push(c@, carry, n as nat);
        lemma_digits_beyond(a@, n as nat);
        lemma_digits_beyond(b@, n as nat);
    }
    c.push(carry);
    c
}

/// `a - b` and whether it borrowed: the borrow is set exactly when
/// `a < b`, and otherwise the limbs are worth `a - b`.
pub fn sub_nat(a: &Vec<u64>, b: &Vec<u64>) -> (r: (Vec<u64>, bool))
    ensures
        r.1 <==> value(a@) < value(b@),
        !r.1 ==> value(r.0@) == value(a@) - value(b@),
{
    let n = if a.len() < b.len() {
        b.len()
    } else {
        a.len()
    };
    let mut c: Vec<u64> = Vec::new();
    let mut borrow: u64 = 0;
    let mut i: usize = 0;
    while i < n
        invariant
            i <= n,
            n >= a.len(),
            n >= b.len(),
            c.len() == i,
            borrow <= 1,
            digits(c@, i as nat) - borrow * place(i as nat) == digits(a@, i as nat) - digits(
                b@,
                i as nat,
            ),
        decreases n - i,
    {
        let ga = limb_at(a, i);
        let gb = limb_at(b, i);
        let t: u128 = ga as u128 + 0x1_0000_0000_0000_0000 - gb as u128 - borrow as u128;
        let lo = (t % 0x1_0000_0000_0000_0000) as u64;
        let nb: u64 = if t < 0x1_0000_0000_0000_0000 {
            1
        } else {
            0
        };
        proof {
            lemma_digits_push(c@, lo, i as nat);
            let p = place(i as nat);
            assert(lo - nb * limb_base() == t - limb_base());
            assert(digits(c@, i as nat) + lo * p - nb * (limb_base() * p) == digits(a@, i as nat)
                + ga * p - digits(b@, i as nat) - gb * p) by (nonlinear_arith)
                requires
                    digits(c@, i as nat) - borrow * p == digits(a@, i as nat) - digits(b@, i as nat),
                    lo - nb * limb_base() == t - limb_base(),
                    t == ga + limb_base() - gb - borrow,
            ;
        }
        c.push(lo);
        borrow = nb;
        i = i + 1;
    }
    proof {
        lemma_digits_beyond(a@, n as nat);
        lemma_digits_beyond(b@, n as nat);
        lemma_digits_bound(c@, n as nat);
    }
    (c, borrow == 1)
}

/// `a * m`.
pub fn mul_small(a: &Vec<u64>, m: u64) -> (c: Vec<u64>)
    ensures
        value(c@) == value(a@) * m,
{
    let n = a.len();
    let mut c: Vec<u64> = Vec::new();
    let mut carry: u64 = 0;
    let mut i: usize = 0;
    proof {
        assert(digits(a@, 0) == 0);
        assert(digits(c@, 0) == 0);
        assert(digits(a@, 0) * m == 0) by (nonlinear_arith)
            requires
                digits(a@, 0) == 0,
        ;
    }
    while i < n
        invariant
            i <= n,
            n == a.len(),
            c.len() == i,
            digits(c@, i as nat) + carry * place(i as nat) == digits(a@, i as nat) * m,
        decreases n - i,
    {
        let ga = a[i];
        proof {
            assert(ga * m <= 0xffff_ffff_ffff_fffe_0000_0000_0000_0001) by (nonlinear_arith)
                requires
                    ga <= 0xffff_ffff_ffff_ffff,
                    m <= 0xffff_ffff_ffff_ffff,
            ;
        }
        let x: u128 = ga as u128 * m as u128 + carry as u128;
        let lo = (x % 0x1_0000_0000_0000_0000) as u64;
        let hi = (x / 0x1_0000_0000_0000_0000) as u64;
        proof {
            lemma_digits_push(c@, lo, i as nat);
            let p = place(i as nat);
            assert(limb(a@, i as int) == ga);
            assert(x == lo + hi * limb_base());
            assert(digits(c@, i as nat) + lo * p + hi * (limb_base() * p) == (digits(a@, i as nat)
                + ga * p) * m) by (nonlinear_arith)
                requires
                    digits(c@, i as nat) + carry * p == digits(a@, i as nat) * m,
                    x == lo + hi * limb_base(),
                    x == ga * m + carry,
            ;
        }
        c.push(lo);
        carry = hi;
        i = i + 1;
    }
    proof {
        lemma_digits_push(c@, carry, n as nat);
    }
    c.push(carry);
    c
}

/// `a * 2^64`.
fn shift_limb(a: &Vec<u64>) -> (c: Vec<u64>)
    ensures
        value(c@) == limb_base() * value(a@),
{
    let mut c: Vec<u64> = Vec::new();
    c.push(0);
    let mut i: usize = 0;
    while i < a.len()
        invariant
            i <= a.len(),
            c@ == seq![0u64].add(a@.subrange(0, i as int)),
        decreases a.len() - i,
    {
        c.push(a[i]);
        i = i + 1;
        assert(c@ =~= seq![0u64].add(a@.subrange(0, i as int)));
    }
    proof {
        assert(a@.subrange(0, a.len() as int) =~= a@);
        lemma_digits_shift(a@, a.len() as nat);
    }
    c
}

/// `a * m`.
pub fn mul_u128(a: &Vec<u64>, m: u128) -> (c: Vec<u64>)
    ensures
        value(c@) == value(a@) * m,
{
    let lo = (m % 0x1_0000_0000_0000_0000) as u64;
    let hi = (m / 0x1_0000_0000_0000_0000) as u64;
    let low_part = mul_small(a, lo);
    let high_part = shift_limb(&mul_small(a, hi));
    let c = add_nat(&low_part, &high_part);
    proof {
        let v = value(a@);
        assert(v * lo + limb_base() * (v * hi) == v * m) by (nonlinear_arith)
            requires
                m == lo + limb_base() * hi,
        ;
    }
    c
}

/// Whether `a <= b`.
pub fn le(a: &Vec<u64>, b: &Vec<u64>) -> (r: bool)
    ensures
        r <==> value(a@) <= value(b@),
{
    let (_, borrow) = sub_nat(b, a);
    !borrow
}

/// `n / d` rounded down when it is below `u128::MAX`, and `None` when it is
/// not.
pub fn div_u128(n: &Vec<u64>, d: &Vec<u64>) -> (r: Option<u128>)
    requires
        value(d@) > 0,
    ensures
        r is Some <==> value(n@) / value(d@) < u128::MAX,
        r matches Some(q) ==> q == value(n@) / value(d@),
{
    let nv = Ghost(value(n@) as int);
    let dv = Ghost(value(d@) as int);
    if le(&mul_u128(d, u128::MAX), n) {
        proof {
            vstd::arithmetic::div_mod::lemma_div_is_ordered(dv@ * u128::MAX, nv@, dv@);
            vstd::arithmetic::div_mod::lemma_div_multiples_vanish(u128::MAX as int, dv@);
            assert(dv@ * u128::MAX == u128::MAX * dv@) by (nonlinear_arith);
        }
        return None;
    }
    let mut lo: u128 = 0;
    let mut hi: u128 = u128::MAX;
    while hi - lo > 1
        invariant
            lo < hi,
            nv@ == value(n@),
            dv@ == value(d@),
            dv@ > 0,
            lo * dv@ <= nv@,
            nv@ < hi * dv@,
        decreases hi - lo,
    {
        let mid = lo + (hi - lo) / 2;
        proof {
            assert(value(d@) * mid == mid * dv@) by (nonlinear_arith)
                requires
                    dv@ == value(d@),
            ;
        }
        if le(&mul_u128(d, mid), n) {
            lo = mid;
        } else {
            hi = mid;
        }
    }
    proof {
        assert(hi == lo + 1);
        let r = nv@ - lo * dv@;
        assert(nv@ < lo * dv@ + dv@) by (nonlinear_arith)
            requires
                nv@ < hi * dv@,
                hi == lo + 1,
        ;
        assert(lo * dv@ == dv@ * lo) by (nonlinear_arith);
        vstd::arithmetic::div_mod::lemma_fundamental_div_mod_converse(nv@, dv@, lo as int, r);
    }
    Some(lo)
}

} // verus!
