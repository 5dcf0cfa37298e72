//! Keys for tables indexed by a pair of `u64` identifiers.
use vstd::prelude::*;

verus! {

/// `2^64`, the weight of the first component of a pair key.
pub open spec fn first_weight() -> int {
    0x1_0000_0000_0000_0000
}

/// The `u128` key of the pair (`first`, `second`).
pub open spec fn pair_key(first: u64, second: u64) -> u128 {
    (first * first_weight() + second) as u128
}

/// Distinct pairs have distinct keys, and a key never overflows `u128`.
pub proof fn lemma_pair_key_injective(a1: u64, b1: u64, a2: u64, b2: u64)
    ensures
        pair_key(a1, b1) == pair_key(a2, b2) ==> a1 == a2 && b1 == b2,
        0 <= a1 * first_weight() + b1 <= u128::MAX,
{
    assert(0 <= a1 * first_weight() + b1 <= u128::MAX) by (nonlinear_arith)
        requires
            0 <= a1 < first_weight(),
            0 <= b1 < first_weight(),
            first_weight() == 0x1_0000_0000_0000_0000,
    ;
    assert(0 <= a2 * first_weight() + b2 <= u128::MAX) by (nonlinear_arith)
        requires
            0 <= a2 < first_weight(),
            0 <= b2 < first_weight(),
            first_weight() == 0x1_0000_0000_0000_0000,
    ;
    if a1 * first_weight() + b1 == a2 * first_weight() + b2 {
        assert(a1 == a2 && b1 == b2) by (nonlinear_arith)
            requires
                a1 * first_weight() + b1 == a2 * first_weight() + b2,
                0 <= b1 < first_weight(),
                0 <= b2 < first_weight(),
                first_weight() > 0,
        ;
    }
}

/// Computes the key of the pair (`first`, `second`).
pub fn make_pair_key(first: u64, second: u64) -> (r: u128)
    ensures
        r == pair_key(first, second),
{
    proof {
        lemma_pair_key_injective(first, second, first, second);
    }
    (first as u128) * 0x1_0000_0000_0000_0000u128 + (second as u128)
}

} // verus!
