//! Integer square root of a 256-bit word (Babylonian method).

use vstd::prelude::*;
use crate::word::{U256, lemma_word_bound, word_modulus, wrapping_add, div};

verus! {

/// `s` is the integer square root of `y`: the largest number whose square is at most `y`.
pub open spec fn is_isqrt(y: nat, s: nat) -> bool {
    s * s <= y && y < (s + 1) * (s + 1)
}

/// The integer square root, counted up from 0.
pub open spec fn isqrt(y: nat) -> nat
    decreases y,
{
    if y == 0 {
        0
    } else {
        let r = isqrt((y - 1) as nat);
        if (r + 1) * (r + 1) <= y {
            r + 1
        } else {
            r
        }
    }
}

/// `isqrt` meets `is_isqrt`.
pub proof fn lemma_isqrt(y: nat)
    ensures
        is_isqrt(y, isqrt(y)),
    decreases y,
{
    if y > 0 {
        lemma_isqrt((y - 1) as nat);
        let r = isqrt((y - 1) as nat);
        if (r + 1) * (r + 1) <= y {
            assert(isqrt(y) == r + 1);
            assert((r + 1) * (r + 1) <= y < (r + 1 + 1) * (r + 1 + 1)) by (nonlinear_arith)
                requires
                    (r + 1) * (r + 1) <= y,
                    y - 1 < (r + 1) * (r + 1),
            ;
        } else {
            assert(isqrt(y) == r);
            assert(r * r <= y);
        }
    } else {
        assert(isqrt(0) == 0);
        assert(0nat * 0nat <= 0 < (0nat + 1) * (0nat + 1)) by (nonlinear_arith);
    }
}

/// Only one number is the integer square root of `y`.
pub proof fn lemma_isqrt_unique(y: nat, a: nat, b: nat)
    requires
        is_isqrt(y, a),
        is_isqrt(y, b),
    ensures
        a == b,
{
    if a < b {
        assert((a + 1) * (a + 1) <= b * b) by (nonlinear_arith)
            requires
                a + 1 <= b,
        ;
    } else if b < a {
        assert((b + 1) * (b + 1) <= a * a) by (nonlinear_arith)
            requires
                b + 1 <= a,
        ;
    }
}

/// One Babylonian step from `x` never goes below the square root.
proof fn lemma_step_not_below(y: nat, x: nat, s: nat)
    requires
        x >= 1,
        s * s <= y,
    ensures
        (y / x + x) / 2 >= s,
{
    let d = y / x;
    assert(y < (d + 1) * x) by (nonlinear_arith)
        requires
            x >= 1,
            d == y / x,
    ;
    if d + x < 2 * s {
        assert(false) by (nonlinear_arith)
            requires
                s * s <= y,
                y < (d + 1) * x,
                d + x + 1 <= 2 * s,
                x >= 1,
        ;
    }
}

/// One Babylonian step from above the square root strictly decreases.
proof fn lemma_step_decreases(y: nat, z: nat, s: nat)
    requires
        is_isqrt(y, s),
        z > s,
    ensures
        (y / z + z) / 2 < z,
{
    assert(z * z > y) by (nonlinear_arith)
        requires
            z >= s + 1,
            y < (s + 1) * (s + 1),
    ;
    assert(y / z < z) by (nonlinear_arith)
        requires
            z * z > y,
            z >= 1,
    ;
}

/// The sum in a Babylonian step stays below 2^256.
proof fn lemma_step_no_overflow(y: nat, z: nat)
    requires
        y < word_modulus(),
        2 <= z <= y / 2 + 1,
    ensures
        y / z + z < word_modulus(),
{
    if z < 4 {
        assert(y / z <= y / 2) by (nonlinear_arith)
            requires
                z >= 2,
        ;
    } else {
        assert(y / z <= y / 4) by (nonlinear_arith)
            requires
                z >= 4,
        ;
    }
}

/// Integer square root of `y` by the Babylonian method: the largest `r` with `r * r <= y`.
pub fn sqrt_u256(y: U256) -> (r: U256)
    ensures
        is_isqrt(y@, r@),
{
    proof {
        lemma_word_bound(y);
    }
    let three = U256::from_u64(3);
    if three.lt(&y) {
        let ghost s = isqrt(y@);
        proof {
            lemma_isqrt(y@);
            assert(s >= 2) by (nonlinear_arith)
                requires
                    y@ >= 4,
                    y@ < (s + 1) * (s + 1),
            ;
            assert(s <= y@) by (nonlinear_arith)
                requires
                    s * s <= y@,
                    s >= 1,
            ;
            let q = y@ / 2;
            assert(s <= q + 1) by (nonlinear_arith)
                requires
                    s * s <= y@,
                    y@ <= 2 * q + 1,
                    q >= 2,
            ;
        }
        let mut z = y;
        let mut x = wrapping_add(div(y, U256::from_u64(2)), U256::from_u64(1));
        while x.lt(&z)
            invariant
                y@ >= 4,
                y@ < word_modulus(),
                is_isqrt(y@, s),
                s >= 2,
                z@ >= s,
                x@ >= s,
                x@ <= y@ / 2 + 1,
                x@ < z@ || x@ == (y@ / z@ + z@) / 2,
            decreases z@,
        {
            z = x;
            proof {
                lemma_step_no_overflow(y@, z@);
                lemma_step_not_below(y@, z@, s);
            }
            let q = div(y, z);
            let sum = wrapping_add(q, z);
            proof {
                vstd::arithmetic::div_mod::lemma_small_mod((q@ + z@) as nat, word_modulus());
            }
            x = div(sum, U256::from_u64(2));
            proof {
                assert(x@ <= y@ / 2 + 1) by (nonlinear_arith)
                    requires
                        x@ == (y@ / z@ + z@) / 2,
                        z@ <= y@ / 2 + 1,
                        z@ >= 2,
                        y@ >= 4,
                {
                    assert(y@ / z@ <= y@ / 2);
                }
            }
        }
        proof {
            if z@ > s {
                lemma_step_decreases(y@, z@, s);
            }
            assert(z@ == s);
        }
        z
    } else if !y.is_zero() {
        assert(1nat * 1nat <= y@ < (1nat + 1) * (1nat + 1)) by (nonlinear_arith)
            requires
                1 <= y@ <= 3,
        ;
        U256::from_u64(1)
    } else {
        assert(0nat * 0nat <= 0 < (0nat + 1) * (0nat + 1)) by (nonlinear_arith);
        U256::zero()
    }
}

} // verus!
