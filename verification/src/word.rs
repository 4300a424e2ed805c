//! 256-bit unsigned words, held as four little-endian `u64` limbs.
//!
//! Arithmetic, shifts and bit operations are performed by
//! `alloy_primitives::U256`; the contracts state their results over the
//! numeric value of a word.

use vstd::prelude::*;
use vstd::arithmetic::power2::{pow2, lemma_pow2_unfold, lemma_pow2_pos};
use vstd::arithmetic::div_mod::{lemma_mod_breakdown, lemma_mod_mod};

verus! {

/// 2^256: the modulus of word arithmetic.
pub open spec fn word_modulus() -> nat {
    0x1_0000_0000_0000_0000_0000_0000_0000_0000_0000_0000_0000_0000_0000_0000_0000_0000nat
}

/// The number held by four little-endian limbs.
pub open spec fn limbs_value(l: [u64; 4]) -> nat {
    (l[0] as nat) + (l[1] as nat) * 0x1_0000_0000_0000_0000nat
        + (l[2] as nat) * 0x1_0000_0000_0000_0000_0000_0000_0000_0000nat
        + (l[3] as nat) * 0x1_0000_0000_0000_0000_0000_0000_0000_0000_0000_0000_0000_0000nat
}

/// An unsigned 256-bit word.
#[derive(Clone, Copy, Debug, PartialEq, Eq)]
pub struct U256 {
    pub limbs: [u64; 4],
}

impl View for U256 {
    type V = nat;

    open spec fn view(&self) -> nat {
        limbs_value(self.limbs)
    }
}

/// Every word is below 2^256.
pub proof fn lemma_word_bound(w: U256)
    ensures
        w@ < word_modulus(),
{
}


/// The number written by a big-endian byte sequence.
pub open spec fn be_value(s: Seq<u8>) -> nat
    decreases s.len(),
{
    if s.len() == 0 {
        0
    } else {
        be_value(s.drop_last()) * 256 + (s.last() as nat)
    }
}

/// Bitwise AND of two naturals.
pub open spec fn bitand_nat(a: nat, b: nat) -> nat
    decreases a,
{
    if a == 0 || b == 0 {
        0
    } else {
        2 * bitand_nat(a / 2, b / 2) + (if a % 2 == 1 && b % 2 == 1 { 1nat } else { 0nat })
    }
}

/// Bitwise OR of two naturals.
pub open spec fn bitor_nat(a: nat, b: nat) -> nat
    decreases a,
{
    if a == 0 {
        b
    } else if b == 0 {
        a
    } else {
        2 * bitor_nat(a / 2, b / 2) + (if a % 2 == 1 || b % 2 == 1 { 1nat } else { 0nat })
    }
}

/// AND with the mask 2^k - 1 keeps the low k bits.
pub proof fn lemma_bitand_low_mask(x: nat, k: nat)
    ensures
        bitand_nat(x, (pow2(k) - 1) as nat) == x % pow2(k),
    decreases k,
{
    lemma_pow2_pos(k);
    if k == 0 {
        assert(pow2(0) == 1) by { vstd::arithmetic::power2::lemma2_to64(); }
    } else {
        let p = pow2((k - 1) as nat);
        lemma_pow2_unfold(k);
        lemma_pow2_pos((k - 1) as nat);
        let m = (pow2(k) - 1) as nat;
        if x != 0 {
            assert(m % 2 == 1 && m / 2 == (p - 1) as nat);
            lemma_bitand_low_mask(x / 2, (k - 1) as nat);
            lemma_mod_breakdown(x as int, 2, p as int);
        }
    }
}

/// OR of a value below 2^k with a multiple of 2^k is their sum.
pub proof fn lemma_bitor_disjoint(a: nat, b: nat, k: nat)
    requires
        a < pow2(k),
        b % pow2(k) == 0,
    ensures
        bitor_nat(a, b) == a + b,
    decreases k,
{
    lemma_pow2_pos(k);
    if k == 0 {
        assert(pow2(0) == 1) by { vstd::arithmetic::power2::lemma2_to64(); }
    } else if a != 0 && b != 0 {
        let p = pow2((k - 1) as nat);
        lemma_pow2_unfold(k);
        lemma_pow2_pos((k - 1) as nat);
        lemma_mod_breakdown(b as int, 2, p as int);
        lemma_mod_mod(b as int, 2, p as int);
        assert(b % 2 == 0);
        assert((b / 2) % p == 0);
        lemma_bitor_disjoint(a / 2, b / 2, (k - 1) as nat);
    }
}

/// Bitwise OR does not depend on the order of its operands.
pub proof fn lemma_bitor_comm(a: nat, b: nat)
    ensures
        bitor_nat(a, b) == bitor_nat(b, a),
    decreases a,
{
    if a != 0 && b != 0 {
        lemma_bitor_comm(a / 2, b / 2);
    }
}

/// Powers of two used by the word layouts of this library.
pub proof fn lemma_pow2_values()
    ensures
        pow2(16) == 0x1_0000nat,
        pow2(32) == 0x1_0000_0000nat,
        pow2(64) == 0x1_0000_0000_0000_0000nat,
        pow2(112) == 0x1_0000_0000_0000_0000_0000_0000_0000nat,
        pow2(128) == 0x1_0000_0000_0000_0000_0000_0000_0000_0000nat,
        pow2(144) == 0x1_0000_0000_0000_0000_0000_0000_0000_0000_0000nat,
        pow2(256) == word_modulus(),
{
    vstd::arithmetic::power2::lemma2_to64();
    vstd::arithmetic::power2::lemma_pow2_adds(64, 48);
    vstd::arithmetic::power2::lemma_pow2_adds(48, 0);
    vstd::arithmetic::power2::lemma_pow2_adds(32, 16);
    vstd::arithmetic::power2::lemma_pow2_adds(64, 64);
    vstd::arithmetic::power2::lemma_pow2_adds(128, 16);
    vstd::arithmetic::power2::lemma_pow2_adds(128, 128);
    assert(pow2(128) == 0x1_0000_0000_0000_0000_0000_0000_0000_0000nat);
    assert(pow2(256) == pow2(128) * pow2(128));
    assert(pow2(256) == word_modulus()) by (nonlinear_arith)
        requires
            pow2(256) == pow2(128) * pow2(128),
            pow2(128) == 0x1_0000_0000_0000_0000_0000_0000_0000_0000nat,
    ;
}

/// Two limb arrays holding the same number are equal limb by limb.
pub proof fn lemma_limbs_unique(a: [u64; 4], b: [u64; 4])
    requires
        limbs_value(a) == limbs_value(b),
    ensures
        a[0] == b[0],
        a[1] == b[1],
        a[2] == b[2],
        a[3] == b[3],
{
    let k: int = 0x1_0000_0000_0000_0000;
    let v = limbs_value(a) as int;
    let ta = a[1] + a[2] * k + a[3] * 0x1_0000_0000_0000_0000_0000_0000_0000_0000int;
    let tb = b[1] + b[2] * k + b[3] * 0x1_0000_0000_0000_0000_0000_0000_0000_0000int;
    vstd::arithmetic::div_mod::lemma_fundamental_div_mod_converse(v, k, ta, a[0] as int);
    vstd::arithmetic::div_mod::lemma_fundamental_div_mod_converse(v, k, tb, b[0] as int);
    let ua = a[2] + a[3] * k;
    let ub = b[2] + b[3] * k;
    vstd::arithmetic::div_mod::lemma_fundamental_div_mod_converse(ta, k, ua, a[1] as int);
    vstd::arithmetic::div_mod::lemma_fundamental_div_mod_converse(ta, k, ub, b[1] as int);
    vstd::arithmetic::div_mod::lemma_fundamental_div_mod_converse(ua, k, a[3] as int, a[2] as int);
    vstd::arithmetic::div_mod::lemma_fundamental_div_mod_converse(ua, k, b[3] as int, b[2] as int);
}

impl U256 {
    /// The word 0.
    pub fn zero() -> (r: U256)
        ensures
            r@ == 0,
    {
        U256 { limbs: [0, 0, 0, 0] }
    }

    /// The largest word, 2^256 - 1.
    pub fn max_value() -> (r: U256)
        ensures
            r@ == word_modulus() - 1,
    {
        U256 { limbs: [u64::MAX, u64::MAX, u64::MAX, u64::MAX] }
    }

    /// The word holding `x`.
    pub fn from_u64(x: u64) -> (r: U256)
        ensures
            r@ == x,
    {
        U256 { limbs: [x, 0, 0, 0] }
    }

    /// The word holding `x`.
    pub fn from_u128(x: u128) -> (r: U256)
        ensures
            r@ == x,
    {
        let lo = (x % 0x1_0000_0000_0000_0000u128) as u64;
        let hi = (x / 0x1_0000_0000_0000_0000u128) as u64;
        U256 { limbs: [lo, hi, 0, 0] }
    }

    /// Whether two words hold the same number.
    pub fn eq_word(&self, other: &U256) -> (r: bool)
        ensures
            r == (self@ == other@),
    {
        let r = self.limbs[0] == other.limbs[0] && self.limbs[1] == other.limbs[1]
            && self.limbs[2] == other.limbs[2] && self.limbs[3] == other.limbs[3];
        proof {
            if self@ == other@ {
                lemma_limbs_unique(self.limbs, other.limbs);
            }
        }
        r
    }

    /// Whether this word is 0.
    pub fn is_zero(&self) -> (r: bool)
        ensures
            r == (self@ == 0),
    {
        self.limbs[0] == 0 && self.limbs[1] == 0 && self.limbs[2] == 0 && self.limbs[3] == 0
    }

    /// Whether this word is below `other`.
    pub fn lt(&self, other: &U256) -> (r: bool)
        ensures
            r == (self@ < other@),
    {
        if self.limbs[3] != other.limbs[3] {
            self.limbs[3] < other.limbs[3]
        } else if self.limbs[2] != other.limbs[2] {
            self.limbs[2] < other.limbs[2]
        } else if self.limbs[1] != other.limbs[1] {
            self.limbs[1] < other.limbs[1]
        } else {
            self.limbs[0] < other.limbs[0]
        }
    }

    /// The value as a `u128`, or `None` where it does not fit.
    pub fn try_to_u128(&self) -> (r: Option<u128>)
        ensures
            r matches Some(v) ==> v == self@,
            r is None <==> self@ >= 0x1_0000_0000_0000_0000_0000_0000_0000_0000nat,
    {
        if self.limbs[2] == 0 && self.limbs[3] == 0 {
            Some((self.limbs[1] as u128) * 0x1_0000_0000_0000_0000u128 + (self.limbs[0] as u128))
        } else {
            None
        }
    }

    /// The value as a `u32`, or `None` where it does not fit.
    pub fn try_to_u32(&self) -> (r: Option<u32>)
        ensures
            r matches Some(v) ==> v == self@,
            r is None <==> self@ > u32::MAX,
    {
        if self.limbs[1] == 0 && self.limbs[2] == 0 && self.limbs[3] == 0
            && self.limbs[0] <= 0xffff_ffffu64 {
            Some(self.limbs[0] as u32)
        } else {
            None
        }
    }
}

/// `alloy_primitives::U256` addition (ruint `wrapping_add`): the sum modulo 2^256.
#[verifier::external_body]
pub(crate) fn wrapping_add(a: U256, b: U256) -> (r: U256)
    ensures
        r@ == (a@ + b@) % word_modulus(),
{
    let s = alloy_primitives::U256::from_limbs(a.limbs) + alloy_primitives::U256::from_limbs(b.limbs);
    U256 { limbs: s.into_limbs() }
}

/// `alloy_primitives::U256` subtraction (ruint `wrapping_sub`): the difference modulo 2^256.
#[verifier::external_body]
pub(crate) fn wrapping_sub(a: U256, b: U256) -> (r: U256)
    ensures
        r@ == (a@ - b@) % (word_modulus() as int),
{
    let s = alloy_primitives::U256::from_limbs(a.limbs) - alloy_primitives::U256::from_limbs(b.limbs);
    U256 { limbs: s.into_limbs() }
}

/// `alloy_primitives::U256` multiplication (ruint `wrapping_mul`): the product modulo 2^256.
#[verifier::external_body]
pub(crate) fn wrapping_mul(a: U256, b: U256) -> (r: U256)
    ensures
        r@ == (a@ * b@) % word_modulus(),
{
    let s = alloy_primitives::U256::from_limbs(a.limbs) * alloy_primitives::U256::from_limbs(b.limbs);
    U256 { limbs: s.into_limbs() }
}

/// `alloy_primitives::U256` division (ruint `wrapping_div`): the quotient rounded down.
/// It panics on a zero divisor, which `requires` leaves out.
#[verifier::external_body]
pub(crate) fn div(a: U256, b: U256) -> (r: U256)
    requires
        b@ != 0,
    ensures
        r@ == a@ / b@,
{
    let s = alloy_primitives::U256::from_limbs(a.limbs) / alloy_primitives::U256::from_limbs(b.limbs);
    U256 { limbs: s.into_limbs() }
}

/// `alloy_primitives::U256` left shift by `n` bits (ruint `wrapping_shl`): `a * 2^n` modulo 2^256.
#[verifier::external_body]
pub(crate) fn shl(a: U256, n: usize) -> (r: U256)
    ensures
        r@ == (a@ * pow2(n as nat)) % word_modulus(),
{
    let s = alloy_primitives::U256::from_limbs(a.limbs) << n;
    U256 { limbs: s.into_limbs() }
}

/// `alloy_primitives::U256` right shift by `n` bits (ruint `wrapping_shr`): `a / 2^n` rounded down.
#[verifier::external_body]
pub(crate) fn shr(a: U256, n: usize) -> (r: U256)
    ensures
        r@ == a@ / pow2(n as nat),
{
    let s = alloy_primitives::U256::from_limbs(a.limbs) >> n;
    U256 { limbs: s.into_limbs() }
}

/// `alloy_primitives::U256` bitwise AND.
#[verifier::external_body]
pub(crate) fn bitand(a: U256, b: U256) -> (r: U256)
    ensures
        r@ == bitand_nat(a@, b@),
{
    let s = alloy_primitives::U256::from_limbs(a.limbs) & alloy_primitives::U256::from_limbs(b.limbs);
    U256 { limbs: s.into_limbs() }
}

/// `alloy_primitives::U256` bitwise OR.
#[verifier::external_body]
pub(crate) fn bitor(a: U256, b: U256) -> (r: U256)
    ensures
        r@ == bitor_nat(a@, b@),
{
    let s = alloy_primitives::U256::from_limbs(a.limbs) | alloy_primitives::U256::from_limbs(b.limbs);
    U256 { limbs: s.into_limbs() }
}

/// `alloy_primitives::U256::to_be_bytes::<32>`: the 32-byte big-endian encoding.
#[verifier::external_body]
pub(crate) fn to_be_bytes(a: U256) -> (r: [u8; 32])
    ensures
        be_value(r@) == a@,
{
    alloy_primitives::U256::from_limbs(a.limbs).to_be_bytes::<32>()
}

/// `alloy_primitives::U256::from_be_slice` on 32 bytes: the number they write big-endian.
#[verifier::external_body]
pub(crate) fn from_be_bytes(b: &[u8; 32]) -> (r: U256)
    ensures
        r@ == be_value(b@),
{
    U256 { limbs: alloy_primitives::U256::from_be_slice(b).into_limbs() }
}

} // verus!
