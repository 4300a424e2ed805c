//! Big-endian byte encodings of numbers and of addresses in 32-byte words.

use vstd::prelude::*;
use crate::word::{U256, be_value, to_be_bytes, from_be_bytes};

verus! {

/// An account address: 20 bytes.
pub type Address = [u8; 20];

/// `n` zero bytes.
pub open spec fn zeros(n: nat) -> Seq<u8> {
    Seq::new(n, |i: int| 0u8)
}

/// 256^len.
pub open spec fn byte_power(len: nat) -> nat
    decreases len,
{
    if len == 0 {
        1
    } else {
        256 * byte_power((len - 1) as nat)
    }
}

/// The low `len` bytes of `n`, most significant first.
pub open spec fn be_bytes(n: nat, len: nat) -> Seq<u8>
    decreases len,
{
    if len == 0 {
        Seq::empty()
    } else {
        be_bytes(n / 256, (len - 1) as nat).push((n % 256) as u8)
    }
}

/// The 32-byte word that holds an address: 12 zero bytes, then the address.
pub open spec fn address_word_bytes(a: Seq<u8>) -> Seq<u8> {
    zeros(12) + a
}

/// A big-endian sequence writes a number below 256^len.
pub proof fn lemma_be_value_bound(s: Seq<u8>)
    ensures
        be_value(s) < byte_power(s.len()),
    decreases s.len(),
{
    if s.len() > 0 {
        lemma_be_value_bound(s.drop_last());
    }
}

/// Reading a sequence and writing the number back gives the same sequence.
pub proof fn lemma_be_bytes_of_value(s: Seq<u8>)
    ensures
        be_bytes(be_value(s), s.len()) == s,
    decreases s.len(),
{
    if s.len() > 0 {
        let p = s.drop_last();
        lemma_be_bytes_of_value(p);
        let n = be_value(s);
        assert(n / 256 == be_value(p));
        assert(n % 256 == s.last() as nat);
        assert(be_bytes(n, s.len()) =~= s);
    }
}

/// Writing a number below 256^len and reading it back gives the number.
pub proof fn lemma_be_value_of_bytes(n: nat, len: nat)
    ensures
        be_bytes(n, len).len() == len,
        be_value(be_bytes(n, len)) == n % byte_power(len),
    decreases len,
{
    if len > 0 {
        lemma_be_value_of_bytes(n / 256, (len - 1) as nat);
        let p = byte_power((len - 1) as nat);
        assert(p > 0) by { lemma_byte_power_pos((len - 1) as nat); }
        let s = be_bytes(n, len);
        assert(s.drop_last() =~= be_bytes(n / 256, (len - 1) as nat));
        vstd::arithmetic::div_mod::lemma_mod_breakdown(n as int, 256, p as int);
    }
}

/// 256^len is positive.
pub proof fn lemma_byte_power_pos(len: nat)
    ensures
        byte_power(len) > 0,
    decreases len,
{
    if len > 0 {
        lemma_byte_power_pos((len - 1) as nat);
    }
}

/// The big-endian bytes of a word.
pub fn word_to_bytes(w: U256) -> (r: [u8; 32])
    ensures
        r@ == be_bytes(w@, 32),
{
    let r = to_be_bytes(w);
    proof {
        lemma_be_bytes_of_value(r@);
    }
    r
}

/// The word written by 32 big-endian bytes.
pub fn word_from_bytes(b: &[u8; 32]) -> (r: U256)
    ensures
        r@ == be_value(b@),
{
    from_be_bytes(b)
}

/// The four big-endian bytes of a `u32`.
pub fn u32_to_be_bytes(x: u32) -> (r: [u8; 4])
    ensures
        r@ == be_bytes(x as nat, 4),
{
    let r = [(x / 0x100_0000) as u8, ((x / 0x1_0000) % 256) as u8, ((x / 256) % 256) as u8, (x % 256) as u8];
    proof {
        reveal_with_fuel(be_bytes, 5);
        assert(r@ =~= be_bytes(x as nat, 4));
    }
    r
}

/// Appends a byte slice.
pub fn extend_bytes(v: &mut Vec<u8>, b: &[u8])
    ensures
        final(v)@ == old(v)@ + b@,
{
    let ghost start = v@;
    let mut i: usize = 0;
    while i < b.len()
        invariant
            i <= b.len(),
            v@ == start + b@.subrange(0, i as int),
        decreases b.len() - i,
    {
        v.push(b[i]);
        i = i + 1;
        proof {
            assert(b@.subrange(0, i as int) =~= b@.subrange(0, i - 1) + seq![b@[i - 1]]);
        }
    }
    proof {
        assert(b@.subrange(0, b.len() as int) =~= b@);
    }
}

/// Appends `n` zero bytes.
pub fn extend_zeros(v: &mut Vec<u8>, n: usize)
    ensures
        final(v)@ == old(v)@ + zeros(n as nat),
{
    let ghost start = v@;
    let mut i: usize = 0;
    while i < n
        invariant
            i <= n,
            v@ == start + zeros(i as nat),
        decreases n - i,
    {
        v.push(0u8);
        i = i + 1;
        proof {
            assert(zeros(i as nat) =~= zeros((i - 1) as nat) + seq![0u8]);
        }
    }
}

/// Copies 32 bytes starting at `start` into an array.
pub fn bytes32_at(v: &[u8], start: usize) -> (r: [u8; 32])
    requires
        start + 32 <= v@.len(),
    ensures
        r@ == v@.subrange(start as int, start + 32),
{
    let mut r = [0u8; 32];
    let n = v.len();
    let mut i: usize = 0;
    while i < 32
        invariant
            i <= 32,
            n == v@.len(),
            start + 32 <= v@.len(),
            forall|j: int| 0 <= j < i ==> r@[j] == v@[start + j],
        decreases 32 - i,
    {
        r[i] = v[start + i];
        i = i + 1;
    }
    proof {
        assert(r@ =~= v@.subrange(start as int, start + 32));
    }
    r
}

/// Copies 20 bytes starting at `start` into an address.
pub fn address_at(v: &[u8], start: usize) -> (r: Address)
    requires
        start + 20 <= v@.len(),
    ensures
        r@ == v@.subrange(start as int, start + 20),
{
    let mut r = [0u8; 20];
    let n = v.len();
    let mut i: usize = 0;
    while i < 20
        invariant
            i <= 20,
            n == v@.len(),
            start + 20 <= v@.len(),
            forall|j: int| 0 <= j < i ==> r@[j] == v@[start + j],
        decreases 20 - i,
    {
        r[i] = v[start + i];
        i = i + 1;
    }
    proof {
        assert(r@ =~= v@.subrange(start as int, start + 20));
    }
    r
}

/// The 32-byte word that holds an address (left-padded with zeros).
pub fn address_word(a: &Address) -> (r: [u8; 32])
    ensures
        r@ == address_word_bytes(a@),
{
    let mut r = [0u8; 32];
    let mut i: usize = 0;
    while i < 20
        invariant
            i <= 20,
            forall|j: int| 0 <= j < 12 ==> r@[j] == 0u8,
            forall|j: int| 12 + i <= j < 32 ==> r@[j] == 0u8,
            forall|j: int| 0 <= j < i ==> r@[12 + j] == a@[j],
        decreases 20 - i,
    {
        r[12 + i] = a[i];
        i = i + 1;
    }
    proof {
        assert(r@ =~= address_word_bytes(a@));
    }
    r
}

/// The number a stored address reads as: the word with the address in its low 20 bytes.
pub fn word_from_address(a: &Address) -> (r: U256)
    ensures
        r@ == be_value(address_word_bytes(a@)),
{
    let b = address_word(a);
    from_be_bytes(&b)
}

/// The address held in the low 20 bytes of a word.
pub fn address_from_word(w: U256) -> (r: Address)
    ensures
        r@ == be_bytes(w@, 32).subrange(12, 32),
{
    let b = word_to_bytes(w);
    address_at(&b, 12)
}

/// Whether two addresses are equal.
pub fn address_eq(a: &Address, b: &Address) -> (r: bool)
    ensures
        r == (a@ == b@),
{
    let mut i: usize = 0;
    while i < 20
        invariant
            i <= 20,
            forall|j: int| 0 <= j < i ==> a@[j] == b@[j],
        decreases 20 - i,
    {
        if a[i] != b[i] {
            return false;
        }
        i = i + 1;
    }
    proof {
        assert(a@ =~= b@);
    }
    true
}

/// Whether an address is all zero bytes.
pub fn address_is_zero(a: &Address) -> (r: bool)
    ensures
        r == (a@ == zeros(20)),
{
    let z = [0u8; 20];
    proof {
        assert(z@ =~= zeros(20));
    }
    address_eq(a, &z)
}

/// An address stored in a word reads back as the same address.
pub proof fn lemma_address_word_roundtrip(a: Seq<u8>)
    requires
        a.len() == 20,
    ensures
        be_bytes(be_value(address_word_bytes(a)), 32).subrange(12, 32) == a,
{
    let s = address_word_bytes(a);
    lemma_be_bytes_of_value(s);
    assert(s.subrange(12, 32) =~= a);
}

} // verus!
