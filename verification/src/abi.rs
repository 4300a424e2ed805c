//! Solidity ABI words: reading the static arguments of a call and writing return data.

use vstd::prelude::*;
use crate::word::{U256, be_value};
use crate::bytes::{Address, be_bytes, bytes32_at, address_at, word_to_bytes, word_from_bytes, extend_bytes, address_word, address_word_bytes};

verus! {

/// Word `i` of the arguments: the 32 bytes after the selector and `i` earlier words.
pub open spec fn arg_word(data: Seq<u8>, i: nat) -> Seq<u8> {
    data.subrange(4 + 32 * i as int, 4 + 32 * i as int + 32)
}

/// Whether the calldata holds at least `n` argument words after the selector.
pub open spec fn has_args(data: Seq<u8>, n: nat) -> bool {
    data.len() >= 4 + 32 * n
}

/// Argument word `i` as a number.
pub fn arg_u256(data: &[u8], i: usize) -> (r: U256)
    requires
        i < 0x1000_0000,
        has_args(data@, (i + 1) as nat),
    ensures
        r@ == be_value(arg_word(data@, i as nat)),
{
    let n = data.len();
    assert(n == data@.len());
    let w = bytes32_at(data, 4 + 32 * i);
    word_from_bytes(&w)
}

/// Argument word `i` as an address: its low 20 bytes.
pub fn arg_address(data: &[u8], i: usize) -> (r: Address)
    requires
        i < 0x1000_0000,
        has_args(data@, (i + 1) as nat),
    ensures
        r@ == arg_word(data@, i as nat).subrange(12, 32),
{
    let n = data.len();
    assert(n == data@.len());
    let r = address_at(data, 4 + 32 * i + 12);
    proof {
        assert(r@ =~= arg_word(data@, i as nat).subrange(12, 32));
    }
    r
}

/// Return data of one `uint256`: its 32 big-endian bytes.
pub fn encode_u256(v: U256) -> (r: Vec<u8>)
    ensures
        r@ == be_bytes(v@, 32),
{
    let b = word_to_bytes(v);
    let mut r: Vec<u8> = Vec::new();
    extend_bytes(&mut r, b.as_slice());
    proof {
        assert(r@ =~= be_bytes(v@, 32));
    }
    r
}

/// Return data of one `address`: the address left-padded to a word.
pub fn encode_address(a: &Address) -> (r: Vec<u8>)
    ensures
        r@ == address_word_bytes(a@),
{
    let b = address_word(a);
    let mut r: Vec<u8> = Vec::new();
    extend_bytes(&mut r, b.as_slice());
    proof {
        assert(r@ =~= address_word_bytes(a@));
    }
    r
}

/// Return data of one `bool`: the word 1 or 0.
pub fn encode_bool(v: bool) -> (r: Vec<u8>)
    ensures
        r@ == be_bytes(if v { 1nat } else { 0nat }, 32),
{
    encode_u256(if v { U256::from_u64(1) } else { U256::zero() })
}

/// Return data of several `uint256` values, one word each.
pub fn encode_u256_words(vs: &[U256]) -> (r: Vec<u8>)
    ensures
        r@.len() == 32 * vs@.len(),
        forall|i: int| 0 <= i < vs@.len() ==> #[trigger] r@.subrange(32 * i, 32 * i + 32) == be_bytes(vs@[i]@, 32),
{
    let mut r: Vec<u8> = Vec::new();
    let n = vs.len();
    let mut k: usize = 0;
    while k < n
        invariant
            k <= n,
            n == vs@.len(),
            r@.len() == 32 * k,
            forall|i: int| 0 <= i < k ==> #[trigger] r@.subrange(32 * i, 32 * i + 32) == be_bytes(vs@[i]@, 32),
        decreases n - k,
    {
        let b = word_to_bytes(vs[k]);
        let ghost before = r@;
        extend_bytes(&mut r, b.as_slice());
        proof {
            assert forall|i: int| 0 <= i < k + 1 implies #[trigger] r@.subrange(32 * i, 32 * i + 32) == be_bytes(vs@[i]@, 32) by {
                if i < k {
                    assert(r@.subrange(32 * i, 32 * i + 32) =~= before.subrange(32 * i, 32 * i + 32));
                } else {
                    assert(r@.subrange(32 * i, 32 * i + 32) =~= b@);
                }
            }
        }
        k = k + 1;
    }
    r
}

} // verus!
