//! Storage keys of Solidity-style mappings and dynamic arrays.

use vstd::prelude::*;
use crate::bytes::{Address, byte_power, zeros, be_bytes, extend_bytes, extend_zeros, u32_to_be_bytes, word_to_bytes};
use crate::keccak::{keccak256, keccak256_digest};
use crate::word::{U256, be_value, word_modulus};
use crate::bytes::{lemma_be_value_of_bytes, word_from_bytes};
use crate::syscall::{HostStorage, storage_value, store_or_clear, lemma_storage_read_back};

verus! {

/// The 64 bytes hashed for a single-key mapping entry:
/// the key in the first word, the slot number in bytes 44..48.
pub open spec fn mapping_key_1_input(base_slot: u32, key: Seq<u8>) -> Seq<u8> {
    zeros(12) + key + zeros(12) + be_bytes(base_slot as nat, 4) + zeros(16)
}

/// The 64 bytes hashed for a two-key mapping entry: `key1`, then the digest for `key2`
/// under slot `base_slot + 1`.
pub open spec fn mapping_key_2_input(base_slot: u32, key1: Seq<u8>, key2: Seq<u8>) -> Seq<u8> {
    zeros(12) + key1 + keccak256_digest(mapping_key_1_input((base_slot + 1) as u32, key2))
}

/// The 64 bytes hashed for element `index` of the array at `base`.
pub open spec fn array_slot_input(base: u32, index: nat) -> Seq<u8> {
    zeros(28) + be_bytes(base as nat, 4) + be_bytes(index, 32)
}

/// Builds the hash input of a single-key mapping entry.
fn mapping_key_1_preimage(base_slot: u32, key: &Address) -> (r: Vec<u8>)
    ensures
        r@ == mapping_key_1_input(base_slot, key@),
{
    let mut input: Vec<u8> = Vec::new();
    extend_zeros(&mut input, 12);
    extend_bytes(&mut input, key.as_slice());
    extend_zeros(&mut input, 12);
    let slot = u32_to_be_bytes(base_slot);
    extend_bytes(&mut input, slot.as_slice());
    extend_zeros(&mut input, 16);
    proof {
        assert(input@ =~= mapping_key_1_input(base_slot, key@));
    }
    input
}

/// Storage key of `mapping(address => ..)` entry `key` at `base_slot`.
pub fn mapping_key_1(base_slot: u32, key: &Address) -> (r: [u8; 32])
    ensures
        r@ == keccak256_digest(mapping_key_1_input(base_slot, key@)),
{
    let input = mapping_key_1_preimage(base_slot, key);
    keccak256(input.as_slice())
}

/// Storage key of the two-key mapping entry `(key1, key2)` at `base_slot`.
pub fn mapping_key_2(base_slot: u32, key1: &Address, key2: &Address) -> (r: [u8; 32])
    requires
        base_slot < u32::MAX,
    ensures
        r@ == keccak256_digest(mapping_key_2_input(base_slot, key1@, key2@)),
{
    let inner = mapping_key_1_preimage(base_slot + 1, key2);
    let inner_hash = keccak256(inner.as_slice());
    let mut outer: Vec<u8> = Vec::new();
    extend_zeros(&mut outer, 12);
    extend_bytes(&mut outer, key1.as_slice());
    extend_bytes(&mut outer, inner_hash.as_slice());
    proof {
        assert(outer@ =~= mapping_key_2_input(base_slot, key1@, key2@));
    }
    keccak256(outer.as_slice())
}

/// Storage key of element `index` of the dynamic array at slot `base`.
pub fn array_slot(base: u32, index: U256) -> (r: [u8; 32])
    ensures
        r@ == keccak256_digest(array_slot_input(base, index@)),
{
    let mut packed: Vec<u8> = Vec::new();
    extend_zeros(&mut packed, 28);
    let b = u32_to_be_bytes(base);
    extend_bytes(&mut packed, b.as_slice());
    let i = word_to_bytes(index);
    extend_bytes(&mut packed, i.as_slice());
    proof {
        assert(packed@ =~= array_slot_input(base, index@));
    }
    keccak256(packed.as_slice())
}


/// The storage key of fixed slot `slot`: 28 zero bytes, then the slot number big-endian.
pub open spec fn slot_key_spec(slot: u32) -> Seq<u8> {
    zeros(28) + be_bytes(slot as nat, 4)
}

/// The storage key of fixed slot `slot`.
pub fn slot_key(slot: u32) -> (r: [u8; 32])
    ensures
        r@ == slot_key_spec(slot),
{
    let b = u32_to_be_bytes(slot);
    let mut k = [0u8; 32];
    k[28] = b[0];
    k[29] = b[1];
    k[30] = b[2];
    k[31] = b[3];
    assert(k@ =~= slot_key_spec(slot));
    k
}

/// The word stored in fixed slot `slot`; 0 when nothing is stored.
pub open spec fn stored_word(st: Map<Seq<u8>, Seq<u8>>, slot: u32) -> nat {
    be_value(storage_value(st, slot_key_spec(slot)))
}

/// Reads the word in fixed slot `slot`, 0 when nothing is stored.
pub fn storage_get_u256(storage: &HostStorage, slot: u32) -> (r: U256)
    ensures
        r@ == stored_word(storage.view(), slot),
{
    let key = slot_key(slot);
    let value = storage.load(&key);
    word_from_bytes(&value)
}

/// Writes `value` big-endian into fixed slot `slot`; zero clears the slot.
pub fn storage_set_u256(storage: &mut HostStorage, slot: u32, value: U256)
    ensures
        final(storage).view() == store_or_clear(old(storage).view(), slot_key_spec(slot), be_bytes(value@, 32)),
{
    let key = slot_key(slot);
    storage.store(&key, word_to_bytes(value));
}

/// 256^(a+b) is 256^a times 256^b.
proof fn lemma_byte_power_add(a: nat, b: nat)
    ensures
        byte_power(a + b) == byte_power(a) * byte_power(b),
    decreases b,
{
    if b > 0 {
        lemma_byte_power_add(a, (b - 1) as nat);
        assert(byte_power(a + b) == 256 * byte_power((a + b - 1) as nat));
        assert(byte_power(a) * byte_power(b) == byte_power(a) * (256 * byte_power((b - 1) as nat)));
        assert(byte_power(a) * (256 * byte_power((b - 1) as nat)) == 256 * (byte_power(a) * byte_power((b - 1) as nat))) by (nonlinear_arith);
    } else {
        assert(byte_power(0) == 1);
        assert(a + b == a);
    }
}

/// 256^4 and 256^32 as powers of two.
proof fn lemma_byte_powers()
    ensures
        byte_power(4) == 0x1_0000_0000nat,
        byte_power(32) == word_modulus(),
{
    reveal_with_fuel(byte_power, 5);
    assert(byte_power(4) == 0x1_0000_0000nat);
    assert(byte_power(8) == 0x1_0000_0000_0000_0000nat) by {
        reveal_with_fuel(byte_power, 5);
        assert(byte_power(5) == 256 * byte_power(4));
        assert(byte_power(6) == 256 * byte_power(5));
        assert(byte_power(7) == 256 * byte_power(6));
        assert(byte_power(8) == 256 * byte_power(7));
    }
    lemma_byte_power_add(8, 8);
    assert(byte_power(16) == 0x1_0000_0000_0000_0000_0000_0000_0000_0000nat);
    lemma_byte_power_add(16, 16);
    assert(byte_power(32) == 0x1_0000_0000_0000_0000_0000_0000_0000_0000nat * 0x1_0000_0000_0000_0000_0000_0000_0000_0000nat);
}

/// Reading a fixed slot gives back the last word written to it, and writing one slot
/// leaves every other slot as it was.
pub proof fn lemma_slot_read_back(st: Map<Seq<u8>, Seq<u8>>, slot: u32, value: nat, other: u32)
    requires
        value < word_modulus(),
        other != slot,
    ensures
        stored_word(store_or_clear(st, slot_key_spec(slot), be_bytes(value, 32)), slot) == value,
        stored_word(store_or_clear(st, slot_key_spec(slot), be_bytes(value, 32)), other) == stored_word(st, other),
{
    lemma_byte_powers();
    lemma_be_value_of_bytes(value, 32);
    lemma_be_value_of_bytes(slot as nat, 4);
    lemma_be_value_of_bytes(other as nat, 4);
    vstd::arithmetic::div_mod::lemma_small_mod(value, word_modulus());
    vstd::arithmetic::div_mod::lemma_small_mod(slot as nat, 0x1_0000_0000nat);
    vstd::arithmetic::div_mod::lemma_small_mod(other as nat, 0x1_0000_0000nat);
    assert(slot_key_spec(other) != slot_key_spec(slot)) by {
        if slot_key_spec(other) == slot_key_spec(slot) {
            assert(slot_key_spec(other).subrange(28, 32) =~= be_bytes(other as nat, 4));
            assert(slot_key_spec(slot).subrange(28, 32) =~= be_bytes(slot as nat, 4));
        }
    }
    lemma_storage_read_back(st, slot_key_spec(slot), be_bytes(value, 32), slot_key_spec(other));
}

} // verus!
