//! Calldata of the arithmetic benchmark contract.

use vstd::prelude::*;
use vstd::string::StringSliceAdditionalSpecFns;
use crate::word::U256;
use crate::bytes::{be_bytes, extend_bytes, word_to_bytes};
use crate::keccak::{selector, selector_of};

verus! {

/// Calldata of `compute(uint256 a, uint256 b)`.
pub fn encode_compute(a: U256, b: U256) -> (r: Vec<u8>)
    ensures
        r@ == selector_of("compute(uint256,uint256)".spec_bytes()) + be_bytes(a@, 32) + be_bytes(b@, 32),
{
    let sel = selector("compute(uint256,uint256)");
    let mut r: Vec<u8> = Vec::new();
    extend_bytes(&mut r, sel.as_slice());
    let wa = word_to_bytes(a);
    extend_bytes(&mut r, wa.as_slice());
    let wb = word_to_bytes(b);
    extend_bytes(&mut r, wb.as_slice());
    r
}

/// Calldata of `computeMany(uint256 iterations)`.
pub fn encode_compute_many(iterations: U256) -> (r: Vec<u8>)
    ensures
        r@ == selector_of("computeMany(uint256)".spec_bytes()) + be_bytes(iterations@, 32),
{
    let sel = selector("computeMany(uint256)");
    let mut r: Vec<u8> = Vec::new();
    extend_bytes(&mut r, sel.as_slice());
    let w = word_to_bytes(iterations);
    extend_bytes(&mut r, w.as_slice());
    r
}

} // verus!
