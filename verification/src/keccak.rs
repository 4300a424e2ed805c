//! Keccak-256 hashing and Solidity function selectors.

use vstd::prelude::*;
use vstd::string::StringSliceAdditionalSpecFns;

verus! {

/// The Keccak-256 digest of a byte sequence, as `alloy_primitives::keccak256` computes it.
pub uninterp spec fn keccak256_digest(data: Seq<u8>) -> Seq<u8>;

/// `alloy_primitives::keccak256`: the 32-byte Keccak-256 digest of `data`.
/// The contract names the digest and claims nothing else of it.
#[verifier::external_body]
pub(crate) fn keccak256(data: &[u8]) -> (r: [u8; 32])
    ensures
        r@ == keccak256_digest(data@),
{
    alloy_primitives::keccak256(data).0
}

/// The selector of a function signature: the first four bytes of its digest.
pub open spec fn selector_of(signature: Seq<u8>) -> Seq<u8> {
    keccak256_digest(signature).subrange(0, 4)
}

/// The 4-byte selector of a Solidity function signature such as `"transfer(address,uint256)"`.
pub fn selector(signature: &str) -> (r: [u8; 4])
    ensures
        r@ == selector_of(signature.spec_bytes()),
{
    let h = keccak256(signature.as_bytes());
    let r = [h[0], h[1], h[2], h[3]];
    proof {
        assert(r@ =~= selector_of(signature.spec_bytes()));
    }
    r
}

/// Whether `data` starts with the 4 bytes `sel`.
pub fn has_selector(data: &[u8], sel: &[u8; 4]) -> (r: bool)
    ensures
        r == (data@.len() >= 4 && data@.subrange(0, 4) == sel@),
{
    if data.len() < 4 {
        return false;
    }
    let r = data[0] == sel[0] && data[1] == sel[1] && data[2] == sel[2] && data[3] == sel[3];
    proof {
        if r {
            assert(data@.subrange(0, 4) =~= sel@);
        } else {
            assert(data@.subrange(0, 4) != sel@ ==> true);
            if data@.subrange(0, 4) == sel@ {
                assert(data@.subrange(0, 4)[0] == sel@[0]);
                assert(data@.subrange(0, 4)[1] == sel@[1]);
                assert(data@.subrange(0, 4)[2] == sel@[2]);
                assert(data@.subrange(0, 4)[3] == sel@[3]);
            }
        }
    }
    r
}

} // verus!
