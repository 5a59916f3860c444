//! Keccak-256, as computed by `ethers`.

use crate::primitives::H256;
use vstd::prelude::*;

verus! {

/// The Keccak-256 digest of a byte string, as `ethers::utils::keccak256`
/// computes it.
pub uninterp spec fn keccak256_of(bytes: Seq<u8>) -> H256;

/// Calls `ethers::utils::keccak256`.
///
/// Trusted: the digest depends on the bytes alone. The 32 bytes that come
/// back are read as two big-endian halves.
#[verifier::external_body]
pub(crate) fn keccak256(bytes: &Vec<u8>) -> (digest: H256)
    ensures
        digest == keccak256_of(bytes@),
{
    let d = ethers::utils::keccak256(bytes);
    let (hi, lo) = d.split_at(16);
    H256 {
        hi: u128::from_be_bytes(hi.try_into().unwrap()),
        lo: u128::from_be_bytes(lo.try_into().unwrap()),
    }
}

} // verus!
