use sha3::{Digest, Keccak256};
use vstd::prelude::*;

verus! {

/// The Keccak-256 digest of `bytes`.
pub uninterp spec fn keccak256(bytes: Seq<u8>) -> Seq<u8>;

/// Compute the Keccak-256 hash of a byte slice.
///
/// Relies on `sha3::Keccak256`: the 32-byte digest depends on the bytes alone.
#[verifier::external_body]
pub fn v256(bytes: &[u8]) -> (r: [u8; 32])
    ensures
        r@ == keccak256(bytes@),
{
    let mut hasher = Keccak256::new();
    hasher.update(bytes);
    hasher.finalize().into()
}

} // verus!
