use crate::curve::{be_value, group_order, Point};
use frost_secp256k1::{Field, Secp256K1ScalarField};
use vstd::prelude::*;
use vstd::string::StringExecFns;

verus! {

/// Whether an EVM verifier can check signatures under `key`: its
/// x-coordinate must be below the group order, so that it can stand as the
/// `r` value of an `ecrecover` signature.
pub open spec fn supported(key: Point) -> bool {
    be_value(key.x@) < group_order()
}

/// Whether `bytes` is the canonical encoding of a secp256k1 scalar.
///
/// Relies on `frost_secp256k1::Secp256K1ScalarField::deserialize`, which
/// succeeds exactly on the big-endian encodings of integers below the group
/// order (by `k256::Scalar::from_repr`).
#[verifier::external_body]
fn is_canonical_scalar(bytes: &[u8; 32]) -> (r: bool)
    ensures
        r == (be_value(bytes@) < group_order()),
{
    Secp256K1ScalarField::deserialize(bytes).is_ok()
}

/// Whether `key` is supported by the EVM verifier.
pub fn is_supported(key: &Point) -> (r: bool)
    ensures
        r == supported(*key),
{
    is_canonical_scalar(&key.x)
}

/// Verifies whether or not a secp256k1 public key is supported by the EVM
/// verifier, handing it back if it is.
///
/// Public keys whose x-coordinate is not below the curve order are not
/// supported: the verifier passes the x-coordinate as the `r` value of an
/// `ecrecover` signature, which must be a scalar, and `ecrecover` has no
/// recovery id for an `R.x = r + n`.
pub fn verified_public_key(key: &Point) -> (r: Result<&Point, NotSupported>)
    ensures
        r is Ok <==> supported(*key),
        r matches Ok(k) ==> *k == *key,
{
    if is_supported(key) {
        Ok(key)
    } else {
        Err(NotSupported)
    }
}

/// The public key is not supported by the EVM verifier.
#[derive(Clone, Copy, Debug, PartialEq, Eq)]
pub struct NotSupported;

impl NotSupported {
    /// A description of the error.
    pub fn message(&self) -> (r: String)
        ensures
            r@ == "public key not supported by the EVM verifier"@,
    {
        String::from_str("public key not supported by the EVM verifier")
    }
}

} // verus!
