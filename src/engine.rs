//! The signature engine: FROST(secp256k1, SHA-256) of `frost_secp256k1`,
//! used as an opaque collaborator.
//!
//! The engine's artifacts are generic over its `Ciphersuite` trait and
//! cannot appear in verified code, so each operation here takes and gives
//! them in their serialized form, read and written with the engine's own
//! `deserialize` and `serialize`, and reports a refusal by the engine's
//! message. Nothing is promised of what the engine computes beyond what each
//! operation states.
use crate::curve::{Point, Signature};
use frost_secp256k1::keys::{IdentifierList, KeyPackage, PublicKeyPackage};
use frost_secp256k1::round1::{SigningCommitments, SigningNonces};
use frost_secp256k1::round2::SignatureShare;
use frost_secp256k1::{Identifier, SigningKey, SigningPackage};
use k256::elliptic_curve::sec1::ToEncodedPoint;
use std::collections::BTreeMap;
use vstd::prelude::*;

verus! {

/// The views of a sequence of byte vectors.
pub open spec fn byte_views(v: Seq<Vec<u8>>) -> Seq<Seq<u8>> {
    v.map_values(|b: Vec<u8>| b@)
}

/// The verifying key of the serialized public key package `package`, if it
/// decodes.
pub uninterp spec fn key_point(package: Seq<u8>) -> Option<Point>;

/// The commitment point and response of the serialized signature
/// `signature`, if it decodes.
pub uninterp spec fn signature_of(signature: Seq<u8>) -> Option<Signature>;

/// The serialized signing package of `message` and the framed commitments
/// `commitments`, if they decode and the package serializes.
pub uninterp spec fn package_of(commitments: Seq<Seq<u8>>, message: Seq<u8>) -> Option<Seq<u8>>;

/// The framed signature share over the signing package `package` with the
/// nonces `nonces` and the key package `key`, if the engine signs.
pub uninterp spec fn share_of(package: Seq<u8>, nonces: Seq<u8>, key: Seq<u8>) -> Option<Seq<u8>>;

/// The serialized signature aggregated from the framed shares `shares`, if
/// the engine aggregates.
pub uninterp spec fn signature_from(package: Seq<u8>, shares: Seq<Seq<u8>>, pubkey: Seq<u8>) -> Option<
    Seq<u8>,
>;

/// Whether the engine accepts `signature` over the message of `package`
/// under the verifying key of `pubkey`.
pub uninterp spec fn signature_valid(pubkey: Seq<u8>, package: Seq<u8>, signature: Seq<u8>) -> bool;

/// Draws a fresh secret signing key, serialized.
///
/// Relies on `frost_secp256k1::SigningKey::new` with the thread's random
/// generator; nothing is promised of the key.
#[verifier::external_body]
pub fn random_secret() -> (r: Vec<u8>) {
    SigningKey::new(&mut rand::thread_rng()).serialize()
}

/// Splits the serialized secret `secret` into `signers` key packages, any
/// `threshold` of which can sign, and the public key package.
///
/// Relies on `frost_secp256k1::keys::split` with the default identifiers:
/// it fails unless `2 <= threshold <= signers`, and otherwise gives one
/// share per identifier `1..=signers`, in identifier order.
#[verifier::external_body]
pub fn split_secret(secret: &[u8], signers: u16, threshold: u16) -> (r: Result<
    (Vec<Vec<u8>>, Vec<u8>),
    String,
>)
    ensures
        r matches Ok((shares, _)) ==> shares@.len() == signers && 2 <= threshold <= signers,
{
    let key = SigningKey::deserialize(secret).map_err(|e| e.to_string())?;
    let (shares, package) = frost_secp256k1::keys::split(
        &key,
        signers,
        threshold,
        IdentifierList::Default,
        &mut rand::thread_rng(),
    ).map_err(|e| e.to_string())?;
    let keys = shares.into_values().map(|s| KeyPackage::try_from(s)?.serialize()).collect::<
        Result<Vec<_>, _>,
    >().map_err(|e| e.to_string())?;
    Ok((keys, package.serialize().map_err(|e| e.to_string())?))
}

/// The verifying key of a serialized public key package, in affine
/// coordinates; it depends on the bytes alone.
///
/// Relies on `frost_secp256k1::keys::PublicKeyPackage::deserialize`, which
/// refuses the identity, so the uncompressed encoding has both coordinates.
#[verifier::external_body]
pub fn public_key_point(package: &[u8]) -> (r: Result<Point, String>)
    ensures
        r is Ok <==> key_point(package@) is Some,
        r matches Ok(p) ==> key_point(package@) == Some(p),
{
    let package = PublicKeyPackage::deserialize(package).map_err(|e| e.to_string())?;
    let p = package.verifying_key().to_element().to_affine().to_encoded_point(false);
    let b = p.as_bytes();
    Ok(Point { x: b[1..33].try_into().unwrap(), y: b[33..65].try_into().unwrap() })
}

/// Generates round-1 nonces for a serialized key package, and their
/// commitments framed with the participant's identifier.
///
/// Relies on `frost_secp256k1::round1::commit` with the thread's random
/// generator; the frame is the postcard encoding of the identifier and the
/// commitments.
#[verifier::external_body]
pub fn commit_share(key: &[u8]) -> (r: Result<(Vec<u8>, Vec<u8>), String>) {
    let key = KeyPackage::deserialize(key).map_err(|e| e.to_string())?;
    let (nonces, commitments) = frost_secp256k1::round1::commit(
        key.signing_share(),
        &mut rand::thread_rng(),
    );
    let framed = postcard::to_allocvec(&(key.identifier(), &commitments)).map_err(
        |e| e.to_string(),
    )?;
    Ok((nonces.serialize().map_err(|e| e.to_string())?, framed))
}

/// Builds the serialized signing package of `message` and the framed
/// commitments `commitments`, each read on its own.
///
/// Relies on `frost_secp256k1::SigningPackage::new`, over the commitments
/// that `postcard::from_bytes` reads from each frame, keyed by identifier;
/// it depends on its arguments alone.
#[verifier::external_body]
pub fn build_signing_package(commitments: &Vec<Vec<u8>>, message: &[u8]) -> (r: Result<
    Vec<u8>,
    String,
>)
    ensures
        r is Ok <==> package_of(byte_views(commitments@), message@) is Some,
        r matches Ok(p) ==> package_of(byte_views(commitments@), message@) == Some(p@),
{
    let map = commitments.iter().map(|d| postcard::from_bytes::<(Identifier, SigningCommitments)>(d))
        .collect::<Result<BTreeMap<_, _>, _>>().map_err(|e| e.to_string())?;
    SigningPackage::new(map, message).serialize().map_err(|e| e.to_string())
}

/// Computes a participant's signature share, framed with its identifier.
///
/// Relies on `frost_secp256k1::round2::sign` over the deserialized signing
/// package, nonces and key package; the frame is the postcard encoding of
/// the identifier and the share. It depends on its arguments alone.
#[verifier::external_body]
pub fn sign_share(package: &[u8], nonces: &[u8], key: &[u8]) -> (r: Result<Vec<u8>, String>)
    ensures
        r is Ok <==> share_of(package@, nonces@, key@) is Some,
        r matches Ok(s) ==> share_of(package@, nonces@, key@) == Some(s@),
{
    let key = KeyPackage::deserialize(key).map_err(|e| e.to_string())?;
    let nonces = SigningNonces::deserialize(nonces).map_err(|e| e.to_string())?;
    let package = SigningPackage::deserialize(package).map_err(|e| e.to_string())?;
    let share = frost_secp256k1::round2::sign(&package, &nonces, &key).map_err(
        |e| e.to_string(),
    )?;
    postcard::to_allocvec(&(key.identifier(), &share)).map_err(|e| e.to_string())
}

/// Aggregates the framed signature shares `shares`, each read on its own,
/// into the serialized signature.
///
/// Relies on `frost_secp256k1::aggregate`, over the shares that
/// `postcard::from_bytes` reads from each frame, keyed by identifier; it
/// fails on too few or invalid shares, and depends on its arguments alone.
#[verifier::external_body]
pub fn aggregate_shares(package: &[u8], shares: &Vec<Vec<u8>>, pubkey: &[u8]) -> (r: Result<
    Vec<u8>,
    String,
>)
    ensures
        r is Ok <==> signature_from(package@, byte_views(shares@), pubkey@) is Some,
        r matches Ok(s) ==> signature_from(package@, byte_views(shares@), pubkey@) == Some(s@),
{
    let pubkey = PublicKeyPackage::deserialize(pubkey).map_err(|e| e.to_string())?;
    let package = SigningPackage::deserialize(package).map_err(|e| e.to_string())?;
    let map = shares.iter().map(|d| postcard::from_bytes::<(Identifier, SignatureShare)>(d))
        .collect::<Result<BTreeMap<_, _>, _>>().map_err(|e| e.to_string())?;
    let signature = frost_secp256k1::aggregate(&package, &map, &pubkey).map_err(|e| e.to_string())?;
    signature.serialize().map_err(|e| e.to_string())
}

/// Checks a serialized signature over the signing package's message.
///
/// Relies on `frost_secp256k1::VerifyingKey::verify` with the verifying key
/// of the public key package; it depends on its arguments alone.
#[verifier::external_body]
pub fn verify_signature(pubkey: &[u8], package: &[u8], signature: &[u8]) -> (r: Result<(), String>)
    ensures
        r is Ok <==> signature_valid(pubkey@, package@, signature@),
{
    let pubkey = PublicKeyPackage::deserialize(pubkey).map_err(|e| e.to_string())?;
    let package = SigningPackage::deserialize(package).map_err(|e| e.to_string())?;
    let signature = frost_secp256k1::Signature::deserialize(signature).map_err(|e| e.to_string())?;
    pubkey.verifying_key().verify(package.message(), &signature).map_err(|e| e.to_string())
}

/// The commitment point and response of a serialized signature; they
/// depend on the bytes alone.
///
/// Relies on `frost_secp256k1::Signature::deserialize`, which refuses the
/// identity as `R`, so the uncompressed encoding has both coordinates.
#[verifier::external_body]
pub fn signature_parts(signature: &[u8]) -> (r: Result<Signature, String>)
    ensures
        r is Ok <==> signature_of(signature@) is Some,
        r matches Ok(s) ==> signature_of(signature@) == Some(s),
{
    let s = frost_secp256k1::Signature::deserialize(signature).map_err(|e| e.to_string())?;
    let p = s.R().to_affine().to_encoded_point(false);
    let b = p.as_bytes();
    let r = Point { x: b[1..33].try_into().unwrap(), y: b[33..65].try_into().unwrap() };
    Ok(Signature { r, z: s.z().to_bytes().into() })
}

} // verus!
