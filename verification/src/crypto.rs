//! The cryptographic primitives, as they are seen by the rest of the library.
//!
//! Keys, signatures and digests travel as plain byte arrays. What a primitive
//! computes is not defined here: each result has a name, and the functions of
//! this module are believed to return the value so named.

use vstd::prelude::*;

verus! {

/// A 256-bit digest.
pub type Digest256 = [u8; 32];

/// The Ed25519 public key that belongs to a 32-byte secret seed.
pub uninterp spec fn ed25519_public_key(secret: Seq<u8>) -> Seq<u8>;

/// The Ed25519 signature of `message` under a 32-byte secret seed.
pub uninterp spec fn ed25519_signature(secret: Seq<u8>, message: Seq<u8>) -> Seq<u8>;

/// Whether `signature` is accepted for `message` under `public`.
pub uninterp spec fn ed25519_verifies(public: Seq<u8>, message: Seq<u8>, signature: Seq<u8>) -> bool;

/// The SHA3-256 digest of `data`.
pub uninterp spec fn sha3_256_digest(data: Seq<u8>) -> Seq<u8>;

/// Whether the BLS signature `signature` is accepted for `message` under the
/// BLS public key `public`.
pub uninterp spec fn bls_verifies(public: Seq<u8>, message: Seq<u8>, signature: Seq<u8>) -> bool;

/// Trusted: `ed25519_dalek::PublicKey::from(&SecretKey)`. The result is the
/// public key named by `ed25519_public_key`; a seed of 32 bytes is always
/// accepted by `SecretKey::from_bytes`.
#[verifier::external_body]
pub(crate) fn public_key_of(secret: &[u8; 32]) -> (public: [u8; 32])
    ensures
        public@ == ed25519_public_key(secret@),
{
    let secret = ed25519_dalek::SecretKey::from_bytes(secret).unwrap();
    ed25519_dalek::PublicKey::from(&secret).to_bytes()
}

/// Trusted: `ed25519_dalek::ExpandedSecretKey::sign`, with the public key
/// derived from the same seed. Signing is deterministic, so the result is the
/// signature named by `ed25519_signature`, and, as the scheme promises, it is
/// accepted under the public key of the seed that made it.
#[verifier::external_body]
pub(crate) fn sign_detached(message: &[u8], secret: &[u8; 32]) -> (signature: [u8; 64])
    ensures
        signature@ == ed25519_signature(secret@, message@),
        ed25519_verifies(ed25519_public_key(secret@), message@, signature@),
{
    let secret = ed25519_dalek::SecretKey::from_bytes(secret).unwrap();
    let public = ed25519_dalek::PublicKey::from(&secret);
    ed25519_dalek::ExpandedSecretKey::from(&secret).sign(message, &public).to_bytes()
}

/// Trusted: `ed25519_dalek::PublicKey::verify` (the `Verifier` impl). Bytes
/// that are no public key or no signature are rejected, not an error.
#[verifier::external_body]
pub(crate) fn verify_detached(signature: &[u8; 64], message: &[u8], public: &[u8; 32]) -> (ok: bool)
    ensures
        ok == ed25519_verifies(public@, message@, signature@),
{
    match (
        ed25519_dalek::PublicKey::from_bytes(public),
        ed25519_dalek::Signature::from_bytes(signature),
    ) {
        (Ok(public), Ok(signature)) => {
            ed25519_dalek::Verifier::verify(&public, message, &signature).is_ok()
        },
        _ => false,
    }
}

/// Trusted: `sha3::Sha3_256::digest`. The result is the digest named by
/// `sha3_256_digest`, which is always 32 bytes long.
#[verifier::external_body]
pub(crate) fn sha3_256(data: &[u8]) -> (digest: Digest256)
    ensures
        digest@ == sha3_256_digest(data@),
{
    <sha3::Sha3_256 as sha3::Digest>::digest(data).into()
}

/// Trusted: `threshold_crypto::PublicKey::verify`. Bytes that are no point of
/// the curve, as key or as signature, are rejected, not an error.
#[verifier::external_body]
pub(crate) fn bls_verify(public: &[u8; 48], signature: &[u8; 96], message: &[u8]) -> (ok: bool)
    ensures
        ok == bls_verifies(public@, message@, signature@),
{
    match (
        threshold_crypto::PublicKey::from_bytes(public),
        threshold_crypto::Signature::from_bytes(signature),
    ) {
        (Ok(public), Ok(signature)) => public.verify(&signature, message),
        _ => false,
    }
}

/// The error of `bincode`, carried through and never looked into.
#[verifier::external_type_specification]
#[verifier::external_body]
pub struct ExBincodeErrorKind(bincode::ErrorKind);

/// Trusted: `bincode::serialize` on an array of 32 bytes. In its default
/// configuration the encoding of a fixed-size array is its elements in order
/// with no length in front, a `u8` is one byte, and there is no size limit, so
/// the call succeeds and hands the 32 bytes back.
#[verifier::external_body]
pub(crate) fn serialise_digest(payload: &Digest256) -> (encoded: Result<Vec<u8>, Box<bincode::ErrorKind>>)
    ensures
        encoded is Ok,
        encoded matches Ok(bytes) ==> bytes@ == payload@,
{
    bincode::serialize(payload)
}

} // verus!
