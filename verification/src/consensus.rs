//! Values that a section has agreed on.

use crate::crypto::Digest256;
use vstd::prelude::*;

verus! {

/// A BLS public key of a section, as its 48 bytes.
#[derive(Clone, Copy, Debug, PartialEq, Eq, Hash)]
pub struct BlsPublicKey {
    pub bytes: [u8; 48],
}

/// A BLS signature, as its bytes: 96 of them for a signature that can verify.
#[derive(Clone, Debug, PartialEq, Eq, Hash)]
pub struct BlsSignature {
    pub bytes: Vec<u8>,
}

impl View for BlsPublicKey {
    type V = Seq<u8>;

    open spec fn view(&self) -> Seq<u8> {
        self.bytes@
    }
}

impl View for BlsSignature {
    type V = Seq<u8>;

    open spec fn view(&self) -> Seq<u8> {
        self.bytes@
    }
}

/// The section's signature under a value, with the key that made it and the
/// digest of what was signed.
#[derive(Clone, Debug, PartialEq, Eq, Hash)]
pub struct SectionProof {
    pub public_key: BlsPublicKey,
    pub signature: BlsSignature,
    pub payload_hash: Digest256,
}

/// A value together with the section's signature under it.
#[derive(Clone, Debug, PartialEq, Eq, Hash)]
pub struct Proven<T> {
    pub value: T,
    pub section_proof: SectionProof,
}

} // verus!
