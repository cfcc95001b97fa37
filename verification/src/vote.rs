//! Votes and proofs: what one peer says, and what others can show of it.
//!
//! A vote is a first-person statement, sent directly, so that the receiver
//! knows whose it is. A proof is the same signature with the signer's identity
//! beside it, fit to be handed on. Both sign the canonical encoding of the
//! payload, which for a digest is its 32 bytes.

use crate::crypto::{ed25519_public_key, ed25519_signature, ed25519_verifies, serialise_digest, Digest256};
use crate::error::RoutingError;
use crate::id::{PeerId, PublicKey, SecretKey, Signature};
use vstd::prelude::*;

verus! {

/// What can be voted for: a value with a canonical encoding, the bytes that
/// a signature under it covers. The encoding depends on the value alone.
pub trait Payload: Sized {
    /// The canonical encoding, if the value has one.
    spec fn canonical(&self) -> Option<Seq<u8>>;

    /// Encodes the value, or gives `None` if it cannot be encoded.
    fn serialise(&self) -> (encoded: Option<Vec<u8>>)
        ensures
            encoded matches Some(bytes) ==> self.canonical() == Some(bytes@),
            encoded is None ==> self.canonical() is None,
    ;
}

/// The bytes that a signature over the digest `payload` covers: the digest.
pub open spec fn signed_bytes(payload: Seq<u8>) -> Seq<u8> {
    payload
}

impl Payload for Digest256 {
    open spec fn canonical(&self) -> Option<Seq<u8>> {
        Some(signed_bytes(self@))
    }

    fn serialise(&self) -> (encoded: Option<Vec<u8>>) {
        match serialise_digest(self) {
            Ok(bytes) => Some(bytes),
            Err(_) => None,
        }
    }
}

impl Payload for PeerId {
    /// The age, then the 32 bytes of the key.
    open spec fn canonical(&self) -> Option<Seq<u8>> {
        Some(seq![self.spec_age()] + self.spec_pub_key())
    }

    fn serialise(&self) -> (encoded: Option<Vec<u8>>) {
        let mut bytes: Vec<u8> = Vec::new();
        bytes.push(self.age());
        let key = self.pub_key();
        let mut i: usize = 0;
        while i < 32
            invariant
                i <= 32,
                key@ == self.spec_pub_key(),
                bytes@ == seq![self.spec_age()] + key@.subrange(0, i as int),
            decreases 32 - i,
        {
            bytes.push(key.bytes[i]);
            assert(bytes@ =~= seq![self.spec_age()] + key@.subrange(0, i + 1));
            i += 1;
        }
        assert(key@.subrange(0, 32) =~= key@);
        Some(bytes)
    }
}

/// A peer's wish that the network act on `payload`, signed by that peer.
#[derive(Clone, Debug, PartialEq, Eq)]
pub struct Vote<T> {
    payload: T,
    signature: Signature,
}

/// A witness that the peer `peer_id` signed some payload.
#[derive(Clone, Copy, Debug, PartialEq, Eq, Hash)]
pub struct Proof {
    peer_id: PeerId,
    sig: Signature,
}

/// A proof as a mathematical value.
pub struct ProofView {
    pub key: Seq<u8>,
    pub age: u8,
    pub sig: Seq<u8>,
}

impl ProofView {
    /// Whether the signature covers `payload` under the proof's key.
    pub open spec fn validates(self, payload: Seq<u8>) -> bool {
        ed25519_verifies(self.key, signed_bytes(payload), self.sig)
    }
}

impl View for Proof {
    type V = ProofView;

    closed spec fn view(&self) -> ProofView {
        ProofView { key: self.peer_id.spec_pub_key(), age: self.peer_id.spec_age(), sig: self.sig@ }
    }
}

impl<T: Payload> Vote<T> {
    pub closed spec fn spec_payload(&self) -> T {
        self.payload
    }

    pub closed spec fn spec_signature(&self) -> Seq<u8> {
        self.signature@
    }

    /// Whether the vote's signature covers its payload under `key`.
    pub open spec fn valid_under(&self, key: Seq<u8>) -> bool {
        self.spec_payload().canonical() matches Some(bytes) && ed25519_verifies(key, bytes, self.spec_signature())
    }

    /// Signs `payload` with `secret_key`. This fails only for a payload that
    /// cannot be encoded. The vote validates under the peer that owns the
    /// secret key, whatever its age.
    pub fn new(secret_key: &SecretKey, payload: T) -> (made: Result<Vote<T>, RoutingError>)
        ensures
            match payload.canonical() {
                Some(bytes) => made matches Ok(vote) && vote.spec_payload() == payload && vote.spec_signature()
                    == ed25519_signature(secret_key@, bytes) && vote.valid_under(ed25519_public_key(secret_key@)),
                None => made matches Err(e) && e == RoutingError::InvalidMessage,
            },
    {
        match payload.serialise() {
            Some(data) => {
                let signature = secret_key.sign(data.as_slice());
                Ok(Vote { payload, signature })
            },
            None => Err(RoutingError::InvalidMessage),
        }
    }

    /// A vote as it was received: nothing is known of its signature.
    pub fn from_parts(payload: T, signature: Signature) -> (vote: Vote<T>)
        ensures
            vote.spec_payload() == payload,
            vote.spec_signature() == signature@,
    {
        Vote { payload, signature }
    }

    /// The proof that `peer_id` cast this vote, if the signature is that peer's.
    pub fn into_proof(&self, peer_id: &PeerId) -> (made: Result<Proof, RoutingError>)
        ensures
            self.valid_under(peer_id.spec_pub_key()) ==> (made matches Ok(proof) && proof@ == (ProofView {
                key: peer_id.spec_pub_key(),
                age: peer_id.spec_age(),
                sig: self.spec_signature(),
            })),
            !self.valid_under(peer_id.spec_pub_key()) ==> made == Err::<Proof, RoutingError>(
                RoutingError::FailedSignature,
            ),
    {
        if self.validate_signature(peer_id) {
            return Ok(Proof { peer_id: *peer_id, sig: self.signature });
        }
        Err(RoutingError::FailedSignature)
    }

    /// The payload voted for.
    pub fn payload(&self) -> (payload: &T)
        ensures
            *payload == self.spec_payload(),
    {
        &self.payload
    }

    /// The signature over the payload.
    pub fn signature(&self) -> (signature: &Signature)
        ensures
            signature@ == self.spec_signature(),
    {
        &self.signature
    }

    /// Whether the vote was signed by `peer_id`. A payload that cannot be
    /// encoded was signed by nobody.
    pub fn validate_signature(&self, peer_id: &PeerId) -> (ok: bool)
        ensures
            ok == self.valid_under(peer_id.spec_pub_key()),
    {
        match self.payload.serialise() {
            Some(data) => peer_id.pub_key().verify(data.as_slice(), &self.signature),
            None => false,
        }
    }
}

impl Proof {
    /// The proof that the peer with this key and age cast `vote`, if the
    /// vote's signature is that peer's.
    pub fn new<T: Payload>(key: &PublicKey, age: u8, vote: &Vote<T>) -> (made: Result<Proof, RoutingError>)
        ensures
            vote.valid_under(key@) ==> (made matches Ok(proof) && proof@ == (ProofView {
                key: key@,
                age,
                sig: vote.spec_signature(),
            })),
            !vote.valid_under(key@) ==> made == Err::<Proof, RoutingError>(RoutingError::FailedSignature),
    {
        let peer_id = PeerId::new(age, *key);
        vote.into_proof(&peer_id)
    }

    /// A proof as it was received: nothing is known of its signature.
    pub fn from_parts(peer_id: PeerId, sig: Signature) -> (proof: Proof)
        ensures
            proof@ == (ProofView { key: peer_id.spec_pub_key(), age: peer_id.spec_age(), sig: sig@ }),
    {
        Proof { peer_id, sig }
    }

    /// The identity of the signer.
    pub fn peer_id(&self) -> (id: &PeerId)
        ensures
            id.spec_pub_key() == self@.key,
            id.spec_age() == self@.age,
    {
        &self.peer_id
    }

    /// The signer's public key.
    pub fn key(&self) -> (key: &PublicKey)
        ensures
            key@ == self@.key,
    {
        self.peer_id.pub_key()
    }

    /// The signer's age.
    pub fn age(&self) -> (age: u8)
        ensures
            age == self@.age,
    {
        self.peer_id.age()
    }

    /// The signature.
    pub fn sig(&self) -> (sig: &Signature)
        ensures
            sig@ == self@.sig,
    {
        &self.sig
    }

    /// Whether the signature covers `payload` under the signer's key.
    pub fn validate_signature(&self, payload: &Digest256) -> (ok: bool)
        ensures
            ok == self@.validates(payload@),
    {
        match payload.serialise() {
            Some(data) => self.peer_id.pub_key().verify(data.as_slice(), &self.sig),
            None => false,
        }
    }
}

} // verus!
