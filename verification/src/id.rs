//! Keys, signatures and the identities of peers.

use crate::bytes::same_bytes;
use crate::crypto::{
    ed25519_public_key, ed25519_signature, ed25519_verifies, public_key_of, sha3_256, sha3_256_digest,
    sign_detached, verify_detached,
};
use crate::name::XorName;
use vstd::prelude::*;

verus! {

/// An Ed25519 public key, as its 32 bytes.
#[derive(Clone, Copy, Debug, PartialEq, Eq, Hash)]
pub struct PublicKey {
    pub bytes: [u8; 32],
}

/// The seed of an Ed25519 secret key.
#[derive(Clone, Copy, Debug, PartialEq, Eq)]
pub struct SecretKey {
    pub bytes: [u8; 32],
}

/// A detached Ed25519 signature, as its 64 bytes.
#[derive(Clone, Copy, Debug, PartialEq, Eq, Hash)]
pub struct Signature {
    pub bytes: [u8; 64],
}

impl View for PublicKey {
    type V = Seq<u8>;

    open spec fn view(&self) -> Seq<u8> {
        self.bytes@
    }
}

impl View for SecretKey {
    type V = Seq<u8>;

    open spec fn view(&self) -> Seq<u8> {
        self.bytes@
    }
}

impl View for Signature {
    type V = Seq<u8>;

    open spec fn view(&self) -> Seq<u8> {
        self.bytes@
    }
}

impl PublicKey {
    /// The key with the given bytes.
    pub fn new(bytes: [u8; 32]) -> (key: PublicKey)
        ensures
            key.bytes == bytes,
    {
        PublicKey { bytes }
    }

    /// Whether two keys are the same key.
    pub fn same_as(&self, other: &PublicKey) -> (same: bool)
        ensures
            same == (self@ == other@),
    {
        same_bytes(self.bytes.as_slice(), other.bytes.as_slice())
    }

    /// Whether `signature` is a signature of `message` under this key.
    pub fn verify(&self, message: &[u8], signature: &Signature) -> (ok: bool)
        ensures
            ok == ed25519_verifies(self@, message@, signature@),
    {
        verify_detached(&signature.bytes, message, &self.bytes)
    }
}

impl SecretKey {
    /// The secret key with the given seed.
    pub fn new(bytes: [u8; 32]) -> (key: SecretKey)
        ensures
            key.bytes == bytes,
    {
        SecretKey { bytes }
    }

    /// The public key that belongs to this secret key.
    pub fn public_key(&self) -> (public: PublicKey)
        ensures
            public@ == ed25519_public_key(self@),
    {
        PublicKey { bytes: public_key_of(&self.bytes) }
    }

    /// Signs `message`. The signature verifies under `self.public_key()`.
    pub fn sign(&self, message: &[u8]) -> (signature: Signature)
        ensures
            signature@ == ed25519_signature(self@, message@),
            ed25519_verifies(ed25519_public_key(self@), message@, signature@),
    {
        Signature { bytes: sign_detached(message, &self.bytes) }
    }
}

impl Signature {
    /// The signature with the given bytes.
    pub fn new(bytes: [u8; 64]) -> (signature: Signature)
        ensures
            signature.bytes == bytes,
    {
        Signature { bytes }
    }
}

/// A peer as others see it: its age and its public key.
#[derive(Clone, Copy, Debug, PartialEq, Eq, Hash)]
pub struct PeerId {
    age: u8,
    pub_key: PublicKey,
}

impl PeerId {
    pub closed spec fn spec_age(&self) -> u8 {
        self.age
    }

    pub closed spec fn spec_pub_key(&self) -> Seq<u8> {
        self.pub_key@
    }

    /// The identity of the peer with this age and key.
    pub fn new(age: u8, pub_key: PublicKey) -> (id: PeerId)
        ensures
            id.spec_age() == age,
            id.spec_pub_key() == pub_key@,
    {
        PeerId { age, pub_key }
    }

    /// The peer's age.
    pub fn age(&self) -> (age: u8)
        ensures
            age == self.spec_age(),
    {
        self.age
    }

    /// The peer's public key.
    pub fn pub_key(&self) -> (key: &PublicKey)
        ensures
            key@ == self.spec_pub_key(),
    {
        &self.pub_key
    }
}

/// The public identity of a node: its public key, and the name that the key
/// gives it.
#[derive(Clone, Copy, Debug, PartialEq, Eq, Hash)]
pub struct PublicId {
    public_key: PublicKey,
    name: XorName,
}

/// The full identity of a node: its public identity and the secret key
/// behind it.
#[derive(Clone, Copy, Debug)]
pub struct FullId {
    public_id: PublicId,
    secret_key: SecretKey,
}

/// The name of the node with the given public key: the digest of the key.
pub open spec fn name_of(public_key: Seq<u8>) -> Seq<u8> {
    sha3_256_digest(public_key)
}

impl PublicId {
    pub closed spec fn spec_public_key(&self) -> Seq<u8> {
        self.public_key@
    }

    pub closed spec fn spec_name(&self) -> Seq<u8> {
        self.name@
    }

    /// The bytes that stand for this identity wherever it is signed: the
    /// public key, then the name.
    pub open spec fn canonical(&self) -> Seq<u8> {
        self.spec_public_key() + self.spec_name()
    }

    /// The identity of the node with this public key.
    pub fn new(public_key: PublicKey) -> (id: PublicId)
        ensures
            id.spec_public_key() == public_key@,
            id.spec_name() == name_of(public_key@),
    {
        let name = XorName(sha3_256(public_key.bytes.as_slice()));
        PublicId { public_key, name }
    }

    /// The node's name.
    pub fn name(&self) -> (name: &XorName)
        ensures
            name@ == self.spec_name(),
    {
        &self.name
    }

    /// The node's public key.
    pub fn public_key(&self) -> (key: &PublicKey)
        ensures
            key@ == self.spec_public_key(),
    {
        &self.public_key
    }

    /// Whether `signature` is this node's signature of `data`.
    pub fn verify(&self, data: &[u8], signature: &Signature) -> (ok: bool)
        ensures
            ok == ed25519_verifies(self.spec_public_key(), data@, signature@),
    {
        self.public_key.verify(data, signature)
    }

    /// The canonical encoding of this identity.
    pub fn serialise(&self) -> (bytes: Vec<u8>)
        ensures
            bytes@ == self.canonical(),
    {
        let mut bytes: Vec<u8> = Vec::new();
        let mut i: usize = 0;
        while i < 32
            invariant
                i <= 32,
                bytes@ == self.public_key@.subrange(0, i as int),
            decreases 32 - i,
        {
            bytes.push(self.public_key.bytes[i]);
            assert(bytes@ =~= self.public_key@.subrange(0, i + 1));
            i += 1;
        }
        let mut j: usize = 0;
        while j < 32
            invariant
                j <= 32,
                bytes@ == self.public_key@.subrange(0, 32) + self.name@.subrange(0, j as int),
            decreases 32 - j,
        {
            bytes.push(self.name.0[j]);
            assert(bytes@ =~= self.public_key@.subrange(0, 32) + self.name@.subrange(0, j + 1));
            j += 1;
        }
        assert(bytes@ =~= self.canonical());
        bytes
    }
}

impl FullId {
    /// The secret seed.
    pub closed spec fn spec_secret_key(&self) -> Seq<u8> {
        self.secret_key@
    }

    /// The public identity.
    pub closed spec fn spec_public_id(&self) -> PublicId {
        self.public_id
    }

    /// What holds of every full identity: the public key is that of the
    /// secret key.
    #[verifier::type_invariant]
    spec fn keys_match(self) -> bool {
        self.public_id.spec_public_key() == ed25519_public_key(self.secret_key@)
    }

    /// The identity of the node with this secret key.
    pub fn new(secret_key: SecretKey) -> (id: FullId)
        ensures
            id.spec_secret_key() == secret_key@,
            id.spec_public_id().spec_public_key() == ed25519_public_key(secret_key@),
            id.spec_public_id().spec_name() == name_of(ed25519_public_key(secret_key@)),
    {
        let public_id = PublicId::new(secret_key.public_key());
        FullId { public_id, secret_key }
    }

    /// The public identity. Its key is that of the secret key.
    pub fn public_id(&self) -> (id: &PublicId)
        ensures
            *id == self.spec_public_id(),
            id.spec_public_key() == ed25519_public_key(self.spec_secret_key()),
    {
        proof {
            use_type_invariant(self);
        }
        &self.public_id
    }

    /// Signs `data`. The signature verifies under the public identity.
    pub fn sign(&self, data: &[u8]) -> (signature: Signature)
        ensures
            signature@ == ed25519_signature(self.spec_secret_key(), data@),
            ed25519_verifies(self.spec_public_id().spec_public_key(), data@, signature@),
    {
        proof {
            use_type_invariant(self);
        }
        self.secret_key.sign(data)
    }
}

} // verus!
