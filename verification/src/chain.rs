//! The proof chain of a section: its keys, each signed by the one before.
//!
//! A section changes its key whenever its elders change. The chain records
//! every key with the signature that the previous key gave it, so that whoever
//! trusts one key of the chain can check all that follow.

use crate::bytes::{copy_bytes, same_bytes};
use crate::consensus::{BlsPublicKey, BlsSignature};
use crate::crypto::{bls_verifies, bls_verify};
use crate::error::RoutingError;
use vstd::prelude::*;

verus! {

/// What is signed when a section takes a new key.
#[derive(Clone, Copy, Debug, PartialEq, Eq, Hash)]
pub struct SectionKeyInfo {
    pub key: BlsPublicKey,
}

/// A key of the section with the signature of the key before it.
#[derive(Clone, Debug, PartialEq, Eq, Hash)]
pub struct SectionProofBlock {
    pub key_info: SectionKeyInfo,
    pub signature: BlsSignature,
}

/// The keys of a section from its first to its current one.
#[derive(Clone, Debug, PartialEq, Eq)]
pub struct SectionProofChain {
    genesis: SectionKeyInfo,
    blocks: Vec<SectionProofBlock>,
}

/// What a chain is worth to one who trusts certain keys.
#[derive(Clone, Copy, Debug, PartialEq, Eq, Structural)]
pub enum TrustStatus {
    /// A trusted key is in the chain, and all that follows it is signed as it
    /// should be.
    Trusted,
    /// No trusted key is in the chain.
    Unknown,
    /// A trusted key is in the chain, but something after it is not signed as
    /// it should be.
    Invalid,
}

/// The given keys, as a set.
pub open spec fn bls_key_set(keys: Seq<BlsPublicKey>) -> Set<Seq<u8>> {
    Set::new(|key: Seq<u8>| exists|i: int| 0 <= i < keys.len() && #[trigger] keys[i]@ == key)
}

/// Whether `block` may follow a block with the key `previous`: its signature
/// is that of `previous` under its key info.
pub open spec fn link_valid(previous: Seq<u8>, block: SectionProofBlock) -> bool {
    block.signature@.len() == 96 && bls_verifies(previous, block.key_info.canonical(), block.signature@)
}

impl SectionKeyInfo {
    /// The bytes that are signed for this key info.
    pub open spec fn canonical(&self) -> Seq<u8> {
        self.key@
    }

    /// The canonical encoding of this key info.
    pub fn serialise(&self) -> (bytes: Vec<u8>)
        ensures
            bytes@ == self.canonical(),
    {
        copy_bytes(self.key.bytes.as_slice())
    }
}

/// Whether `block` may follow a block with the key `previous`.
fn link_verifies(previous: &BlsPublicKey, block: &SectionProofBlock) -> (ok: bool)
    ensures
        ok == link_valid(previous@, *block),
{
    if block.signature.bytes.len() != 96 {
        return false;
    }
    let mut signature = [0u8; 96];
    let mut i: usize = 0;
    while i < 96
        invariant
            i <= 96,
            block.signature.bytes@.len() == 96,
            forall|k: int| 0 <= k < i ==> signature@[k] == block.signature.bytes@[k],
        decreases 96 - i,
    {
        signature[i] = block.signature.bytes[i];
        i += 1;
    }
    assert(signature@ =~= block.signature@);
    let message = block.key_info.serialise();
    bls_verify(&previous.bytes, &signature, message.as_slice())
}

/// Whether `key` is one of `keys`.
fn trusts(keys: &[BlsPublicKey], key: &BlsPublicKey) -> (found: bool)
    ensures
        found == bls_key_set(keys@).contains(key@),
{
    let mut i: usize = 0;
    while i < keys.len()
        invariant
            i <= keys@.len(),
            forall|k: int| 0 <= k < i ==> (#[trigger] keys@[k])@ != key@,
        decreases keys@.len() - i,
    {
        if same_bytes(keys[i].bytes.as_slice(), key.bytes.as_slice()) {
            assert(keys@[i as int]@ == key@);
            return true;
        }
        i += 1;
    }
    false
}

impl SectionProofChain {
    /// The first key.
    pub closed spec fn spec_genesis(&self) -> SectionKeyInfo {
        self.genesis
    }

    /// The blocks after the first key.
    pub closed spec fn spec_blocks(&self) -> Seq<SectionProofBlock> {
        self.blocks@
    }

    /// The number of the last key, the first being key 0.
    pub open spec fn last_index(&self) -> int {
        self.spec_blocks().len() as int
    }

    /// Key number `i` of the chain.
    pub open spec fn key_at(&self, i: int) -> Seq<u8> {
        if i <= 0 {
            self.spec_genesis().key@
        } else {
            self.spec_blocks()[i - 1].key_info.key@
        }
    }

    /// Whether key `i`, which is not the first, is signed by the key before.
    pub open spec fn link_ok(&self, i: int) -> bool {
        link_valid(self.key_at(i - 1), self.spec_blocks()[i - 1])
    }

    /// Whether every key after key `i` is signed by the key before it.
    pub open spec fn links_ok_after(&self, i: int) -> bool {
        forall|j: int| i < j <= self.last_index() ==> #[trigger] self.link_ok(j)
    }

    /// Whether the whole chain is signed as it should be.
    pub open spec fn valid(&self) -> bool {
        self.links_ok_after(0)
    }

    /// Whether key `i` is a key of the chain that is trusted.
    pub open spec fn trusted_at(&self, trusted: Set<Seq<u8>>, i: int) -> bool {
        0 <= i <= self.last_index() && trusted.contains(self.key_at(i))
    }

    /// Whether some key of the chain is trusted.
    pub open spec fn knows_any(&self, trusted: Set<Seq<u8>>) -> bool {
        exists|i: int| #[trigger] self.trusted_at(trusted, i)
    }

    /// Whether some trusted key of the chain vouches for all that follows.
    pub open spec fn trusted_by(&self, trusted: Set<Seq<u8>>) -> bool {
        exists|i: int| #[trigger] self.trusted_at(trusted, i) && self.links_ok_after(i)
    }

    /// The chain of a section that has had one key only.
    pub fn new(genesis: SectionKeyInfo) -> (chain: SectionProofChain)
        ensures
            chain.spec_genesis() == genesis,
            chain.spec_blocks().len() == 0,
            chain.valid(),
    {
        SectionProofChain { genesis, blocks: Vec::new() }
    }

    /// A chain as it was received: nothing is known of its signatures.
    pub fn from_parts(genesis: SectionKeyInfo, blocks: Vec<SectionProofBlock>) -> (chain: SectionProofChain)
        ensures
            chain.spec_genesis() == genesis,
            chain.spec_blocks() == blocks@,
    {
        SectionProofChain { genesis, blocks }
    }

    /// The number of keys.
    pub fn len(&self) -> (len: usize)
        requires
            self.spec_blocks().len() < usize::MAX,
        ensures
            len == self.last_index() + 1,
    {
        self.blocks.len() + 1
    }

    /// The blocks after the first key.
    pub fn blocks(&self) -> (blocks: &Vec<SectionProofBlock>)
        ensures
            blocks@ == self.spec_blocks(),
    {
        &self.blocks
    }

    /// The first key.
    pub fn first_key(&self) -> (key: &BlsPublicKey)
        ensures
            key@ == self.key_at(0),
    {
        &self.genesis.key
    }

    /// The current key of the section.
    pub fn last_key(&self) -> (key: &BlsPublicKey)
        ensures
            key@ == self.key_at(self.last_index()),
    {
        self.key(self.blocks.len())
    }

    /// Key number `i`.
    fn key(&self, i: usize) -> (key: &BlsPublicKey)
        requires
            i <= self.last_index(),
        ensures
            key@ == self.key_at(i as int),
    {
        if i == 0 {
            &self.genesis.key
        } else {
            &self.blocks[i - 1].key_info.key
        }
    }

    /// Appends `block` if its key info is signed by the current key, and
    /// leaves the chain as it was if it is not.
    pub fn push(&mut self, block: SectionProofBlock) -> (pushed: Result<(), RoutingError>)
        ensures
            final(self).spec_genesis() == old(self).spec_genesis(),
            link_valid(old(self).key_at(old(self).last_index()), block) ==> pushed is Ok && final(
                self
            ).spec_blocks() == old(self).spec_blocks().push(block),
            !link_valid(old(self).key_at(old(self).last_index()), block) ==> pushed == Err::<(), RoutingError>(
                RoutingError::FailedSignature,
            ) && *final(self) == *old(self),
            old(self).valid() ==> final(self).valid(),
    {
        if !link_verifies(self.last_key(), &block) {
            return Err(RoutingError::FailedSignature);
        }
        self.blocks.push(block);
        proof {
            if old(self).valid() {
                assert forall|j: int| 0 < j <= self.last_index() implies #[trigger] self.link_ok(j) by {
                    if j < self.last_index() {
                        assert(old(self).link_ok(j));
                    }
                }
            }
        }
        Ok(())
    }

    /// Whether every key is signed by the key before it.
    pub fn self_verify(&self) -> (ok: bool)
        ensures
            ok == self.valid(),
    {
        self.verify_after(0)
    }

    /// Whether every key after key `from` is signed by the key before it.
    fn verify_after(&self, from: usize) -> (ok: bool)
        requires
            from <= self.last_index(),
        ensures
            ok == self.links_ok_after(from as int),
    {
        let mut j: usize = from;
        while j < self.blocks.len()
            invariant
                from <= j <= self.blocks@.len(),
                forall|k: int| from < k <= j ==> #[trigger] self.link_ok(k),
            decreases self.blocks@.len() - j,
        {
            if !link_verifies(self.key(j), &self.blocks[j]) {
                assert(!self.link_ok(j + 1));
                return false;
            }
            j += 1;
        }
        true
    }

    /// The last key of the chain that is trusted, if any.
    fn latest_trusted(&self, trusted_keys: &[BlsPublicKey]) -> (found: Option<usize>)
        ensures
            match found {
                Some(i) => self.trusted_at(bls_key_set(trusted_keys@), i as int) && forall|k: int|
                    i < k ==> !#[trigger] self.trusted_at(bls_key_set(trusted_keys@), k),
                None => !self.knows_any(bls_key_set(trusted_keys@)),
            },
    {
        let ghost trusted = bls_key_set(trusted_keys@);
        let mut found: Option<usize> = if trusts(trusted_keys, &self.genesis.key) {
            Some(0)
        } else {
            None
        };
        let mut i: usize = 0;
        while i < self.blocks.len()
            invariant
                i <= self.blocks@.len(),
                trusted == bls_key_set(trusted_keys@),
                match found {
                    Some(at) => at <= i && self.trusted_at(trusted, at as int) && forall|k: int|
                        at < k <= i ==> !#[trigger] self.trusted_at(trusted, k),
                    None => forall|k: int| k <= i ==> !#[trigger] self.trusted_at(trusted, k),
                },
            decreases self.blocks@.len() - i,
        {
            if trusts(trusted_keys, &self.blocks[i].key_info.key) {
                found = Some(i + 1);
            }
            i += 1;
        }
        found
    }

    /// What the chain is worth to one who trusts `trusted_keys`.
    pub fn check_trust(&self, trusted_keys: &[BlsPublicKey]) -> (status: TrustStatus)
        ensures
            status == TrustStatus::Trusted <==> self.trusted_by(bls_key_set(trusted_keys@)),
            status == TrustStatus::Unknown <==> !self.knows_any(bls_key_set(trusted_keys@)),
    {
        let ghost trusted = bls_key_set(trusted_keys@);
        match self.latest_trusted(trusted_keys) {
            None => {
                assert(!self.trusted_by(trusted)) by {
                    if self.trusted_by(trusted) {
                        let i = choose|i: int| #[trigger] self.trusted_at(trusted, i) && self.links_ok_after(i);
                        assert(self.knows_any(trusted));
                    }
                }
                TrustStatus::Unknown
            },
            Some(at) => {
                assert(self.knows_any(trusted));
                if self.verify_after(at) {
                    TrustStatus::Trusted
                } else {
                    assert(!self.trusted_by(trusted)) by {
                        if self.trusted_by(trusted) {
                            let i = choose|i: int| #[trigger]
                                self.trusted_at(trusted, i) && self.links_ok_after(i);
                            assert(i <= at);
                            assert(self.links_ok_after(at as int));
                        }
                    }
                    TrustStatus::Invalid
                }
            },
        }
    }

    /// Accepts the chain if a trusted key vouches for it, and refuses it as
    /// untrusted otherwise, be it unknown or invalid.
    pub fn verify_trust(&self, trusted_keys: &[BlsPublicKey]) -> (checked: Result<(), RoutingError>)
        ensures
            self.trusted_by(bls_key_set(trusted_keys@)) ==> checked is Ok,
            !self.trusted_by(bls_key_set(trusted_keys@)) ==> checked == Err::<(), RoutingError>(
                RoutingError::Untrusted,
            ),
    {
        match self.check_trust(trusted_keys) {
            TrustStatus::Trusted => Ok(()),
            _ => Err(RoutingError::Untrusted),
        }
    }
}

/// Appending succeeds exactly when the new block is signed by the current
/// key: `after` is what `push` makes of `before`, given `block`.
pub proof fn lemma_push_iff_signed(before: SectionProofChain, block: SectionProofBlock, after: SectionProofChain)
    requires
        after.spec_genesis() == before.spec_genesis(),
        link_valid(before.key_at(before.last_index()), block) ==> after.spec_blocks()
            == before.spec_blocks().push(block),
        !link_valid(before.key_at(before.last_index()), block) ==> after == before,
    ensures
        after.last_index() == before.last_index() + 1 <==> link_valid(
            before.key_at(before.last_index()),
            block,
        ),
        after.last_index() != before.last_index() + 1 ==> after == before,
        forall|i: int| 0 <= i <= before.last_index() ==> after.key_at(i) == before.key_at(i),
{
}

} // verus!
