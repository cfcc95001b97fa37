//! Blocks: a payload and the proofs of the peers that voted for it.
//!
//! A block is the network's consensus over its payload. Whether it carries a
//! quorum is the caller's question: prune the block to the keys that count and
//! ask how many proofs are left.

use crate::crypto::Digest256;
use crate::error::RoutingError;
use crate::id::{PeerId, PublicKey};
use crate::vote::{Proof, ProofView, Vote};
use vstd::prelude::*;

verus! {

/// A payload with the proofs gathered for it.
#[derive(Debug)]
pub struct Block {
    payload: Digest256,
    proofs: Vec<Proof>,
}

/// A block as a mathematical value: the proofs form a set.
pub struct BlockView {
    pub payload: Seq<u8>,
    pub proofs: Set<ProofView>,
}

/// The keys listed in `keys`, as a set.
pub open spec fn key_set(keys: Seq<PublicKey>) -> Set<Seq<u8>> {
    Set::new(|key: Seq<u8>| exists|i: int| 0 <= i < keys.len() && #[trigger] keys[i]@ == key)
}

/// The sum of the ages of the given proofs.
pub open spec fn total_age(proofs: Seq<ProofView>) -> nat
    decreases proofs.len(),
{
    if proofs.len() == 0 {
        0
    } else {
        total_age(proofs.drop_last()) + proofs.last().age as nat
    }
}

/// Every proof covers `payload`.
pub open spec fn all_validate(proofs: Seq<ProofView>, payload: Seq<u8>) -> bool {
    forall|i: int| 0 <= i < proofs.len() ==> (#[trigger] proofs[i]).validates(payload)
}

/// No two proofs are of one key.
pub open spec fn distinct_keys(proofs: Seq<ProofView>) -> bool {
    forall|i: int, j: int|
        0 <= i < j < proofs.len() ==> (#[trigger] proofs[i]).key != (#[trigger] proofs[j]).key
}

/// Whether some proof in `proofs` is of `key`.
pub open spec fn has_key(proofs: Seq<ProofView>, key: Seq<u8>) -> bool {
    exists|i: int| 0 <= i < proofs.len() && (#[trigger] proofs[i]).key == key
}

/// With distinct keys no proof occurs twice, so the set of the proofs has as
/// many elements as the sequence.
pub proof fn lemma_distinct_keys_len(proofs: Seq<ProofView>)
    requires
        distinct_keys(proofs),
    ensures
        proofs.no_duplicates(),
        proofs.to_set().finite(),
        proofs.to_set().len() == proofs.len(),
{
    assert forall|i: int, j: int| 0 <= i < proofs.len() && 0 <= j < proofs.len() && i != j implies proofs[i]
        != proofs[j] by {
        if i < j {
            assert(proofs[i].key != proofs[j].key);
        } else {
            assert(proofs[j].key != proofs[i].key);
        }
    }
    proofs.unique_seq_to_set();
}

/// Whether `key` is one of `keys`.
fn listed(keys: &[PublicKey], key: &PublicKey) -> (found: bool)
    ensures
        found == key_set(keys@).contains(key@),
{
    let mut i: usize = 0;
    while i < keys.len()
        invariant
            i <= keys@.len(),
            forall|k: int| 0 <= k < i ==> (#[trigger] keys@[k])@ != key@,
        decreases keys@.len() - i,
    {
        if keys[i].same_as(key) {
            return true;
        }
        i += 1;
    }
    false
}

/// The views of the proofs in storage order.
pub open spec fn proof_views(proofs: Seq<Proof>) -> Seq<ProofView> {
    proofs.map_values(|p: Proof| p@)
}

/// Whether `p` is one of the first `n` proofs of `views` and is kept.
spec fn kept_from(views: Seq<ProofView>, n: int, keep: spec_fn(ProofView) -> bool, p: ProofView) -> bool {
    exists|k: int| 0 <= k < n && #[trigger] views[k] == p && keep(p)
}

/// Keeps the proofs whose key is listed in `keys` (`keep_listed`), or those
/// whose key is not (`!keep_listed`).
fn retain(proofs: &Vec<Proof>, keys: &[PublicKey], keep_listed: bool) -> (kept: Vec<Proof>)
    requires
        distinct_keys(proof_views(proofs@)),
    ensures
        distinct_keys(proof_views(kept@)),
        proof_views(kept@).to_set() == proof_views(proofs@).to_set().filter(
            |p: ProofView| key_set(keys@).contains(p.key) == keep_listed,
        ),
        forall|i: int|
            0 <= i < kept@.len() ==> proof_views(proofs@).contains(#[trigger] proof_views(kept@)[i]),
{
    let ghost views = proof_views(proofs@);
    let ghost keep = |p: ProofView| key_set(keys@).contains(p.key) == keep_listed;
    let mut kept: Vec<Proof> = Vec::new();
    let mut i: usize = 0;
    while i < proofs.len()
        invariant
            i <= proofs@.len(),
            views == proof_views(proofs@),
            keep == (|p: ProofView| key_set(keys@).contains(p.key) == keep_listed),
            distinct_keys(views),
            distinct_keys(proof_views(kept@)),
            forall|a: int|
                0 <= a < kept@.len() ==> kept_from(views, i as int, keep, #[trigger] proof_views(kept@)[a]),
            forall|k: int|
                0 <= k < i && keep(#[trigger] views[k]) ==> proof_views(kept@).contains(views[k]),
        decreases proofs@.len() - i,
    {
        let ghost before = proof_views(kept@);
        let proof_i = proofs[i];
        if listed(keys, proof_i.key()) == keep_listed {
            kept.push(proof_i);
            proof {
                let after = proof_views(kept@);
                assert(after =~= before.push(views[i as int]));
                assert forall|a: int, b: int| 0 <= a < b < after.len() implies (#[trigger] after[a]).key != (
                #[trigger] after[b]).key by {
                    if b == after.len() - 1 {
                        assert(kept_from(views, i as int, keep, before[a]));
                        let k = choose|k: int| 0 <= k < i && #[trigger] views[k] == before[a] && keep(before[a]);
                        assert(views[k].key != views[i as int].key);
                    } else {
                        assert(before[a].key != before[b].key);
                    }
                }
                assert forall|a: int| 0 <= a < after.len() implies kept_from(
                    views,
                    i + 1,
                    keep,
                    #[trigger] after[a],
                ) by {
                    if a == after.len() - 1 {
                        assert(views[i as int] == after[a] && keep(after[a]));
                    } else {
                        assert(kept_from(views, i as int, keep, before[a]));
                        let k = choose|k: int| 0 <= k < i && #[trigger] views[k] == before[a] && keep(before[a]);
                        assert(views[k] == after[a] && keep(after[a]));
                    }
                }
                assert forall|k: int| 0 <= k < i + 1 && keep(#[trigger] views[k]) implies after.contains(
                    views[k],
                ) by {
                    if k == i {
                        assert(after[after.len() - 1] == views[k]);
                    } else {
                        assert(before.contains(views[k]));
                        let a = choose|a: int| 0 <= a < before.len() && before[a] == views[k];
                        assert(after[a] == views[k]);
                    }
                }
            }
        }
        i += 1;
    }
    proof {
        let out = proof_views(kept@);
        assert forall|p: ProofView| out.to_set().contains(p) <==> views.to_set().filter(keep).contains(
            p,
        ) by {
            if out.to_set().contains(p) {
                let a = choose|a: int| 0 <= a < out.len() && out[a] == p;
                assert(kept_from(views, i as int, keep, out[a]));
                let k = choose|k: int| 0 <= k < i && #[trigger] views[k] == out[a] && keep(out[a]);
                assert(views.contains(p));
            }
            if views.to_set().filter(keep).contains(p) {
                let k = choose|k: int| 0 <= k < views.len() && views[k] == p;
                assert(keep(views[k]));
                assert(out.contains(views[k]));
            }
        }
        assert(out.to_set() =~= views.to_set().filter(keep));
        assert forall|a: int| 0 <= a < kept@.len() implies views.contains(#[trigger] out[a]) by {
            assert(kept_from(views, i as int, keep, out[a]));
            let k = choose|k: int| 0 <= k < i && #[trigger] views[k] == out[a] && keep(out[a]);
        }
    }
    kept
}

impl View for Block {
    type V = BlockView;

    open spec fn view(&self) -> BlockView {
        BlockView { payload: self.spec_payload(), proofs: self.spec_proofs().to_set() }
    }
}

impl Block {
    /// The payload, as bytes.
    pub closed spec fn spec_payload(&self) -> Seq<u8> {
        self.payload@
    }

    /// The proofs in the order in which they are held.
    pub closed spec fn spec_proofs(&self) -> Seq<ProofView> {
        proof_views(self.proofs@)
    }

    /// What holds of every block: each proof covers the payload, and no two
    /// proofs are of one key.
    pub open spec fn wf(&self) -> bool {
        &&& all_validate(self.spec_proofs(), self.spec_payload())
        &&& distinct_keys(self.spec_proofs())
    }

    #[verifier::type_invariant]
    spec fn well_formed(self) -> bool {
        self.wf()
    }

    /// A block over the payload of `vote`, seeded with the proof that the peer
    /// with `pub_key` and `age` cast it. Fails if the vote is not that peer's.
    pub fn new(vote: &Vote<Digest256>, pub_key: &PublicKey, age: u8) -> (made: Result<Block, RoutingError>)
        ensures
            vote.valid_under(pub_key@) ==> (made matches Ok(block) && block.wf() && block.spec_payload()
                == vote.spec_payload()@ && block.spec_proofs() == seq![
                (ProofView { key: pub_key@, age, sig: vote.spec_signature() }),
            ]),
            !vote.valid_under(pub_key@) ==> (made matches Err(e) && e == RoutingError::FailedSignature),
    {
        let peer_id = PeerId::new(age, *pub_key);
        if !vote.validate_signature(&peer_id) {
            return Err(RoutingError::FailedSignature);
        }
        match Proof::new(pub_key, age, vote) {
            Ok(proof) => {
                let mut proofs: Vec<Proof> = Vec::new();
                proofs.push(proof);
                let block = Block { payload: *vote.payload(), proofs };
                proof {
                    assert(block.spec_proofs() =~= seq![proof@]);
                }
                Ok(block)
            },
            Err(e) => Err(e),
        }
    }

    /// A block of the given parts, as a node receives it from another. It is
    /// refused unless every proof covers the payload and no two proofs are of
    /// one key.
    pub fn from_parts(payload: Digest256, proofs: Vec<Proof>) -> (made: Result<Block, RoutingError>)
        ensures
            all_validate(proof_views(proofs@), payload@) && distinct_keys(proof_views(proofs@)) ==> (made matches Ok(
                block,
            ) && block.wf() && block.spec_payload() == payload@ && block.spec_proofs() == proof_views(
                proofs@,
            )),
            !(all_validate(proof_views(proofs@), payload@) && distinct_keys(proof_views(proofs@))) ==> (
            made matches Err(e) && e == RoutingError::FailedSignature),
    {
        let ghost views = proof_views(proofs@);
        let mut block = Block { payload, proofs: Vec::new() };
        let mut i: usize = 0;
        while i < proofs.len()
            invariant
                i <= proofs@.len(),
                views == proof_views(proofs@),
                block.wf(),
                block.spec_payload() == payload@,
                block.spec_proofs() == views.subrange(0, i as int),
            decreases proofs@.len() - i,
        {
            let ghost held = block.spec_proofs();
            match block.add_proof(proofs[i]) {
                Ok(()) => {
                    assert(block.spec_proofs() =~= views.subrange(0, i + 1));
                },
                Err(e) => {
                    proof {
                        if views[i as int].validates(payload@) {
                            let k = choose|k: int| 0 <= k < held.len() && (#[trigger] held[k]).key == views[i as int].key;
                            assert(views[k].key == views[i as int].key);
                        }
                    }
                    return Err(e);
                },
            }
            i += 1;
        }
        assert(views.subrange(0, i as int) =~= views);
        Ok(block)
    }

    /// Adds `proof`. It is refused, and the block left as it was, if its
    /// signature does not cover the payload or if a proof of its key is held.
    pub fn add_proof(&mut self, proof: Proof) -> (added: Result<(), RoutingError>)
        ensures
            final(self).wf(),
            final(self).spec_payload() == old(self).spec_payload(),
            proof@.validates(old(self).spec_payload()) && !has_key(old(self).spec_proofs(), proof@.key) ==> added
                is Ok && final(self).spec_proofs() == old(self).spec_proofs().push(proof@) && final(self)@.proofs
                == old(self)@.proofs.insert(proof@),
            !(proof@.validates(old(self).spec_payload()) && !has_key(old(self).spec_proofs(), proof@.key))
                ==> added == Err::<(), RoutingError>(RoutingError::FailedSignature) && *final(self) == *old(self),
    {
        proof {
            use_type_invariant(&*self);
        }
        if !proof.validate_signature(&self.payload) {
            return Err(RoutingError::FailedSignature);
        }
        let mut proofs: Vec<Proof> = Vec::new();
        let mut i: usize = 0;
        while i < self.proofs.len()
            invariant
                i <= self.proofs@.len(),
                *self == *old(self),
                old(self).wf(),
                proof@.validates(old(self).spec_payload()),
                proofs@ == self.proofs@.subrange(0, i as int),
                forall|k: int| 0 <= k < i ==> (#[trigger] self.spec_proofs()[k]).key != proof@.key,
            decreases self.proofs@.len() - i,
        {
            if self.proofs[i].key().same_as(proof.key()) {
                assert(self.spec_proofs()[i as int].key == proof@.key);
                return Err(RoutingError::FailedSignature);
            }
            proofs.push(self.proofs[i]);
            assert(proofs@ =~= self.proofs@.subrange(0, i + 1));
            i += 1;
        }
        proofs.push(proof);
        assert(proofs@ =~= old(self).proofs@.push(proof));
        assert(proof_views(proofs@) =~= old(self).spec_proofs().push(proof@));
        self.proofs = proofs;
        proof {
            assert(self.spec_proofs() =~= old(self).spec_proofs().push(proof@));
            assert(self.spec_proofs().to_set() =~= old(self).spec_proofs().to_set().insert(proof@)) by {
                let s = old(self).spec_proofs();
                let t = self.spec_proofs();
                assert forall|p: ProofView| t.to_set().contains(p) <==> s.to_set().insert(proof@).contains(
                    p,
                ) by {
                    if t.to_set().contains(p) {
                        let a = choose|a: int| 0 <= a < t.len() && t[a] == p;
                        if a < s.len() {
                            assert(s[a] == p);
                        }
                    }
                    if s.to_set().insert(proof@).contains(p) {
                        if p == proof@ {
                            assert(t[t.len() - 1] == p);
                        } else {
                            let a = choose|a: int| 0 <= a < s.len() && s[a] == p;
                            assert(t[a] == p);
                        }
                    }
                }
            }
        }
        Ok(())
    }

    /// Drops the proof of `pub_key`, if one is held.
    pub fn remove_proof(&mut self, pub_key: &PublicKey)
        ensures
            final(self).wf(),
            final(self).spec_payload() == old(self).spec_payload(),
            final(self)@.proofs == old(self)@.proofs.filter(|p: ProofView| p.key != pub_key@),
    {
        proof {
            use_type_invariant(&*self);
        }
        let keys = [*pub_key];
        let kept = retain(&self.proofs, keys.as_slice(), false);
        proof {
            assert(keys@[0]@ == pub_key@);
            assert(key_set(keys@) =~= set![pub_key@]);
            let views = proof_views(self.proofs@);
            assert(views.to_set().filter(|p: ProofView| key_set(keys@).contains(p.key) == false)
                =~= views.to_set().filter(|p: ProofView| p.key != pub_key@));
            assert forall|i: int| 0 <= i < kept@.len() implies (#[trigger] proof_views(kept@)[i]).validates(
                self.spec_payload(),
            ) by {
                let p = proof_views(kept@)[i];
                assert(views.contains(p));
                let k = choose|k: int| 0 <= k < views.len() && views[k] == p;
                assert(views[k].validates(self.spec_payload()));
            }
        }
        self.proofs = kept;
    }

    /// Keeps the proofs of the given keys and drops all others.
    pub fn prune_proofs_except(&mut self, keys: &[PublicKey])
        ensures
            final(self).wf(),
            final(self).spec_payload() == old(self).spec_payload(),
            final(self)@.proofs == old(self)@.proofs.filter(|p: ProofView| key_set(keys@).contains(p.key)),
    {
        proof {
            use_type_invariant(&*self);
        }
        let kept = retain(&self.proofs, keys, true);
        proof {
            let views = proof_views(self.proofs@);
            assert(views.to_set().filter(|p: ProofView| key_set(keys@).contains(p.key) == true)
                =~= views.to_set().filter(|p: ProofView| key_set(keys@).contains(p.key)));
            assert forall|i: int| 0 <= i < kept@.len() implies (#[trigger] proof_views(kept@)[i]).validates(
                self.spec_payload(),
            ) by {
                let p = proof_views(kept@)[i];
                assert(views.contains(p));
                let k = choose|k: int| 0 <= k < views.len() && views[k] == p;
                assert(views[k].validates(self.spec_payload()));
            }
        }
        self.proofs = kept;
    }

    /// The number of proofs.
    pub fn total_proofs(&self) -> (total: usize)
        ensures
            self.wf(),
            total == self@.proofs.len(),
            total == self.spec_proofs().len(),
    {
        proof {
            use_type_invariant(self);
            lemma_distinct_keys_len(self.spec_proofs());
        }
        self.proofs.len()
    }

    /// The sum of the ages of the peers whose proofs are held.
    pub fn total_proofs_age(&self) -> (total: usize)
        requires
            total_age(self.spec_proofs()) <= usize::MAX,
        ensures
            total == total_age(self.spec_proofs()),
    {
        let mut total: usize = 0;
        let mut i: usize = 0;
        let ghost views = self.spec_proofs();
        while i < self.proofs.len()
            invariant
                i <= self.proofs@.len(),
                views == self.spec_proofs(),
                views.len() == self.proofs@.len(),
                total == total_age(views.subrange(0, i as int)),
                total_age(views) <= usize::MAX,
            decreases self.proofs@.len() - i,
        {
            proof {
                assert(views.subrange(0, i + 1).drop_last() =~= views.subrange(0, i as int));
                lemma_total_age_prefix(views, i + 1);
            }
            total = total + self.proofs[i].age() as usize;
            i += 1;
        }
        proof {
            assert(views.subrange(0, views.len() as int) =~= views);
        }
        total
    }

    /// The proofs held. No two are of one key, and each covers the payload.
    pub fn proofs(&self) -> (proofs: &Vec<Proof>)
        ensures
            proof_views(proofs@) == self.spec_proofs(),
            all_validate(proof_views(proofs@), self.spec_payload()),
            distinct_keys(proof_views(proofs@)),
    {
        proof {
            use_type_invariant(self);
        }
        &self.proofs
    }

    /// The payload.
    pub fn payload(&self) -> (payload: &Digest256)
        ensures
            payload@ == self.spec_payload(),
    {
        &self.payload
    }
}

impl Clone for Block {
    /// A block with the same payload and the same proofs.
    fn clone(&self) -> (copy: Block)
        ensures
            copy.spec_payload() == self.spec_payload(),
            copy.spec_proofs() == self.spec_proofs(),
    {
        proof {
            use_type_invariant(self);
        }
        let mut proofs: Vec<Proof> = Vec::new();
        let mut i: usize = 0;
        while i < self.proofs.len()
            invariant
                i <= self.proofs@.len(),
                proofs@ == self.proofs@.subrange(0, i as int),
            decreases self.proofs@.len() - i,
        {
            proofs.push(self.proofs[i]);
            assert(proofs@ =~= self.proofs@.subrange(0, i + 1));
            i += 1;
        }
        assert(proofs@ =~= self.proofs@);
        Block { payload: self.payload, proofs }
    }
}

/// Every proof of a block covers the block's payload.
pub proof fn lemma_proofs_validate(block: Block, p: ProofView)
    requires
        block.wf(),
        block@.proofs.contains(p),
    ensures
        p.validates(block@.payload),
{
    let s = block.spec_proofs();
    let i = choose|i: int| 0 <= i < s.len() && s[i] == p;
    assert(s[i].validates(block.spec_payload()));
}

/// Two proofs of a block that are of one key are one proof.
pub proof fn lemma_keys_distinct(block: Block, p: ProofView, q: ProofView)
    requires
        block.wf(),
        block@.proofs.contains(p),
        block@.proofs.contains(q),
        p.key == q.key,
    ensures
        p == q,
{
    let s = block.spec_proofs();
    let i = choose|i: int| 0 <= i < s.len() && s[i] == p;
    let j = choose|j: int| 0 <= j < s.len() && s[j] == q;
    if i < j {
        assert(s[i].key != s[j].key);
    } else if j < i {
        assert(s[j].key != s[i].key);
    }
}

/// Removing the proof of a key and adding that proof again gives the block
/// back: `removed` is what `remove_proof` leaves of `block` for the key of
/// `p`, a proof of `block`. Then `add_proof` accepts `p`, and the set that it
/// makes is the set of `block`.
pub proof fn lemma_remove_then_add_restores(block: Block, removed: Block, p: ProofView)
    requires
        block.wf(),
        removed.wf(),
        block@.proofs.contains(p),
        removed.spec_payload() == block.spec_payload(),
        removed@.proofs == block@.proofs.filter(|q: ProofView| q.key != p.key),
    ensures
        p.validates(removed.spec_payload()),
        !has_key(removed.spec_proofs(), p.key),
        removed@.proofs.insert(p) == block@.proofs,
{
    lemma_proofs_validate(block, p);
    if has_key(removed.spec_proofs(), p.key) {
        let s = removed.spec_proofs();
        let i = choose|i: int| 0 <= i < s.len() && (#[trigger] s[i]).key == p.key;
        assert(removed@.proofs.contains(s[i]));
        assert(false);
    }
    assert forall|q: ProofView| removed@.proofs.insert(p).contains(q) <==> block@.proofs.contains(q) by {
        if block@.proofs.contains(q) && q != p {
            if q.key == p.key {
                lemma_keys_distinct(block, p, q);
            }
        }
    }
    assert(removed@.proofs.insert(p) =~= block@.proofs);
}

/// The ages of a prefix sum to no more than the ages of the whole.
pub proof fn lemma_total_age_prefix(proofs: Seq<ProofView>, n: int)
    requires
        0 <= n <= proofs.len(),
    ensures
        total_age(proofs.subrange(0, n)) <= total_age(proofs),
    decreases proofs.len() - n,
{
    if n < proofs.len() {
        lemma_total_age_prefix(proofs, n + 1);
        assert(proofs.subrange(0, n + 1).drop_last() =~= proofs.subrange(0, n));
    } else {
        assert(proofs.subrange(0, n) =~= proofs);
    }
}

} // verus!
