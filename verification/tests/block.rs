use routing::block::Block;
use routing::crypto::Digest256;
use routing::error::RoutingError;
use routing::id::{PeerId, PublicKey, SecretKey, Signature};
use routing::vote::{Proof, Vote};
use sha3::{Digest, Sha3_256};

fn sha3_256(data: &[u8]) -> Digest256 {
    Sha3_256::digest(data).into()
}

fn gen_keypair(seed: u8) -> (PublicKey, SecretKey) {
    let secret = SecretKey::new([seed; 32]);
    (secret.public_key(), secret)
}

#[test]
fn create_then_remove_add_proofs() {
    let keys0 = gen_keypair(1);
    let keys1 = gen_keypair(2);
    let peer_id0 = PeerId::new(17, keys0.0);
    let peer_id1 = PeerId::new(254, keys1.0);
    let payload = sha3_256(b"1");
    let vote0 = Vote::new(&keys0.1, payload).unwrap();
    assert!(vote0.validate_signature(&peer_id0));
    let vote1 = Vote::new(&keys1.1, payload).unwrap();
    assert!(vote1.validate_signature(&peer_id1));
    let proof0 = Proof::new(&keys0.0, 3, &vote0).unwrap();
    assert!(proof0.validate_signature(&payload));
    let proof1 = Proof::new(&keys1.0, 200, &vote1).unwrap();
    assert!(proof1.validate_signature(&payload));
    let mut b0 = Block::new(&vote0, &keys0.0, 0).unwrap();
    assert!(proof0.validate_signature(b0.payload()));
    assert!(proof1.validate_signature(b0.payload()));
    assert!(b0.total_proofs() == 1);
    b0.remove_proof(&keys0.0);
    assert!(b0.total_proofs() == 0);
    assert!(b0.add_proof(proof0).is_ok());
    assert!(b0.total_proofs() == 1);
    assert!(b0.add_proof(proof1).is_ok());
    assert!(b0.total_proofs() == 2);
    b0.remove_proof(&keys1.0);
    assert!(b0.total_proofs() == 1);
}

#[test]
fn confirm_new_proof_batch() {
    let keys0 = gen_keypair(1);
    let keys1 = gen_keypair(2);
    let keys2 = gen_keypair(3);
    let payload = sha3_256(b"1");
    let vote0 = Vote::new(&keys0.1, payload).unwrap();
    let vote1 = Vote::new(&keys1.1, payload).unwrap();
    let vote2 = Vote::new(&keys2.1, payload).unwrap();
    let proof1 = Proof::new(&keys1.0, 11, &vote1).unwrap();
    let proof2 = Proof::new(&keys2.0, 250, &vote2).unwrap();
    // So 3 votes all valid will be added to block
    let mut b0 = Block::new(&vote0, &keys0.0, 99).unwrap();
    assert!(b0.add_proof(proof1).is_ok());
    assert!(b0.add_proof(proof2).is_ok());
    assert!(b0.total_proofs() == 3);
    // All added validly, so now only use 2 of these
    let my_known_nodes = vec![keys0.0, keys1.0];
    b0.prune_proofs_except(&my_known_nodes);
    assert!(b0.total_proofs() == 2);
    let kept: Vec<PublicKey> = b0.proofs().iter().map(|proof| *proof.key()).collect();
    assert!(kept.contains(&keys0.0));
    assert!(kept.contains(&keys1.0));
    assert!(!kept.contains(&keys2.0));
}

#[test]
fn received_block_is_checked() {
    let payload = sha3_256(b"1");
    let keys: Vec<(PublicKey, SecretKey)> = (1..=3).map(gen_keypair).collect();
    let votes: Vec<Vote<Digest256>> = keys.iter().map(|k| Vote::new(&k.1, payload).unwrap()).collect();
    let proofs: Vec<Proof> =
        (0..3).map(|i| Proof::from_parts(PeerId::new(i as u8, keys[i].0), *votes[i].signature())).collect();
    let block = Block::from_parts(payload, proofs.clone()).unwrap();
    assert_eq!(block.proofs(), &proofs);
    assert_eq!(*block.payload(), payload);
    assert_eq!(block.total_proofs_age(), 3);
    // One proof twice.
    let twice = vec![proofs[0], proofs[1], proofs[0]];
    assert_eq!(Block::from_parts(payload, twice).err(), Some(RoutingError::FailedSignature));
    // A proof of another payload.
    assert_eq!(Block::from_parts(sha3_256(b"2"), proofs.clone()).err(), Some(RoutingError::FailedSignature));
    // A signature under the wrong key.
    let swapped = vec![Proof::from_parts(PeerId::new(0, keys[0].0), *votes[1].signature())];
    assert_eq!(Block::from_parts(payload, swapped).err(), Some(RoutingError::FailedSignature));
    assert_eq!(Block::from_parts(payload, Vec::new()).unwrap().total_proofs(), 0);
}

#[test]
fn new_block_refuses_vote_of_another_key() {
    let keys0 = gen_keypair(1);
    let keys1 = gen_keypair(2);
    let vote0 = Vote::new(&keys0.1, sha3_256(b"1")).unwrap();
    assert_eq!(Block::new(&vote0, &keys1.0, 10).err(), Some(RoutingError::FailedSignature));
}

#[test]
fn new_block_holds_payload_and_one_proof() {
    let keys0 = gen_keypair(1);
    let payload = sha3_256(b"1");
    let vote0 = Vote::new(&keys0.1, payload).unwrap();
    let b0 = Block::new(&vote0, &keys0.0, 10).unwrap();
    assert_eq!(*b0.payload(), payload);
    assert_eq!(b0.total_proofs(), 1);
    assert_eq!(b0.total_proofs_age(), 10);
    assert_eq!(*b0.proofs()[0].key(), keys0.0);
    assert_eq!(b0.proofs()[0].age(), 10);
    assert_eq!(b0.proofs()[0].sig(), vote0.signature());
}

#[test]
fn add_proof_refuses_second_proof_of_one_key() {
    let keys0 = gen_keypair(1);
    let payload = sha3_256(b"1");
    let vote0 = Vote::new(&keys0.1, payload).unwrap();
    let mut b0 = Block::new(&vote0, &keys0.0, 10).unwrap();
    // The same key at another age is still the same key.
    let again = Proof::new(&keys0.0, 11, &vote0).unwrap();
    assert_eq!(b0.add_proof(again), Err(RoutingError::FailedSignature));
    assert_eq!(b0.total_proofs(), 1);
    assert_eq!(b0.proofs()[0].age(), 10);
}

#[test]
fn add_proof_refuses_proof_of_another_payload() {
    let keys0 = gen_keypair(1);
    let keys1 = gen_keypair(2);
    let vote0 = Vote::new(&keys0.1, sha3_256(b"1")).unwrap();
    let other = Vote::new(&keys1.1, sha3_256(b"2")).unwrap();
    let mut b0 = Block::new(&vote0, &keys0.0, 10).unwrap();
    let proof1 = Proof::new(&keys1.0, 5, &other).unwrap();
    assert_eq!(b0.add_proof(proof1), Err(RoutingError::FailedSignature));
    assert_eq!(b0.total_proofs(), 1);
}

#[test]
fn every_proof_of_a_block_validates_its_payload() {
    let payload = sha3_256(b"payload");
    let keys: Vec<(PublicKey, SecretKey)> = (1..=4).map(gen_keypair).collect();
    let votes: Vec<Vote<Digest256>> = keys.iter().map(|k| Vote::new(&k.1, payload).unwrap()).collect();
    let mut block = Block::new(&votes[0], &keys[0].0, 1).unwrap();
    for i in 1..4 {
        let proof = Proof::new(&keys[i].0, i as u8, &votes[i]).unwrap();
        assert!(block.add_proof(proof).is_ok());
    }
    for proof in block.proofs() {
        assert!(proof.validate_signature(block.payload()));
    }
    for (i, p) in block.proofs().iter().enumerate() {
        for (j, q) in block.proofs().iter().enumerate() {
            assert!(i == j || p.key() != q.key());
        }
    }
}

#[test]
fn remove_then_add_restores_the_block() {
    let payload = sha3_256(b"1");
    let keys: Vec<(PublicKey, SecretKey)> = (1..=3).map(gen_keypair).collect();
    let votes: Vec<Vote<Digest256>> = keys.iter().map(|k| Vote::new(&k.1, payload).unwrap()).collect();
    let proofs: Vec<Proof> = (0..3).map(|i| Proof::new(&keys[i].0, 10 + i as u8, &votes[i]).unwrap()).collect();
    let mut block = Block::new(&votes[0], &keys[0].0, 10).unwrap();
    assert!(block.add_proof(proofs[1]).is_ok());
    assert!(block.add_proof(proofs[2]).is_ok());
    let mut before: Vec<Proof> = block.proofs().clone();
    block.remove_proof(&keys[1].0);
    assert_eq!(block.total_proofs(), 2);
    assert!(block.proofs().iter().all(|p| *p.key() != keys[1].0));
    assert!(block.add_proof(proofs[1]).is_ok());
    let mut after: Vec<Proof> = block.proofs().clone();
    let order = |p: &Proof| p.key().bytes;
    before.sort_by_key(order);
    after.sort_by_key(order);
    assert_eq!(before, after);
    assert_eq!(*block.payload(), payload);
}

#[test]
fn remove_proof_of_absent_key_changes_nothing() {
    let keys0 = gen_keypair(1);
    let keys1 = gen_keypair(2);
    let vote0 = Vote::new(&keys0.1, sha3_256(b"1")).unwrap();
    let mut b0 = Block::new(&vote0, &keys0.0, 10).unwrap();
    b0.remove_proof(&keys1.0);
    assert_eq!(b0.total_proofs(), 1);
}

#[test]
fn prune_to_nothing_is_allowed() {
    let keys0 = gen_keypair(1);
    let vote0 = Vote::new(&keys0.1, sha3_256(b"1")).unwrap();
    let mut b0 = Block::new(&vote0, &keys0.0, 10).unwrap();
    b0.prune_proofs_except(&[]);
    assert_eq!(b0.total_proofs(), 0);
    assert_eq!(b0.total_proofs_age(), 0);
}

#[test]
fn total_proofs_age_sums_the_ages() {
    let payload = sha3_256(b"1");
    let keys: Vec<(PublicKey, SecretKey)> = (1..=3).map(gen_keypair).collect();
    let votes: Vec<Vote<Digest256>> = keys.iter().map(|k| Vote::new(&k.1, payload).unwrap()).collect();
    let mut block = Block::new(&votes[0], &keys[0].0, 255).unwrap();
    assert!(block.add_proof(Proof::new(&keys[1].0, 255, &votes[1]).unwrap()).is_ok());
    assert!(block.add_proof(Proof::new(&keys[2].0, 7, &votes[2]).unwrap()).is_ok());
    assert_eq!(block.total_proofs_age(), 517);
}

#[test]
fn signature_is_not_the_payload() {
    // A signing function that handed back its message would fail here.
    let keys0 = gen_keypair(1);
    let payload = sha3_256(b"1");
    let vote0 = Vote::new(&keys0.1, payload).unwrap();
    let sig: &Signature = vote0.signature();
    assert_ne!(sig.bytes[..32], payload[..]);
    assert_ne!(keys0.0.bytes, keys0.1.bytes);
}
