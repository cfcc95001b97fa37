use routing::chain::{SectionKeyInfo, SectionProofBlock, SectionProofChain, TrustStatus};
use routing::consensus::{BlsPublicKey, BlsSignature};
use routing::error::RoutingError;
use routing::section::{quorum_count, section_key_share, SectionKeyShare};

fn key(secret: &threshold_crypto::SecretKey) -> BlsPublicKey {
    BlsPublicKey { bytes: secret.public_key().to_bytes() }
}

// The block for the key of `next`, signed by `previous`.
fn block(previous: &threshold_crypto::SecretKey, next: &threshold_crypto::SecretKey) -> SectionProofBlock {
    let key_info = SectionKeyInfo { key: key(next) };
    let signature = previous.sign(key_info.serialise());
    SectionProofBlock { key_info, signature: BlsSignature { bytes: signature.to_bytes().to_vec() } }
}

fn secrets(n: usize) -> Vec<threshold_crypto::SecretKey> {
    (0..n).map(|_| threshold_crypto::SecretKey::random()).collect()
}

// The chain of the given keys, each block signed by the key before.
fn chain_of(keys: &[threshold_crypto::SecretKey]) -> SectionProofChain {
    let mut chain = SectionProofChain::new(SectionKeyInfo { key: key(&keys[0]) });
    for pair in keys.windows(2) {
        assert_eq!(chain.push(block(&pair[0], &pair[1])), Ok(()));
    }
    chain
}

#[test]
fn append_signed_block() {
    let keys = secrets(3);
    let mut chain = SectionProofChain::new(SectionKeyInfo { key: key(&keys[0]) });
    assert_eq!(chain.len(), 1);
    assert_eq!(chain.last_key(), &key(&keys[0]));
    assert_eq!(chain.push(block(&keys[0], &keys[1])), Ok(()));
    assert_eq!(chain.len(), 2);
    assert_eq!(chain.last_key(), &key(&keys[1]));
    assert_eq!(chain.first_key(), &key(&keys[0]));
    assert!(chain.self_verify());
}

#[test]
fn append_with_tampered_signature_fails() {
    let keys = secrets(3);
    let mut chain = chain_of(&keys[..2]);
    let mut tampered = block(&keys[1], &keys[2]);
    tampered.signature.bytes[40] ^= 1;
    assert_eq!(chain.push(tampered), Err(RoutingError::FailedSignature));
    assert_eq!(chain.len(), 2);
    assert_eq!(chain.last_key(), &key(&keys[1]));
    assert_eq!(chain.blocks(), &vec![block(&keys[0], &keys[1])]);
}

#[test]
fn append_signed_by_an_older_key_fails() {
    let keys = secrets(3);
    let mut chain = chain_of(&keys[..2]);
    assert_eq!(chain.push(block(&keys[0], &keys[2])), Err(RoutingError::FailedSignature));
    assert_eq!(chain.len(), 2);
    assert_eq!(chain.push(block(&keys[1], &keys[2])), Ok(()));
    assert_eq!(chain.len(), 3);
}

#[test]
fn append_with_short_signature_fails() {
    let keys = secrets(2);
    let mut chain = chain_of(&keys[..1]);
    let mut short = block(&keys[0], &keys[1]);
    let _ = short.signature.bytes.pop();
    assert_eq!(chain.push(short), Err(RoutingError::FailedSignature));
    assert_eq!(chain.len(), 1);
}

#[test]
fn trust_follows_the_last_known_key() {
    let keys = secrets(4);
    let chain = chain_of(&keys);
    let stranger = threshold_crypto::SecretKey::random();
    assert_eq!(chain.check_trust(&[key(&keys[0])]), TrustStatus::Trusted);
    assert_eq!(chain.check_trust(&[key(&stranger), key(&keys[2])]), TrustStatus::Trusted);
    assert_eq!(chain.check_trust(&[key(&keys[3])]), TrustStatus::Trusted);
    assert_eq!(chain.check_trust(&[key(&stranger)]), TrustStatus::Unknown);
    assert_eq!(chain.check_trust(&[]), TrustStatus::Unknown);
}

#[test]
fn trust_of_a_received_chain() {
    let keys = secrets(4);
    let genesis = SectionKeyInfo { key: key(&keys[0]) };
    // The second block is signed by the wrong key.
    let blocks = vec![block(&keys[0], &keys[1]), block(&keys[0], &keys[2]), block(&keys[2], &keys[3])];
    let chain = SectionProofChain::from_parts(genesis, blocks);
    assert!(!chain.self_verify());
    assert_eq!(chain.check_trust(&[key(&keys[0])]), TrustStatus::Invalid);
    assert_eq!(chain.check_trust(&[key(&keys[1])]), TrustStatus::Invalid);
    // What follows the last known key is in order.
    assert_eq!(chain.check_trust(&[key(&keys[2])]), TrustStatus::Trusted);
    assert_eq!(chain.check_trust(&[key(&keys[0]), key(&keys[3])]), TrustStatus::Trusted);
    assert_eq!(chain.check_trust(&[]), TrustStatus::Unknown);
}

#[test]
fn quorum_is_more_than_two_thirds() {
    let expected = [1usize, 1, 2, 3, 3, 4, 5, 5, 6, 7];
    for (n, quorum) in expected.iter().enumerate() {
        assert_eq!(quorum_count(n), *quorum);
    }
    assert_eq!(quorum_count(usize::MAX), usize::MAX / 3 * 2 + 1);
}

#[test]
fn untrusted_chain_is_refused() {
    let keys = secrets(3);
    let chain = chain_of(&keys);
    let stranger = threshold_crypto::SecretKey::random();
    assert_eq!(chain.verify_trust(&[key(&keys[1])]), Ok(()));
    assert_eq!(chain.verify_trust(&[key(&stranger)]), Err(RoutingError::Untrusted));
    let broken = SectionProofChain::from_parts(
        SectionKeyInfo { key: key(&keys[0]) },
        vec![block(&keys[0], &keys[1]), block(&keys[0], &keys[2])],
    );
    assert_eq!(broken.verify_trust(&[key(&keys[0])]), Err(RoutingError::Untrusted));
    assert_eq!(broken.verify_trust(&[key(&keys[2])]), Ok(()));
}

#[test]
fn key_share_needs_an_elder() {
    assert_eq!(section_key_share(&None).err(), Some(RoutingError::InvalidState));
    let share = SectionKeyShare {
        public_key_set: threshold_crypto::PublicKeySet::from(threshold_crypto::poly::Poly::one().commitment()),
        index: 3,
        secret_key_share: threshold_crypto::SecretKeyShare::default(),
    };
    let held = Some(share);
    let found = section_key_share(&held).ok().unwrap();
    assert_eq!(found.index, 3);
    assert_eq!(found.public_key_set.threshold(), 0);
}
