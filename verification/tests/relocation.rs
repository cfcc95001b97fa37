use routing::consensus::{BlsPublicKey, BlsSignature, Proven, SectionProof};
use routing::error::RoutingError;
use routing::id::{FullId, PublicId, SecretKey};
use routing::messages::{Message, Variant};
use routing::name::{xor, XorName};
use routing::relocation::{
    check, compute_destination, partial_signature, select, RelocateDetails, RelocatePayload, SignedRelocateDetails,
};
use routing::section::{MemberInfo, MemberState};
use sha3::{Digest, Sha3_256};

fn signature(bytes: &[u8]) -> BlsSignature {
    BlsSignature { bytes: bytes.to_vec() }
}

fn long_signature(head: [u8; 8]) -> BlsSignature {
    let mut bytes = vec![0xab; 96];
    bytes[..8].copy_from_slice(&head);
    BlsSignature { bytes }
}

fn candidate(seed: u8, age: u8, sig: &[u8]) -> Proven<MemberInfo> {
    Proven {
        value: MemberInfo {
            peer: PublicId::new(SecretKey::new([seed; 32]).public_key()),
            state: MemberState::Joined,
            age,
            age_counter: 0,
        },
        section_proof: SectionProof {
            public_key: BlsPublicKey { bytes: [1; 48] },
            signature: signature(sig),
            payload_hash: Sha3_256::digest([seed, age]).into(),
        },
    }
}

fn details(old: &FullId) -> RelocateDetails {
    RelocateDetails {
        pub_id: *old.public_id(),
        destination: XorName([3; 32]),
        destination_key: BlsPublicKey { bytes: [4; 48] },
        age: 6,
    }
}

#[test]
fn check_on_crafted_signature() {
    let sig = long_signature([0x08, 0, 0, 0, 0, 0, 0, 0]);
    for age in 0..=3 {
        assert!(check(age, &sig));
    }
    for age in 4..=255 {
        assert!(!check(age, &sig));
    }
}

#[test]
fn check_reads_eight_bytes_least_significant_first() {
    let sig = long_signature([0, 0, 0, 0, 0, 0, 0, 0x80]);
    assert_eq!(partial_signature(&sig), 0x8000_0000_0000_0000);
    assert!(check(63, &sig));
    assert!(!check(64, &sig));
    let sig = long_signature([0x01, 0x02, 0x03, 0x04, 0x05, 0x06, 0x07, 0x08]);
    assert_eq!(partial_signature(&sig), 0x0807_0605_0403_0201);
    assert!(check(0, &sig));
    assert!(!check(1, &sig));
    let sig = long_signature([0xff; 8]);
    assert_eq!(partial_signature(&sig), u64::MAX);
    assert!(check(0, &sig));
    assert!(!check(64, &sig));
    assert!(!check(255, &sig));
}

#[test]
fn check_on_short_signature() {
    // A signature of four bytes is padded with zeros.
    let sig = signature(&[0, 0, 0, 0x10]);
    assert_eq!(partial_signature(&sig), 0x1000_0000);
    assert!(check(28, &sig));
    assert!(!check(29, &sig));
    assert_eq!(partial_signature(&signature(&[])), 0);
    assert_eq!(partial_signature(&signature(&[5])), 5);
}

#[test]
fn zero_is_relocated_at_every_age() {
    let sig = long_signature([0; 8]);
    for age in [0u8, 1, 7, 63, 64, 65, 200, 255] {
        assert!(check(age, &sig));
    }
}

#[test]
fn check_is_the_same_each_time() {
    let sig = long_signature([0x40, 0, 0, 0, 0, 0, 0, 0]);
    for age in 0..=255u8 {
        assert_eq!(check(age, &sig), check(age, &sig.clone()));
        assert_eq!(check(age, &sig), age <= 6);
    }
}

#[test]
fn half_of_all_signatures_pass_for_each_year_less() {
    // Of the 256 values of the lowest byte, 256 / 2^age are multiples of 2^age.
    for age in 0..=8u8 {
        let passes = (0..=255u8).filter(|low| check(age, &long_signature([*low, 0, 0, 0, 0, 0, 0, 0]))).count();
        assert_eq!(passes, 256 >> age);
    }
}

#[test]
fn select_prefers_the_older() {
    let a = candidate(1, 10, &[1; 96]);
    let b = candidate(2, 9, &[2; 96]);
    assert_eq!(select(&a, &b), &a);
    assert_eq!(select(&b, &a), &a);
}

#[test]
fn select_breaks_ties_by_signature() {
    let a = candidate(1, 10, &[1; 96]);
    let mut greater = [1u8; 96];
    greater[95] = 2;
    let b = candidate(2, 10, &greater);
    assert_eq!(select(&a, &b), &b);
    assert_eq!(select(&b, &a), &b);
    // A signature that another one starts with comes before it.
    let short = candidate(3, 10, &[1; 4]);
    assert_eq!(select(&a, &short), &a);
    assert_eq!(select(&short, &a), &a);
    // The first byte that differs decides.
    let c = candidate(4, 10, &[2, 0, 0]);
    let d = candidate(5, 10, &[1, 255, 255]);
    assert_eq!(select(&c, &d), &c);
    assert_eq!(select(&d, &c), &c);
}

#[test]
fn select_of_equals_gives_the_second() {
    let a = candidate(1, 10, &[1; 96]);
    let b = candidate(2, 10, &[1; 96]);
    assert_eq!(select(&a, &b), &b);
    assert_eq!(select(&b, &a), &a);
}

#[test]
fn destination_is_digest_of_xor() {
    let m = XorName([0x0f; 32]);
    let mut c = XorName([0xf0; 32]);
    c.0[31] = 0x0f;
    let mut combined = [0xffu8; 32];
    combined[31] = 0;
    assert_eq!(xor(&m, &c), XorName(combined));
    let expected: [u8; 32] = Sha3_256::digest(combined).into();
    assert_eq!(compute_destination(&m, &c), XorName(expected));
    assert_eq!(compute_destination(&c, &m), XorName(expected));
    assert_ne!(compute_destination(&m, &c), XorName(combined));
}

#[test]
fn destination_of_known_digest() {
    // The names cancel out: the digest is that of 32 zero bytes.
    let m = XorName([0x5a; 32]);
    let digest = compute_destination(&m, &m);
    assert_eq!(digest.0[..4], [0x9e, 0x62, 0x91, 0x97]);
}

#[test]
fn signed_details_need_the_relocate_variant() {
    let old = FullId::new(SecretKey::new([1; 32]));
    let (src, dst) = (XorName([1; 32]), XorName([2; 32]));
    let relocate = Message::new(src, dst, Variant::Relocate(details(&old)));
    let signed = SignedRelocateDetails::new(relocate.clone()).ok().unwrap();
    assert_eq!(signed.signed_msg(), &relocate);
    assert_eq!(signed.relocate_details(), &details(&old));
    assert_eq!(signed.destination(), &XorName([3; 32]));
    let user = Message::new(src, dst, Variant::UserMessage(vec![1, 2, 3]));
    assert_eq!(SignedRelocateDetails::new(user).err(), Some(RoutingError::InvalidMessage));
    let bootstrap = Message::new(src, dst, Variant::BootstrapRequest(*old.public_id()));
    assert_eq!(SignedRelocateDetails::new(bootstrap).err(), Some(RoutingError::InvalidMessage));
}

#[test]
fn relocate_payload_proves_the_identity() {
    let old = FullId::new(SecretKey::new([1; 32]));
    let new = FullId::new(SecretKey::new([2; 32]));
    let stranger = FullId::new(SecretKey::new([3; 32]));
    let message = Message::new(XorName([1; 32]), XorName([2; 32]), Variant::Relocate(details(&old)));
    let signed = SignedRelocateDetails::new(message).ok().unwrap();
    let payload = RelocatePayload::new(signed, new.public_id(), &old).ok().unwrap();
    assert!(payload.verify_identity(new.public_id()));
    assert!(!payload.verify_identity(stranger.public_id()));
    assert!(!payload.verify_identity(old.public_id()));
    assert_eq!(payload.relocate_details(), &details(&old));
    assert_eq!(payload.signature_of_new_id_with_old_id, old.sign(&new.public_id().serialise()));
}

#[test]
fn relocate_payload_signed_by_another_does_not_verify() {
    let old = FullId::new(SecretKey::new([1; 32]));
    let new = FullId::new(SecretKey::new([2; 32]));
    let stranger = FullId::new(SecretKey::new([3; 32]));
    let message = Message::new(XorName([1; 32]), XorName([2; 32]), Variant::Relocate(details(&old)));
    let signed = SignedRelocateDetails::new(message).ok().unwrap();
    let payload = RelocatePayload::new(signed, new.public_id(), &stranger).ok().unwrap();
    assert!(!payload.verify_identity(new.public_id()));
}

#[test]
fn public_id_is_key_then_name() {
    let id = FullId::new(SecretKey::new([1; 32]));
    let public = id.public_id();
    let name: [u8; 32] = Sha3_256::digest(public.public_key().bytes).into();
    assert_eq!(public.name(), &XorName(name));
    let bytes = public.serialise();
    assert_eq!(bytes.len(), 64);
    assert_eq!(bytes[..32], public.public_key().bytes);
    assert_eq!(bytes[32..], name);
    assert!(public.verify(b"data", &id.sign(b"data")));
    assert!(!public.verify(b"date", &id.sign(b"data")));
}
