//! Relocation: who moves on a churn event, and where to.
//!
//! Each churn event carries a signature of the section. Whether a member is
//! moved depends on that signature and on the member's age alone, so that all
//! elders decide alike and nobody can choose who moves or where to.

use crate::bytes::{lemma_lex_total, lex_greater, lex_less};
use crate::consensus::{BlsPublicKey, BlsSignature, Proven};
use crate::crypto::{ed25519_signature, ed25519_verifies, sha3_256, sha3_256_digest};
use crate::error::RoutingError;
use crate::id::{FullId, PublicId, Signature};
use crate::messages::{Message, Variant};
use crate::name::{lemma_xor_symmetric, xor, xor_bytes, XorName};
use crate::section::MemberInfo;
use vstd::arithmetic::power2::{lemma2_to64, lemma2_to64_rest, lemma_pow2_strictly_increases, lemma_pow2_unfold, pow2};
use vstd::prelude::*;

verus! {

/// The number that `bytes` spell with the least significant byte first.
pub open spec fn le_value(bytes: Seq<u8>) -> nat
    decreases bytes.len(),
{
    if bytes.len() == 0 {
        0
    } else {
        bytes[0] as nat + 256 * le_value(bytes.drop_first())
    }
}

/// The part of a signature that decides on relocation: its first 8 bytes, or
/// all of it if it is shorter, read with the least significant byte first.
pub open spec fn partial(signature: Seq<u8>) -> nat {
    if signature.len() <= 8 {
        le_value(signature)
    } else {
        le_value(signature.subrange(0, 8))
    }
}

/// 256 to the power of `k`.
pub open spec fn pow256(k: nat) -> nat
    decreases k,
{
    if k == 0 {
        1
    } else {
        256 * pow256((k - 1) as nat)
    }
}

/// Extracts the first 8 bytes of the signature as a number.
pub fn partial_signature(signature: &BlsSignature) -> (value: u64)
    ensures
        value == partial(signature@),
{
    let len: usize = if signature.bytes.len() < 8 {
        signature.bytes.len()
    } else {
        8
    };
    let ghost head = signature@.subrange(0, len as int);
    let mut value: u64 = 0;
    let mut i: usize = len;
    while i > 0
        invariant
            i <= len <= 8,
            len <= signature.bytes@.len(),
            head == signature@.subrange(0, len as int),
            value == le_value(head.subrange(i as int, len as int)),
            value < pow256((len - i) as nat),
        decreases i,
    {
        proof {
            reveal_with_fuel(pow256, 9);
            assert(head.subrange(i - 1, len as int).drop_first() =~= head.subrange(i as int, len as int));
        }
        i -= 1;
        value = value * 256 + signature.bytes[i] as u64;
    }
    proof {
        assert(head.subrange(0, len as int) =~= head);
        if signature@.len() <= 8 {
            assert(head =~= signature@);
        }
    }
    value
}

/// Whether a member of the given age is relocated on a churn event with the
/// given signature: the decisive part of the signature is a multiple of two to
/// the power of the age.
pub open spec fn relocates(age: nat, signature: Seq<u8>) -> bool {
    partial(signature) % pow2(age) == 0
}

/// A signature that relocates a member of some age relocates every younger
/// one: the multiples of a power of two are multiples of every lower power.
/// So each year of age halves the signatures that relocate.
pub proof fn lemma_relocates_younger(younger: nat, older: nat, signature: Seq<u8>)
    requires
        younger <= older,
        relocates(older, signature),
    ensures
        relocates(younger, signature),
{
    let rest = (older - younger) as nat;
    vstd::arithmetic::power2::lemma_pow2_adds(younger, rest);
    vstd::arithmetic::power2::lemma_pow2_pos(younger);
    vstd::arithmetic::power2::lemma_pow2_pos(rest);
    vstd::arithmetic::div_mod::lemma_mod_mod(partial(signature) as int, pow2(younger) as int, pow2(rest) as int);
    vstd::arithmetic::div_mod::lemma_small_mod(0, pow2(younger));
}

/// Each year of age halves the signatures that relocate: of those that
/// relocate a member of some age, the ones that relocate a member one year
/// older are those whose decisive part, divided by two to the power of the
/// age, is even.
pub proof fn lemma_relocates_halves(age: nat, signature: Seq<u8>)
    ensures
        relocates(age + 1, signature) <==> relocates(age, signature) && (partial(signature) / pow2(age)) % 2
            == 0,
{
    let value = partial(signature) as int;
    let unit = pow2(age) as int;
    lemma_pow2_unfold(age + 1);
    vstd::arithmetic::power2::lemma_pow2_pos(age);
    vstd::arithmetic::div_mod::lemma_breakdown(value, unit, 2);
    vstd::arithmetic::div_mod::lemma_mod_bound(value, unit);
    assert(unit * 2 == 2 * unit);
    assert(unit * ((value / unit) % 2) == 0 <==> (value / unit) % 2 == 0) by (nonlinear_arith)
        requires
            unit > 0,
            0 <= (value / unit) % 2 < 2,
    ;
}

/// Relocation check: whether a member of the given age is to be relocated on
/// a churn event with the given signature. It is when the first 8 bytes of the
/// signature, as a number, are a multiple of two to the power of the age, so
/// that each year of age halves the chance.
pub fn check(age: u8, churn_signature: &BlsSignature) -> (relocate: bool)
    ensures
        relocate == relocates(age as nat, churn_signature@),
{
    let value = partial_signature(churn_signature);
    proof {
        lemma2_to64();
        lemma2_to64_rest();
    }
    if age >= 64 {
        proof {
            if age > 64 {
                lemma_pow2_strictly_increases(64, age as nat);
            }
            vstd::arithmetic::div_mod::lemma_small_mod(value as nat, pow2(age as nat));
        }
        return value == 0;
    }
    let mut modulus: u64 = 1;
    let mut i: u8 = 0;
    while i < age
        invariant
            i <= age < 64,
            modulus == pow2(i as nat),
            pow2(64) == 0x1_0000_0000_0000_0000,
        decreases age - i,
    {
        proof {
            lemma_pow2_unfold((i + 1) as nat);
            lemma_pow2_strictly_increases((i + 1) as nat, 64);
        }
        modulus = modulus * 2;
        i += 1;
    }
    proof {
        vstd::arithmetic::power2::lemma_pow2_pos(age as nat);
    }
    value % modulus == 0
}

/// Whether `a` is moved rather than `b`: the older one is, and of two of one
/// age the one with the greater signature.
pub open spec fn prevails(a: Proven<MemberInfo>, b: Proven<MemberInfo>) -> bool {
    a.value.age > b.value.age || (a.value.age == b.value.age && lex_less(
        b.section_proof.signature@,
        a.section_proof.signature@,
    ))
}

/// Picks the node to relocate from two candidates, both of which passed the
/// relocation check. At most one elder is relocated at a time, so as not to
/// break the section.
pub fn select<'a>(a: &'a Proven<MemberInfo>, b: &'a Proven<MemberInfo>) -> (chosen: &'a Proven<MemberInfo>)
    ensures
        prevails(*a, *b) ==> *chosen == *a,
        !prevails(*a, *b) ==> *chosen == *b,
{
    if a.value.age > b.value.age {
        return a;
    }
    if a.value.age < b.value.age {
        return b;
    }
    if lex_greater(a.section_proof.signature.bytes.as_slice(), b.section_proof.signature.bytes.as_slice()) {
        a
    } else {
        b
    }
}

/// The choice between two candidates does not depend on the order in which
/// they are named, as long as they differ in age or in signature: exactly one
/// of them prevails over the other.
pub proof fn lemma_select_symmetric(a: Proven<MemberInfo>, b: Proven<MemberInfo>)
    requires
        a.value.age != b.value.age || a.section_proof.signature@ != b.section_proof.signature@,
    ensures
        prevails(a, b) <==> !prevails(b, a),
        (if prevails(a, b) { a } else { b }) == (if prevails(b, a) { b } else { a }),
{
    lemma_lex_total(a.section_proof.signature@, b.section_proof.signature@);
}

/// Where the node named `relocating_name` moves on a churn event caused by the
/// node named `churn_name`.
pub open spec fn destination(relocating_name: Seq<u8>, churn_name: Seq<u8>) -> Seq<u8> {
    sha3_256_digest(xor_bytes(relocating_name, churn_name))
}

/// Computes the destination for the node with `relocating_name` to be
/// relocated to. `churn_name` is the name of the joined or left node that
/// triggered the relocation.
pub fn compute_destination(relocating_name: &XorName, churn_name: &XorName) -> (target: XorName)
    ensures
        target@ == destination(relocating_name@, churn_name@),
{
    let combined_name = xor(relocating_name, churn_name);
    XorName(sha3_256(combined_name.0.as_slice()))
}

/// The destination is the same whichever of the two names is named first.
pub proof fn lemma_destination_symmetric(relocating_name: Seq<u8>, churn_name: Seq<u8>)
    requires
        relocating_name.len() == churn_name.len(),
    ensures
        destination(relocating_name, churn_name) == destination(churn_name, relocating_name),
{
    lemma_xor_symmetric(relocating_name, churn_name);
}

/// Details of a relocation: which node to relocate, where to relocate it to
/// and what age it should get once relocated.
#[derive(Clone, Debug, PartialEq, Eq, Hash)]
pub struct RelocateDetails {
    /// Public id of the node to relocate.
    pub pub_id: PublicId,
    /// Relocation destination: the node will be relocated to a section whose
    /// prefix matches this name.
    pub destination: XorName,
    /// The BLS key of the destination section, by which the relocated node
    /// verifies messages.
    pub destination_key: BlsPublicKey,
    /// The age the node will have after the relocation.
    pub age: u8,
}

/// A message that is known to carry `Variant::Relocate`.
#[derive(PartialEq, Eq, Hash)]
pub struct SignedRelocateDetails {
    signed_msg: Message,
}

impl SignedRelocateDetails {
    #[verifier::type_invariant]
    spec fn carries_relocate(self) -> bool {
        self.signed_msg.spec_variant() is Relocate
    }

    /// The message held.
    pub closed spec fn spec_signed_msg(&self) -> Message {
        self.signed_msg
    }

    /// The details that the message carries.
    pub open spec fn spec_details(&self) -> RelocateDetails {
        self.spec_signed_msg().spec_variant()->Relocate_0
    }

    /// Accepts a message that carries relocation details and refuses any
    /// other.
    pub fn new(signed_msg: Message) -> (made: Result<Self, RoutingError>)
        ensures
            signed_msg.spec_variant() is Relocate ==> (made matches Ok(signed) && signed.spec_signed_msg()
                == signed_msg),
            !(signed_msg.spec_variant() is Relocate) ==> (made matches Err(e) && e
                == RoutingError::InvalidMessage),
    {
        let relocates = match signed_msg.variant() {
            Variant::Relocate(_) => true,
            _ => false,
        };
        if relocates {
            Ok(Self { signed_msg })
        } else {
            Err(RoutingError::InvalidMessage)
        }
    }

    /// The relocation details. Every value of this type carries them.
    pub fn relocate_details(&self) -> (details: &RelocateDetails)
        ensures
            self.spec_signed_msg().spec_variant() is Relocate,
            *details == self.spec_details(),
    {
        proof {
            use_type_invariant(self);
        }
        match self.signed_msg.variant() {
            Variant::Relocate(details) => details,
            _ => vstd::pervasive::unreached(),
        }
    }

    /// The message held.
    pub fn signed_msg(&self) -> (message: &Message)
        ensures
            *message == self.spec_signed_msg(),
    {
        &self.signed_msg
    }

    /// Where the node is relocated to.
    pub fn destination(&self) -> (target: &XorName)
        ensures
            *target == self.spec_details().destination,
    {
        &self.relocate_details().destination
    }
}

/// What a relocated node presents to its new section: the details of its
/// relocation, and its new id signed with its old one.
#[derive(PartialEq, Eq, Hash)]
pub struct RelocatePayload {
    /// The signed relocation message.
    pub details: SignedRelocateDetails,
    /// The new id of the node signed using its old id, to prove the node's
    /// identity.
    pub signature_of_new_id_with_old_id: Signature,
}

impl RelocatePayload {
    /// Signs `new_pub_id` with `old_full_id` and puts the signature beside
    /// the details.
    pub fn new(details: SignedRelocateDetails, new_pub_id: &PublicId, old_full_id: &FullId) -> (made: Result<
        Self,
        RoutingError,
    >)
        ensures
            made matches Ok(payload) && payload.details == details && payload.signature_of_new_id_with_old_id@
                == ed25519_signature(old_full_id.spec_secret_key(), new_pub_id.canonical())
                && ed25519_verifies(
                old_full_id.spec_public_id().spec_public_key(),
                new_pub_id.canonical(),
                payload.signature_of_new_id_with_old_id@,
            ),
    {
        let new_id_serialised = new_pub_id.serialise();
        let signature_of_new_id_with_old_id = old_full_id.sign(new_id_serialised.as_slice());
        Ok(Self { details, signature_of_new_id_with_old_id })
    }

    /// Whether the signature is that of the relocated node, made with its old
    /// id, under `new_pub_id`.
    pub fn verify_identity(&self, new_pub_id: &PublicId) -> (ok: bool)
        ensures
            ok == ed25519_verifies(
                self.details.spec_details().pub_id.spec_public_key(),
                new_pub_id.canonical(),
                self.signature_of_new_id_with_old_id@,
            ),
    {
        let new_id_serialised = new_pub_id.serialise();
        self.details.relocate_details().pub_id.verify(
            new_id_serialised.as_slice(),
            &self.signature_of_new_id_with_old_id,
        )
    }

    /// The relocation details.
    pub fn relocate_details(&self) -> (details: &RelocateDetails)
        ensures
            *details == self.details.spec_details(),
    {
        self.details.relocate_details()
    }
}

} // verus!
