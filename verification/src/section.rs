//! A section: its members and the size of its quorum.

use crate::error::RoutingError;
use crate::id::PublicId;
use threshold_crypto::{PublicKeySet, SecretKeyShare};
use vstd::prelude::*;

verus! {

/// The age at which an infant becomes an adult.
pub const MIN_AGE: u8 = 4;

/// Where a member stands.
#[derive(Clone, Copy, Debug, PartialEq, Eq, Structural, Hash)]
pub enum MemberState {
    Joined,
    Left,
    Relocated,
}

/// What a section knows of one of its members.
#[derive(Clone, Copy, Debug, PartialEq, Eq, Hash)]
pub struct MemberInfo {
    pub peer: PublicId,
    pub state: MemberState,
    pub age: u8,
    pub age_counter: u32,
}

/// The public keys of a section's elders. Nothing is known of it here.
#[verifier::external_type_specification]
#[verifier::external_body]
pub struct ExPublicKeySet(PublicKeySet);

/// An elder's share of the section's secret key. Nothing is known of it here.
#[verifier::external_type_specification]
#[verifier::external_body]
pub struct ExSecretKeyShare(SecretKeyShare);

/// What an elder holds of the key of its section.
pub struct SectionKeyShare {
    /// The public keys of all elders.
    pub public_key_set: PublicKeySet,
    /// The place of this elder among them.
    pub index: usize,
    /// This elder's share of the secret key.
    pub secret_key_share: SecretKeyShare,
}

/// What a node holds of the key of its section, or `InvalidState` for a node
/// that holds nothing of it, as one that has not joined or is no elder.
pub fn section_key_share(share: &Option<SectionKeyShare>) -> (held: Result<&SectionKeyShare, RoutingError>)
    ensures
        match *share {
            Some(ours) => held matches Ok(found) && *found == ours,
            None => held matches Err(e) && e == RoutingError::InvalidState,
        },
{
    match share {
        Some(ours) => Ok(ours),
        None => Err(RoutingError::InvalidState),
    }
}

/// The number of elders, out of `elder_size`, whose agreement makes a
/// decision: more than two thirds.
pub fn quorum_count(elder_size: usize) -> (quorum: usize)
    ensures
        quorum == (elder_size * 2) / 3 + 1,
{
    let whole = elder_size / 3;
    let rest = elder_size % 3;
    assert((elder_size * 2) / 3 == whole * 2 + (rest * 2) / 3) by (nonlinear_arith)
        requires
            whole == elder_size / 3,
            rest == elder_size % 3,
    ;
    whole * 2 + (rest * 2) / 3 + 1
}

} // verus!
