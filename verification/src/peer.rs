//! Peers, and their order by distance to a name.
//!
//! The distance of two names is their exclusive or, read as a number. So of
//! two names the one is closer to a third that agrees with it in the first bit
//! in which the two differ.

use crate::bytes::{first_diff, lemma_first_diff};
use crate::comm::Address;
use crate::name::XorName;
use core::cmp::Ordering;
use vstd::prelude::*;

verus! {

/// A node as its section knows it.
#[derive(Clone, Copy, Debug, PartialEq, Eq, Hash)]
pub struct Peer {
    pub name: XorName,
    pub addr: Address,
    pub age: u8,
}

/// Whether `lhs` is closer to `name` than `rhs` is. All three are names.
pub open spec fn closer(name: Seq<u8>, lhs: Seq<u8>, rhs: Seq<u8>) -> bool {
    let k = first_diff(lhs, rhs, 0);
    k < lhs.len() && k < rhs.len() && (lhs[k] ^ name[k]) < (rhs[k] ^ name[k])
}

/// -1 if `lhs` is closer to `name` than `rhs` is, 1 if it is farther, 0 if it
/// is as close, which it is only if the two are one.
pub open spec fn distance_sign(name: Seq<u8>, lhs: Seq<u8>, rhs: Seq<u8>) -> int {
    if closer(name, lhs, rhs) {
        -1
    } else if closer(name, rhs, lhs) {
        1
    } else {
        0
    }
}

/// Whether each peer is at least as close to `name` as all that follow it.
pub open spec fn ordered_by_distance(peers: Seq<Peer>, name: Seq<u8>) -> bool {
    forall|i: int, j: int| 0 <= i < j < peers.len() ==> !closer(name, peers[j].name@, peers[i].name@)
}

/// The peers of `peers` that have the name `name`, in their order.
pub open spec fn with_name(peers: Seq<Peer>, name: Seq<u8>) -> Seq<Peer> {
    peers.filter(|peer: Peer| peer.name@ == name)
}

/// Whether `sorted` holds the peers of `peers` closest to `name` first, those
/// of one name, which are equally close, in the order that they had.
pub open spec fn sorted_by_distance_of(sorted: Seq<Peer>, peers: Seq<Peer>, name: Seq<u8>) -> bool {
    &&& sorted.to_multiset() == peers.to_multiset()
    &&& ordered_by_distance(sorted, name)
    &&& forall|one: Seq<u8>| #[trigger] with_name(sorted, one) == with_name(peers, one)
}

/// Trusted: `xor_name::XorName::cmp_distance`. It looks for the first byte in
/// which `lhs` and `rhs` differ and compares the two bytes, each combined by
/// exclusive or with the byte of `name` at that place; names that do not
/// differ are equally close.
#[verifier::external_body]
fn distance_sign_of(name: &XorName, lhs: &XorName, rhs: &XorName) -> (sign: i8)
    ensures
        sign == distance_sign(name@, lhs@, rhs@),
{
    match xor_name::XorName(name.0).cmp_distance(&xor_name::XorName(lhs.0), &xor_name::XorName(rhs.0)) {
        Ordering::Less => -1,
        Ordering::Equal => 0,
        Ordering::Greater => 1,
    }
}

/// Compares the distances of `lhs` and `rhs` to `name`: `Less` if `lhs` is
/// closer, `Greater` if `rhs` is closer, and `Equal` if they are one name.
pub fn cmp_distance(name: &XorName, lhs: &XorName, rhs: &XorName) -> (order: Ordering)
    ensures
        order == Ordering::Less <==> closer(name@, lhs@, rhs@),
        order == Ordering::Greater <==> closer(name@, rhs@, lhs@),
{
    let sign = distance_sign_of(name, lhs, rhs);
    proof {
        lemma_first_diff(lhs@, rhs@, 0);
    }
    if sign < 0 {
        Ordering::Less
    } else if sign > 0 {
        Ordering::Greater
    } else {
        Ordering::Equal
    }
}

/// Trusted: `itertools::Itertools::sorted_by`, which sorts into a new sequence
/// in ascending order of the comparison it is given, here that of the
/// distances to `name`. What comes out is what went in, in another order, in
/// which no peer is followed by one that is closer. The sort is stable: what
/// compares as equal, here the peers of one name, stays in its order.
#[verifier::external_body]
fn sorted_by_distance(peers: Vec<Peer>, name: &XorName) -> (sorted: Vec<Peer>)
    ensures
        sorted@.to_multiset() == peers@.to_multiset(),
        ordered_by_distance(sorted@, name@),
        forall|one: Seq<u8>| #[trigger] with_name(sorted@, one) == with_name(peers@, one),
{
    itertools::Itertools::sorted_by(peers.into_iter(), |lhs, rhs| cmp_distance(name, &lhs.name, &rhs.name)).collect()
}

/// The given peers sorted by their distance to `name`, closest first. Peers
/// of one name keep their order.
pub fn sorted_by_distance_to(peers: Vec<Peer>, name: &XorName) -> (sorted: Vec<Peer>)
    ensures
        sorted_by_distance_of(sorted@, peers@, name@),
        sorted@.len() == peers@.len(),
{
    let sorted = sorted_by_distance(peers, name);
    proof {
        peers@.to_multiset_ensures();
        sorted@.to_multiset_ensures();
    }
    sorted
}

/// The addresses of the given peers, in their order.
pub open spec fn addresses_of(peers: Seq<Peer>) -> Seq<Address> {
    peers.map_values(|peer: Peer| peer.addr)
}

/// To whom a message of the application for `dst` is sent, and to how many of
/// them it has to get: to the elders, those closest to `dst` first, and to
/// `elder_size` of them, or to all if they are fewer.
pub fn user_message_targets(elders: Vec<Peer>, dst: &XorName, elder_size: usize) -> (targets: (Vec<Address>, usize))
    ensures
        exists|sorted: Seq<Peer>|
            #![trigger addresses_of(sorted)]
            sorted_by_distance_of(sorted, elders@, dst@) && targets.0@ == addresses_of(sorted),
        targets.0@.len() == elders@.len(),
        targets.1 == if elders@.len() <= elder_size {
            elders@.len()
        } else {
            elder_size as nat
        },
{
    let sorted = sorted_by_distance_to(elders, dst);
    let mut recipients: Vec<Address> = Vec::new();
    let mut i: usize = 0;
    while i < sorted.len()
        invariant
            i <= sorted@.len(),
            recipients@ == addresses_of(sorted@.subrange(0, i as int)),
        decreases sorted@.len() - i,
    {
        recipients.push(sorted[i].addr);
        assert(recipients@ =~= addresses_of(sorted@.subrange(0, i + 1)));
        i += 1;
    }
    assert(sorted@.subrange(0, i as int) =~= sorted@);
    let delivery_group_size = if sorted.len() <= elder_size {
        sorted.len()
    } else {
        elder_size
    };
    (recipients, delivery_group_size)
}

} // verus!
