//! The bookkeeping of a send to a delivery group.
//!
//! A message is to reach `delivery_group_size` of the given recipients; the
//! others are spares. `SendState` decides who is tried next and records how
//! each attempt ended. The caller performs the sends and reports back: it asks
//! `next` until that gives `None`, waits for one send to end, reports it with
//! `success` or `failure`, and repeats until nothing is in flight; `finish`
//! then tells how the send as a whole went.

use crate::error::RoutingError;
use vstd::prelude::*;

verus! {

/// How many connections the node keeps open for reuse.
pub const CONNECTIONS_CACHE_SIZE: usize = 1024;

/// Maximal number of attempts to send to the same recipient.
pub const RESEND_MAX_ATTEMPTS: u8 = 3;

/// The address of a peer: an IP address and a port.
#[derive(Clone, Copy, Debug, PartialEq, Eq, Structural, Hash)]
#[allow(inconsistent_fields)]
pub enum Address {
    V4 { ip: u32, port: u16 },
    V6 { ip: u128, port: u16, flowinfo: u32, scope_id: u32 },
}

/// One recipient of a send, and how far the send to it has come.
#[derive(Clone, Copy, Debug, PartialEq, Eq, Structural)]
pub struct Recipient {
    pub addr: Address,
    /// Whether an attempt is in flight.
    pub sending: bool,
    /// The number of attempts started so far.
    pub attempt: u8,
}

/// The outcome of a send to a delivery group.
#[derive(Debug)]
pub struct SendStatus {
    /// How many recipients of the delivery group the message did not reach.
    pub remaining: usize,
    /// The recipients to which every attempt failed.
    pub failed_recipients: Vec<Address>,
}

/// The state of one send to a delivery group.
#[derive(Debug)]
pub struct SendState {
    recipients: Vec<Recipient>,
    remaining: usize,
    successes: usize,
    group_size: usize,
    given: usize,
}

/// The number of recipients to which an attempt is in flight.
pub open spec fn in_flight(rs: Seq<Recipient>) -> nat
    decreases rs.len(),
{
    if rs.len() == 0 {
        0
    } else {
        in_flight(rs.drop_last()) + if rs.last().sending {
            1nat
        } else {
            0nat
        }
    }
}

/// The attempts that may still be started, over all recipients.
pub open spec fn attempts_left(rs: Seq<Recipient>) -> int
    decreases rs.len(),
{
    if rs.len() == 0 {
        0
    } else {
        attempts_left(rs.drop_last()) + (RESEND_MAX_ATTEMPTS - rs.last().attempt)
    }
}

/// Whether a new attempt to `r` may be started.
pub open spec fn eligible(r: Recipient) -> bool {
    !r.sending && r.attempt < RESEND_MAX_ATTEMPTS
}

/// Whether every attempt to `r` has been made and has failed.
pub open spec fn exhausted(r: Recipient) -> bool {
    !r.sending && r.attempt >= RESEND_MAX_ATTEMPTS
}

/// Whether some recipient may be tried.
pub open spec fn some_eligible(rs: Seq<Recipient>) -> bool {
    exists|i: int| 0 <= i < rs.len() && eligible(#[trigger] rs[i])
}

/// Whether `i` is the recipient to try next: the first among the eligible
/// ones with the fewest attempts.
pub open spec fn is_pick(rs: Seq<Recipient>, i: int) -> bool {
    &&& 0 <= i < rs.len()
    &&& eligible(rs[i])
    &&& forall|j: int| 0 <= j < rs.len() && eligible(#[trigger] rs[j]) ==> rs[i].attempt <= rs[j].attempt
    &&& forall|j: int| 0 <= j < i && eligible(#[trigger] rs[j]) ==> rs[i].attempt < rs[j].attempt
}

/// Whether some recipient has the address `addr`.
pub open spec fn has_addr(rs: Seq<Recipient>, addr: Address) -> bool {
    exists|i: int| 0 <= i < rs.len() && (#[trigger] rs[i]).addr == addr
}

/// Whether `i` is the first recipient with the address `addr`.
pub open spec fn is_first_with(rs: Seq<Recipient>, addr: Address, i: int) -> bool {
    &&& 0 <= i < rs.len()
    &&& rs[i].addr == addr
    &&& forall|j: int| 0 <= j < i ==> (#[trigger] rs[j]).addr != addr
}

/// The recipients once an attempt to recipient `i` has been started.
pub open spec fn started(rs: Seq<Recipient>, i: int) -> Seq<Recipient> {
    rs.update(i, Recipient { addr: rs[i].addr, sending: true, attempt: (rs[i].attempt + 1) as u8 })
}

/// The recipients once the attempt to recipient `i` has failed.
pub open spec fn cleared(rs: Seq<Recipient>, i: int) -> Seq<Recipient> {
    rs.update(i, Recipient { addr: rs[i].addr, sending: false, attempt: rs[i].attempt })
}

/// The recipients once recipient `i` has been reached: it leaves, and the
/// last recipient takes its place.
pub open spec fn removed(rs: Seq<Recipient>, i: int) -> Seq<Recipient> {
    rs.update(i, rs.last()).drop_last()
}

/// The recipients as they stand before the first attempt.
pub open spec fn fresh(addrs: Seq<Address>) -> Seq<Recipient> {
    addrs.map_values(|addr: Address| Recipient { addr, sending: false, attempt: 0 })
}

/// The addresses of the exhausted recipients, in order.
pub open spec fn failed_addrs(rs: Seq<Recipient>) -> Seq<Address> {
    rs.filter(|r: Recipient| exhausted(r)).map_values(|r: Recipient| r.addr)
}

/// Whether the send to `addr` was given up: a recipient with that address
/// has had every attempt, none of which is in flight.
pub open spec fn gave_up_on(rs: Seq<Recipient>, n: int, addr: Address) -> bool {
    exists|j: int|
        0 <= j < n && j < rs.len() && (#[trigger] rs[j]).addr == addr && !rs[j].sending && rs[j].attempt
            == RESEND_MAX_ATTEMPTS
}

/// Whether no two recipients have one address.
pub open spec fn distinct_addrs(rs: Seq<Recipient>) -> bool {
    forall|i: int, j: int| 0 <= i < j < rs.len() ==> (#[trigger] rs[i]).addr != (#[trigger] rs[j]).addr
}

/// Recipients made of different addresses have different addresses.
pub proof fn lemma_fresh_distinct(addrs: Seq<Address>)
    requires
        addrs.no_duplicates(),
    ensures
        distinct_addrs(fresh(addrs)),
{
}

/// No step of a send gives two recipients one address: not the start of an
/// attempt, not its failure, and not its success.
pub proof fn lemma_steps_keep_distinct(rs: Seq<Recipient>, i: int)
    requires
        distinct_addrs(rs),
        0 <= i < rs.len(),
    ensures
        distinct_addrs(started(rs, i)),
        distinct_addrs(cleared(rs, i)),
        distinct_addrs(removed(rs, i)),
{
    let s = started(rs, i);
    assert forall|a: int, b: int| 0 <= a < b < s.len() implies (#[trigger] s[a]).addr != (#[trigger] s[b]).addr by {
        assert(s[a].addr == rs[a].addr && s[b].addr == rs[b].addr);
    }
    let c = cleared(rs, i);
    assert forall|a: int, b: int| 0 <= a < b < c.len() implies (#[trigger] c[a]).addr != (#[trigger] c[b]).addr by {
        assert(c[a].addr == rs[a].addr && c[b].addr == rs[b].addr);
    }
    let r = removed(rs, i);
    let last = rs.len() - 1;
    assert forall|a: int, b: int| 0 <= a < b < r.len() implies (#[trigger] r[a]).addr != (#[trigger] r[b]).addr by {
        let from = |n: int| if n == i { last } else { n };
        assert(r[a] == rs[from(a)] && r[b] == rs[from(b)]);
        if from(a) < from(b) {
            assert(rs[from(a)].addr != rs[from(b)].addr);
        } else {
            assert(rs[from(b)].addr != rs[from(a)].addr);
        }
    }
}

/// Where no two recipients have one address, nobody is listed twice among
/// those to whom every attempt failed, and who is listed is a recipient.
pub proof fn lemma_failed_distinct(rs: Seq<Recipient>)
    requires
        distinct_addrs(rs),
    ensures
        failed_addrs(rs).no_duplicates(),
        forall|k: int| 0 <= k < failed_addrs(rs).len() ==> has_addr(rs, #[trigger] failed_addrs(rs)[k]),
    decreases rs.len(),
{
    reveal(Seq::filter);
    if rs.len() > 0 {
        let front = rs.drop_last();
        assert forall|i: int, j: int| 0 <= i < j < front.len() implies (#[trigger] front[i]).addr != (
        #[trigger] front[j]).addr by {
            assert(front[i] == rs[i] && front[j] == rs[j]);
        }
        lemma_failed_distinct(front);
        let before = failed_addrs(front);
        let all = failed_addrs(rs);
        assert forall|k: int| 0 <= k < before.len() implies has_addr(rs, #[trigger] before[k]) && before[k]
            != rs.last().addr by {
            assert(has_addr(front, before[k]));
            let j = choose|j: int| 0 <= j < front.len() && (#[trigger] front[j]).addr == before[k];
            assert(rs[j].addr == before[k]);
            assert(rs[j].addr != rs[rs.len() - 1].addr);
        }
        if exhausted(rs.last()) {
            assert(all =~= before.push(rs.last().addr));
            assert(rs[rs.len() - 1].addr == rs.last().addr);
        } else {
            assert(all =~= before);
        }
    }
}

/// There is at most one recipient to try next.
pub proof fn lemma_pick_unique(rs: Seq<Recipient>, i: int, j: int)
    requires
        is_pick(rs, i),
        is_pick(rs, j),
    ensures
        i == j,
{
    if i < j {
        assert(eligible(rs[i]));
    } else if j < i {
        assert(eligible(rs[j]));
    }
}

/// Starting an attempt uses up one of the attempts that are left.
proof fn lemma_attempts_left_update(rs: Seq<Recipient>, i: int, r: Recipient)
    requires
        0 <= i < rs.len(),
    ensures
        attempts_left(rs.update(i, r)) == attempts_left(rs) + rs[i].attempt - r.attempt,
    decreases rs.len(),
{
    if i == rs.len() - 1 {
        assert(rs.update(i, r).drop_last() =~= rs.drop_last());
    } else {
        lemma_attempts_left_update(rs.drop_last(), i, r);
        assert(rs.update(i, r).drop_last() =~= rs.drop_last().update(i, r));
    }
}

/// Where nobody was tried more often than allowed, the attempts that are left
/// lie between none and all.
proof fn lemma_attempts_left_bounds(rs: Seq<Recipient>)
    requires
        forall|i: int| 0 <= i < rs.len() ==> (#[trigger] rs[i]).attempt <= RESEND_MAX_ATTEMPTS,
    ensures
        0 <= attempts_left(rs) <= RESEND_MAX_ATTEMPTS * rs.len(),
    decreases rs.len(),
{
    if rs.len() > 0 {
        assert forall|i: int| 0 <= i < rs.drop_last().len() implies (#[trigger] rs.drop_last()[i]).attempt
            <= RESEND_MAX_ATTEMPTS by {
            assert(rs.drop_last()[i] == rs[i]);
        }
        lemma_attempts_left_bounds(rs.drop_last());
    }
}

/// Before the first attempt every recipient has all its attempts left.
pub proof fn lemma_attempts_left_fresh(addrs: Seq<Address>)
    ensures
        attempts_left(fresh(addrs)) == RESEND_MAX_ATTEMPTS * addrs.len(),
    decreases addrs.len(),
{
    if addrs.len() > 0 {
        lemma_attempts_left_fresh(addrs.drop_last());
        assert(fresh(addrs).drop_last() =~= fresh(addrs.drop_last()));
    }
}

/// Over a whole send every recipient given is either reached or still held,
/// and who is reached counts towards the delivery group: so the successes and
/// the recipients held make up the recipients given, the successes and what
/// remains make up the delivery group, and what remains is at least what the
/// recipients given fall short of the delivery group.
pub proof fn lemma_remaining_bounds(state: SendState)
    requires
        state.wf(),
    ensures
        state.spec_successes() + state.spec_recipients().len() == state.spec_given(),
        state.spec_remaining() + state.spec_successes() == state.spec_group_size(),
        state.spec_successes() <= state.spec_given(),
        state.spec_remaining() >= state.spec_group_size() - state.spec_given(),
{
}

/// In a state that is well formed the attempts that are left are never
/// negative, so that no more attempts are started than three for each
/// recipient: each `next` that gives a recipient uses up one, and neither
/// `failure` nor `success` gives one back.
pub proof fn lemma_attempts_left_nonnegative(state: SendState)
    requires
        state.wf(),
    ensures
        0 <= attempts_left(state.spec_recipients()) <= RESEND_MAX_ATTEMPTS * state.spec_recipients().len(),
{
    lemma_attempts_left_bounds(state.spec_recipients());
}

/// No in-flight mark is gained or lost but at the recipient that changes.
proof fn lemma_in_flight_update(rs: Seq<Recipient>, i: int, r: Recipient)
    requires
        0 <= i < rs.len(),
    ensures
        in_flight(rs.update(i, r)) + (if rs[i].sending { 1nat } else { 0nat }) == in_flight(rs) + (if r.sending {
            1nat
        } else {
            0nat
        }),
    decreases rs.len(),
{
    if i == rs.len() - 1 {
        assert(rs.update(i, r).drop_last() =~= rs.drop_last());
    } else {
        lemma_in_flight_update(rs.drop_last(), i, r);
        assert(rs.update(i, r).drop_last() =~= rs.drop_last().update(i, r));
    }
}

impl SendStatus {
    /// `Ok` if the message reached the whole delivery group, else `FailedSend`.
    pub fn into_result(self) -> (outcome: Result<(), RoutingError>)
        ensures
            self.remaining == 0 ==> outcome == Ok::<(), RoutingError>(()),
            self.remaining != 0 ==> outcome == Err::<(), RoutingError>(RoutingError::FailedSend),
    {
        if self.remaining == 0 {
            Ok(())
        } else {
            Err(RoutingError::FailedSend)
        }
    }
}

impl From<SendStatus> for Result<(), RoutingError> {
    fn from(status: SendStatus) -> (outcome: Self) {
        status.into_result()
    }
}

impl vstd::std_specs::convert::FromSpecImpl<SendStatus> for Result<(), RoutingError> {
    open spec fn obeys_from_spec() -> bool {
        true
    }

    open spec fn from_spec(status: SendStatus) -> Self {
        if status.remaining == 0 {
            Ok(())
        } else {
            Err(RoutingError::FailedSend)
        }
    }
}

impl SendState {
    /// The recipients with their marks, in the order in which they are held.
    pub closed spec fn spec_recipients(&self) -> Seq<Recipient> {
        self.recipients@
    }

    /// How many recipients of the delivery group are still to be reached.
    pub closed spec fn spec_remaining(&self) -> nat {
        self.remaining as nat
    }

    /// How many recipients the message has reached.
    pub closed spec fn spec_successes(&self) -> nat {
        self.successes as nat
    }

    /// The delivery group size that was asked for.
    pub closed spec fn spec_group_size(&self) -> nat {
        self.group_size as nat
    }

    /// The number of recipients that were given.
    pub closed spec fn spec_given(&self) -> nat {
        self.given as nat
    }

    /// What holds of every state: the successes and what remains make up the
    /// delivery group, the successes and the recipients still held make up
    /// the recipients given, and nobody is tried more often than allowed.
    pub open spec fn wf(&self) -> bool {
        &&& self.spec_remaining() + self.spec_successes() == self.spec_group_size()
        &&& self.spec_successes() + self.spec_recipients().len() == self.spec_given()
        &&& forall|i: int|
            0 <= i < self.spec_recipients().len() ==> (#[trigger] self.spec_recipients()[i]).attempt
                <= RESEND_MAX_ATTEMPTS
    }

    /// The state before the first attempt.
    pub fn new(recipients: &[Address], delivery_group_size: usize) -> (state: SendState)
        ensures
            state.wf(),
            state.spec_recipients() == fresh(recipients@),
            state.spec_remaining() == delivery_group_size,
            state.spec_successes() == 0,
            state.spec_group_size() == delivery_group_size,
            state.spec_given() == recipients@.len(),
            recipients@.no_duplicates() ==> distinct_addrs(state.spec_recipients()),
    {
        let mut list: Vec<Recipient> = Vec::new();
        let mut i: usize = 0;
        while i < recipients.len()
            invariant
                i <= recipients@.len(),
                list@ == fresh(recipients@.subrange(0, i as int)),
            decreases recipients@.len() - i,
        {
            list.push(Recipient { addr: recipients[i], sending: false, attempt: 0 });
            assert(list@ =~= fresh(recipients@.subrange(0, i + 1)));
            i += 1;
        }
        assert(recipients@.subrange(0, i as int) =~= recipients@);
        proof {
            if recipients@.no_duplicates() {
                lemma_fresh_distinct(recipients@);
            }
        }
        SendState {
            recipients: list,
            remaining: delivery_group_size,
            successes: 0,
            group_size: delivery_group_size,
            given: recipients.len(),
        }
    }

    /// How many recipients of the delivery group are still to be reached.
    pub fn remaining(&self) -> (remaining: usize)
        ensures
            remaining == self.spec_remaining(),
    {
        self.remaining
    }

    /// How many recipients the message has reached.
    pub fn successes(&self) -> (successes: usize)
        ensures
            successes == self.spec_successes(),
    {
        self.successes
    }

    /// Whether a recipient with this address is still held.
    pub fn contains(&self, addr: &Address) -> (found: bool)
        ensures
            found == has_addr(self.spec_recipients(), *addr),
    {
        self.position(addr).is_some()
    }

    /// The first recipient with this address.
    fn position(&self, addr: &Address) -> (found: Option<usize>)
        ensures
            match found {
                Some(i) => is_first_with(self.spec_recipients(), *addr, i as int),
                None => !has_addr(self.spec_recipients(), *addr),
            },
    {
        let mut i: usize = 0;
        while i < self.recipients.len()
            invariant
                i <= self.recipients@.len(),
                forall|j: int| 0 <= j < i ==> (#[trigger] self.recipients@[j]).addr != *addr,
            decreases self.recipients@.len() - i,
        {
            if self.recipients[i].addr == *addr {
                return Some(i);
            }
            i += 1;
        }
        None
    }

    /// The number of attempts in flight.
    fn active(&self) -> (count: usize)
        ensures
            count == in_flight(self.spec_recipients()),
    {
        let mut count: usize = 0;
        let mut i: usize = 0;
        while i < self.recipients.len()
            invariant
                i <= self.recipients@.len(),
                count <= i,
                count == in_flight(self.recipients@.subrange(0, i as int)),
            decreases self.recipients@.len() - i,
        {
            assert(self.recipients@.subrange(0, i + 1).drop_last() =~= self.recipients@.subrange(0, i as int));
            if self.recipients[i].sending {
                count += 1;
            }
            i += 1;
        }
        assert(self.recipients@.subrange(0, i as int) =~= self.recipients@);
        count
    }

    /// The recipient to send to next, if one is to be sent to now. There is
    /// none while as many attempts are in flight as recipients remain to be
    /// reached, and none once every recipient is in flight or used up.
    /// Otherwise it is the first of those tried least often; it is marked as
    /// in flight and the attempt is counted.
    pub fn next(&mut self) -> (picked: Option<Address>)
        requires
            old(self).wf(),
        ensures
            final(self).wf(),
            final(self).spec_remaining() == old(self).spec_remaining(),
            final(self).spec_successes() == old(self).spec_successes(),
            final(self).spec_group_size() == old(self).spec_group_size(),
            final(self).spec_given() == old(self).spec_given(),
            distinct_addrs(old(self).spec_recipients()) ==> distinct_addrs(final(self).spec_recipients()),
            picked is None <==> in_flight(old(self).spec_recipients()) >= old(self).spec_remaining()
                || !some_eligible(old(self).spec_recipients()),
            picked is None ==> final(self).spec_recipients() == old(self).spec_recipients(),
            picked matches Some(addr) ==> exists|i: int|
                #![trigger old(self).spec_recipients()[i]]
                is_pick(old(self).spec_recipients(), i) && addr == old(self).spec_recipients()[i].addr
                    && final(self).spec_recipients() == started(old(self).spec_recipients(), i),
            picked is Some ==> attempts_left(final(self).spec_recipients()) + 1 == attempts_left(
                old(self).spec_recipients(),
            ) && in_flight(final(self).spec_recipients()) == in_flight(old(self).spec_recipients()) + 1,
    {
        let active = self.active();
        if active >= self.remaining {
            return None;
        }
        let mut best: Option<usize> = None;
        let mut i: usize = 0;
        while i < self.recipients.len()
            invariant
                i <= self.recipients@.len(),
                *self == *old(self),
                match best {
                    None => forall|j: int| 0 <= j < i ==> !eligible(#[trigger] self.recipients@[j]),
                    Some(b) => {
                        &&& b < i
                        &&& eligible(self.recipients@[b as int])
                        &&& forall|j: int|
                            0 <= j < i && eligible(#[trigger] self.recipients@[j]) ==> self.recipients@[b as int].attempt
                                <= self.recipients@[j].attempt
                        &&& forall|j: int|
                            0 <= j < b && eligible(#[trigger] self.recipients@[j]) ==> self.recipients@[b as int].attempt
                                < self.recipients@[j].attempt
                    },
                },
            decreases self.recipients@.len() - i,
        {
            let r = self.recipients[i];
            if !r.sending && r.attempt < RESEND_MAX_ATTEMPTS {
                match best {
                    None => {
                        best = Some(i);
                    },
                    Some(b) => {
                        if r.attempt < self.recipients[b].attempt {
                            best = Some(i);
                        }
                    },
                }
            }
            i += 1;
        }
        match best {
            None => None,
            Some(b) => {
                let r = self.recipients[b];
                let marked = Recipient { addr: r.addr, sending: true, attempt: r.attempt + 1 };
                proof {
                    assert(is_pick(old(self).spec_recipients(), b as int));
                    if distinct_addrs(self.recipients@) {
                        lemma_steps_keep_distinct(self.recipients@, b as int);
                    }
                    lemma_attempts_left_update(self.recipients@, b as int, marked);
                    lemma_in_flight_update(self.recipients@, b as int, marked);
                }
                self.recipients[b] = marked;
                Some(r.addr)
            },
        }
    }

    /// Records that an attempt to `addr` failed: the first recipient with that
    /// address is no longer in flight, and may be tried again if attempts are
    /// left. An address that is not held changes nothing.
    pub fn failure(&mut self, addr: &Address)
        requires
            old(self).wf(),
        ensures
            final(self).wf(),
            final(self).spec_remaining() == old(self).spec_remaining(),
            final(self).spec_successes() == old(self).spec_successes(),
            final(self).spec_group_size() == old(self).spec_group_size(),
            final(self).spec_given() == old(self).spec_given(),
            distinct_addrs(old(self).spec_recipients()) ==> distinct_addrs(final(self).spec_recipients()),
            !has_addr(old(self).spec_recipients(), *addr) ==> final(self).spec_recipients() == old(
                self
            ).spec_recipients(),
            has_addr(old(self).spec_recipients(), *addr) ==> exists|i: int|
                #![trigger old(self).spec_recipients()[i]]
                is_first_with(old(self).spec_recipients(), *addr, i) && final(self).spec_recipients()
                    == cleared(old(self).spec_recipients(), i),
            attempts_left(final(self).spec_recipients()) == attempts_left(old(self).spec_recipients()),
    {
        match self.position(addr) {
            None => {},
            Some(i) => {
                let r = self.recipients[i];
                let cleared = Recipient { addr: r.addr, sending: false, attempt: r.attempt };
                proof {
                    lemma_attempts_left_update(self.recipients@, i as int, cleared);
                    if distinct_addrs(self.recipients@) {
                        lemma_steps_keep_distinct(self.recipients@, i as int);
                    }
                }
                self.recipients[i] = cleared;
            },
        }
    }

    /// Records that an attempt to `addr` succeeded: the first recipient with
    /// that address leaves the pool, the last recipient taking its place, and
    /// one recipient fewer remains to be reached. An address that is not held
    /// changes nothing.
    pub fn success(&mut self, addr: &Address)
        requires
            old(self).wf(),
            has_addr(old(self).spec_recipients(), *addr) ==> old(self).spec_remaining() > 0,
        ensures
            final(self).wf(),
            final(self).spec_group_size() == old(self).spec_group_size(),
            final(self).spec_given() == old(self).spec_given(),
            distinct_addrs(old(self).spec_recipients()) ==> distinct_addrs(final(self).spec_recipients()),
            !has_addr(old(self).spec_recipients(), *addr) ==> final(self).spec_recipients() == old(
                self
            ).spec_recipients() && final(self).spec_remaining() == old(self).spec_remaining()
                && final(self).spec_successes() == old(self).spec_successes(),
            has_addr(old(self).spec_recipients(), *addr) ==> final(self).spec_remaining() + 1 == old(
                self
            ).spec_remaining() && final(self).spec_successes() == old(self).spec_successes() + 1,
            has_addr(old(self).spec_recipients(), *addr) ==> exists|i: int|
                #![trigger old(self).spec_recipients()[i]]
                is_first_with(old(self).spec_recipients(), *addr, i) && final(self).spec_recipients()
                    == removed(old(self).spec_recipients(), i),
            attempts_left(final(self).spec_recipients()) <= attempts_left(old(self).spec_recipients()),
    {
        match self.position(addr) {
            None => {},
            Some(index) => {
                proof {
                    let rs = self.recipients@;
                    lemma_attempts_left_update(rs, index as int, rs.last());
                    if distinct_addrs(rs) {
                        lemma_steps_keep_distinct(rs, index as int);
                    }
                }
                let _ = self.recipients.swap_remove(index);
                self.remaining -= 1;
                self.successes += 1;
            },
        }
    }

    /// How the send went: how many recipients of the delivery group were not
    /// reached, and the recipients to which every attempt failed.
    pub fn finish(self) -> (status: SendStatus)
        requires
            self.wf(),
        ensures
            status.remaining == self.spec_remaining(),
            status.remaining + self.spec_successes() == self.spec_group_size(),
            status.failed_recipients@ == failed_addrs(self.spec_recipients()),
            distinct_addrs(self.spec_recipients()) ==> status.failed_recipients@.no_duplicates(),
            forall|k: int|
                0 <= k < status.failed_recipients@.len() ==> gave_up_on(
                    self.spec_recipients(),
                    self.spec_recipients().len() as int,
                    #[trigger] status.failed_recipients@[k],
                ),
    {
        let ghost rs = self.recipients@;
        let ghost done = |r: Recipient| exhausted(r);
        let ghost addr_of = |r: Recipient| r.addr;
        let mut failed: Vec<Address> = Vec::new();
        let mut i: usize = 0;
        while i < self.recipients.len()
            invariant
                i <= self.recipients@.len(),
                rs == self.recipients@,
                self.wf(),
                done == (|r: Recipient| exhausted(r)),
                addr_of == (|r: Recipient| r.addr),
                failed@ == rs.subrange(0, i as int).filter(done).map_values(addr_of),
                forall|k: int| 0 <= k < failed@.len() ==> gave_up_on(rs, i as int, #[trigger] failed@[k]),
            decreases self.recipients@.len() - i,
        {
            let r = self.recipients[i];
            proof {
                reveal(Seq::filter);
                assert(rs.subrange(0, i + 1).drop_last() =~= rs.subrange(0, i as int));
                assert(rs.subrange(0, i + 1).last() == r);
            }
            let ghost before = failed@;
            if !r.sending && r.attempt >= RESEND_MAX_ATTEMPTS {
                failed.push(r.addr);
                proof {
                    assert(failed@ =~= rs.subrange(0, i + 1).filter(done).map_values(addr_of));
                    assert forall|k: int| 0 <= k < failed@.len() implies gave_up_on(
                        rs,
                        i + 1,
                        #[trigger] failed@[k],
                    ) by {
                        if k == failed@.len() - 1 {
                            assert(rs[i as int].addr == failed@[k]);
                        } else {
                            assert(before[k] == failed@[k]);
                            assert(gave_up_on(rs, i as int, before[k]));
                        }
                    }
                }
            }
            i += 1;
        }
        proof {
            assert(rs.subrange(0, i as int) =~= rs);
            if distinct_addrs(rs) {
                lemma_failed_distinct(rs);
            }
        }
        SendStatus { remaining: self.remaining, failed_recipients: failed }
    }
}

} // verus!
