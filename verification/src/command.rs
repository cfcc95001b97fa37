//! What a node is asked to do, and what it tells the application above.

use crate::comm::Address;
use crate::messages::Message;
use crate::name::XorName;
use vstd::prelude::*;

verus! {

/// How a node came to be connected.
#[derive(Clone, Copy, Debug, PartialEq, Eq)]
pub enum Connected {
    /// For the first time.
    First,
    /// Again, after a relocation from the section in which it had this name.
    Relocate { previous_name: XorName },
}

/// What the application above is told.
#[derive(Clone, Debug, PartialEq, Eq)]
pub enum Event {
    Connected(Connected),
    PromotedToElder,
    MemberJoined { name: XorName, age: u8 },
    MemberLeft { name: XorName, age: u8 },
    MessageReceived { content: Vec<u8>, src: XorName, dst: XorName },
    RelocationStarted { previous_name: XorName },
}

/// What a node is asked to do.
#[derive(Clone, Debug, PartialEq, Eq)]
#[allow(inconsistent_fields)]
pub enum Command {
    /// Handle a message that came in.
    HandleMessage { sender: Option<Address>, message: Message },
    /// Send content of the application from `src` to `dst`.
    SendUserMessage { src: XorName, dst: XorName, content: Vec<u8> },
    /// Send `message` to `delivery_group_size` of `recipients`.
    SendMessage { recipients: Vec<Address>, delivery_group_size: usize, message: Vec<u8> },
    /// Wake up after so many milliseconds, with this token.
    ScheduleTimeout { duration_ms: u64, token: u64 },
    /// Handle the timeout with this token.
    HandleTimeout(u64),
}

/// The events with which a node starts: one that seeds a new network is at
/// once its only elder, one that joins is connected and no more.
pub fn startup_events(first: bool) -> (events: Vec<Event>)
    ensures
        first ==> events@ == seq![Event::Connected(Connected::First), Event::PromotedToElder],
        !first ==> events@ == seq![Event::Connected(Connected::First)],
{
    let mut events: Vec<Event> = Vec::new();
    events.push(Event::Connected(Connected::First));
    if first {
        events.push(Event::PromotedToElder);
    }
    proof {
        if first {
            assert(events@ =~= seq![Event::Connected(Connected::First), Event::PromotedToElder]);
        } else {
            assert(events@ =~= seq![Event::Connected(Connected::First)]);
        }
    }
    events
}

impl Command {
    /// The command to send `message` to one client: a delivery group of one
    /// with no spare.
    pub fn send_to_client(recipient: Address, message: Vec<u8>) -> (command: Command)
        ensures
            command matches Command::SendMessage { recipients, delivery_group_size, message: sent }
                && recipients@ == seq![recipient] && delivery_group_size == 1 && sent == message,
    {
        let mut recipients: Vec<Address> = Vec::new();
        recipients.push(recipient);
        assert(recipients@ =~= seq![recipient]);
        Command::SendMessage { recipients, delivery_group_size: 1, message }
    }

    /// The command to send content of the application from `src` to `dst`.
    pub fn send_user_message(src: XorName, dst: XorName, content: Vec<u8>) -> (command: Command)
        ensures
            command == (Command::SendUserMessage { src, dst, content }),
    {
        Command::SendUserMessage { src, dst, content }
    }
}

} // verus!
