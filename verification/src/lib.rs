//! Core of a self-organising overlay network.
//!
//! Nodes form sections, each responsible for a part of the name space. What a
//! section holds to be true it holds by the signatures of its members, with no
//! coordinator above them. This crate has the parts of a node that decide:
//!
//! * `vote`, `block`: votes of peers, and the blocks in which they gather;
//! * `chain`: the keys of a section, each signed by the one before;
//! * `relocation`: who is moved to another section on a churn event, and where;
//! * `comm`, `cache`: which recipients a message is sent to, and which
//!   connections are kept;
//! * `peer`, `section`, `messages`, `command`: the data that these work on.
//!
//! The cryptographic primitives are those of other crates, see `crypto`.

pub mod block;
pub mod bytes;
pub mod cache;
pub mod chain;
pub mod comm;
pub mod command;
pub mod consensus;
pub mod crypto;
pub mod error;
pub mod id;
pub mod messages;
pub mod name;
pub mod peer;
pub mod relocation;
pub mod section;
pub mod vote;
