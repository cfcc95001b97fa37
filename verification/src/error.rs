//! Errors shared by the whole library.

use vstd::prelude::*;

verus! {

/// What can go wrong in the routing core.
#[derive(Clone, Copy, Debug, PartialEq, Eq, Structural)]
pub enum RoutingError {
    /// A signature did not verify, or a second proof of one key was presented.
    FailedSignature,
    /// A message is malformed or carries the wrong variant.
    InvalidMessage,
    /// The operation needs a role or a state that the node does not hold.
    InvalidState,
    /// A delivery-group send did not reach its group size.
    FailedSend,
    /// A proof chain could not be checked against the known section keys.
    Untrusted,
}

} // verus!
