//! Messages between nodes.

use crate::id::PublicId;
use crate::relocation::RelocateDetails;
use crate::name::XorName;
use vstd::prelude::*;

verus! {

/// What a message is about.
#[derive(Clone, Debug, PartialEq, Eq, Hash)]
pub enum Variant {
    /// Content of the application above.
    UserMessage(Vec<u8>),
    /// A node is told to move to another section.
    Relocate(RelocateDetails),
    /// A node asks which section it is to join.
    BootstrapRequest(PublicId),
}

/// A message with its source and destination.
#[derive(Clone, Debug, PartialEq, Eq, Hash)]
pub struct Message {
    src: XorName,
    dst: XorName,
    variant: Variant,
}

impl Message {
    pub closed spec fn spec_variant(&self) -> Variant {
        self.variant
    }

    pub closed spec fn spec_src(&self) -> XorName {
        self.src
    }

    pub closed spec fn spec_dst(&self) -> XorName {
        self.dst
    }

    /// A message from `src` to `dst`.
    pub fn new(src: XorName, dst: XorName, variant: Variant) -> (message: Message)
        ensures
            message.spec_src() == src,
            message.spec_dst() == dst,
            message.spec_variant() == variant,
    {
        Message { src, dst, variant }
    }

    /// Where the message comes from.
    pub fn src(&self) -> (src: &XorName)
        ensures
            *src == self.spec_src(),
    {
        &self.src
    }

    /// Where the message goes.
    pub fn dst(&self) -> (dst: &XorName)
        ensures
            *dst == self.spec_dst(),
    {
        &self.dst
    }

    /// What the message is about.
    pub fn variant(&self) -> (variant: &Variant)
        ensures
            *variant == self.spec_variant(),
    {
        &self.variant
    }
}

} // verus!
