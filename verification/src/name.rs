//! Names: the 256-bit identifiers that make up the address space.

use vstd::prelude::*;

verus! {

/// The number of bytes of a name.
pub const XOR_NAME_LEN: usize = 32;

/// A 256-bit name.
#[derive(Clone, Copy, Debug, PartialEq, Eq, PartialOrd, Ord, Hash)]
pub struct XorName(pub [u8; 32]);

impl View for XorName {
    type V = Seq<u8>;

    open spec fn view(&self) -> Seq<u8> {
        self.0@
    }
}

/// The bytewise exclusive or of two byte strings of one length.
pub open spec fn xor_bytes(a: Seq<u8>, b: Seq<u8>) -> Seq<u8> {
    Seq::new(a.len(), |i: int| a[i] ^ b[i])
}

/// Exclusive or does not depend on the order of its arguments.
pub proof fn lemma_xor_symmetric(a: Seq<u8>, b: Seq<u8>)
    requires
        a.len() == b.len(),
    ensures
        xor_bytes(a, b) == xor_bytes(b, a),
{
    assert forall|i: int| 0 <= i < a.len() implies a[i] ^ b[i] == b[i] ^ a[i] by {
        let x = a[i];
        let y = b[i];
        assert(x ^ y == y ^ x) by (bit_vector);
    }
    assert(xor_bytes(a, b) =~= xor_bytes(b, a));
}

/// The bytewise exclusive or of two names.
pub fn xor(lhs: &XorName, rhs: &XorName) -> (output: XorName)
    ensures
        output@ == xor_bytes(lhs@, rhs@),
{
    let mut bytes = [0u8; 32];
    let mut i: usize = 0;
    while i < 32
        invariant
            i <= 32,
            forall|k: int| 0 <= k < i ==> bytes@[k] == lhs@[k] ^ rhs@[k],
        decreases 32 - i,
    {
        bytes[i] = lhs.0[i] ^ rhs.0[i];
        i += 1;
    }
    assert(bytes@ =~= xor_bytes(lhs@, rhs@));
    XorName(bytes)
}

} // verus!
