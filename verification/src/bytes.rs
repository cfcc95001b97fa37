//! Small verified helpers on byte strings.

use vstd::prelude::*;

verus! {

/// Whether two byte slices hold the same bytes.
pub fn same_bytes(a: &[u8], b: &[u8]) -> (same: bool)
    ensures
        same == (a@ == b@),
{
    if a.len() != b.len() {
        return false;
    }
    let mut i: usize = 0;
    while i < a.len()
        invariant
            a@.len() == b@.len(),
            i <= a@.len(),
            forall|k: int| 0 <= k < i ==> a@[k] == b@[k],
        decreases a@.len() - i,
    {
        if a[i] != b[i] {
            return false;
        }
        i += 1;
    }
    assert(a@ =~= b@);
    true
}

/// A copy of a byte slice.
pub fn copy_bytes(a: &[u8]) -> (out: Vec<u8>)
    ensures
        out@ == a@,
{
    let mut out: Vec<u8> = Vec::new();
    let mut i: usize = 0;
    while i < a.len()
        invariant
            i <= a@.len(),
            out@ == a@.subrange(0, i as int),
        decreases a@.len() - i,
    {
        out.push(a[i]);
        assert(out@ =~= a@.subrange(0, i + 1));
        i += 1;
    }
    assert(a@.subrange(0, a@.len() as int) =~= a@);
    out
}

/// The first position at or after `k` at which `a` and `b` differ, or at
/// which one of them ends.
pub open spec fn first_diff(a: Seq<u8>, b: Seq<u8>, k: int) -> int
    decreases a.len() - k,
{
    if 0 <= k < a.len() && k < b.len() && a[k] == b[k] {
        first_diff(a, b, k + 1)
    } else {
        k
    }
}

/// Whether `a` comes before `b` in the lexicographic order of byte strings.
pub open spec fn lex_less(a: Seq<u8>, b: Seq<u8>) -> bool {
    let k = first_diff(a, b, 0);
    k < b.len() && (k >= a.len() || a[k] < b[k])
}

/// Up to their first difference two byte strings agree, and it is the same
/// whichever of them is named first.
pub proof fn lemma_first_diff(a: Seq<u8>, b: Seq<u8>, k: int)
    requires
        0 <= k <= a.len(),
        k <= b.len(),
    ensures
        k <= first_diff(a, b, k) <= a.len(),
        first_diff(a, b, k) <= b.len(),
        first_diff(a, b, k) == first_diff(b, a, k),
        forall|j: int| k <= j < first_diff(a, b, k) ==> a[j] == b[j],
        first_diff(a, b, k) < a.len() && first_diff(a, b, k) < b.len() ==> a[first_diff(a, b, k)] != b[first_diff(
            a,
            b,
            k,
        )],
    decreases a.len() - k,
{
    if k < a.len() && k < b.len() && a[k] == b[k] {
        lemma_first_diff(a, b, k + 1);
    }
}

/// The lexicographic order is total: of two different byte strings exactly
/// one comes before the other, and none comes before itself.
pub proof fn lemma_lex_total(a: Seq<u8>, b: Seq<u8>)
    ensures
        a != b ==> (lex_less(a, b) <==> !lex_less(b, a)),
        a == b ==> !lex_less(a, b),
{
    lemma_first_diff(a, b, 0);
    let k = first_diff(a, b, 0);
    if a != b {
        if k == a.len() && k == b.len() {
            assert(a =~= b);
        }
    }
}

/// Whether `a` comes after `b` in the lexicographic order.
pub fn lex_greater(a: &[u8], b: &[u8]) -> (greater: bool)
    ensures
        greater == lex_less(b@, a@),
{
    let mut i: usize = 0;
    while i < a.len() && i < b.len()
        invariant
            i <= a@.len(),
            i <= b@.len(),
            first_diff(b@, a@, 0) == first_diff(b@, a@, i as int),
        decreases a@.len() - i,
    {
        if a[i] != b[i] {
            return b[i] < a[i];
        }
        i += 1;
    }
    i < a.len()
}

} // verus!
