//! Searching and comparing byte sequences.

use vstd::prelude::*;

verus! {

/// The byte that separates the tokens of a line.
pub const SPACE: u8 = ' ' as u8;

/// The byte that ends a line.
pub const NEWLINE: u8 = '\n' as u8;

/// The index of the first occurrence of `b` in `s`, or `s.len()` where `s` does not hold `b`.
pub open spec fn first_index(s: Seq<u8>, b: u8) -> int
    decreases s.len(),
{
    if s.len() == 0 || s[0] == b {
        0
    } else {
        1 + first_index(s.skip(1), b)
    }
}

/// `first_index` points at the first `b`, and at the end where there is none.
pub proof fn lemma_first_index(s: Seq<u8>, b: u8)
    ensures
        0 <= first_index(s, b) <= s.len(),
        forall|j: int| 0 <= j < first_index(s, b) ==> s[j] != b,
        first_index(s, b) < s.len() ==> s[first_index(s, b)] == b,
    decreases s.len(),
{
    if s.len() == 0 || s[0] == b {
    } else {
        let t = s.skip(1);
        lemma_first_index(t, b);
        assert forall|j: int| 0 <= j < first_index(s, b) implies s[j] != b by {
            if j > 0 {
                assert(s[j] == t[j - 1]);
            }
        }
    }
}

/// An index that no `b` precedes, and that holds `b` or is the end, is the first index.
pub proof fn lemma_first_index_is(s: Seq<u8>, b: u8, i: int)
    requires
        0 <= i <= s.len(),
        forall|j: int| 0 <= j < i ==> s[j] != b,
        i < s.len() ==> s[i] == b,
    ensures
        first_index(s, b) == i,
    decreases s.len(),
{
    if s.len() == 0 || s[0] == b {
    } else {
        let t = s.skip(1);
        lemma_first_index_is(t, b, i - 1);
    }
}

/// The bytes of `part` stand in `whole`, one after the other, from the index
/// `from` on.
pub open spec fn stands_at(part: Seq<u8>, whole: Seq<u8>, from: int) -> bool {
    &&& 0 <= from
    &&& from + part.len() <= whole.len()
    &&& part == whole.subrange(from, from + part.len())
}

/// What stands in a part of a sequence stands in the sequence, further on by
/// the place of that part.
pub proof fn lemma_stands_at_within(
    part: Seq<u8>,
    middle: Seq<u8>,
    whole: Seq<u8>,
    from: int,
    middle_from: int,
)
    requires
        stands_at(part, middle, from),
        stands_at(middle, whole, middle_from),
    ensures
        stands_at(part, whole, middle_from + from),
{
    assert(part =~= whole.subrange(middle_from + from, middle_from + from + part.len()));
}

/// Finds the first occurrence of `b` in `s`; the length of `s` where there is none.
pub fn find_byte(s: &[u8], b: u8) -> (i: usize)
    ensures
        i == first_index(s@, b),
        i <= s@.len(),
        forall|j: int| 0 <= j < i ==> s@[j] != b,
        i < s@.len() ==> s@[i as int] == b,
{
    let mut i: usize = 0;
    while i < s.len() && s[i] != b
        invariant
            i <= s@.len(),
            forall|j: int| 0 <= j < i ==> s@[j] != b,
        decreases s@.len() - i,
    {
        i += 1;
    }
    proof {
        lemma_first_index_is(s@, b, i as int);
    }
    i
}

/// Tells whether two byte slices hold the same bytes.
pub fn bytes_eq(a: &[u8], b: &[u8]) -> (same: bool)
    ensures
        same == (a@ == b@),
{
    if a.len() != b.len() {
        return false;
    }
    let mut i: usize = 0;
    while i < a.len()
        invariant
            i <= a@.len(),
            a@.len() == b@.len(),
            forall|j: int| 0 <= j < i ==> a@[j] == b@[j],
        decreases a@.len() - i,
    {
        if a[i] != b[i] {
            return false;
        }
        i += 1;
    }
    assert(a@ =~= b@);
    true
}

/// Tells whether `s` begins with the bytes of `prefix`.
pub fn starts_with(s: &[u8], prefix: &[u8]) -> (found: bool)
    ensures
        found == prefix@.is_prefix_of(s@),
{
    if prefix.len() > s.len() {
        return false;
    }
    bytes_eq(&s[0..prefix.len()], prefix)
}

} // verus!
