//! Byte searches, done by the `memchr` crate.

use vstd::prelude::*;

verus! {

/// Position of the first `c` in `s`, if any.
pub open spec fn first_index(s: Seq<u8>, c: u8) -> Option<nat>
    decreases s.len(),
{
    if s.len() == 0 {
        None
    } else if s[0] == c {
        Some(0)
    } else {
        match first_index(s.drop_first(), c) {
            Some(i) => Some(i + 1),
            None => None,
        }
    }
}

/// `first_index` points at the first `c`, and is `None` only when `s` holds no `c`.
pub proof fn lemma_first_index(s: Seq<u8>, c: u8)
    ensures
        match first_index(s, c) {
            Some(i) => i < s.len() && s[i as int] == c && forall|j: int| 0 <= j < i ==> s[j] != c,
            None => forall|j: int| 0 <= j < s.len() ==> s[j] != c,
        },
    decreases s.len(),
{
    if s.len() > 0 {
        lemma_first_index(s.drop_first(), c);
        if s[0] != c {
            assert forall|j: int| 1 <= j < s.len() implies s[j] == s.drop_first()[j - 1] by {}
        }
    }
}

/// `s` holds no byte `c`.
pub open spec fn free_of(s: Seq<u8>, c: u8) -> bool {
    forall|j: int| 0 <= j < s.len() ==> s[j] != c
}

/// A sequence without `c` has no first `c`.
pub proof fn lemma_first_index_free(s: Seq<u8>, c: u8)
    requires
        free_of(s, c),
    ensures
        first_index(s, c) is None,
{
    lemma_first_index(s, c);
}

/// In `a + [c] + b` with no `c` in `a`, the first `c` is the one after `a`,
/// and splitting there gives `a` and `b` back.
pub proof fn lemma_first_index_join(a: Seq<u8>, c: u8, b: Seq<u8>)
    requires
        free_of(a, c),
    ensures
        first_index(a + seq![c] + b, c) == Some(a.len()),
        (a + seq![c] + b).take(a.len() as int) == a,
        (a + seq![c] + b).skip(a.len() as int + 1) == b,
{
    let s = a + seq![c] + b;
    lemma_first_index(s, c);
    assert(s[a.len() as int] == c);
    if let Some(i) = first_index(s, c) {
        if i < a.len() {
            assert(s[i as int] == a[i as int]);
        }
    }
    assert(s.take(a.len() as int) =~= a);
    assert(s.skip(a.len() as int + 1) =~= b);
}

/// `memchr::memchr`: the index of the first occurrence of `needle` in
/// `haystack`, or `None` when the byte does not occur. Trusted to return the
/// first index at which `haystack` holds `needle`, as the crate documents.
#[verifier::external_body]
pub fn find_byte(needle: u8, haystack: &[u8]) -> (r: Option<usize>)
    ensures
        match r {
            Some(i) => first_index(haystack@, needle) == Some(i as nat),
            None => first_index(haystack@, needle) is None,
        },
{
    memchr::memchr(needle, haystack)
}

/// `needle` occurs in `hay` starting at position `i`.
pub open spec fn occurs_at(hay: Seq<u8>, needle: Seq<u8>, i: int) -> bool {
    0 <= i && i + needle.len() <= hay.len() && hay.subrange(i, i + needle.len()) == needle
}

/// `needle` occurs somewhere in `hay`.
pub open spec fn contains_subslice(hay: Seq<u8>, needle: Seq<u8>) -> bool {
    exists|i: int| occurs_at(hay, needle, i)
}

/// `memchr::memmem::find`: the index of the first occurrence of `needle` in
/// `haystack`. Trusted to return the first position at which `needle` occurs,
/// and `None` only when it occurs nowhere, as the crate documents.
#[verifier::external_body]
fn find_subslice(haystack: &[u8], needle: &[u8]) -> (r: Option<usize>)
    ensures
        match r {
            Some(i) => occurs_at(haystack@, needle@, i as int) && forall|j: int|
                0 <= j < i ==> !occurs_at(haystack@, needle@, j),
            None => forall|j: int| !occurs_at(haystack@, needle@, j),
        },
{
    memchr::memmem::find(haystack, needle)
}

/// Whether `needle` occurs in `haystack`.
pub fn contains(haystack: &[u8], needle: &[u8]) -> (r: bool)
    ensures
        r == contains_subslice(haystack@, needle@),
{
    match find_subslice(haystack, needle) {
        Some(_) => true,
        None => false,
    }
}

} // verus!
