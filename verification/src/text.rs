//! Searching in byte strings.

use vstd::prelude::*;
use vstd::slice::slice_subrange;

verus! {

/// Whether `needle` stands in `hay` at index `i`.
pub open spec fn occurs_at(hay: Seq<u8>, needle: Seq<u8>, i: int) -> bool {
    &&& 0 <= i
    &&& i + needle.len() <= hay.len()
    &&& hay.subrange(i, i + needle.len()) == needle
}

/// Whether `hay` begins with `prefix`.
pub open spec fn has_prefix(hay: Seq<u8>, prefix: Seq<u8>) -> bool {
    occurs_at(hay, prefix, 0)
}

/// Whether `needle` stands somewhere in `hay`.
pub open spec fn occurs(hay: Seq<u8>, needle: Seq<u8>) -> bool {
    exists|i: int| occurs_at(hay, needle, i)
}

/// Whether `i` is the first index at which `needle` stands in `hay`.
pub open spec fn is_first_occurrence(hay: Seq<u8>, needle: Seq<u8>, i: int) -> bool {
    &&& occurs_at(hay, needle, i)
    &&& forall|j: int| 0 <= j < i ==> !occurs_at(hay, needle, j)
}

/// The first index at which `needle` stands in `hay`, if there is one.
pub open spec fn first_occurrence(hay: Seq<u8>, needle: Seq<u8>) -> Option<int> {
    if occurs(hay, needle) {
        Some(choose|i: int| is_first_occurrence(hay, needle, i))
    } else {
        None
    }
}

/// At most one index is the first occurrence.
pub proof fn lemma_first_occurrence_is_unique(hay: Seq<u8>, needle: Seq<u8>, i: int)
    requires
        is_first_occurrence(hay, needle, i),
    ensures
        first_occurrence(hay, needle) == Some(i),
{
    let k = choose|k: int| is_first_occurrence(hay, needle, k);
    assert(occurs_at(hay, needle, i));
    if k < i {
        assert(!occurs_at(hay, needle, k));
    }
    if i < k {
        assert(!occurs_at(hay, needle, i));
    }
}

/// Whether `needle` stands in `hay` at index `i`.
pub fn matches_at(hay: &[u8], needle: &[u8], i: usize) -> (found: bool)
    ensures
        found == occurs_at(hay@, needle@, i as int),
{
    let n = needle.len();
    if i > hay.len() || n > hay.len() - i {
        return false;
    }
    let mut k: usize = 0;
    while k < n
        invariant
            n == needle@.len(),
            i + n <= hay@.len() == hay.len(),
            k <= n,
            forall|m: int| 0 <= m < k ==> hay@[i + m] == needle@[m],
        decreases n - k,
    {
        if hay[i + k] != needle[k] {
            proof {
                assert(hay@.subrange(i as int, i + n)[k as int] == hay@[i + k]);
            }
            return false;
        }
        k += 1;
    }
    proof {
        assert(hay@.subrange(i as int, i + n) =~= needle@);
    }
    true
}

/// Whether `hay` begins with `prefix`.
pub fn starts_with(hay: &[u8], prefix: &[u8]) -> (found: bool)
    ensures
        found == has_prefix(hay@, prefix@),
{
    matches_at(hay, prefix, 0)
}

/// The first index at which `needle` stands in `hay`.
pub fn find(hay: &[u8], needle: &[u8]) -> (at: Option<usize>)
    ensures
        match at {
            Some(i) => first_occurrence(hay@, needle@) == Some(i as int),
            None => first_occurrence(hay@, needle@) == None::<int>,
        },
        at matches Some(i) ==> i + needle@.len() <= hay@.len(),
{
    if needle.len() > hay.len() {
        return None;
    }
    let last = hay.len() - needle.len();
    let mut i: usize = 0;
    loop
        invariant
            last == hay@.len() - needle@.len(),
            i <= last,
            forall|j: int| 0 <= j < i ==> !occurs_at(hay@, needle@, j),
        decreases last - i,
    {
        if matches_at(hay, needle, i) {
            proof {
                lemma_first_occurrence_is_unique(hay@, needle@, i as int);
            }
            return Some(i);
        }
        if i == last {
            return None;
        }
        i += 1;
    }
}

/// Whether `needle` stands somewhere in `hay`.
pub fn contains(hay: &[u8], needle: &[u8]) -> (found: bool)
    ensures
        found == occurs(hay@, needle@),
{
    find(hay, needle).is_some()
}

/// Whether the two byte strings are equal.
pub fn same_bytes(a: &[u8], b: &[u8]) -> (same: bool)
    ensures
        same == (a@ == b@),
{
    if a.len() != b.len() {
        return false;
    }
    let found = matches_at(a, b, 0);
    proof {
        assert(a@.subrange(0, a@.len() as int) =~= a@);
    }
    found
}

/// The part of `hay` before the first occurrence of `stop`, or all of it
/// where there is none.
pub open spec fn until(hay: Seq<u8>, stop: Seq<u8>) -> Seq<u8> {
    match first_occurrence(hay, stop) {
        Some(i) => hay.subrange(0, i),
        None => hay,
    }
}

/// The part of `hay` after the first occurrence of `marker`, or nothing where
/// there is none.
pub open spec fn after(hay: Seq<u8>, marker: Seq<u8>) -> Seq<u8> {
    match first_occurrence(hay, marker) {
        Some(i) => hay.subrange(i + marker.len(), hay.len() as int),
        None => Seq::empty(),
    }
}

/// The part of `hay` before the first occurrence of `stop`.
pub fn take_until<'a>(hay: &'a [u8], stop: &[u8]) -> (part: &'a [u8])
    ensures
        part@ == until(hay@, stop@),
{
    match find(hay, stop) {
        Some(i) => slice_subrange(hay, 0, i),
        None => {
            proof {
                assert(hay@.subrange(0, hay@.len() as int) =~= hay@);
            }
            slice_subrange(hay, 0, hay.len())
        },
    }
}

/// The part of `hay` after the first occurrence of `marker`.
pub fn take_after<'a>(hay: &'a [u8], marker: &[u8]) -> (part: &'a [u8])
    ensures
        part@ == after(hay@, marker@),
{
    match find(hay, marker) {
        Some(i) => {
            assert(i + marker@.len() <= hay@.len() == hay.len());
            slice_subrange(hay, i + marker.len(), hay.len())
        },
        None => {
            proof {
                assert(hay@.subrange(0, 0) =~= Seq::<u8>::empty());
            }
            slice_subrange(hay, 0, 0)
        },
    }
}

} // verus!
