//! Finding one run of values in another.

use vstd::prelude::*;

verus! {

/// `pattern` stands in `data` at `i`.
pub open spec fn occurs_at<T>(data: Seq<T>, pattern: Seq<T>, i: int) -> bool {
    &&& 0 <= i
    &&& i + pattern.len() <= data.len()
    &&& data.subrange(i, i + pattern.len()) == pattern
}

/// `i` is the first place at which `pattern` stands in `data`.
pub open spec fn first_occurrence<T>(data: Seq<T>, pattern: Seq<T>, i: int) -> bool {
    &&& occurs_at(data, pattern, i)
    &&& forall|j: int| 0 <= j < i ==> !occurs_at(data, pattern, j)
}

/// `pattern` stands somewhere in `data`.
pub open spec fn occurs<T>(data: Seq<T>, pattern: Seq<T>) -> bool {
    exists|i: int| occurs_at(data, pattern, i)
}

/// A value that can be told from another of its kind.
trait Element: Sized {
    fn same(&self, other: &Self) -> (b: bool)
        ensures
            b == (*self == *other),
    ;
}

impl Element for u8 {
    fn same(&self, other: &u8) -> (b: bool) {
        *self == *other
    }
}

impl Element for char {
    fn same(&self, other: &char) -> (b: bool) {
        *self == *other
    }
}

fn matches_at<T: Element>(data: &[T], pattern: &[T], i: usize) -> (b: bool)
    requires
        i + pattern@.len() <= data@.len(),
    ensures
        b == occurs_at(data@, pattern@, i as int),
{
    let len = data.len();
    let mut k: usize = 0;
    while k < pattern.len()
        invariant
            k <= pattern@.len(),
            i + pattern@.len() <= data@.len(),
            data@.len() == len,
            forall|j: int| 0 <= j < k ==> data@[i + j] == pattern@[j],
        decreases pattern.len() - k,
    {
        if !data[i + k].same(&pattern[k]) {
            assert(data@.subrange(i as int, i + pattern@.len())[k as int] != pattern@[k as int]);
            return false;
        }
        k += 1;
    }
    assert(data@.subrange(i as int, i + pattern@.len()) =~= pattern@);
    true
}

fn find<T: Element>(data: &[T], pattern: &[T]) -> (found: Option<usize>)
    ensures
        match found {
            Some(i) => first_occurrence(data@, pattern@, i as int),
            None => !occurs(data@, pattern@),
        },
{
    if pattern.len() > data.len() {
        return None;
    }
    let last = data.len() - pattern.len();
    let mut i: usize = 0;
    while i < last
        invariant
            i <= last,
            last + pattern@.len() == data@.len(),
            forall|j: int| 0 <= j < i ==> !occurs_at(data@, pattern@, j),
        decreases last - i,
    {
        if matches_at(data, pattern, i) {
            return Some(i);
        }
        i += 1;
    }
    if matches_at(data, pattern, last) {
        Some(last)
    } else {
        None
    }
}

/// The first place at which the bytes `pattern` stand in `data`.
pub fn find_bytes(data: &[u8], pattern: &[u8]) -> (found: Option<usize>)
    ensures
        match found {
            Some(i) => first_occurrence(data@, pattern@, i as int),
            None => !occurs(data@, pattern@),
        },
{
    find(data, pattern)
}

/// The first place at which the characters `pattern` stand in `data`.
pub fn find_chars(data: &[char], pattern: &[char]) -> (found: Option<usize>)
    ensures
        match found {
            Some(i) => first_occurrence(data@, pattern@, i as int),
            None => !occurs(data@, pattern@),
        },
{
    find(data, pattern)
}

} // verus!
