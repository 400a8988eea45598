//! Finds the metadata record in a kernel binary by its marker.

use vstd::prelude::*;
use crate::error::ImageError;
use crate::meta::KERNEL_MAGIC;

verus! {

/// The furthest offset at which the record may follow the entry stub.
pub const MAX_META_OFFSET: usize = 0x10;

/// `needle` stands in `haystack` at `at`.
pub open spec fn occurs_at(haystack: Seq<u8>, needle: Seq<u8>, at: int) -> bool {
    &&& 0 <= at
    &&& at + needle.len() <= haystack.len()
    &&& haystack.subrange(at, at + needle.len()) == needle
}

/// `needle` stands in `haystack` at `at` and nowhere before.
pub open spec fn first_occurrence(haystack: Seq<u8>, needle: Seq<u8>, at: int) -> bool {
    &&& occurs_at(haystack, needle, at)
    &&& forall|j: int| 0 <= j < at ==> !occurs_at(haystack, needle, j)
}

/// `memchr::memmem::find` returns the index of the first occurrence of
/// `needle` in `haystack`, and `None` only where `needle` occurs nowhere
/// in it.
pub assume_specification[ memchr::memmem::find ](haystack: &[u8], needle: &[u8]) -> (found:
    Option<usize>)
    ensures
        match found {
            Some(at) => first_occurrence(haystack@, needle@, at as int),
            None => forall|j: int| !occurs_at(haystack@, needle@, j),
        },
;

/// Where the first marker stands in `kernel`, if there is one.
pub open spec fn first_marker(kernel: Seq<u8>) -> Option<int> {
    if exists|at: int| first_occurrence(kernel, KERNEL_MAGIC@, at) {
        Some(choose|at: int| first_occurrence(kernel, KERNEL_MAGIC@, at))
    } else {
        None
    }
}

/// The offset of the metadata record in `kernel`, or why the kernel is
/// turned down: a kernel without a marker is malformed, and a first marker
/// outside of `1..=MAX_META_OFFSET` is suspicious.
pub open spec fn locate_spec(kernel: Seq<u8>) -> Result<usize, ImageError> {
    match first_marker(kernel) {
        None => Err(ImageError::MalformedInput),
        Some(at) => if 1 <= at <= MAX_META_OFFSET {
            Ok(at as usize)
        } else {
            Err(ImageError::SuspiciousOffset { offset: at as usize })
        },
    }
}

/// There is at most one first occurrence, and `first_marker` names it.
pub proof fn lemma_first_marker(kernel: Seq<u8>, at: int)
    ensures
        first_marker(kernel) == Some(at) <==> first_occurrence(kernel, KERNEL_MAGIC@, at),
        first_marker(kernel) is None <==> forall|j: int| !occurs_at(kernel, KERNEL_MAGIC@, j),
{
    if first_marker(kernel) is None {
        assert forall|j: int| !occurs_at(kernel, KERNEL_MAGIC@, j) by {
            if occurs_at(kernel, KERNEL_MAGIC@, j) {
                lemma_some_first_occurrence(kernel, KERNEL_MAGIC@, j);
            }
        }
    }
}

/// A needle that occurs somewhere has a first occurrence.
proof fn lemma_some_first_occurrence(haystack: Seq<u8>, needle: Seq<u8>, at: int)
    requires
        occurs_at(haystack, needle, at),
    ensures
        exists|first: int| first_occurrence(haystack, needle, first),
    decreases at,
{
    if exists|j: int| 0 <= j < at && occurs_at(haystack, needle, j) {
        let j = choose|j: int| 0 <= j < at && occurs_at(haystack, needle, j);
        lemma_some_first_occurrence(haystack, needle, j);
    } else {
        assert(first_occurrence(haystack, needle, at));
    }
}

/// The acceptance window: a kernel whose first marker stands at one of the
/// offsets `1..=MAX_META_OFFSET` is accepted with that offset, and one whose
/// first marker stands at offset 0 or further in is turned down as
/// suspicious, with the offset.
pub proof fn lemma_locate_window(kernel: Seq<u8>, at: int)
    requires
        first_occurrence(kernel, KERNEL_MAGIC@, at),
    ensures
        1 <= at <= MAX_META_OFFSET ==> locate_spec(kernel) == Ok::<usize, ImageError>(at as usize),
        at == 0 || at > MAX_META_OFFSET ==> locate_spec(kernel) == Err::<usize, ImageError>(
            ImageError::SuspiciousOffset { offset: at as usize },
        ),
{
    lemma_first_marker(kernel, at);
}

/// A kernel without a marker is turned down as malformed, and only such
/// a kernel is.
pub proof fn lemma_locate_absent(kernel: Seq<u8>)
    ensures
        locate_spec(kernel) == Err::<usize, ImageError>(ImageError::MalformedInput) <==> forall|
            j: int,
        |
            !occurs_at(kernel, KERNEL_MAGIC@, j),
{
    lemma_first_marker(kernel, 0);
}

/// Finds the metadata record in a kernel binary.
///
/// The record follows a minimal entry stub, so the first marker has to
/// stand at one of the offsets `1..=MAX_META_OFFSET`. A first marker at
/// offset 0 or behind `MAX_META_OFFSET` is reported as `SuspiciousOffset`,
/// a kernel without any marker as `MalformedInput`.
pub fn locate(kernel: &[u8]) -> (r: Result<usize, ImageError>)
    ensures
        r == locate_spec(kernel@),
{
    let found = memchr::memmem::find(kernel, KERNEL_MAGIC.as_slice());
    proof {
        match found {
            Some(at) => lemma_first_marker(kernel@, at as int),
            None => lemma_first_marker(kernel@, 0),
        }
    }
    match found {
        Some(off) if off == 0 || off > MAX_META_OFFSET => Err(
            ImageError::SuspiciousOffset { offset: off },
        ),
        Some(off) => Ok(off),
        None => Err(ImageError::MalformedInput),
    }
}

} // verus!
