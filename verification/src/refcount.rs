//! The reference counter of a dictionary.
//!
//! The counter is an atomic integer of `portable_atomic`. What it holds at
//! any moment depends on every holder of the dictionary, so the functions
//! here promise next to nothing of what they return: their callers decide on
//! whatever comes back.

use vstd::prelude::*;

verus! {

#[verifier::external_type_specification]
#[verifier::external_body]
pub struct ExAtomicUsize(portable_atomic::AtomicUsize);

/// The count that marks a dictionary as owned by one holder, who may change
/// it.
pub const MUTABLE: usize = usize::MAX;

/// The highest count of holders that share a dictionary.
pub const MAX_REFCOUNT: usize = usize::MAX - 1;

/// `portable_atomic::AtomicUsize::new`: a new counter. Nothing is claimed of
/// it.
#[verifier::external_body]
pub(crate) fn counter_new(v: usize) -> (c: portable_atomic::AtomicUsize) {
    portable_atomic::AtomicUsize::new(v)
}

/// `portable_atomic::AtomicUsize::load` with `Acquire` ordering: the count at
/// this moment. Nothing is claimed of it.
#[verifier::external_body]
pub(crate) fn counter_load(c: &portable_atomic::AtomicUsize) -> (n: usize) {
    c.load(portable_atomic::Ordering::Acquire)
}

/// `portable_atomic::AtomicUsize::fetch_add` with `Relaxed` ordering: adds
/// `v` and returns the count before. Nothing is claimed of it.
#[verifier::external_body]
pub(crate) fn counter_fetch_add(c: &portable_atomic::AtomicUsize, v: usize) -> (n: usize) {
    c.fetch_add(v, portable_atomic::Ordering::Relaxed)
}

/// `portable_atomic::AtomicUsize::fetch_sub` with `Release` ordering:
/// subtracts `v` and returns the count before. Nothing is claimed of it.
#[verifier::external_body]
pub(crate) fn counter_fetch_sub(c: &portable_atomic::AtomicUsize, v: usize) -> (n: usize) {
    c.fetch_sub(v, portable_atomic::Ordering::Release)
}

/// `portable_atomic::AtomicUsize::compare_exchange` with `AcqRel` ordering on
/// success and `Acquire` on failure: stores `new` if the count is `current`.
/// Claimed: on success the count returned is `current`.
#[verifier::external_body]
pub(crate) fn counter_compare_exchange(
    c: &portable_atomic::AtomicUsize,
    current: usize,
    new: usize,
) -> (r: Result<usize, usize>)
    ensures
        r is Ok ==> r.unwrap() == current,
{
    c.compare_exchange(
        current,
        new,
        portable_atomic::Ordering::AcqRel,
        portable_atomic::Ordering::Acquire,
    )
}

/// `portable_atomic::fence` with `Acquire` ordering.
#[verifier::external_body]
pub(crate) fn counter_fence() {
    portable_atomic::fence(portable_atomic::Ordering::Acquire)
}

/// Whether a counter that held `count` marks its dictionary as one that may
/// be changed.
pub fn is_mutable_count(count: usize) -> (b: bool)
    ensures
        b == (count == MUTABLE),
{
    count == MUTABLE
}

/// Whether a dictionary whose counter held `before` when one more holder was
/// counted can take that holder: the count of holders has a highest value.
pub fn admits_holder(before: usize) -> (b: bool)
    ensures
        b == (before != MAX_REFCOUNT),
{
    before != MAX_REFCOUNT
}

/// Whether the holder that found the count `before` when it left was the
/// last one.
pub fn was_last_holder(before: usize) -> (b: bool)
    ensures
        b == (before == 1),
{
    before == 1
}

} // verus!
