//! The boundary to the `ringbuf` crate.
//!
//! Everything in this file is assumed, not proved: the ring buffer type, the
//! names for what a buffer holds, and one wrapper per `ringbuf` method that
//! the rest of the crate calls. The buffer is used unsplit, through the
//! `Rb` trait, so a buffer has one owner and its contents change only
//! through the `&mut` calls below.

use ringbuf::HeapRb;
use ringbuf::Rb;
use std::collections::TryReserveError;
use vstd::prelude::*;

verus! {

/// An unsplit `ringbuf::HeapRb<i32>`. Opaque to the verifier, which knows of
/// it only what the items below state.
#[verifier::external_body]
pub struct SampleRing {
    rb: HeapRb<i32>,
}

/// The samples stored in a ring buffer, oldest first.
pub uninterp spec fn ring_contents(rb: SampleRing) -> Seq<i32>;

/// The capacity a ring buffer was created with.
pub uninterp spec fn ring_capacity(rb: SampleRing) -> nat;

/// `HeapRb::try_new`: allocates an empty buffer for `capacity` samples, or
/// reports that the allocation failed. The outside function panics on a zero
/// capacity, which the precondition excludes.
#[verifier::external_body]
pub(crate) fn ring_try_new(capacity: usize) -> (r: Result<SampleRing, TryReserveError>)
    requires
        capacity > 0,
    ensures
        r matches Ok(rb) ==> ring_contents(rb) == Seq::<i32>::empty() && ring_capacity(rb)
            == capacity,
{
    HeapRb::<i32>::try_new(capacity).map(|rb| SampleRing { rb })
}

/// `Rb::capacity`: the constant capacity of the buffer.
#[verifier::external_body]
pub(crate) fn ring_capacity_of(ring: &SampleRing) -> (n: usize)
    ensures
        n == ring_capacity(*ring),
{
    ring.rb.capacity()
}

/// `Rb::len`: the number of samples currently stored.
#[verifier::external_body]
pub(crate) fn ring_len(ring: &SampleRing) -> (n: usize)
    ensures
        n == ring_contents(*ring).len(),
{
    ring.rb.len()
}

/// `Rb::push`: appends `sample` behind the stored samples when there is a
/// free place, and otherwise hands it back and leaves the buffer as it was.
#[verifier::external_body]
pub(crate) fn ring_push(ring: &mut SampleRing, sample: i32) -> (r: Result<(), i32>)
    ensures
        ring_capacity(*final(ring)) == ring_capacity(*old(ring)),
        ring_contents(*old(ring)).len() < ring_capacity(*old(ring)) ==> r is Ok
            && ring_contents(*final(ring)) == ring_contents(*old(ring)).push(sample),
        ring_contents(*old(ring)).len() == ring_capacity(*old(ring)) ==> (r matches Err(back)
            && back == sample) && ring_contents(*final(ring)) == ring_contents(*old(ring)),
    no_unwind
{
    ring.rb.push(sample)
}

/// `Rb::pop`: removes and returns the oldest stored sample, or returns `None`
/// and leaves the buffer as it was when nothing is stored.
#[verifier::external_body]
pub(crate) fn ring_pop(ring: &mut SampleRing) -> (r: Option<i32>)
    ensures
        ring_capacity(*final(ring)) == ring_capacity(*old(ring)),
        ring_contents(*old(ring)).len() == 0 ==> r is None && ring_contents(*final(ring))
            == ring_contents(*old(ring)),
        ring_contents(*old(ring)).len() > 0 ==> r == Some(ring_contents(*old(ring))[0])
            && ring_contents(*final(ring)) == ring_contents(*old(ring)).skip(1),
    no_unwind
{
    ring.rb.pop()
}

/// `Rb::push_slice`: appends all of `samples`, in order, behind the stored
/// samples. The outside function panics when `samples` is longer than the
/// free space, which the precondition excludes.
#[verifier::external_body]
pub(crate) fn ring_push_slice(ring: &mut SampleRing, samples: &[i32])
    requires
        ring_contents(*old(ring)).len() + samples@.len() <= ring_capacity(*old(ring)),
    ensures
        ring_capacity(*final(ring)) == ring_capacity(*old(ring)),
        ring_contents(*final(ring)) == ring_contents(*old(ring)) + samples@,
    no_unwind
{
    ring.rb.push_slice(samples)
}

} // verus!
