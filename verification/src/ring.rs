//! The ring of device samples between the render thread and the audio
//! callback.

use vstd::prelude::*;
use ringbuf::traits::{Consumer, Observer, Producer};
use ringbuf::HeapRb;

verus! {

/// A heap-allocated ring of `ringbuf`, holding device samples as words.
#[verifier::external_body]
pub struct SampleRing {
    inner: HeapRb<u64>,
}

/// The samples that wait in a ring, the oldest first.
pub uninterp spec fn ring_contents(ring: SampleRing) -> Seq<u64>;

/// The number of samples that a ring was made to hold.
pub uninterp spec fn ring_capacity(ring: SampleRing) -> nat;

/// What a ring holds after `elems` were offered to it: as many of them as
/// there was room for, behind what it held.
pub open spec fn pushed(contents: Seq<u64>, capacity: nat, elems: Seq<u64>) -> Seq<u64> {
    contents + elems.subrange(0, accepted(contents, capacity, elems.len()) as int)
}

/// How many of `offered` samples a ring takes.
pub open spec fn accepted(contents: Seq<u64>, capacity: nat, offered: nat) -> nat {
    if contents.len() + offered <= capacity {
        offered
    } else {
        (capacity - contents.len()) as nat
    }
}

/// How many samples a ring gives into room for `wanted`.
pub open spec fn popped(contents: Seq<u64>, wanted: nat) -> nat {
    if wanted <= contents.len() {
        wanted
    } else {
        contents.len()
    }
}

impl SampleRing {
    /// `HeapRb::new` allocates an empty ring of exactly `capacity` places;
    /// it panics for a capacity of zero.
    #[verifier::external_body]
    pub(crate) fn new(capacity: usize) -> (ring: SampleRing)
        requires
            capacity > 0,
        ensures
            ring_contents(ring) == Seq::<u64>::empty(),
            ring_capacity(ring) == capacity,
    {
        SampleRing { inner: HeapRb::new(capacity) }
    }

    /// `Observer::capacity` is the number of places the ring was made with.
    #[verifier::external_body]
    pub(crate) fn capacity(&self) -> (n: usize)
        ensures
            n == ring_capacity(*self),
            n > 0,
    {
        self.inner.capacity().get()
    }

    /// `Observer::occupied_len` counts the samples that wait in the ring,
    /// never more than its capacity.
    #[verifier::external_body]
    pub(crate) fn occupied_len(&self) -> (n: usize)
        ensures
            n == ring_contents(*self).len(),
            n <= ring_capacity(*self),
    {
        self.inner.occupied_len()
    }

    /// `Observer::vacant_len` counts the free places.
    #[verifier::external_body]
    pub(crate) fn vacant_len(&self) -> (n: usize)
        ensures
            n == ring_capacity(*self) - ring_contents(*self).len(),
    {
        self.inner.vacant_len()
    }

    /// `Consumer::clear` removes every sample and returns how many went.
    #[verifier::external_body]
    pub(crate) fn clear(&mut self) -> (n: usize)
        ensures
            n == ring_contents(*old(self)).len(),
            ring_contents(*final(self)) == Seq::<u64>::empty(),
            ring_capacity(*final(self)) == ring_capacity(*old(self)),
    {
        self.inner.clear()
    }

    /// `Producer::push_slice` appends the samples of `elems` in order, as
    /// many as there is room for, and returns how many it took.
    #[verifier::external_body]
    pub(crate) fn push_slice(&mut self, elems: &[u64]) -> (n: usize)
        ensures
            n == accepted(ring_contents(*old(self)), ring_capacity(*old(self)), elems@.len()),
            ring_contents(*final(self)) == pushed(
                ring_contents(*old(self)),
                ring_capacity(*old(self)),
                elems@,
            ),
            ring_capacity(*final(self)) == ring_capacity(*old(self)),
            ring_contents(*final(self)).len() <= ring_capacity(*final(self)),
    {
        self.inner.push_slice(elems)
    }

    /// `Consumer::pop_slice` moves the oldest samples to the front of
    /// `elems`, as many as wait and fit, and returns how many it moved; the
    /// rest of `elems` stays as it was.
    #[verifier::external_body]
    pub(crate) fn pop_slice(&mut self, elems: &mut Vec<u64>) -> (n: usize)
        ensures
            n == popped(ring_contents(*old(self)), old(elems)@.len()),
            final(elems)@ == ring_contents(*old(self)).subrange(0, n as int) + old(elems)@.subrange(n as int, old(elems)@.len() as int),
            ring_contents(*final(self)) == ring_contents(*old(self)).subrange(
                n as int,
                ring_contents(*old(self)).len() as int,
            ),
            ring_capacity(*final(self)) == ring_capacity(*old(self)),
    {
        self.inner.pop_slice(elems.as_mut_slice())
    }
}

} // verus!
