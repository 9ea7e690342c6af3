//! The ring buffer between the network and the sound device.

use ringbuf::traits::Consumer;
use ringbuf::traits::Producer;
use ringbuf::HeapRb;
use vstd::prelude::*;

verus! {

/// A bounded queue of samples, kept by the ring buffer of the `ringbuf` crate.
#[verifier::external_body]
pub struct SampleRing {
    inner: HeapRb<i16>,
}

/// The samples that wait in the ring, the oldest first.
pub uninterp spec fn ring_contents(ring: SampleRing) -> Seq<i16>;

/// How many samples the ring was made to hold.
pub uninterp spec fn ring_capacity(ring: SampleRing) -> nat;

impl SampleRing {
    /// `HeapRb::new`: an empty ring for `capacity` samples.
    ///
    /// It panics for a capacity of zero, and where the memory for the samples cannot be had:
    /// no allocation is larger than `isize::MAX` bytes, and a sample takes two.
    #[verifier::external_body]
    pub(crate) fn new(capacity: usize) -> (ring: SampleRing)
        requires
            0 < capacity,
            2 * capacity <= isize::MAX,
        ensures
            ring_contents(ring) == Seq::<i16>::empty(),
            ring_capacity(ring) == capacity,
    {
        SampleRing { inner: HeapRb::<i16>::new(capacity) }
    }

    /// `Producer::push_slice`: puts samples behind those that wait, as many as there is room for,
    /// from the first on, and says how many.
    #[verifier::external_body]
    pub(crate) fn push_slice(&mut self, samples: &[i16]) -> (count: usize)
        requires
            ring_contents(*old(self)).len() <= ring_capacity(*old(self)),
        ensures
            ring_capacity(*final(self)) == ring_capacity(*old(self)),
            count <= samples@.len(),
            count <= ring_capacity(*old(self)) - ring_contents(*old(self)).len(),
            count == samples@.len() || count == ring_capacity(*old(self)) - ring_contents(
                *old(self),
            ).len(),
            ring_contents(*final(self)) == ring_contents(*old(self)) + samples@.take(count as int),
    {
        self.inner.push_slice(samples)
    }

    /// `Consumer::pop_slice`: moves the oldest samples to the front of `buf`, as many as there are
    /// and as fit, leaves the rest of `buf` alone, and says how many.
    #[verifier::external_body]
    pub(crate) fn pop_slice(&mut self, buf: &mut [i16]) -> (count: usize)
        ensures
            ring_capacity(*final(self)) == ring_capacity(*old(self)),
            count <= old(buf)@.len(),
            count <= ring_contents(*old(self)).len(),
            count == old(buf)@.len() || count == ring_contents(*old(self)).len(),
            final(buf)@ == ring_contents(*old(self)).take(count as int) + old(buf)@.skip(
                count as int,
            ),
            ring_contents(*final(self)) == ring_contents(*old(self)).skip(count as int),
    {
        self.inner.pop_slice(buf)
    }
}

} // verus!
