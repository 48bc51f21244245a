//! Bounded sample buffer between a producer and a consumer that must never
//! block: pushes on a full buffer are refused, pops on an empty one report
//! that nothing is there.

use ringbuf::traits::{Consumer, Observer, Producer};
use ringbuf::HeapRb;
use vstd::prelude::*;

verus! {

/// ringbuf's heap-allocated ring buffer of samples, opaque to proofs; what
/// it holds is known only through `ring_contents` and `ring_capacity`.
#[verifier::external_body]
pub struct SampleRing {
    rb: HeapRb<i16>,
}

/// The samples held by a ring buffer, oldest first.
pub uninterp spec fn ring_contents(rb: SampleRing) -> Seq<i16>;

/// The capacity a ring buffer was created with.
pub uninterp spec fn ring_capacity(rb: SampleRing) -> nat;

/// Relies on ringbuf's `HeapRb::new`: an empty buffer of the given capacity
/// (it panics on a zero capacity).
#[verifier::external_body]
fn rb_new(capacity: usize) -> (r: SampleRing)
    requires
        capacity > 0,
    ensures
        ring_contents(r) == Seq::<i16>::empty(),
        ring_capacity(r) == capacity,
{
    SampleRing { rb: HeapRb::<i16>::new(capacity) }
}

/// Relies on ringbuf's `Producer::try_push`: appends the sample unless the
/// buffer is full, and reports whether it did; it never panics.
#[verifier::external_body]
fn rb_try_push(rb: &mut SampleRing, sample: i16) -> (pushed: bool)
    ensures
        ring_capacity(*final(rb)) == ring_capacity(*old(rb)),
        pushed == (ring_contents(*old(rb)).len() < ring_capacity(*old(rb))),
        pushed ==> ring_contents(*final(rb)) == ring_contents(*old(rb)).push(sample),
        !pushed ==> ring_contents(*final(rb)) == ring_contents(*old(rb)),
    no_unwind
{
    rb.rb.try_push(sample).is_ok()
}

/// Relies on ringbuf's `Consumer::try_pop`: removes and returns the oldest
/// sample, or `None` on an empty buffer; it never panics.
#[verifier::external_body]
fn rb_try_pop(rb: &mut SampleRing) -> (r: Option<i16>)
    ensures
        ring_capacity(*final(rb)) == ring_capacity(*old(rb)),
        ring_contents(*old(rb)).len() == 0 ==> r is None,
        ring_contents(*old(rb)).len() == 0 ==> ring_contents(*final(rb)) == ring_contents(*old(rb)),
        ring_contents(*old(rb)).len() > 0 ==> r == Some(ring_contents(*old(rb))[0]),
        ring_contents(*old(rb)).len() > 0 ==> ring_contents(*final(rb)) == ring_contents(*old(rb)).drop_first(),
    no_unwind
{
    rb.rb.try_pop()
}

/// Relies on ringbuf's `Consumer::clear`: drops every held sample and
/// returns how many there were; it never panics on `i16` items.
#[verifier::external_body]
fn rb_clear(rb: &mut SampleRing) -> (r: usize)
    ensures
        ring_capacity(*final(rb)) == ring_capacity(*old(rb)),
        ring_contents(*final(rb)) == Seq::<i16>::empty(),
        r == ring_contents(*old(rb)).len(),
    no_unwind
{
    rb.rb.clear()
}

/// Relies on ringbuf's `Observer::occupied_len`: the number of held samples.
#[verifier::external_body]
fn rb_occupied_len(rb: &SampleRing) -> (r: usize)
    ensures
        r == ring_contents(*rb).len(),
{
    rb.rb.occupied_len()
}

/// Fixed-capacity FIFO of samples. It never holds more samples than its
/// capacity, and neither end ever blocks.
pub struct RingBuffer {
    ring: SampleRing,
    cap: usize,
}

impl RingBuffer {
    #[verifier::type_invariant]
    spec fn inv(self) -> bool {
        &&& self.cap > 0
        &&& ring_capacity(self.ring) == self.cap
        &&& ring_contents(self.ring).len() <= self.cap
    }

    /// The buffered samples, oldest first.
    pub closed spec fn contents(&self) -> Seq<i16> {
        ring_contents(self.ring)
    }

    /// The number of samples the buffer can hold.
    pub closed spec fn capacity_spec(&self) -> nat {
        self.cap as nat
    }

    /// Creates an empty buffer that holds up to `capacity` samples.
    pub fn new(capacity: usize) -> (r: RingBuffer)
        requires
            capacity > 0,
        ensures
            r.contents() == Seq::<i16>::empty(),
            r.capacity_spec() == capacity,
            r.contents().len() <= r.capacity_spec(),
    {
        RingBuffer { ring: rb_new(capacity), cap: capacity }
    }

    /// The number of samples the buffer can hold.
    pub fn capacity(&self) -> (r: usize)
        ensures
            r == self.capacity_spec(),
    {
        self.cap
    }

    /// The number of buffered samples; never more than the capacity, whatever
    /// calls were made on the buffer before.
    pub fn occupied_len(&self) -> (r: usize)
        ensures
            r == self.contents().len(),
            r <= self.capacity_spec(),
    {
        proof {
            use_type_invariant(self);
        }
        rb_occupied_len(&self.ring)
    }

    /// Whether no sample is buffered.
    pub fn is_empty(&self) -> (r: bool)
        ensures
            r == (self.contents().len() == 0),
    {
        rb_occupied_len(&self.ring) == 0
    }

    /// Whether the buffer holds as many samples as it can.
    pub fn is_full(&self) -> (r: bool)
        ensures
            r == (self.contents().len() == self.capacity_spec()),
    {
        proof {
            use_type_invariant(self);
        }
        rb_occupied_len(&self.ring) == self.cap
    }

    /// Appends `sample` unless the buffer is full; returns whether it did.
    /// A full buffer is left as it was.
    pub fn try_push(&mut self, sample: i16) -> (pushed: bool)
        ensures
            final(self).capacity_spec() == old(self).capacity_spec(),
            final(self).contents().len() <= final(self).capacity_spec(),
            pushed == (old(self).contents().len() < old(self).capacity_spec()),
            pushed ==> final(self).contents() == old(self).contents().push(sample),
            !pushed ==> final(self).contents() == old(self).contents(),
    {
        proof {
            use_type_invariant(&*self);
        }
        rb_try_push(&mut self.ring, sample)
    }

    /// Removes and returns the oldest sample; `None` when the buffer is empty.
    pub fn try_pop(&mut self) -> (r: Option<i16>)
        ensures
            final(self).capacity_spec() == old(self).capacity_spec(),
            final(self).contents().len() <= final(self).capacity_spec(),
            old(self).contents().len() == 0 ==> r is None && final(self).contents() == old(self).contents(),
            old(self).contents().len() > 0 ==> r == Some(old(self).contents()[0])
                && final(self).contents() == old(self).contents().drop_first(),
    {
        proof {
            use_type_invariant(&*self);
        }
        rb_try_pop(&mut self.ring)
    }

    /// Discards every buffered sample; returns how many there were.
    pub fn clear(&mut self) -> (r: usize)
        ensures
            final(self).capacity_spec() == old(self).capacity_spec(),
            final(self).contents().len() <= final(self).capacity_spec(),
            final(self).contents() == Seq::<i16>::empty(),
            r == old(self).contents().len(),
    {
        proof {
            use_type_invariant(&*self);
        }
        rb_clear(&mut self.ring)
    }
}

} // verus!
