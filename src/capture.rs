//! Capture decisions: the input callback's write into the capture ring
//! buffer, and the draining task that gathers samples into fixed-size chunks.

use vstd::prelude::*;

use crate::playback::{min_int, push_samples};
use crate::ring_buffer::RingBuffer;

verus! {

/// What the input callback does with a delivered frame: as many samples as
/// fit go into the buffer, the newest ones are dropped. Returns how many
/// were dropped.
pub fn capture_frame(buffer: &mut RingBuffer, frame: &[i16]) -> (dropped: usize)
    ensures
        final(buffer).capacity_spec() == old(buffer).capacity_spec(),
        dropped == frame@.len() - min_int(
            frame@.len() as int,
            old(buffer).capacity_spec() - old(buffer).contents().len(),
        ),
        final(buffer).contents() == old(buffer).contents() + frame@.subrange(0, frame@.len() - dropped),
{
    let next = push_samples(buffer, frame, 0);
    frame.len() - next
}

/// Gathers drained samples until a chunk of `chunk_len` samples is complete.
pub struct ChunkAccumulator {
    pending: Vec<i16>,
    chunk_len: usize,
}

impl ChunkAccumulator {
    /// Samples gathered and not yet sealed into a chunk, oldest first.
    pub closed spec fn pending_spec(&self) -> Seq<i16> {
        self.pending@
    }

    pub closed spec fn chunk_len_spec(&self) -> nat {
        self.chunk_len as nat
    }

    /// An empty accumulator sealing chunks of `chunk_len` samples.
    pub fn new(chunk_len: usize) -> (r: ChunkAccumulator)
        requires
            chunk_len > 0,
        ensures
            r.pending_spec() == Seq::<i16>::empty(),
            r.chunk_len_spec() == chunk_len,
    {
        ChunkAccumulator { pending: Vec::new(), chunk_len }
    }

    /// Moves every sample the buffer holds into the accumulator, oldest
    /// first.
    pub fn drain(&mut self, buffer: &mut RingBuffer)
        ensures
            final(self).chunk_len_spec() == old(self).chunk_len_spec(),
            final(self).pending_spec() == old(self).pending_spec() + old(buffer).contents(),
            final(buffer).contents() == Seq::<i16>::empty(),
            final(buffer).capacity_spec() == old(buffer).capacity_spec(),
    {
        loop
            invariant
                self.chunk_len == old(self).chunk_len,
                buffer.capacity_spec() == old(buffer).capacity_spec(),
                self.pending@ + buffer.contents() == old(self).pending@ + old(buffer).contents(),
            ensures
                buffer.contents() == Seq::<i16>::empty(),
                buffer.capacity_spec() == old(buffer).capacity_spec(),
                self.pending@ == old(self).pending@ + old(buffer).contents(),
                self.chunk_len == old(self).chunk_len,
            decreases buffer.contents().len(),
        {
            let ghost before = buffer.contents();
            match buffer.try_pop() {
                Some(s) => {
                    self.pending.push(s);
                    proof {
                        assert(before == seq![s] + before.drop_first());
                        assert(self.pending@ + buffer.contents() =~= old(self).pending@ + old(buffer).contents());
                    }
                },
                None => {
                    proof {
                        assert(self.pending@ =~= old(self).pending@ + old(buffer).contents());
                    }
                    break;
                },
            }
        }
    }

    /// Seals the oldest `chunk_len` gathered samples into a chunk once that
    /// many are there; `None` before that.
    pub fn take_chunk(&mut self) -> (r: Option<Vec<i16>>)
        ensures
            final(self).chunk_len_spec() == old(self).chunk_len_spec(),
            old(self).pending_spec().len() < old(self).chunk_len_spec() ==> r is None && final(self).pending_spec()
                == old(self).pending_spec(),
            old(self).pending_spec().len() >= old(self).chunk_len_spec() ==> r is Some && r->Some_0@ == old(
                self,
            ).pending_spec().take(old(self).chunk_len_spec() as int) && final(self).pending_spec() == old(
                self,
            ).pending_spec().skip(old(self).chunk_len_spec() as int),
    {
        if self.pending.len() < self.chunk_len {
            return None;
        }
        let mut chunk = self.pending.split_off(self.chunk_len);
        core::mem::swap(&mut chunk, &mut self.pending);
        Some(chunk)
    }
}

} // verus!
