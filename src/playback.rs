//! Playback decisions: what a `Play` or `Stop` command does to the playback
//! ring buffer, and what the output callback writes for each frame. The
//! thread that sleeps between retries and the device callback itself live
//! outside the library.

use vstd::prelude::*;

use crate::pcm::{decode_pcm16, pcm16_samples};
use crate::ring_buffer::RingBuffer;

verus! {

/// An instruction for the playback loop.
pub enum PlaybackCommand {
    /// Queue these samples, already in the output device's format.
    Play(Vec<i16>),
    /// Discard everything queued and not yet played.
    Stop,
}

/// Capacity of the playback ring buffer: generous, because synthesized
/// speech arrives much faster than it is played.
pub const RING_BUFFER_CAPACITY: usize = 2_400_000;

pub open spec fn min_int(a: int, b: int) -> int {
    if a <= b {
        a
    } else {
        b
    }
}

/// The frame the output callback writes: buffered samples first, then
/// silence for every slot the buffer could not fill.
pub open spec fn output_frame(buffered: Seq<i16>, len: nat) -> Seq<i16> {
    Seq::new(len, |i: int| if i < buffered.len() { buffered[i] } else { 0i16 })
}

/// Pushes `samples[start..]` into `buffer` until it is full or every sample
/// is in; returns the index of the first sample not pushed. The caller backs
/// off and calls again from that index while it is below `samples.len()`.
pub fn push_samples(buffer: &mut RingBuffer, samples: &[i16], start: usize) -> (next: usize)
    requires
        start <= samples@.len(),
    ensures
        final(buffer).capacity_spec() == old(buffer).capacity_spec(),
        next == start + min_int(
            samples@.len() - start,
            old(buffer).capacity_spec() - old(buffer).contents().len(),
        ),
        final(buffer).contents() == old(buffer).contents() + samples@.subrange(start as int, next as int),
{
    // Reading the fill level also yields the capacity bound used below.
    let _occupied = buffer.occupied_len();
    let mut i: usize = start;
    while i < samples.len()
        invariant_except_break
            start <= i <= samples@.len(),
            buffer.capacity_spec() == old(buffer).capacity_spec(),
            buffer.contents() == old(buffer).contents() + samples@.subrange(start as int, i as int),
            old(buffer).contents().len() + (i - start) <= old(buffer).capacity_spec(),
        ensures
            start <= i <= samples@.len(),
            buffer.capacity_spec() == old(buffer).capacity_spec(),
            buffer.contents() == old(buffer).contents() + samples@.subrange(start as int, i as int),
            i == samples@.len() || buffer.contents().len() == buffer.capacity_spec(),
            buffer.contents().len() <= buffer.capacity_spec(),
        decreases samples@.len() - i,
    {
        if !buffer.try_push(samples[i]) {
            break;
        }
        proof {
            assert(samples@.subrange(start as int, i + 1) == samples@.subrange(start as int, i as int).push(samples@[i as int]));
        }
        i = i + 1;
    }
    i
}

/// Carries out `Stop`: every queued sample is discarded. Issuing it again
/// leaves the buffer just as empty; it never fails.
pub fn stop_playback(buffer: &mut RingBuffer)
    ensures
        final(buffer).capacity_spec() == old(buffer).capacity_spec(),
        final(buffer).contents() == Seq::<i16>::empty(),
{
    buffer.clear();
}

/// What the output callback writes for a frame of `len` slots: one sample
/// popped per slot while the buffer has any, silence after that. It never
/// waits for data.
pub fn fill_output(buffer: &mut RingBuffer, len: usize) -> (frame: Vec<i16>)
    ensures
        frame@ == output_frame(old(buffer).contents(), len as nat),
        final(buffer).capacity_spec() == old(buffer).capacity_spec(),
        final(buffer).contents() == old(buffer).contents().skip(
            min_int(len as int, old(buffer).contents().len() as int),
        ),
{
    let mut frame: Vec<i16> = Vec::with_capacity(len);
    let mut i: usize = 0;
    while i < len
        invariant
            i <= len,
            frame@.len() == i,
            buffer.capacity_spec() == old(buffer).capacity_spec(),
            buffer.contents() == old(buffer).contents().skip(min_int(i as int, old(buffer).contents().len() as int)),
            forall|j: int| 0 <= j < i ==> frame@[j] == output_frame(old(buffer).contents(), len as nat)[j],
        decreases len - i,
    {
        let sample = match buffer.try_pop() {
            Some(s) => s,
            None => 0,
        };
        frame.push(sample);
        i = i + 1;
    }
    assert(frame@ =~= output_frame(old(buffer).contents(), len as nat));
    frame
}

/// The frame of `len` slots that plays a clip from `position` on: the clip's
/// samples while it lasts, silence after its end.
pub open spec fn clip_frame(clip: Seq<i16>, position: nat, len: nat) -> Seq<i16> {
    Seq::new(len, |i: int| if position + i < clip.len() { clip[position + i] } else { 0i16 })
}

/// Plays one decoded PCM16 clip from start to end on the output device.
pub struct AudioPlayer {}

impl AudioPlayer {
    /// Creates a player for the default output device.
    pub fn new() -> (r: AudioPlayer) {
        AudioPlayer {  }
    }

    /// Reads a clip of little-endian PCM16 bytes into samples.
    pub fn decode_clip(&self, audio_data: &[u8]) -> (r: Vec<i16>)
        ensures
            r@ == pcm16_samples(audio_data@),
    {
        decode_pcm16(audio_data)
    }

    /// The next output frame of `len` slots for a clip played up to
    /// `position`, and the position after it.
    pub fn next_frame(&self, clip: &[i16], position: usize, len: usize) -> (r: (Vec<i16>, usize))
        requires
            position <= clip@.len(),
        ensures
            r.0@ == clip_frame(clip@, position as nat, len as nat),
            r.1 == min_int(position + len, clip@.len() as int),
    {
        let remaining = clip.len() - position;
        let mut frame: Vec<i16> = Vec::with_capacity(len);
        let mut i: usize = 0;
        while i < len
            invariant
                remaining == clip@.len() - position,
                position <= clip@.len(),
                clip@.len() <= usize::MAX,
                i <= len,
                frame@.len() == i,
                forall|j: int| 0 <= j < i ==> frame@[j] == clip_frame(clip@, position as nat, len as nat)[j],
            decreases len - i,
        {
            if i < remaining {
                frame.push(clip[position + i]);
            } else {
                frame.push(0);
            }
            i = i + 1;
        }
        assert(frame@ =~= clip_frame(clip@, position as nat, len as nat));
        let next = if len <= remaining {
            position + len
        } else {
            clip.len()
        };
        (frame, next)
    }
}

} // verus!
