use realtime_voice::capture::{capture_frame, ChunkAccumulator};
use realtime_voice::resample::{resample_and_convert_channels, SERVER_CHANNELS, SERVER_SAMPLE_RATE};
use realtime_voice::ring_buffer::RingBuffer;

#[test]
fn overflow_drops_the_newest_samples() {
    let mut rb = RingBuffer::new(4);
    assert_eq!(capture_frame(&mut rb, &[1, 2, 3]), 0);
    assert_eq!(capture_frame(&mut rb, &[4, 5, 6]), 2);
    let mut acc = ChunkAccumulator::new(4);
    acc.drain(&mut rb);
    assert!(rb.is_empty());
    assert_eq!(acc.take_chunk(), Some(vec![1, 2, 3, 4]));
}

#[test]
fn chunks_are_sealed_at_the_threshold() {
    let mut rb = RingBuffer::new(100);
    let mut acc = ChunkAccumulator::new(5);
    capture_frame(&mut rb, &[1, 2, 3]);
    acc.drain(&mut rb);
    assert_eq!(acc.take_chunk(), None);
    capture_frame(&mut rb, &[4, 5, 6, 7]);
    acc.drain(&mut rb);
    assert_eq!(acc.take_chunk(), Some(vec![1, 2, 3, 4, 5]));
    assert_eq!(acc.take_chunk(), None);
    capture_frame(&mut rb, &[8, 9, 10]);
    acc.drain(&mut rb);
    assert_eq!(acc.take_chunk(), Some(vec![6, 7, 8, 9, 10]));
}

#[test]
fn captured_stereo_chunks_become_mono_at_the_server_rate() {
    // 100 ms of 48 kHz stereo per chunk, delivered in 10 ms frames.
    let mut rb = RingBuffer::new(48000 * 2);
    let mut acc = ChunkAccumulator::new(9600);
    let mut chunks = Vec::new();
    for f in 0..25 {
        let frame: Vec<i16> = (0..960).map(|i| ((f * 960 + i) % 1000) as i16).collect();
        assert_eq!(capture_frame(&mut rb, &frame), 0);
        acc.drain(&mut rb);
        while let Some(chunk) = acc.take_chunk() {
            chunks.push(chunk);
        }
    }
    assert_eq!(chunks.len(), 2);
    for chunk in &chunks {
        let out = resample_and_convert_channels(chunk, 48000, 2, SERVER_SAMPLE_RATE, SERVER_CHANNELS).unwrap();
        assert_eq!(out.len(), chunk.len() * 24000 / 48000 / 2);
    }
}
