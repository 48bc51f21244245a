use realtime_voice::ring_buffer::RingBuffer;

#[test]
fn push_refuses_when_full() {
    let mut rb = RingBuffer::new(3);
    assert!(rb.try_push(1));
    assert!(rb.try_push(2));
    assert!(rb.try_push(3));
    assert!(rb.is_full());
    assert!(!rb.try_push(4));
    assert_eq!(rb.occupied_len(), 3);
    assert_eq!(rb.try_pop(), Some(1));
    assert!(rb.try_push(4));
    assert_eq!(rb.try_pop(), Some(2));
    assert_eq!(rb.try_pop(), Some(3));
    assert_eq!(rb.try_pop(), Some(4));
}

#[test]
fn pop_on_empty_reports_nothing() {
    let mut rb = RingBuffer::new(2);
    assert!(rb.is_empty());
    assert_eq!(rb.try_pop(), None);
    assert_eq!(rb.try_pop(), None);
    assert_eq!(rb.occupied_len(), 0);
}

#[test]
fn clear_discards_everything() {
    let mut rb = RingBuffer::new(4);
    rb.try_push(9);
    rb.try_push(8);
    assert_eq!(rb.clear(), 2);
    assert!(rb.is_empty());
    assert_eq!(rb.capacity(), 4);
    assert_eq!(rb.try_pop(), None);
}

#[test]
fn occupancy_never_exceeds_capacity() {
    let mut rb = RingBuffer::new(5);
    let mut state: u32 = 12345;
    for step in 0..2000 {
        state = state.wrapping_mul(1103515245).wrapping_add(12345);
        if (state >> 16) % 3 != 0 {
            rb.try_push(step as i16);
        } else {
            let was_empty = rb.is_empty();
            let popped = rb.try_pop();
            assert_eq!(popped.is_none(), was_empty);
        }
        assert!(rb.occupied_len() <= rb.capacity());
    }
}
