use orrery::frame_count::FrameCount;

#[test]
fn new_ring_is_filled_and_not_ready() {
    let ring: FrameCount<f32, 4> = FrameCount::new(0.0166);
    assert_eq!(ring.index, 0);
    assert!(!ring.ready);
    assert_eq!(ring.len(), 4);
    assert!(ring.frame_ms.iter().all(|&x| x == 0.0166));
}

#[test]
fn advance_wraps_and_becomes_ready() {
    let mut ring: FrameCount<u32, 3> = FrameCount::new(0);
    ring.advance();
    assert_eq!((ring.index, ring.ready), (1, false));
    ring.advance();
    assert_eq!((ring.index, ring.ready), (2, false));
    ring.advance();
    assert_eq!((ring.index, ring.ready), (0, true));
    ring.advance();
    assert_eq!((ring.index, ring.ready), (1, true));
}

#[test]
fn set_frame_writes_current_slot() {
    let mut ring: FrameCount<u32, 3> = FrameCount::new(7);
    ring.advance();
    ring.set_frame(42);
    assert_eq!(ring.frame_ms, [7, 42, 7]);
    assert_eq!(ring.index, 1);
}

#[test]
fn ready_after_n_steps_for_large_ring() {
    let mut ring: FrameCount<f32, 600> = FrameCount::new(0.0);
    for _ in 0..599 {
        ring.advance();
    }
    assert!(!ring.ready);
    assert_eq!(ring.index, 599);
    ring.advance();
    assert!(ring.ready);
    assert_eq!(ring.index, 0);
}

#[test]
fn single_slot_ring_is_ready_at_once() {
    let mut ring: FrameCount<u8, 1> = FrameCount::new(0);
    ring.advance();
    assert_eq!((ring.index, ring.ready), (0, true));
}
