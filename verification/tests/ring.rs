use spectrum_analyser::ring::RingAccumulator;

#[test]
fn ring_round_trip_returns_samples_in_order() {
    let mut ring = RingAccumulator::new(4, 2, 0i32).unwrap();
    ring.extend(&[9, 9, 9, 9, 9, 9]);
    ring.extend(&[1, 2, 3, 4]);
    let mut out = Vec::new();
    ring.snapshot(&mut out);
    assert_eq!(out, vec![1, 2, 3, 4]);
}

#[test]
fn ring_is_zero_filled_before_it_has_been_filled() {
    let mut ring = RingAccumulator::new(4, 2, 0i32).unwrap();
    let mut out = vec![7, 7];
    ring.snapshot(&mut out);
    assert_eq!(out, vec![0, 0, 0, 0]);
    ring.push(5);
    ring.push(6);
    ring.snapshot(&mut out);
    assert_eq!(out, vec![0, 0, 5, 6]);
}

#[test]
fn ring_snapshot_handles_wraparound() {
    let mut ring = RingAccumulator::new(4, 4, 0i32).unwrap();
    for sample in 1..=11 {
        ring.push(sample);
    }
    let mut out = Vec::new();
    ring.snapshot(&mut out);
    assert_eq!(out, vec![8, 9, 10, 11]);
    ring.push(12);
    ring.snapshot(&mut out);
    assert_eq!(out, vec![9, 10, 11, 12]);
}

#[test]
fn ring_snapshot_at_every_cursor_position() {
    let mut ring = RingAccumulator::new(3, 1, -1i64).unwrap();
    let mut out = Vec::new();
    let mut expected = vec![-1i64, -1, -1];
    for sample in 0..20i64 {
        ring.push(sample);
        expected.remove(0);
        expected.push(sample);
        ring.snapshot(&mut out);
        assert_eq!(out, expected);
    }
}

#[test]
fn ring_asks_for_an_analysis_every_hop() {
    let mut ring = RingAccumulator::new(8, 4, 0u8).unwrap();
    assert_eq!(ring.window_size(), 8);
    assert_eq!(ring.hop_size(), 4);
    assert!(!ring.analysis_due());
    ring.extend(&[1, 2, 3]);
    assert!(!ring.analysis_due());
    ring.push(4);
    assert!(ring.analysis_due());
    ring.push(5);
    assert!(ring.analysis_due());
    ring.restart_hop();
    assert!(!ring.analysis_due());
    ring.extend(&[6, 7, 8, 9]);
    assert!(ring.analysis_due());
    let mut out = Vec::new();
    ring.snapshot(&mut out);
    assert_eq!(out, vec![2, 3, 4, 5, 6, 7, 8, 9]);
}

#[test]
fn ring_counts_every_sample_since_the_last_analysis() {
    let mut ring = RingAccumulator::new(2048, 1024, 0i16).unwrap();
    assert_eq!(ring.samples_since_analysis(), 0);
    ring.extend(&vec![1i16; 2000]);
    assert_eq!(ring.samples_since_analysis(), 2000);
    assert!(ring.analysis_due());
    ring.push(1);
    assert_eq!(ring.samples_since_analysis(), 2001);
    ring.extend(&[]);
    assert_eq!(ring.samples_since_analysis(), 2001);
    ring.restart_hop();
    assert_eq!(ring.samples_since_analysis(), 0);
    ring.extend(&vec![1i16; 1023]);
    assert_eq!(ring.samples_since_analysis(), 1023);
    assert!(!ring.analysis_due());
}

#[test]
fn ring_refuses_a_hop_of_zero_or_beyond_the_window() {
    assert!(RingAccumulator::new(4, 0, 0i32).is_none());
    assert!(RingAccumulator::new(4, 5, 0i32).is_none());
    assert!(RingAccumulator::new(0, 0, 0i32).is_none());
    assert!(RingAccumulator::new(usize::MAX, 1, 0i32).is_none());
    assert!(RingAccumulator::new(4, 4, 0i32).is_some());
    assert!(RingAccumulator::new(1, 1, 0i32).is_some());
}

#[test]
fn ring_holds_floating_point_samples_unchanged() {
    let mut ring = RingAccumulator::new(2, 1, 0.0f32).unwrap();
    ring.extend(&[0.25, -0.5, 0.75]);
    let mut out = Vec::new();
    ring.snapshot(&mut out);
    assert_eq!(out, vec![-0.5f32, 0.75]);
}
