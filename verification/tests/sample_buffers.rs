use sermon::sample_ring::{DopRingBuffer, SampleRing};

#[test]
fn ring_keeps_whole_frames_in_order() {
    let mut r: SampleRing<i32> = SampleRing::new(1000, 2, 10);
    assert_eq!(r.capacity_frames(), 10);
    r.push(&[1, 2, 3, 4, 5]);
    assert_eq!(r.available_frames(), 2);
    assert_eq!(r.pop(3), vec![1, 2, 3]);
    assert_eq!(r.pop(10), vec![4]);
    assert_eq!(r.len(), 0);
}

#[test]
fn ring_overflow_keeps_newest() {
    let mut r: SampleRing<i32> = SampleRing::new(1000, 1, 3);
    r.push(&[1, 2]);
    r.push(&[3, 4, 5]);
    assert_eq!(r.overflow_count(), 1);
    assert_eq!(r.pop(10), vec![3, 4, 5]);
}

#[test]
fn ring_underrun_fills_silence() {
    let mut r: SampleRing<i32> = SampleRing::new(1000, 1, 10);
    r.push(&[7, 8]);
    let mut out = [1i32; 4];
    r.pop_into(&mut out, 0);
    assert_eq!(out, [7, 8, 0, 0]);
    assert_eq!(r.underrun_count(), 1);
    r.clear();
    assert_eq!(r.available_frames(), 0);
}

#[test]
fn dop_ring_counts_frames() {
    let mut r = DopRingBuffer::new(176_400, 2, 10);
    assert_eq!(r.channels(), 2);
    assert_eq!(r.capacity_frames(), 1764);
    r.push(&[1, 2, 3, 4, 5]);
    assert_eq!(r.available_frames(), 2);
    assert_eq!(r.pop(2), vec![1, 2]);
    assert_eq!(r.underrun_count(), 0);
    assert_eq!(r.overflow_count(), 0);
    r.clear();
    assert_eq!(r.available_frames(), 0);
}

#[test]
fn filling_exactly_to_capacity_drops_nothing() {
    let mut r: SampleRing<i32> = SampleRing::new(1000, 1, 4);
    r.push(&[1, 2, 3, 4]);
    assert_eq!(r.overflow_count(), 0);
    assert_eq!(r.available_frames(), 4);
    r.push(&[5]);
    assert_eq!(r.overflow_count(), 1);
    assert_eq!(r.pop(10), vec![2, 3, 4, 5]);
    r.push(&[6, 7, 8, 9, 10]);
    assert_eq!(r.overflow_count(), 2);
    assert_eq!(r.pop(10), vec![7, 8, 9, 10]);
}

#[test]
fn dop_ring_counts_a_push_of_the_whole_capacity() {
    let mut d = DopRingBuffer::new(1000, 2, 2);
    d.push(&[1, 2]);
    assert_eq!(d.overflow_count(), 0);
    d.push(&[3, 4]);
    assert_eq!(d.overflow_count(), 0);
    d.push(&[5, 6]);
    assert_eq!(d.overflow_count(), 1);
    assert_eq!(d.pop(10), vec![3, 4, 5, 6]);
    d.push(&[7, 8, 9, 10]);
    assert_eq!(d.overflow_count(), 2);
    assert_eq!(d.pop(10), vec![7, 8, 9, 10]);
    let mut one = DopRingBuffer::new(1000, 1, 1);
    one.push(&[42]);
    assert_eq!(one.overflow_count(), 1);
    assert_eq!(one.pop(1), vec![42]);
    one.push(&[]);
    assert_eq!(one.overflow_count(), 1);
}
