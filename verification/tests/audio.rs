use selah::audio::buffer::AudioBuffer;

#[test]
fn push_drain_roundtrip() {
    let mut buffer = AudioBuffer::new(4096);
    buffer.push(&[1.0f32, 2.0, 3.0]);
    let got = buffer.drain();
    assert_eq!(got, vec![1.0, 2.0, 3.0]);
    assert_eq!(buffer.sample_count(), 0);
}

#[test]
fn caps_at_capacity() {
    let mut buffer = AudioBuffer::new(4);
    buffer.push(&[1.0f32, 2.0, 3.0, 4.0, 5.0, 6.0]);
    assert_eq!(buffer.sample_count(), 4);
    assert_eq!(buffer.drain(), vec![3.0, 4.0, 5.0, 6.0]);
}

#[test]
fn a_zero_capacity_buffer_still_holds_one_sample() {
    let mut buffer = AudioBuffer::new(0);
    assert_eq!(buffer.capacity(), 1);
    buffer.push(&[7i16, 8, 9]);
    assert_eq!(buffer.drain(), vec![9]);
}

#[test]
fn pushes_accumulate_until_drained_and_clear_empties() {
    let mut buffer = AudioBuffer::new(5);
    buffer.push(&[1u8, 2, 3]);
    buffer.push(&[4u8, 5, 6]);
    assert_eq!(buffer.sample_count(), 5);
    buffer.clear();
    assert_eq!(buffer.sample_count(), 0);
    buffer.push(&[10u8]);
    assert_eq!(buffer.drain(), vec![10]);
    assert!(buffer.drain().is_empty());
}

#[test]
fn pushing_in_pieces_is_pushing_at_once() {
    let mut pieces = AudioBuffer::new(5);
    pieces.push(&[1u32, 2, 3, 4]);
    pieces.push(&[5u32, 6, 7]);
    let mut once = AudioBuffer::new(5);
    once.push(&[1u32, 2, 3, 4, 5, 6, 7]);
    assert_eq!(pieces.drain(), once.drain());
}
