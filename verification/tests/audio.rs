use playback::audio::AudioBuffer;
use playback::audio::AudioFrame;

fn frame(samples: &[i16]) -> AudioFrame {
    AudioFrame { samples: samples.to_vec() }
}

#[test]
fn drain_reproduces_concatenation_across_arbitrary_buffer_sizes() {
    // Frames of sizes 3, 5 and 2; drained with output sizes smaller than,
    // equal to, and spanning frames: the exact concatenated sequence comes
    // out, with no gap, repeat or reordering.
    let mut b = AudioBuffer::new();
    b.push(frame(&[1, 2, 3]));
    b.push(frame(&[4, 5, 6, 7, 8]));
    b.push(frame(&[9, 10]));
    let mut got: Vec<i16> = Vec::new();
    got.extend(b.fill(1)); // smaller than a frame
    got.extend(b.fill(5)); // spans the first two frames
    got.extend(b.fill(4)); // spans the last two frames
    assert_eq!(got, vec![1, 2, 3, 4, 5, 6, 7, 8, 9, 10]);
}

#[test]
fn drain_with_size_equal_to_frame() {
    let mut b = AudioBuffer::new();
    b.push(frame(&[11, 12, 13, 14]));
    assert_eq!(b.fill(4), vec![11, 12, 13, 14]);
    // The frame is fully consumed; nothing pends.
    assert_eq!(b.fill(2), vec![0, 0]);
}

#[test]
fn drain_larger_than_pending_pads_with_silence() {
    let mut b = AudioBuffer::new();
    b.push(frame(&[5, 6]));
    assert_eq!(b.fill(6), vec![5, 6, 0, 0, 0, 0]);
}

#[test]
fn underrun_on_empty_open_buffer_yields_pure_silence() {
    let mut b = AudioBuffer::new();
    assert_eq!(b.fill(8), vec![0i16; 8]);
    // Still usable afterwards.
    b.push(frame(&[1]));
    assert_eq!(b.fill(1), vec![1]);
}

#[test]
fn closed_buffer_drains_pending_then_yields_silence() {
    let mut b = AudioBuffer::new();
    b.push(frame(&[7, 8, 9]));
    b.close();
    assert!(b.closed);
    assert_eq!(b.fill(2), vec![7, 8]);
    assert_eq!(b.fill(4), vec![9, 0, 0, 0]);
    assert_eq!(b.fill(3), vec![0, 0, 0]);
}

#[test]
fn empty_frames_are_skipped_without_output() {
    let mut b = AudioBuffer::new();
    b.push(frame(&[]));
    b.push(frame(&[21, 22]));
    b.push(frame(&[]));
    b.push(frame(&[23]));
    assert_eq!(b.fill(5), vec![21, 22, 23, 0, 0]);
}

#[test]
fn partial_frame_cursor_survives_interleaved_pushes() {
    let mut b = AudioBuffer::new();
    b.push(frame(&[1, 2, 3, 4]));
    assert_eq!(b.fill(2), vec![1, 2]);
    b.push(frame(&[5, 6]));
    assert_eq!(b.fill(3), vec![3, 4, 5]);
    assert_eq!(b.fill(1), vec![6]);
}

#[test]
fn zero_length_fill_is_empty() {
    let mut b = AudioBuffer::new();
    b.push(frame(&[1]));
    assert_eq!(b.fill(0), Vec::<i16>::new());
    assert_eq!(b.fill(1), vec![1]);
}
