use ale_gui::sample_buffer::{max_samples, SampleBuffer, MAX_BUFFER_SECONDS};

#[test]
fn sample_buffer_returns_new_samples_after_trim() {
    let mut buffer = SampleBuffer::default();
    let mut offset = 0;

    buffer.push_samples(&[1.0, 2.0, 3.0, 4.0], 1, 1);
    assert_eq!(buffer.samples_since(&mut offset), vec![1.0, 2.0, 3.0, 4.0]);

    buffer.push_samples(&[5.0, 6.0], 1, 1);
    assert_eq!(buffer.samples, vec![3.0, 4.0, 5.0, 6.0]);
    assert_eq!(buffer.samples_since(&mut offset), vec![5.0, 6.0]);
}

#[test]
fn sample_buffer_clamps_stale_offset_after_trim() {
    let mut buffer = SampleBuffer::default();
    let mut offset = 0;

    buffer.push_samples(&[1.0, 2.0, 3.0, 4.0, 5.0], 1, 1);

    assert_eq!(buffer.samples, vec![2.0, 3.0, 4.0, 5.0]);
    assert_eq!(buffer.samples_since(&mut offset), vec![2.0, 3.0, 4.0, 5.0]);
}

#[test]
fn window_is_sized_by_rate_and_channels() {
    assert_eq!(max_samples(16_000, 2), 16_000 * 2 * MAX_BUFFER_SECONDS);
    assert_eq!(max_samples(0, 2), 0);
    assert_eq!(max_samples(usize::MAX, 2), usize::MAX);
    assert_eq!(max_samples(usize::MAX / 2, 1), usize::MAX);
}

#[test]
fn a_window_without_limit_keeps_everything() {
    let mut buffer = SampleBuffer::default();
    let samples: Vec<u32> = (0..1000).collect();
    buffer.push_samples(&samples, 0, 1);
    assert_eq!(buffer.samples, samples);
    assert_eq!((buffer.start_index, buffer.next_index), (0, 1000));
}

#[test]
fn window_shows_the_end_of_the_stream() {
    let mut buffer = SampleBuffer::default();
    let mut history: Vec<u32> = Vec::new();
    for i in 0..50u32 {
        let new: Vec<u32> = (0..(i % 7)).map(|k| 100 * i + k).collect();
        buffer.push_samples(&new, 3, 2);
        history.extend(&new);
        assert!(buffer.samples.len() <= 24);
        assert_eq!(buffer.samples, history[buffer.start_index..]);
        assert_eq!(buffer.next_index, history.len());
    }
    assert_eq!(buffer.samples.len(), 24);
}

#[test]
fn a_burst_leaves_its_most_recent_samples() {
    let mut buffer = SampleBuffer::default();
    let mut offset = 0;
    buffer.push_samples(&[1, 2], 1, 1);
    assert_eq!(buffer.samples_since(&mut offset), vec![1, 2]);
    buffer.push_samples(&[3, 4, 5, 6, 7, 8], 1, 1);
    assert_eq!(buffer.samples_since(&mut offset), vec![5, 6, 7, 8]);
    assert_eq!(offset, 8);
}

#[test]
fn nothing_is_handed_out_twice() {
    let mut buffer = SampleBuffer::default();
    let mut offset = 0;
    buffer.push_samples(&[1, 2, 3], 1, 1);
    assert_eq!(buffer.samples_since(&mut offset), vec![1, 2, 3]);
    assert_eq!(buffer.samples_since(&mut offset), Vec::<i32>::new());
}

#[test]
fn an_offset_beyond_the_end_is_pulled_back() {
    let mut buffer = SampleBuffer::default();
    let mut offset = 77;
    buffer.push_samples(&[1, 2, 3], 1, 1);
    assert_eq!(buffer.samples_since(&mut offset), Vec::<i32>::new());
    assert_eq!(offset, 3);
}

#[test]
fn two_reads_hand_out_what_one_would() {
    let mut buffer = SampleBuffer::default();
    let (mut often, mut once) = (0, 0);
    buffer.push_samples(&[1, 2], 1, 1);
    let mut joined = buffer.samples_since(&mut often);
    buffer.push_samples(&[3, 4], 1, 1);
    joined.extend(buffer.samples_since(&mut often));
    assert_eq!(joined, buffer.samples_since(&mut once));
    assert_eq!(often, once);
}
