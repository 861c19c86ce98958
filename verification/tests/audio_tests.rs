use radiochat::audio::{
    downmix_mono, frame_size, pick_preferred_rate, AudioEngine, CapturePipeline, RingBuffer,
};
use radiochat::resampler::Resampler;

#[test]
fn downmix_keeps_first_channel() {
    let stereo: Vec<i16> = vec![1, -1, 2, -2, 3, -3];
    assert_eq!(downmix_mono(&stereo, 2), vec![1, 2, 3]);
    let mono: Vec<i16> = vec![5, 6, 7];
    assert_eq!(downmix_mono(&mono, 1), vec![5, 6, 7]);
    let ragged: Vec<i16> = vec![1, 2, 3, 4, 5, 6, 7];
    assert_eq!(downmix_mono(&ragged, 2), vec![1, 3, 5, 7]);
    assert_eq!(downmix_mono(&Vec::new(), 4), Vec::<i16>::new());
}

#[test]
fn frame_sizes_at_codec_rates() {
    assert_eq!(frame_size(48000), 960);
    assert_eq!(frame_size(44100), 882);
    assert_eq!(frame_size(8000), 160);
}

#[test]
fn preferred_rate_selection() {
    // the second configuration reaches 48 kHz, so that wins
    let cs: Vec<(u32, u32)> = vec![(8000, 16000), (40000, 50000)];
    assert_eq!(pick_preferred_rate(&cs), Some((1, 48000)));
    // nothing reaches 48 kHz; 24 kHz is the next preference
    let cs: Vec<(u32, u32)> = vec![(8000, 24000)];
    assert_eq!(pick_preferred_rate(&cs), Some((0, 24000)));
    // no configuration supports any codec-native rate
    let cs: Vec<(u32, u32)> = vec![(100, 200)];
    assert_eq!(pick_preferred_rate(&cs), None);
    assert_eq!(pick_preferred_rate(&Vec::new()), None);
}

#[test]
fn ring_buffer_drops_oldest_and_fills_silence() {
    let mut rb = RingBuffer::new(4);
    rb.push_samples(&vec![1, 2, 3]);
    rb.push_samples(&vec![4, 5, 6]);
    // capacity 4: the oldest two were dropped
    let out = rb.pop_chunk(6);
    assert_eq!(out, vec![3, 4, 5, 6, 0, 0]);
    // buffer is empty now: pure silence
    assert_eq!(rb.pop_chunk(3), vec![0, 0, 0]);
}

#[test]
fn ring_buffer_partial_pop() {
    let mut rb = RingBuffer::new(8);
    rb.push_samples(&vec![10, 20, 30, 40, 50]);
    assert_eq!(rb.pop_chunk(2), vec![10, 20]);
    assert_eq!(rb.pop_chunk(2), vec![30, 40]);
    rb.push_samples(&vec![60]);
    assert_eq!(rb.pop_chunk(3), vec![50, 60, 0]);
}

#[test]
fn capture_pipeline_cuts_frames_across_chunks() {
    // equal rates: the resampler is the identity, so the frames are
    // consecutive blocks of the input itself
    let mut p = CapturePipeline::new(48000, 48000, 4);
    let frames = p.accept_chunk(&vec![1, 2, 3, 4, 5, 6]);
    assert_eq!(frames, vec![vec![1, 2, 3, 4]]);
    let frames = p.accept_chunk(&vec![7, 8]);
    assert_eq!(frames, vec![vec![5, 6, 7, 8]]);
    let frames = p.accept_chunk(&Vec::new());
    assert_eq!(frames, Vec::<Vec<i16>>::new());
}

#[test]
fn capture_pipeline_resampling_matches_plain_resampler() {
    let samples: Vec<i16> = (0..50).map(|i| (i * 37 % 500) as i16).collect();
    let mut reference = Resampler::new(44100, 48000);
    let expected = reference.process(&samples);
    let mut p = CapturePipeline::new(44100, 48000, 5);
    let frames = p.accept_chunk(&samples);
    let flat: Vec<i16> = frames.into_iter().flatten().collect();
    // every emitted frame is a block of the resampled stream
    assert_eq!(flat[..], expected[..flat.len()]);
    assert!(expected.len() - flat.len() < 5);
}

#[test]
fn engine_reset_reaches_zero_streams() {
    let mut e = AudioEngine::new();
    assert!(e.start_capture(true));
    assert!(e.start_playback_for_peer("a", true));
    assert!(e.start_playback_for_peer("b", true));
    assert_eq!(e.playback_count(), 2);
    e.reset();
    assert!(!e.capture_running());
    assert_eq!(e.playback_count(), 0);
    // reset is safe when nothing runs
    e.reset();
    assert_eq!(e.playback_count(), 0);
}

#[test]
fn engine_remove_peer_stream_is_idempotent() {
    let mut e = AudioEngine::new();
    assert!(e.start_playback_for_peer("a", true));
    assert!(e.start_playback_for_peer("b", true));
    e.remove_peer_stream("a");
    assert!(!e.has_peer_stream("a"));
    assert!(e.has_peer_stream("b"));
    e.remove_peer_stream("a");
    assert_eq!(e.playback_count(), 1);
    // a failed open changes nothing
    assert!(!e.start_playback_for_peer("c", false));
    assert_eq!(e.playback_count(), 1);
    // reopening for the same peer reuses its slot
    assert!(e.start_playback_for_peer("b", true));
    assert_eq!(e.playback_count(), 1);
}
