use radiochat::resampler::Resampler;

/// Identity: equal rates return the input unchanged, chunk by chunk.
#[test]
fn resampler_identity() {
    let mut r = Resampler::new(48000, 48000);
    let input: Vec<i16> = vec![3, -7, 12000, -32768, 32767, 0];
    assert_eq!(r.process(&input), input);
    let again: Vec<i16> = vec![9, 9, 9];
    assert_eq!(r.process(&again), again);
}

#[test]
fn resampler_identity_empty() {
    let mut r = Resampler::new(44100, 44100);
    assert_eq!(r.process(&Vec::new()), Vec::<i16>::new());
}

/// Exact downsampling by two: one sample of latency (silence), then
/// every other input sample.
#[test]
fn resampler_downsample_by_two_exact() {
    let mut r = Resampler::new(48000, 24000);
    let out = r.process(&vec![10, 20, 30, 40]);
    assert_eq!(out, vec![0, 20]);
}

/// Exact upsampling by two: interpolated midpoints appear between the
/// input samples, starting from the held silence sample.
#[test]
fn resampler_upsample_by_two_exact() {
    let mut r = Resampler::new(24000, 48000);
    let out = r.process(&vec![10, 20]);
    assert_eq!(out, vec![0, 5, 10, 15]);
}

fn concat_chunks(from: u32, to: u32, chunks: &[Vec<i16>]) -> Vec<i16> {
    let mut r = Resampler::new(from, to);
    let mut out = Vec::new();
    for c in chunks {
        out.extend(r.process(c));
    }
    out
}

/// Continuity: splitting the stream into chunks changes nothing — the
/// concatenated outputs equal the single-call output, exactly.
#[test]
fn resampler_continuity_downsample() {
    let samples: Vec<i16> = (0..97).map(|i| (i * 211 % 3000 - 1500) as i16).collect();
    let whole = concat_chunks(48000, 8000, &[samples.clone()]);
    let split = concat_chunks(
        48000,
        8000,
        &[
            samples[..7].to_vec(),
            samples[7..10].to_vec(),
            samples[10..52].to_vec(),
            Vec::new(),
            samples[52..].to_vec(),
        ],
    );
    assert_eq!(whole, split);
}

#[test]
fn resampler_continuity_upsample() {
    let samples: Vec<i16> = (0..41).map(|i| (i * 977 % 9000 - 4500) as i16).collect();
    let whole = concat_chunks(44100, 48000, &[samples.clone()]);
    let split = concat_chunks(
        44100,
        48000,
        &[
            samples[..1].to_vec(),
            samples[1..2].to_vec(),
            samples[2..29].to_vec(),
            samples[29..].to_vec(),
        ],
    );
    assert_eq!(whole, split);
}

#[test]
fn resampler_continuity_non_integer_ratio() {
    let samples: Vec<i16> = (0..60).map(|i| (i * 389 % 2000) as i16).collect();
    let whole = concat_chunks(48000, 44100, &[samples.clone()]);
    let split = concat_chunks(
        48000,
        44100,
        &[samples[..13].to_vec(), samples[13..14].to_vec(), samples[14..].to_vec()],
    );
    assert_eq!(whole, split);
}
