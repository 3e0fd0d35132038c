use wavnote::waveform::{extract_waveform, isqrt};

#[test]
fn empty_samples_yield_all_zero_points() {
    let samples: Vec<i16> = Vec::new();
    let waveform = extract_waveform(&samples, 200);
    assert_eq!(waveform.len(), 200);
    assert!(waveform.iter().all(|&v| v == 0));
}

#[test]
fn waveform_is_deterministic_and_bounded() {
    let samples: Vec<i16> = (0..1000).map(|i| ((i * 37) % 20000) as i16 - 10000).collect();
    let first = extract_waveform(&samples, 64);
    let second = extract_waveform(&samples, 64);
    assert_eq!(first, second);
    assert_eq!(first.len(), 64);
    assert!(first.iter().all(|&v| v <= 100));
}

#[test]
fn waveform_exact_values_for_constant_signal() {
    // Every chunk of a constant signal has that constant's magnitude as its
    // root mean square; 16384 scales to half the display range.
    let samples: Vec<i16> = vec![16384; 4];
    let waveform = extract_waveform(&samples, 2);
    assert_eq!(waveform, vec![50, 50]);
}

#[test]
fn short_file_pads_with_zeros_and_last_chunk_absorbs() {
    // Two samples over four points: the chunk size rounds down to zero, so
    // every point but the last is an empty chunk; the last absorbs both
    // samples with a root mean square of 1000.
    let samples: Vec<i16> = vec![1000, -1000];
    let waveform = extract_waveform(&samples, 4);
    assert_eq!(waveform, vec![0, 0, 0, 3]);
}

#[test]
fn isqrt_exact_values() {
    assert_eq!(isqrt(0), 0);
    assert_eq!(isqrt(1), 1);
    assert_eq!(isqrt(15), 3);
    assert_eq!(isqrt(16), 4);
    assert_eq!(isqrt(1_000_000), 1000);
    assert_eq!(isqrt(u64::from(u32::MAX)), 65535);
}
