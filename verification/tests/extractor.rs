use logic_engine::analysis::{
    calculate_loudness_contour, detect_beats, detect_transients, estimate_tempo, extract_features,
    extract_features_checked, seconds_of_sample,
};
use logic_engine::spectrum::analyze_frequency_bands;

/// An empty buffer yields empty beat, transient and loudness lists, a
/// zero-padded all-zero spectrum and a zero tempo, without any error.
#[test]
fn empty_buffer_yields_empty_features() {
    let samples: Vec<i64> = vec![];
    let snap = extract_features(&samples, 44100);
    assert!(snap.beat_timestamps.is_empty());
    assert!(snap.transient_timestamps.is_empty());
    assert!(snap.loudness_contour.is_empty());
    assert_eq!(snap.frequency_bands.len(), 2048);
    assert!(snap.frequency_bands.iter().all(|&b| b == 0));
    assert_eq!(snap.tempo_estimate, 0);
    assert_eq!(snap.current_time, 0);
}

/// Beats one second apart give a tempo of sixty beats per minute.
#[test]
fn tempo_of_one_second_interval_is_sixty() {
    let t0 = seconds_of_sample(0, 44100);
    let t1 = seconds_of_sample(44100, 44100);
    assert_eq!(t0, 0);
    assert_eq!(t1, 1000);
    let beats = vec![t0, t1];
    assert_eq!(estimate_tempo(&beats), 60_000);
}

#[test]
fn tempo_needs_two_beats() {
    assert_eq!(estimate_tempo(&vec![]), 0);
    assert_eq!(estimate_tempo(&vec![500]), 0);
}

#[test]
fn transients_mark_sharp_jumps() {
    // jumps of 0.4 up at index 1 and 0.4 down at index 3; the flat step
    // in between is below the 0.3 threshold
    let samples: Vec<i64> = vec![0, 400, 400, 0];
    let transients = detect_transients(&samples);
    assert_eq!(transients, vec![1, 3]);
}

#[test]
fn beats_mark_high_energy_windows() {
    // rate 200: window 20 samples, hop 5; thirty loud samples give
    // windows starting at 0 and 5
    let samples: Vec<i64> = vec![1000; 30];
    let beats = detect_beats(&samples, 200);
    assert_eq!(beats, vec![0, 5]);
    // silence has no energy
    let silent: Vec<i64> = vec![0; 30];
    assert!(detect_beats(&silent, 200).is_empty());
}

#[test]
fn loudness_contour_is_windowed_rms() {
    // rate 40: window 2 samples, hop 1; full-scale samples have an RMS
    // of exactly one
    let samples: Vec<i64> = vec![1000, 1000, 1000, 0];
    let contour = calculate_loudness_contour(&samples, 40);
    assert_eq!(contour, vec![1000, 1000]);
}

/// Identical samples and rate always give bit-identical snapshots.
#[test]
fn extraction_is_deterministic() {
    let samples: Vec<i64> = (0..4096)
        .map(|i| ((2.0 * std::f64::consts::PI * 440.0 * i as f64 / 44100.0).sin() * 1000.0) as i64)
        .collect();
    let a = extract_features(&samples, 44100);
    let b = extract_features(&samples, 44100);
    assert_eq!(a.beat_timestamps, b.beat_timestamps);
    assert_eq!(a.transient_timestamps, b.transient_timestamps);
    assert_eq!(a.loudness_contour, b.loudness_contour);
    assert_eq!(a.frequency_bands, b.frequency_bands);
    assert_eq!(a.tempo_estimate, b.tempo_estimate);
}

#[test]
fn spectrum_of_constant_signal_peaks_at_dc() {
    // a constant full-scale signal puts everything in bin zero:
    // 2048 samples of 1.0 give a modulus of exactly 2048
    let samples: Vec<i64> = vec![1000; 2048];
    let bands = analyze_frequency_bands(&samples);
    assert_eq!(bands.len(), 2048);
    assert_eq!(bands[0], 2_048_000);
}

#[test]
fn spectrum_of_silence_is_zero() {
    let samples: Vec<i64> = vec![0; 100];
    let bands = analyze_frequency_bands(&samples);
    assert_eq!(bands.len(), 2048);
    assert!(bands.iter().all(|&b| b == 0));
}

/// A one-second sine burst yields a non-empty loudness contour and a
/// full-size spectrum.
#[test]
fn test_audio_analysis() {
    let sample_rate = 44100u32;
    let samples: usize = sample_rate as usize;
    let audio_data: Vec<i64> = (0..samples)
        .map(|i| {
            ((2.0 * std::f64::consts::PI * 440.0 * i as f64 / sample_rate as f64).sin() * 1000.0)
                as i64
        })
        .collect();
    let result = extract_features(&audio_data, sample_rate);
    assert!(!result.loudness_contour.is_empty());
    assert!(!result.frequency_bands.is_empty());
    // a full-scale tone keeps every beat window above the threshold
    assert!(!result.beat_timestamps.is_empty());
    assert!(result.tempo_estimate > 0);
}

/// The defensive entry extracts only under a positive rate and bounded
/// samples, and reports nothing otherwise.
#[test]
fn checked_extraction_rejects_degenerate_inputs() {
    assert!(extract_features_checked(&vec![0, 100], 0).is_none());
    assert!(extract_features_checked(&vec![2_000_000], 44100).is_none());
    let snap = extract_features_checked(&vec![0, 100], 44100);
    assert!(snap.is_some());
    assert_eq!(snap.unwrap().tempo_estimate, 0);
}
