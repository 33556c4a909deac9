use spectra::aggregate::average;
use spectra::codec::{load, save};
use spectra::source::{classify, decode, decode_input, InputKind};
use spectra::spectrum::{RawSignal, Spectrum, SpectrumError};
use spectra::transform::analyze;

fn wav_bytes(samples: &[i16], sample_rate: u32) -> Vec<u8> {
    let spec = hound::WavSpec {
        channels: 1,
        sample_rate,
        bits_per_sample: 16,
        sample_format: hound::SampleFormat::Int,
    };
    let mut cursor = std::io::Cursor::new(Vec::new());
    {
        let mut writer = hound::WavWriter::new(&mut cursor, spec).unwrap();
        for &s in samples {
            writer.write_sample(s).unwrap();
        }
        writer.finalize().unwrap();
    }
    cursor.into_inner()
}

#[test]
fn codec_round_trip() {
    let s = Spectrum::new(
        vec![0, 1_000_000, 2_000_000],
        vec![5, 7, 11],
        "tone.wav".to_string(),
    );
    let bytes = save(&s);
    let t = load(&bytes).unwrap();
    assert_eq!(t.frequencies, vec![0, 1_000_000, 2_000_000]);
    assert_eq!(t.magnitudes, vec![5, 7, 11]);
    assert_eq!(t.label, "tone.wav");
}

#[test]
fn codec_round_trip_unicode_label() {
    let s = Spectrum::new(vec![250], vec![u64::MAX], "µ-Ton 語".to_string());
    let bytes = save(&s);
    let t = load(&bytes).unwrap();
    assert_eq!(t.frequencies, vec![250]);
    assert_eq!(t.magnitudes, vec![u64::MAX]);
    assert_eq!(t.label, "µ-Ton 語");
}

#[test]
fn codec_round_trip_empty_fields() {
    let s = Spectrum::new(Vec::new(), Vec::new(), String::new());
    let bytes = save(&s);
    let t = load(&bytes).unwrap();
    assert!(t.frequencies.is_empty());
    assert!(t.magnitudes.is_empty());
    assert_eq!(t.label, "");
}

#[test]
fn load_rejects_truncated_record() {
    let s = Spectrum::new(vec![1, 2], vec![3, 4], "x".to_string());
    let mut bytes = save(&s);
    bytes.pop();
    assert_eq!(load(&bytes).err(), Some(SpectrumError::CorruptRecord));
    assert_eq!(load(&Vec::new()).err(), Some(SpectrumError::CorruptRecord));
}

#[test]
fn load_rejects_trailing_bytes() {
    let s = Spectrum::new(vec![1], vec![2], "x".to_string());
    let mut bytes = save(&s);
    bytes.push(0);
    assert_eq!(load(&bytes).err(), Some(SpectrumError::CorruptRecord));
}

#[test]
fn load_rejects_overrunning_count() {
    // A count of u64::MAX frequencies cannot fit in any byte string.
    let mut bytes = vec![0xffu8; 8];
    bytes.extend_from_slice(&[0u8; 32]);
    assert_eq!(load(&bytes).err(), Some(SpectrumError::CorruptRecord));
}

#[test]
fn load_rejects_bad_label_bytes() {
    // Zero frequencies, zero magnitudes, one label byte that is not UTF-8.
    let mut bytes = Vec::new();
    bytes.extend_from_slice(&0u64.to_le_bytes());
    bytes.extend_from_slice(&0u64.to_le_bytes());
    bytes.extend_from_slice(&1u64.to_le_bytes());
    bytes.push(0xff);
    assert_eq!(load(&bytes).err(), Some(SpectrumError::CorruptRecord));
}

#[test]
fn analyze_rejects_empty_signal() {
    let signal = RawSignal { samples: Vec::new(), sample_rate: 44100 };
    let r = analyze(&signal, "empty".to_string());
    assert_eq!(r.err(), Some(SpectrumError::EmptySignal));
}

#[test]
fn analyze_keeps_half_the_bins() {
    let signal = RawSignal { samples: vec![100; 8], sample_rate: 8000 };
    let s = analyze(&signal, "even".to_string()).unwrap();
    assert_eq!(s.bin_count(), 4);
    assert_eq!(s.frequencies.len(), 4);
    let odd = RawSignal { samples: vec![100; 9], sample_rate: 8000 };
    let t = analyze(&odd, "odd".to_string()).unwrap();
    assert_eq!(t.bin_count(), 4);
}

#[test]
fn frequency_mapping_is_exact() {
    // Eight samples at 8000 Hz: bin i sits at exactly i * 1000 Hz,
    // that is i * 1_000_000 millihertz.
    let signal = RawSignal { samples: vec![1, 2, 3, 4, 5, 6, 7, 8], sample_rate: 8000 };
    let s = analyze(&signal, "map".to_string()).unwrap();
    for i in 0..4usize {
        assert_eq!(s.frequencies[i], (i as u64) * 1_000_000);
    }
}

#[test]
fn pure_tone_peaks_at_its_bin() {
    // A 1000 Hz sine, 64 samples at 8000 Hz: 1000 Hz is exactly bin 8.
    let n = 64usize;
    let sr = 8000u32;
    let tone_hz = 1000.0f64;
    let samples: Vec<i16> = (0..n)
        .map(|t| {
            let x = 2.0 * std::f64::consts::PI * tone_hz * (t as f64) / (sr as f64);
            (10000.0 * x.sin()).round() as i16
        })
        .collect();
    let signal = RawSignal { samples, sample_rate: sr };
    let s = analyze(&signal, "tone".to_string()).unwrap();
    assert_eq!(s.bin_count(), 32);
    let peak = (0..32).max_by_key(|&i| s.magnitudes[i]).unwrap();
    assert_eq!(peak, 8);
    // The peak carries about n/2 times the amplitude; the rest is noise from
    // rounding the samples to integers.
    assert!(s.magnitudes[8] > 300_000);
    for i in 0..32 {
        if i != 8 {
            assert!(s.magnitudes[i] < 2_000, "bin {} too large: {}", i, s.magnitudes[i]);
        }
    }
}

#[test]
fn average_of_identical_spectra_is_identity() {
    let s = Spectrum::new(vec![0, 1000, 2000], vec![3, 9, 27], "s".to_string());
    let batch = vec![
        Spectrum::new(vec![0, 1000, 2000], vec![3, 9, 27], "s".to_string()),
        Spectrum::new(vec![0, 1000, 2000], vec![3, 9, 27], "s".to_string()),
        Spectrum::new(vec![0, 1000, 2000], vec![3, 9, 27], "s".to_string()),
    ];
    let avg = average(&batch).unwrap();
    assert_eq!(avg.magnitudes, s.magnitudes);
    assert_eq!(avg.frequencies, s.frequencies);
    assert_eq!(avg.label, "average");
}

#[test]
fn average_of_two_spectra() {
    let a = Spectrum::new(vec![0, 1000], vec![2, 4], "a".to_string());
    let b = Spectrum::new(vec![0, 1000], vec![4, 8], "b".to_string());
    let avg = average(&vec![a, b]).unwrap();
    assert_eq!(avg.magnitudes, vec![3, 6]);
}

#[test]
fn average_of_nothing_fails() {
    assert_eq!(average(&Vec::new()).err(), Some(SpectrumError::EmptyInput));
}

#[test]
fn average_grows_to_the_longest_spectrum() {
    // The shorter spectrum contributes nothing past its end, but the batch
    // size still divides every bin.
    let a = Spectrum::new(vec![0], vec![2], "a".to_string());
    let b = Spectrum::new(vec![0, 1000], vec![4, 8], "b".to_string());
    let avg = average(&vec![a, b]).unwrap();
    assert_eq!(avg.magnitudes, vec![3, 4]);
    assert_eq!(avg.frequencies, vec![0]);
}

#[test]
fn classify_routes_by_extension() {
    assert_eq!(classify(&b"take.wav".to_vec()), InputKind::Audio);
    assert_eq!(classify(&b"cached.f".to_vec()), InputKind::CachedSpectrum);
    assert_eq!(classify(&b"song.mp3".to_vec()), InputKind::Unsupported);
    assert_eq!(classify(&b"wav".to_vec()), InputKind::Unsupported);
    assert_eq!(classify(&b".f".to_vec()), InputKind::CachedSpectrum);
}

#[test]
fn unsupported_input_fails_without_crash() {
    let r = decode_input(InputKind::Unsupported, &b"whatever".to_vec(), "x".to_string());
    assert_eq!(r.err(), Some(SpectrumError::UnsupportedFormat));
}

#[test]
fn decode_reads_samples_and_rate() {
    let bytes = wav_bytes(&[1, -2, 3, -4, 5, -6], 22050);
    let sig = decode(&bytes).unwrap();
    assert_eq!(sig.samples, vec![1, -2, 3, -4, 5, -6]);
    assert_eq!(sig.sample_rate, 22050);
}

#[test]
fn decode_rejects_garbage() {
    let r = decode(&b"not a wav container".to_vec());
    assert_eq!(r.err(), Some(SpectrumError::DecodeError));
}

#[test]
fn decode_input_runs_the_audio_path() {
    let bytes = wav_bytes(&[0, 100, 0, -100, 0, 100, 0, -100], 8000);
    let s = decode_input(InputKind::Audio, &bytes, "take.wav".to_string()).unwrap();
    assert_eq!(s.bin_count(), 4);
    assert_eq!(s.label, "take.wav");
    for i in 0..4usize {
        assert_eq!(s.frequencies[i], (i as u64) * 1_000_000);
    }
}

#[test]
fn decode_input_runs_the_cached_path() {
    let s = Spectrum::new(vec![0, 500], vec![9, 9], "old".to_string());
    let bytes = save(&s);
    let t = decode_input(InputKind::CachedSpectrum, &bytes, "ignored".to_string()).unwrap();
    assert_eq!(t.frequencies, vec![0, 500]);
    assert_eq!(t.magnitudes, vec![9, 9]);
    assert_eq!(t.label, "old");
    let r = decode_input(InputKind::CachedSpectrum, &b"junk".to_vec(), "x".to_string());
    assert_eq!(r.err(), Some(SpectrumError::CorruptRecord));
}

#[test]
fn decode_input_rejects_empty_audio() {
    let bytes = wav_bytes(&[], 8000);
    let r = decode_input(InputKind::Audio, &bytes, "e.wav".to_string());
    assert_eq!(r.err(), Some(SpectrumError::EmptySignal));
}

#[test]
fn empty_spectrum_has_no_bins() {
    let s = Spectrum::empty();
    assert_eq!(s.bin_count(), 0);
    assert_eq!(s.label, "");
}

#[test]
fn pairs_expose_aligned_bins() {
    let s = Spectrum::new(vec![0, 1000, 2000], vec![1, 2, 3], "p".to_string());
    assert_eq!(s.bin_count(), 3);
    assert_eq!(s.pair_at(0), (0, 1));
    assert_eq!(s.pair_at(2), (2000, 3));
}
