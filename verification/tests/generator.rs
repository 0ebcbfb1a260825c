use songrec::fingerprinting::algorithm::{PeakCandidate, SignatureGenerator};
use songrec::fingerprinting::signature_format::{DecodedSignature, FrequencyBand};

// A spectral front end for exercising the generator: a 2048-point Hann
// window, a real-input FFT, and the power normalization, producing the
// order-preserving magnitude codes the generator consumes.

fn hann_window() -> Vec<f32> {
    (0..2048)
        .map(|i| {
            0.5 * (1.0 - (2.0 * std::f32::consts::PI * i as f32 / 2047.0).cos())
        })
        .collect()
}

fn spectrum_codes(
    fft: &mut chfft::RFft1D<f32>,
    hann: &[f32],
    window: &[i16],
) -> Vec<u32> {
    let input: Vec<f32> = window
        .iter()
        .zip(hann.iter())
        .map(|(s, h)| *s as f32 * *h)
        .collect();
    let complex = fft.forward(&input);
    assert_eq!(complex.len(), 1025);
    complex
        .iter()
        .map(|c| {
            ((c.re * c.re + c.im * c.im) / 131072.0)
                .max(0.0000000001)
                .to_bits()
        })
        .collect()
}

fn finish_peak(candidate: &PeakCandidate) -> (u16, u16) {
    let log_compress = |code: u32| -> f32 {
        let linear = f32::from_bits(code).max(1.0 / 64.0);
        linear.ln() * 1477.3 + 6144.0
    };
    let magnitude = log_compress(candidate.magnitude);
    let before = log_compress(candidate.magnitude_below);
    let after = log_compress(candidate.magnitude_above);
    let variation_1 = magnitude * 2.0 - before - after;
    assert!(variation_1 >= 0.0);
    let variation_2 = (after - before) * 32.0 / variation_1;
    let corrected_bin = (candidate.bin as u16).wrapping_mul(64).wrapping_add(
        (variation_2.round() as i16) as u16,
    );
    (magnitude as u16, corrected_bin)
}

fn make_signature_from_buffer(samples: &[i16]) -> DecodedSignature {
    let mut generator = SignatureGenerator::new(samples.len() as u32);
    let hann = hann_window();
    let mut fft = chfft::RFft1D::<f32>::new(2048);
    for chunk in samples.chunks_exact(128) {
        let window = generator.ingest_chunk(chunk);
        let codes = spectrum_codes(&mut fft, &hann, &window);
        let candidates = generator.ingest_spectrum(codes);
        for candidate in &candidates {
            let (magnitude, corrected_bin) = finish_peak(candidate);
            generator.store_peak(candidate.pass_number, magnitude, corrected_bin);
        }
    }
    generator.finish()
}

fn all_bands() -> [FrequencyBand; 4] {
    [
        FrequencyBand::_250_520,
        FrequencyBand::_520_1450,
        FrequencyBand::_1450_3500,
        FrequencyBand::_3500_5500,
    ]
}

fn total_peaks(sig: &DecodedSignature) -> usize {
    all_bands().iter().map(|b| sig.peaks_in_band(*b).len()).sum()
}

fn loud_sine(samples: usize, frequency: f32) -> Vec<i16> {
    (0..samples)
        .map(|i| {
            let t = i as f32 / 16000.0;
            ((2.0 * std::f32::consts::PI * frequency * t).sin() * 20000.0) as i16
        })
        .collect()
}

#[test]
fn forty_five_chunks_yield_no_peaks() {
    let sig = make_signature_from_buffer(&loud_sine(45 * 128, 1000.0));
    assert_eq!(sig.number_samples, 5760);
    assert_eq!(total_peaks(&sig), 0);
}

#[test]
fn the_warm_up_window_holds_for_any_spectra() {
    // Drive the pass counter directly: whatever the spectra hold, the
    // first 45 passes return no candidates, and the 46th works on the
    // very first frame (pass number 0).
    let mut generator = SignatureGenerator::new(46 * 128);
    for pass in 0..45u32 {
        let loud = vec![0x7f7f_fff0u32; 1025];
        let candidates = generator.ingest_spectrum(loud);
        assert!(candidates.is_empty(), "pass {} may not produce candidates", pass);
    }
    let candidates = generator.ingest_spectrum(vec![0x7f7f_fff0u32; 1025]);
    for candidate in &candidates {
        assert_eq!(candidate.pass_number, 0);
    }
}

#[test]
fn forty_six_chunks_reach_the_first_peak_frame() {
    // One more chunk than the warm-up window: recognition runs once,
    // and any peak it finds belongs to pass 0.
    let sig = make_signature_from_buffer(&loud_sine(46 * 128, 1000.0));
    for band in all_bands() {
        for peak in sig.peaks_in_band(band).iter() {
            assert_eq!(peak.fft_pass_number, 0);
        }
    }
}

#[test]
fn sweep_peaks_land_in_their_bands() {
    // A sine sweep across 100..6000 Hz: every stored peak must sit in
    // the band its corrected bin belongs to, and none outside
    // 250..=5500 Hz.
    let samples: Vec<i16> = (0..12 * 16000)
        .map(|i| {
            let t = i as f32 / 16000.0;
            let f0 = 100.0f32;
            let f1 = 6000.0f32;
            let phase = 2.0 * std::f32::consts::PI * (f0 * t + (f1 - f0) * t * t / (2.0 * 12.0));
            (phase.sin() * 20000.0) as i16
        })
        .collect();
    let sig = make_signature_from_buffer(&samples);
    assert!(total_peaks(&sig) > 0, "a loud sweep should yield peaks");
    let ranges = [(250u32, 520u32), (520, 1450), (1450, 3500), (3500, 5501)];
    for (band, (lo, hi)) in all_bands().iter().zip(ranges.iter()) {
        for peak in sig.peaks_in_band(*band).iter() {
            let hz = peak.corrected_peak_frequency_bin as u32 * 125 / 1024;
            assert!(
                *lo <= hz && hz < *hi,
                "peak at {} Hz stored in band {:?}",
                hz,
                band
            );
        }
    }
}

#[test]
fn sweep_band_peaks_are_in_pass_order() {
    let samples = loud_sine(4 * 16000, 440.0);
    let sig = make_signature_from_buffer(&samples);
    for band in all_bands() {
        let peaks = sig.peaks_in_band(band);
        for pair in peaks.windows(2) {
            assert!(pair[0].fft_pass_number <= pair[1].fft_pass_number);
        }
    }
}

#[test]
fn twelve_seconds_of_silence_round_trips() {
    let samples = vec![0i16; 192000];
    let sig = make_signature_from_buffer(&samples);
    assert_eq!(sig.number_samples, 192000);
    assert_eq!(total_peaks(&sig), 0);
    let encoded = sig.encode_to_binary().unwrap();
    let decoded = DecodedSignature::decode_from_binary(&encoded).unwrap();
    assert_eq!(decoded.number_samples, 192000);
    assert_eq!(decoded.sample_rate_hz, 16000);
}

#[test]
fn store_peak_respects_the_band_boundaries() {
    let mut generator = SignatureGenerator::new(0);
    // 250 Hz is the first accepted frequency: bin 2048 maps to it.
    generator.store_peak(1, 100, 2048);
    // 249 Hz is below the range: bin 2047 maps to 249.
    generator.store_peak(2, 100, 2047);
    // 5500 Hz is the last accepted frequency: bin 45056 maps to it.
    generator.store_peak(3, 100, 45056);
    // Above 5500 Hz: bin 45065 maps to 5501.
    generator.store_peak(4, 100, 45065);
    // Band boundaries at 520, 1450 and 3500 Hz: bins 4260, 11878, 28672.
    generator.store_peak(5, 100, 4259); // 519 Hz
    generator.store_peak(6, 100, 4260); // 520 Hz
    generator.store_peak(7, 100, 28671); // 3499 Hz
    generator.store_peak(8, 100, 28672); // 3500 Hz
    let sig = generator.finish();
    let passes = |band: FrequencyBand| -> Vec<u32> {
        sig.peaks_in_band(band).iter().map(|p| p.fft_pass_number).collect()
    };
    assert_eq!(passes(FrequencyBand::_250_520), vec![1, 5]);
    assert_eq!(passes(FrequencyBand::_520_1450), vec![6]);
    assert_eq!(passes(FrequencyBand::_1450_3500), vec![7]);
    assert_eq!(passes(FrequencyBand::_3500_5500), vec![3, 8]);
}
