use songrec::fingerprinting::signature_format::{
    DecodedSignature, FrequencyBand, FrequencyPeak, SignatureError,
};

fn peak(pass: u32, magnitude: u16, bin: u16) -> FrequencyPeak {
    FrequencyPeak {
        fft_pass_number: pass,
        peak_magnitude: magnitude,
        corrected_peak_frequency_bin: bin,
    }
}

fn le32_at(buf: &[u8], pos: usize) -> u32 {
    u32::from_le_bytes([buf[pos], buf[pos + 1], buf[pos + 2], buf[pos + 3]])
}

fn sample_signature() -> DecodedSignature {
    let mut sig = DecodedSignature::new(16000, 128 * 500);
    sig.push_peak(FrequencyBand::_250_520, peak(3, 1000, 2100));
    sig.push_peak(FrequencyBand::_250_520, peak(7, 1100, 2200));
    sig.push_peak(FrequencyBand::_520_1450, peak(1, 2000, 5000));
    sig.push_peak(FrequencyBand::_520_1450, peak(1, 2050, 5100));
    sig.push_peak(FrequencyBand::_520_1450, peak(400, 2100, 5200));
    sig.push_peak(FrequencyBand::_3500_5500, peak(12, 3000, 30000));
    sig
}

fn bands() -> [FrequencyBand; 4] {
    [
        FrequencyBand::_250_520,
        FrequencyBand::_520_1450,
        FrequencyBand::_1450_3500,
        FrequencyBand::_3500_5500,
    ]
}

fn assert_signatures_equal(a: &DecodedSignature, b: &DecodedSignature) {
    assert_eq!(a.sample_rate_hz, b.sample_rate_hz);
    assert_eq!(a.number_samples, b.number_samples);
    for band in bands() {
        assert_eq!(a.peaks_in_band(band), b.peaks_in_band(band));
    }
}

#[test]
fn round_trip_preserves_everything() {
    let sig = sample_signature();
    let encoded = sig.encode_to_binary().unwrap();
    let decoded = DecodedSignature::decode_from_binary(&encoded).unwrap();
    assert_signatures_equal(&sig, &decoded);
}

#[test]
fn round_trip_of_empty_signature() {
    let sig = DecodedSignature::new(16000, 192000);
    let encoded = sig.encode_to_binary().unwrap();
    assert_eq!(encoded.len(), 56);
    let decoded = DecodedSignature::decode_from_binary(&encoded).unwrap();
    assert_eq!(decoded.number_samples, 192000);
    assert_eq!(decoded.sample_rate_hz, 16000);
    for band in bands() {
        assert!(decoded.peaks_in_band(band).is_empty());
    }
}

#[test]
fn header_layout_is_exact() {
    let sig = DecodedSignature::new(16000, 192000);
    let encoded = sig.encode_to_binary().unwrap();
    assert_eq!(&encoded[0..4], &[0x80, 0x25, 0xfe, 0xca]);
    assert_eq!(le32_at(&encoded, 8), 8); // total length minus the header
    assert_eq!(le32_at(&encoded, 12), 0x94119c00);
    assert_eq!(le32_at(&encoded, 16), 0);
    assert_eq!(le32_at(&encoded, 20), 0);
    assert_eq!(le32_at(&encoded, 24), 0);
    assert_eq!(le32_at(&encoded, 28), 3 << 27); // 16 kHz has code 3
    assert_eq!(le32_at(&encoded, 32), 0);
    assert_eq!(le32_at(&encoded, 36), 0);
    assert_eq!(le32_at(&encoded, 40), 192000 + 3840); // + floor(16000 * 0.24)
    assert_eq!(le32_at(&encoded, 44), (15 << 19) + 0x40000);
    assert_eq!(le32_at(&encoded, 48), 0x40000000);
    assert_eq!(le32_at(&encoded, 52), 8);
    let crc = crc32fast::hash(&encoded[8..]);
    assert_eq!(le32_at(&encoded, 4), crc);
}

#[test]
fn delta_of_254_needs_no_escape() {
    let mut sig = DecodedSignature::new(16000, 1280);
    sig.push_peak(FrequencyBand::_250_520, peak(0, 10, 2100));
    sig.push_peak(FrequencyBand::_250_520, peak(254, 11, 2101));
    let encoded = sig.encode_to_binary().unwrap();
    // One band block: id, then the list length, then two plain records.
    assert_eq!(le32_at(&encoded, 56), 0x60030040);
    assert_eq!(le32_at(&encoded, 60), 10);
    assert_eq!(encoded[64], 0); // first delta: 0 - 0
    assert_eq!(encoded[69], 254); // second delta: 254 - 0
    let decoded = DecodedSignature::decode_from_binary(&encoded).unwrap();
    let peaks = decoded.peaks_in_band(FrequencyBand::_250_520);
    assert_eq!(peaks[0].fft_pass_number, 0);
    assert_eq!(peaks[1].fft_pass_number, 254);
}

#[test]
fn delta_of_255_forces_an_escape() {
    let mut sig = DecodedSignature::new(16000, 1280);
    sig.push_peak(FrequencyBand::_250_520, peak(0, 10, 2100));
    sig.push_peak(FrequencyBand::_250_520, peak(255, 11, 2101));
    let encoded = sig.encode_to_binary().unwrap();
    assert_eq!(le32_at(&encoded, 60), 15);
    assert_eq!(encoded[64], 0); // first record, delta 0
    assert_eq!(encoded[69], 0xff); // escape marker
    assert_eq!(le32_at(&encoded, 70), 255); // absolute pass number
    assert_eq!(encoded[74], 0); // delta after an escape is always 0
    let decoded = DecodedSignature::decode_from_binary(&encoded).unwrap();
    let peaks = decoded.peaks_in_band(FrequencyBand::_250_520);
    assert_eq!(peaks[0].fft_pass_number, 0);
    assert_eq!(peaks[1].fft_pass_number, 255);
}

#[test]
fn any_single_byte_flip_past_the_checksum_fails() {
    let sig = sample_signature();
    let encoded = sig.encode_to_binary().unwrap();
    for i in 8..encoded.len() {
        let mut corrupted = encoded.clone();
        corrupted[i] ^= 0x01;
        match DecodedSignature::decode_from_binary(&corrupted) {
            Err(SignatureError::BadChecksum) => {}
            other => panic!("flip at {} was not caught by the checksum: {:?}", i, other.is_ok()),
        }
    }
}

#[test]
fn any_truncation_fails() {
    let sig = sample_signature();
    let encoded = sig.encode_to_binary().unwrap();
    for k in 1..=encoded.len() {
        let shorter = &encoded[..encoded.len() - k];
        assert!(DecodedSignature::decode_from_binary(shorter).is_err());
    }
}

#[test]
fn re_encoding_a_decoded_signature_is_byte_identical() {
    let sig = sample_signature();
    let encoded = sig.encode_to_binary().unwrap();
    let decoded = DecodedSignature::decode_from_binary(&encoded).unwrap();
    let encoded_again = decoded.encode_to_binary().unwrap();
    assert_eq!(encoded, encoded_again);
}

#[test]
fn encoder_sorts_bands_by_pass_number() {
    let mut sig = DecodedSignature::new(16000, 1280);
    sig.push_peak(FrequencyBand::_520_1450, peak(9, 5, 5000));
    sig.push_peak(FrequencyBand::_520_1450, peak(2, 6, 5001));
    sig.push_peak(FrequencyBand::_520_1450, peak(5, 7, 5002));
    let encoded = sig.encode_to_binary().unwrap();
    let decoded = DecodedSignature::decode_from_binary(&encoded).unwrap();
    let passes: Vec<u32> = decoded
        .peaks_in_band(FrequencyBand::_520_1450)
        .iter()
        .map(|p| p.fft_pass_number)
        .collect();
    assert_eq!(passes, vec![2, 5, 9]);
}

#[test]
fn unknown_sample_rate_is_rejected_on_encode() {
    let sig = DecodedSignature::new(22050, 1000);
    match sig.encode_to_binary() {
        Err(SignatureError::InvalidSampleRate) => {}
        _ => panic!("a 22050 Hz signature must not encode"),
    }
}

fn with_fixed_crc(mut buf: Vec<u8>) -> Vec<u8> {
    let crc = crc32fast::hash(&buf[8..]);
    buf[4..8].copy_from_slice(&crc.to_le_bytes());
    buf
}

#[test]
fn bad_magic_words_are_rejected() {
    let encoded = sample_signature().encode_to_binary().unwrap();

    let mut bad1 = encoded.clone();
    bad1[0] ^= 0xff;
    assert_eq!(
        DecodedSignature::decode_from_binary(&bad1).unwrap_err(),
        SignatureError::BadMagic1
    );

    let mut bad2 = encoded.clone();
    bad2[12] ^= 0xff;
    let bad2 = with_fixed_crc(bad2);
    assert_eq!(
        DecodedSignature::decode_from_binary(&bad2).unwrap_err(),
        SignatureError::BadMagic2
    );
}

#[test]
fn unknown_sample_rate_code_is_rejected_on_decode() {
    let encoded = sample_signature().encode_to_binary().unwrap();
    let mut bad = encoded.clone();
    bad[28..32].copy_from_slice(&(9u32 << 27).to_le_bytes());
    let bad = with_fixed_crc(bad);
    assert_eq!(
        DecodedSignature::decode_from_binary(&bad).unwrap_err(),
        SignatureError::InvalidSampleRate
    );
}

#[test]
fn unknown_band_id_is_rejected_on_decode() {
    let encoded = sample_signature().encode_to_binary().unwrap();
    let mut bad = encoded.clone();
    bad[56..60].copy_from_slice(&(0x60030040u32 + 7).to_le_bytes());
    let bad = with_fixed_crc(bad);
    assert_eq!(
        DecodedSignature::decode_from_binary(&bad).unwrap_err(),
        SignatureError::BadBandId
    );
}

#[test]
fn short_buffers_are_rejected() {
    assert_eq!(
        DecodedSignature::decode_from_binary(&[0u8; 55]).unwrap_err(),
        SignatureError::TooShort
    );
    assert!(DecodedSignature::decode_from_binary(&[]).is_err());
}

#[test]
fn a_broken_size_record_is_rejected() {
    let encoded = sample_signature().encode_to_binary().unwrap();
    let mut bad = encoded.clone();
    bad[48..52].copy_from_slice(&0x50000000u32.to_le_bytes());
    let bad = with_fixed_crc(bad);
    assert_eq!(
        DecodedSignature::decode_from_binary(&bad).unwrap_err(),
        SignatureError::BadSizeRecord
    );
}

#[test]
fn a_sample_count_below_the_latency_offset_is_rejected() {
    let encoded = sample_signature().encode_to_binary().unwrap();
    let mut bad = encoded.clone();
    // floor(16000 * 0.24) = 3840 is subtracted on decode; less than
    // that cannot have been written by an encoder.
    bad[40..44].copy_from_slice(&100u32.to_le_bytes());
    let bad = with_fixed_crc(bad);
    assert_eq!(
        DecodedSignature::decode_from_binary(&bad).unwrap_err(),
        SignatureError::BadSampleCount
    );
}

#[test]
fn a_peak_list_cut_inside_a_record_is_rejected() {
    let mut sig = DecodedSignature::new(16000, 1280);
    sig.push_peak(FrequencyBand::_250_520, peak(1, 10, 2100));
    let encoded = sig.encode_to_binary().unwrap();
    // Claim a 3-byte peak list: too short for any record.
    let mut bad = encoded.clone();
    bad[60..64].copy_from_slice(&3u32.to_le_bytes());
    let bad = with_fixed_crc(bad);
    assert_eq!(
        DecodedSignature::decode_from_binary(&bad).unwrap_err(),
        SignatureError::Truncated
    );
    // Claim more bytes than the buffer holds.
    let mut bad = encoded.clone();
    bad[60..64].copy_from_slice(&1000u32.to_le_bytes());
    let bad = with_fixed_crc(bad);
    assert_eq!(
        DecodedSignature::decode_from_binary(&bad).unwrap_err(),
        SignatureError::Truncated
    );
}

#[test]
fn a_delta_past_the_pass_number_range_is_rejected() {
    // Hand-build a buffer whose one band holds an escape to the largest
    // pass number followed by a further delta, which cannot fit.
    let mut buf = Vec::new();
    buf.extend_from_slice(&0xcafe2580u32.to_le_bytes()); // magic1
    buf.extend_from_slice(&0u32.to_le_bytes()); // crc, fixed below
    let body_len = 15u32; // escape record (10 bytes) + plain record (5 bytes)
    let block_len = 8 + 15 + 1; // id + length + list + padding
    let size_minus_header = 8 + block_len as u32;
    buf.extend_from_slice(&size_minus_header.to_le_bytes());
    buf.extend_from_slice(&0x94119c00u32.to_le_bytes()); // magic2
    buf.extend_from_slice(&[0u8; 12]); // void
    buf.extend_from_slice(&(3u32 << 27).to_le_bytes()); // 16 kHz
    buf.extend_from_slice(&[0u8; 8]); // void
    buf.extend_from_slice(&(16000u32 + 3840).to_le_bytes());
    buf.extend_from_slice(&0x007c0000u32.to_le_bytes());
    buf.extend_from_slice(&0x40000000u32.to_le_bytes());
    buf.extend_from_slice(&size_minus_header.to_le_bytes());
    buf.extend_from_slice(&0x60030040u32.to_le_bytes()); // first band
    buf.extend_from_slice(&body_len.to_le_bytes());
    buf.push(0xff); // absolute pass number follows
    buf.extend_from_slice(&u32::MAX.to_le_bytes());
    buf.extend_from_slice(&[0, 1, 0, 2, 0]); // record at the maximum
    buf.extend_from_slice(&[1, 1, 0, 2, 0]); // delta 1 overflows
    buf.push(0); // padding
    let buf = with_fixed_crc(buf);
    assert_eq!(
        DecodedSignature::decode_from_binary(&buf).unwrap_err(),
        SignatureError::PassNumberOverflow
    );
}

#[test]
fn error_messages_name_their_cause() {
    assert_eq!(SignatureError::BadChecksum.message(), "checksum mismatch");
    assert_eq!(
        SignatureError::TooShort.message(),
        "buffer too short for a signature"
    );
}
