use songrec::fingerprinting::signature_format::{
    DecodedSignature, FrequencyBand, FrequencyPeak, SignatureError,
};

const PREFIX: &str = "data:audio/vnd.shazam.sig;base64,";

#[test]
fn uri_round_trip() {
    let mut sig = DecodedSignature::new(16000, 160000);
    sig.push_peak(
        FrequencyBand::_1450_3500,
        FrequencyPeak {
            fft_pass_number: 42,
            peak_magnitude: 12345,
            corrected_peak_frequency_bin: 20000,
        },
    );
    let uri = sig.encode_to_uri().unwrap();
    assert!(uri.starts_with(PREFIX));

    let binary = sig.encode_to_binary().unwrap();
    assert_eq!(uri[PREFIX.len()..], base64::encode(&binary));

    let decoded = DecodedSignature::decode_from_uri(&uri).unwrap();
    assert_eq!(decoded.sample_rate_hz, 16000);
    assert_eq!(decoded.number_samples, 160000);
    assert_eq!(
        decoded.peaks_in_band(FrequencyBand::_1450_3500),
        sig.peaks_in_band(FrequencyBand::_1450_3500)
    );
}

#[test]
fn uri_without_the_prefix_is_rejected() {
    assert_eq!(
        DecodedSignature::decode_from_uri("http://example.com/x").unwrap_err(),
        SignatureError::BadUriPrefix
    );
    assert_eq!(
        DecodedSignature::decode_from_uri("").unwrap_err(),
        SignatureError::BadUriPrefix
    );
}

#[test]
fn uri_with_broken_base64_is_rejected() {
    let mut uri = String::from(PREFIX);
    uri.push_str("!!!not-base64!!!");
    assert_eq!(
        DecodedSignature::decode_from_uri(&uri).unwrap_err(),
        SignatureError::BadBase64
    );
}

#[test]
fn uri_carrying_a_truncated_payload_is_rejected() {
    let sig = DecodedSignature::new(16000, 16000);
    let binary = sig.encode_to_binary().unwrap();
    let mut uri = String::from(PREFIX);
    uri.push_str(&base64::encode(&binary[..binary.len() - 4]));
    assert!(DecodedSignature::decode_from_uri(&uri).is_err());
}
