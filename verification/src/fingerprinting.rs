//! The fingerprinting core: signature data model, binary codec, and the
//! integer part of the streaming peak-detection pipeline.

pub mod algorithm;
pub mod checksum;
pub mod codec_laws;
pub mod data_uri;
pub mod peak_sort;
pub mod signature_format;
pub mod wire;
