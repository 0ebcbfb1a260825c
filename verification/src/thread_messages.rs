//! The messages the recording, processing and recognition threads
//! exchange. The library only defines their shapes; the surrounding
//! application owns the channels that carry them.

use vstd::prelude::*;

use crate::fingerprinting::signature_format::DecodedSignature;

verus! {

/// A recognised track, as extracted from the recognition service's
/// response, together with the signature that produced it.
pub struct SongRecognizedMessage {
    pub artist_name: String,
    pub album_name: Option<String>,
    pub song_name: String,
    pub cover_image: Option<Vec<u8>>,
    pub signature: Box<DecodedSignature>,
    pub track_key: String,
    pub release_year: Option<String>,
    pub genre: Option<String>,
    pub shazam_json: String,
}

/// One selectable audio input device.
pub struct DeviceListItem {
    pub inner_name: String,
    pub display_name: String,
    pub is_monitor: bool,
}

/// Orders for the microphone thread.
pub enum MicrophoneMessage {
    MicrophoneRecordStart(String),
    MicrophoneRecordStop,
    ProcessingDone,
}

/// Orders for the processing thread.
pub enum ProcessingMessage {
    ProcessAudioFile(String),
    ProcessAudioSamples(Box<Vec<i16>>),
}

/// Orders for the recognition thread.
pub enum HTTPMessage {
    RecognizeSignature(Box<DecodedSignature>),
}

} // verus!
