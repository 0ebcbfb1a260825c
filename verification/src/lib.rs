//! A verified client library for an audio-fingerprinting protocol:
//! streaming spectral peak extraction and the binary signature codec
//! (checksummed header, delta-encoded per-band peak lists, data-URI
//! wrapper), together with the small decision routines of the
//! surrounding application.

pub mod cli_main;
pub mod csv_song_history;
pub mod fingerprinting;
pub mod lyrics;
pub mod preferences;
pub mod preferences_interface;
pub mod pulseaudio_loopback;
pub mod thread_messages;
