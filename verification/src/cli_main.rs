//! What the command-line front end asks of the library: the shape of a
//! run's parameters and of its output format. Argument parsing and the
//! event loop live in the surrounding application.

use vstd::prelude::*;

verus! {

/// How a recognised song is printed.
pub enum CLIOutputType {
    SongName,
    JSON,
    CSV,
}

/// One command-line run.
pub struct CLIParameters {
    pub enable_mpris: bool,
    pub recognize_once: bool,
    pub audio_device: Option<String>,
    pub input_file: Option<String>,
    pub output_type: CLIOutputType,
}

} // verus!
