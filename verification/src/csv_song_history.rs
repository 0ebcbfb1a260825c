//! The records of the recognition-history list. The history file itself
//! (a CSV, kept in chronological order) is read and written by the
//! surrounding application; the library holds the record shapes and the
//! projection from a dated record to the song it names.

use vstd::prelude::*;

verus! {

/// One line of the history file: a recognised song and when it was heard.
#[derive(Debug, PartialEq, Eq, Clone, Hash)]
pub struct SongHistoryRecord {
    pub song_name: String,
    pub album: Option<String>,
    pub track_key: Option<String>,
    pub release_year: Option<String>,
    pub genre: Option<String>,
    pub recognition_date: String,
}

/// A song without its recognition date.
#[derive(Debug, PartialEq, Eq, Clone, Hash)]
pub struct Song {
    pub song_name: String,
    pub album: Option<String>,
    pub track_key: Option<String>,
    pub release_year: Option<String>,
    pub genre: Option<String>,
}

/// Anything that names a song.
pub trait IsSong {
    fn get_song(self) -> Song;
}

impl IsSong for SongHistoryRecord {
    /// The song this record names: every field but the date, unchanged.
    fn get_song(self) -> Song {
        Song {
            song_name: self.song_name,
            album: self.album,
            track_key: self.track_key,
            release_year: self.release_year,
            genre: self.genre,
        }
    }
}

} // verus!
