//! What a lyrics lookup needs from the library: the artist and title of
//! the song to search for. The lookup itself - building the page URL
//! and fetching it - is the surrounding application's concern.

use vstd::prelude::*;

verus! {

/// The song a lyrics search is about.
pub struct LyricSearchInfo {
    pub artist_name: String,
    pub song_name: String,
}

} // verus!
