//! Process-wide configuration, loaded once at startup and read-only
//! afterwards.

use vstd::prelude::*;

verus! {

/// The gallery's configuration: where the media lives, the shared
/// password, and how many entries the gallery page shows.
pub struct Settings {
    pub media_dir: String,
    pub password: String,
    pub display_count: usize,
}

impl Settings {
    pub fn new(media_dir: String, password: String, display_count: usize) -> (s: Settings)
        ensures
            s.media_dir@ == media_dir@,
            s.password@ == password@,
            s.display_count == display_count,
    {
        Settings { media_dir, password, display_count }
    }
}

} // verus!
