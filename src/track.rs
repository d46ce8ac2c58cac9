use vstd::prelude::*;

verus! {

/// A track of the daemon's library, as far as selection reads it.
#[derive(Debug, Clone)]
pub struct Track {
    /// Stable identifier of the track; history compares tracks by it alone.
    pub url: String,
    pub title: Option<String>,
    /// Artist names in the order the daemon lists them.
    pub artists: Vec<String>,
    pub album: Option<String>,
}

/// The text of an optional attribute.
pub open spec fn text_of(s: Option<String>) -> Option<Seq<char>> {
    match s {
        Some(t) => Some(t@),
        None => None,
    }
}

/// The first listed artist, if any.
pub open spec fn first_artist(t: Track) -> Option<Seq<char>> {
    if t.artists@.len() > 0 {
        Some(t.artists@[0]@)
    } else {
        None
    }
}

impl Track {
    /// A track known by its identifier only, with no metadata.
    pub fn from_url(url: String) -> (r: Track)
        ensures
            r.url == url,
            r.title is None,
            r.artists@.len() == 0,
            r.album is None,
    {
        Track { url, title: None, artists: Vec::new(), album: None }
    }
}

} // verus!
