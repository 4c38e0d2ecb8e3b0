//! The catalog's unit of data: one audio file and its metadata.

use vstd::prelude::*;

verus! {

/// One audio file known to the library.
///
/// `path` is the track's sole identity. Every other field is optional
/// metadata and is absent when the file carries no such information.
#[derive(Debug, Clone)]
pub struct Track {
    pub path: String,
    pub title: Option<String>,
    pub artist: Option<String>,
    pub album: Option<String>,
    pub duration_secs: Option<u64>,
}

/// The mathematical value of a [`Track`]: text as sequences of characters.
pub struct TrackView {
    pub path: Seq<char>,
    pub title: Option<Seq<char>>,
    pub artist: Option<Seq<char>>,
    pub album: Option<Seq<char>>,
    pub duration_secs: Option<u64>,
}

impl View for Track {
    type V = TrackView;

    open spec fn view(&self) -> TrackView {
        TrackView {
            path: self.path@,
            title: self.title.deep_view(),
            artist: self.artist.deep_view(),
            album: self.album.deep_view(),
            duration_secs: self.duration_secs,
        }
    }
}

/// The rows that a list of tracks stands for, in the same order.
pub open spec fn rows_of(tracks: Seq<Track>) -> Seq<TrackView> {
    tracks.map_values(|t: Track| t@)
}

/// A copy of an optional text with the same characters.
pub fn copy_text(text: &Option<String>) -> (copy: Option<String>)
    ensures
        copy.deep_view() == text.deep_view(),
{
    match text {
        Some(s) => Some(s.clone()),
        None => None,
    }
}

impl Track {
    /// A copy of this track, equal to it field by field.
    pub fn duplicate(&self) -> (copy: Track)
        ensures
            copy@ == self@,
    {
        Track {
            path: self.path.clone(),
            title: copy_text(&self.title),
            artist: copy_text(&self.artist),
            album: copy_text(&self.album),
            duration_secs: self.duration_secs,
        }
    }
}

} // verus!
