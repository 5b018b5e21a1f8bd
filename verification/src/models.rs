//! The records that flow through the player: remote search results, the helper's
//! download report, local tracks and timed lyric lines.
use std::collections::HashMap;

use vstd::prelude::*;

use crate::text::{decimal2, push_decimal2, push_str};

verus! {

/// A song found by the download helper.
#[derive(Debug, Clone)]
pub struct RemoteSong {
    pub id: String,
    pub name: String,
    pub artist: String,
    pub album: String,
    pub duration: u32,
    pub source: String,
    pub ext: String,
    pub cover: String,
    pub url: String,
    pub extra: HashMap<String, String>,
    pub is_vip: bool,
}

/// The helper's answer to a search.
#[derive(Debug, Clone)]
pub struct SearchResponse {
    pub songs: Vec<RemoteSong>,
    pub warnings: Vec<String>,
}

/// The helper's answer to a download.
#[derive(Debug, Clone)]
pub struct DownloadResponse {
    pub status: String,
    pub path: String,
    pub filename: String,
    pub lyric_path: Option<String>,
    pub warning: String,
}

/// A song of the local library.
#[derive(Debug, Clone)]
pub struct LocalTrack {
    pub path: String,
    pub title: String,
    pub artist: String,
    pub album: String,
    pub duration: u32,
}

/// One line of lyrics, shown from `timestamp_ms` on.
#[derive(Debug, Clone)]
pub struct LyricLine {
    pub timestamp_ms: u32,
    pub text: String,
}

impl View for LyricLine {
    type V = (u32, Seq<char>);

    open spec fn view(&self) -> (u32, Seq<char>) {
        (self.timestamp_ms, self.text@)
    }
}

/// The view of a local track: path, title, artist, album and duration.
pub type TrackView = (Seq<char>, Seq<char>, Seq<char>, Seq<char>, u32);

impl View for LocalTrack {
    type V = TrackView;

    open spec fn view(&self) -> TrackView {
        (self.path@, self.title@, self.artist@, self.album@, self.duration)
    }
}

/// The views of a sequence of local tracks.
pub open spec fn tracks_view(v: Seq<LocalTrack>) -> Seq<TrackView> {
    v.map_values(|t: LocalTrack| t@)
}

impl LyricLine {
    /// A copy of this line.
    pub fn duplicate(&self) -> (r: LyricLine)
        ensures
            r@ == self@,
    {
        LyricLine { timestamp_ms: self.timestamp_ms, text: self.text.clone() }
    }
}

impl LocalTrack {
    /// A copy of this track.
    pub fn duplicate(&self) -> (r: LocalTrack)
        ensures
            r == *self,
    {
        LocalTrack {
            path: self.path.clone(),
            title: self.title.clone(),
            artist: self.artist.clone(),
            album: self.album.clone(),
            duration: self.duration,
        }
    }
}

/// The views of a sequence of lyric lines.
pub open spec fn lines_view(v: Seq<LyricLine>) -> Seq<(u32, Seq<char>)> {
    v.map_values(|l: LyricLine| l@)
}

/// `mm:ss` for a known duration, `--:--` for zero.
pub open spec fn duration_text(seconds: u32) -> Seq<char> {
    if seconds == 0 {
        "--:--"@
    } else {
        decimal2((seconds / 60) as nat) + ":"@ + decimal2((seconds % 60) as nat)
    }
}

/// Formats a duration in seconds as minutes and seconds, each with at least two digits.
pub fn format_duration(seconds: u32) -> (s: String)
    ensures
        s@ == duration_text(seconds),
{
    let mut s = String::new();
    if seconds == 0 {
        push_str(&mut s, "--:--");
        return s;
    }
    push_decimal2(&mut s, (seconds / 60) as u64);
    push_str(&mut s, ":");
    push_decimal2(&mut s, (seconds % 60) as u64);
    s
}

} // verus!
