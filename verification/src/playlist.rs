//! Opening a local file: the track record shown for it and how it enters the
//! playlist and the recently played list.

use vstd::prelude::*;
use crate::text::str_eq;
use crate::types::{AudioFormat, Track, TrackId, format_for_extension, is_v4_uuid,
    unicode_lowercase};

verus! {

/// Whether some track of `s` has the file path `path`.
pub open spec fn has_path(s: Seq<Track>, path: Seq<char>) -> bool {
    exists|i: int| 0 <= i < s.len() && #[trigger] s[i].file_path@ == path
}

fn contains_path(tracks: &Vec<Track>, path: &str) -> (b: bool)
    ensures
        b == has_path(tracks@, path@),
{
    let n = tracks.len();
    let mut i: usize = 0;
    while i < n
        invariant
            n == tracks@.len(),
            i <= n,
            forall|j: int| 0 <= j < i ==> #[trigger] tracks@[j].file_path@ != path@,
        decreases n - i,
    {
        if str_eq(tracks[i].file_path.as_str(), path) {
            return true;
        }
        i = i + 1;
    }
    false
}

/// The artist line shown for a local file, in the interface language.
pub open spec fn local_artist(is_rtl: bool) -> Seq<char> {
    if is_rtl {
        "קובץ שמע מקומי"@
    } else {
        "Local Audio File"@
    }
}

/// The notice shown once a file is loaded, in the interface language.
pub open spec fn loaded_notice(is_rtl: bool) -> Seq<char> {
    if is_rtl {
        "הקובץ נטען בהצלחה"@
    } else {
        "File Loaded Successfully"@
    }
}

/// The notice shown once a file is loaded.
pub fn load_notice(is_rtl: bool) -> (s: &'static str)
    ensures
        s@ == loaded_notice(is_rtl),
{
    if is_rtl {
        "הקובץ נטען בהצלחה"
    } else {
        "File Loaded Successfully"
    }
}

/// The record of a local file opened by the user: named after the file, with
/// a generic artist and album, the format of its (lower-case) extension and
/// CD-like stream values.
pub open spec fn local_file_track_spec(
    t: Track,
    path: Seq<char>,
    title: Option<Seq<char>>,
    lower_ext: Seq<char>,
    is_rtl: bool,
) -> bool {
    &&& t.file_path@ == path
    &&& t.title@ == match title {
        Some(s) => s,
        None => "Audio File"@,
    }
    &&& t.artist@ == local_artist(is_rtl)
    &&& t.album@ == "Just Music"@
    &&& t.genre is None
    &&& t.year is None
    &&& t.track_number is None
    &&& t.duration_ms == 0
    &&& t.bitrate == Some(320u32)
    &&& t.sample_rate == 44100
    &&& t.channels == 2
    &&& t.format == format_for_extension(unicode_lowercase(lower_ext))
    &&& t.replaygain_track_gain_bits is None
    &&& t.replaygain_track_peak_bits is None
    &&& t.play_count == 0
    &&& t.rating == 0
    &&& is_v4_uuid(t.id.0@)
}

/// Builds the record of a local file (see [`local_file_track_spec`]).
pub fn local_file_track(path: String, title: Option<String>, lower_ext: &str, is_rtl: bool) -> (t:
    Track)
    ensures
        local_file_track_spec(
            t,
            path@,
            match title {
                Some(s) => Some(s@),
                None => None,
            },
            lower_ext@,
            is_rtl,
        ),
{
    let format = AudioFormat::from_extension(lower_ext);
    let title = match title {
        Some(s) => s,
        None => "Audio File".to_owned(),
    };
    let artist = if is_rtl {
        "קובץ שמע מקומי".to_owned()
    } else {
        "Local Audio File".to_owned()
    };
    Track {
        id: TrackId::new(),
        file_path: path,
        title,
        artist,
        album: "Just Music".to_owned(),
        genre: None,
        year: None,
        track_number: None,
        duration_ms: 0,
        bitrate: Some(320),
        sample_rate: 44100,
        channels: 2,
        format,
        replaygain_track_gain_bits: None,
        replaygain_track_peak_bits: None,
        play_count: 0,
        rating: 0,
    }
}

/// Makes `track` the current track, appends it to the playlist unless a track
/// of the same file is there, and puts it first in the recent list unless a
/// track of the same file is there.
pub fn enqueue_opened_track(
    current: &mut Option<Track>,
    playlist: &mut Vec<Track>,
    recent: &mut Vec<Track>,
    track: Track,
)
    ensures
        *final(current) == Some(track),
        final(playlist)@ == playlist_after(old(playlist)@, track),
        final(recent)@ == recent_after(old(recent)@, track),
{
    *current = Some(track.duplicate());
    if !contains_path(playlist, track.file_path.as_str()) {
        playlist.push(track.duplicate());
    }
    if !contains_path(recent, track.file_path.as_str()) {
        recent.insert(0, track);
    }
}

/// The playlist after opening `t` (see [`enqueue_opened_track`]).
pub open spec fn playlist_after(playlist: Seq<Track>, t: Track) -> Seq<Track> {
    if has_path(playlist, t.file_path@) {
        playlist
    } else {
        playlist.push(t)
    }
}

/// The recent list after opening `t` (see [`enqueue_opened_track`]).
pub open spec fn recent_after(recent: Seq<Track>, t: Track) -> Seq<Track> {
    if has_path(recent, t.file_path@) {
        recent
    } else {
        recent.insert(0, t)
    }
}

/// Opening a file that was just opened leaves both lists as they were.
pub proof fn lemma_reopen_changes_nothing(playlist: Seq<Track>, recent: Seq<Track>, t: Track, u: Track)
    requires
        u.file_path@ == t.file_path@,
    ensures
        playlist_after(playlist_after(playlist, t), u) == playlist_after(playlist, t),
        recent_after(recent_after(recent, t), u) == recent_after(recent, t),
{
    if !has_path(playlist, t.file_path@) {
        let p = playlist.push(t);
        assert(p[playlist.len() as int].file_path@ == u.file_path@);
    }
    if !has_path(recent, t.file_path@) {
        let r = recent.insert(0, t);
        assert(r[0].file_path@ == u.file_path@);
    }
}

} // verus!
