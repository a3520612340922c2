//! The library's domain model: track identifiers, audio formats, tracks and
//! playback enums.

use vstd::prelude::*;
use crate::text::str_eq;

verus! {

// ---------------------------------------------------------------------------
// Track identifiers
// ---------------------------------------------------------------------------

/// `s` is a random (version 4, RFC 4122 variant) UUID in its hyphenated
/// lower-case form: `xxxxxxxx-xxxx-4xxx-yxxx-xxxxxxxxxxxx` with lower-case
/// hexadecimal digits, the version digit `4` and a variant digit `y` of `8`,
/// `9`, `a` or `b`.
pub open spec fn is_v4_uuid(s: Seq<char>) -> bool {
    &&& s.len() == 36
    &&& s[14] == '4'
    &&& (s[19] == '8' || s[19] == '9' || s[19] == 'a' || s[19] == 'b')
    &&& forall|i: int|
        0 <= i < 36 ==> if i == 8 || i == 13 || i == 18 || i == 23 {
            #[trigger] s[i] == '-'
        } else {
            ('0' <= s[i] && s[i] <= '9') || ('a' <= s[i] && s[i] <= 'f')
        }
}

/// `uuid::Uuid::new_v4` rendered with `to_string`: a fresh random UUID in its
/// hyphenated lower-case form. `new_v4` masks in the version digit and the
/// variant bits. Which UUID comes out is chance; only its shape is stated.
#[verifier::external_body]
fn random_uuid_string() -> (s: String)
    ensures
        is_v4_uuid(s@),
{
    uuid::Uuid::new_v4().to_string()
}

/// Unique identifier for audio tracks.
#[derive(Debug, Clone, PartialEq, Eq, Hash)]
pub struct TrackId(pub String);

impl TrackId {
    /// A fresh random identifier.
    pub fn new() -> (id: Self)
        ensures
            is_v4_uuid(id.0@),
    {
        TrackId(random_uuid_string())
    }

    /// A fresh random identifier (the same as [`TrackId::new`]).
    pub fn default() -> (id: Self)
        ensures
            is_v4_uuid(id.0@),
    {
        Self::new()
    }
}

// ---------------------------------------------------------------------------
// Audio formats
// ---------------------------------------------------------------------------

/// Supported high-fidelity audio formats.
#[derive(Debug, Clone, Copy, PartialEq, Eq, Structural)]
pub enum AudioFormat {
    Mp3,
    Flac,
    Wav,
    Aac,
    Ogg,
    Opus,
    Aiff,
    Alac,
    Unknown,
}

/// What `str::to_lowercase` returns for the string `s` (Unicode lower-case mapping).
pub uninterp spec fn unicode_lowercase(s: Seq<char>) -> Seq<char>;

/// Every character of `s` is ASCII.
pub open spec fn all_ascii(s: Seq<char>) -> bool {
    forall|i: int| 0 <= i < s.len() ==> (#[trigger] s[i] as u32) < 128
}

/// The ASCII lower-case form of a character: `A` to `Z` become `a` to `z`,
/// every other character stays.
pub open spec fn ascii_lower_char(c: char) -> char {
    if 'A' <= c && c <= 'Z' {
        ((c as u32) + 32) as char
    } else {
        c
    }
}

/// `s` with every character in ASCII lower case.
pub open spec fn ascii_lower(s: Seq<char>) -> Seq<char> {
    s.map_values(|c: char| ascii_lower_char(c))
}

/// `str::to_lowercase`: the Unicode lower-case form of `s`. The mapping is
/// Unicode's and its result is named; on ASCII text it is the ASCII mapping
/// (`A` to `Z` become `a` to `z`, the rest stays).
#[verifier::external_body]
pub(crate) fn to_lowercase(s: &str) -> (r: String)
    ensures
        r@ == unicode_lowercase(s@),
        all_ascii(s@) ==> r@ == ascii_lower(s@),
{
    s.to_lowercase()
}

/// The format that a lower-case file extension names.
pub open spec fn format_for_extension(lower: Seq<char>) -> AudioFormat {
    if lower == "mp3"@ {
        AudioFormat::Mp3
    } else if lower == "flac"@ {
        AudioFormat::Flac
    } else if lower == "wav"@ {
        AudioFormat::Wav
    } else if lower == "aac"@ || lower == "m4a"@ {
        AudioFormat::Aac
    } else if lower == "ogg"@ {
        AudioFormat::Ogg
    } else if lower == "opus"@ {
        AudioFormat::Opus
    } else if lower == "aiff"@ || lower == "aif"@ {
        AudioFormat::Aiff
    } else if lower == "alac"@ {
        AudioFormat::Alac
    } else {
        AudioFormat::Unknown
    }
}

impl AudioFormat {
    /// The format named by a file extension, compared without regard to case.
    pub fn from_extension(ext: &str) -> (f: AudioFormat)
        ensures
            f == format_for_extension(unicode_lowercase(ext@)),
            all_ascii(ext@) ==> f == format_for_extension(ascii_lower(ext@)),
    {
        let lower = to_lowercase(ext);
        Self::from_lowercase_extension(lower.as_str())
    }

    /// The format named by an extension that is already in lower case.
    pub fn from_lowercase_extension(lower: &str) -> (f: AudioFormat)
        ensures
            f == format_for_extension(lower@),
    {
        if str_eq(lower, "mp3") {
            AudioFormat::Mp3
        } else if str_eq(lower, "flac") {
            AudioFormat::Flac
        } else if str_eq(lower, "wav") {
            AudioFormat::Wav
        } else if str_eq(lower, "aac") || str_eq(lower, "m4a") {
            AudioFormat::Aac
        } else if str_eq(lower, "ogg") {
            AudioFormat::Ogg
        } else if str_eq(lower, "opus") {
            AudioFormat::Opus
        } else if str_eq(lower, "aiff") || str_eq(lower, "aif") {
            AudioFormat::Aiff
        } else if str_eq(lower, "alac") {
            AudioFormat::Alac
        } else {
            AudioFormat::Unknown
        }
    }
}

/// The short label shown for each format in track lists.
pub open spec fn format_label(fmt: AudioFormat) -> Seq<char> {
    match fmt {
        AudioFormat::Mp3 => "MP3"@,
        AudioFormat::Flac => "FLAC"@,
        AudioFormat::Wav => "WAV"@,
        AudioFormat::Aac => "AAC"@,
        AudioFormat::Ogg => "OGG"@,
        AudioFormat::Opus => "OPUS"@,
        AudioFormat::Aiff => "AIFF"@,
        AudioFormat::Alac => "ALAC"@,
        AudioFormat::Unknown => "AUDIO"@,
    }
}

/// The short label shown for a format in track lists.
pub fn format_name(fmt: AudioFormat) -> (name: &'static str)
    ensures
        name@ == format_label(fmt),
{
    match fmt {
        AudioFormat::Mp3 => "MP3",
        AudioFormat::Flac => "FLAC",
        AudioFormat::Wav => "WAV",
        AudioFormat::Aac => "AAC",
        AudioFormat::Ogg => "OGG",
        AudioFormat::Opus => "OPUS",
        AudioFormat::Aiff => "AIFF",
        AudioFormat::Alac => "ALAC",
        AudioFormat::Unknown => "AUDIO",
    }
}

/// A format's short name in lower case.
pub open spec fn short_name(fmt: AudioFormat) -> Seq<char> {
    match fmt {
        AudioFormat::Mp3 => "mp3"@,
        AudioFormat::Flac => "flac"@,
        AudioFormat::Wav => "wav"@,
        AudioFormat::Aac => "aac"@,
        AudioFormat::Ogg => "ogg"@,
        AudioFormat::Opus => "opus"@,
        AudioFormat::Aiff => "aiff"@,
        AudioFormat::Alac => "alac"@,
        AudioFormat::Unknown => "audio"@,
    }
}

/// A format's label in lower case is its short name.
pub proof fn lemma_format_label_lower(fmt: AudioFormat)
    ensures
        ascii_lower(format_label(fmt)) == short_name(fmt),
{
    reveal_strlit("MP3");
    reveal_strlit("FLAC");
    reveal_strlit("WAV");
    reveal_strlit("AAC");
    reveal_strlit("OGG");
    reveal_strlit("OPUS");
    reveal_strlit("AIFF");
    reveal_strlit("ALAC");
    reveal_strlit("AUDIO");
    reveal_strlit("mp3");
    reveal_strlit("flac");
    reveal_strlit("wav");
    reveal_strlit("aac");
    reveal_strlit("ogg");
    reveal_strlit("opus");
    reveal_strlit("aiff");
    reveal_strlit("alac");
    reveal_strlit("audio");
    assert(ascii_lower(format_label(fmt)) =~= short_name(fmt));
}

/// A format's label names the format again: read back as an extension
/// (without regard to case, see [`AudioFormat::from_extension`]) it gives the
/// same format, the `AUDIO` of an unknown format included.
pub proof fn lemma_format_label_round_trip(fmt: AudioFormat)
    ensures
        all_ascii(format_label(fmt)),
        format_for_extension(ascii_lower(format_label(fmt))) == fmt,
{
    reveal_strlit("MP3");
    reveal_strlit("FLAC");
    reveal_strlit("WAV");
    reveal_strlit("AAC");
    reveal_strlit("OGG");
    reveal_strlit("OPUS");
    reveal_strlit("AIFF");
    reveal_strlit("ALAC");
    reveal_strlit("AUDIO");
    reveal_strlit("mp3");
    reveal_strlit("flac");
    reveal_strlit("wav");
    reveal_strlit("aac");
    reveal_strlit("m4a");
    reveal_strlit("ogg");
    reveal_strlit("opus");
    reveal_strlit("aiff");
    reveal_strlit("aif");
    reveal_strlit("alac");
    let l = format_label(fmt);
    let a = ascii_lower(l);
    assert("mp3"@[0] == 'm' && "flac"@[0] == 'f' && "wav"@[0] == 'w' && "aac"@[0] == 'a' && "m4a"@[0] == 'm');
    assert("ogg"@[0] == 'o' && "opus"@[0] == 'o' && "aiff"@[0] == 'a' && "aif"@[0] == 'a' && "alac"@[0] == 'a');
    assert("aac"@[1] == 'a' && "aiff"@[1] == 'i' && "aif"@[1] == 'i' && "alac"@[1] == 'l' && "m4a"@[1] == '4');
    assert("mp3"@.len() == 3 && "m4a"@.len() == 3 && "ogg"@.len() == 3 && "aif"@.len() == 3 && "aac"@.len() == 3);
    match fmt {
        AudioFormat::Mp3 => {
            assert(a =~= "mp3"@);
            assert(a == "mp3"@);
            assert(format_for_extension(a) == AudioFormat::Mp3);
        },
        AudioFormat::Flac => {
            assert(a =~= "flac"@);
            assert(a[0] == "flac"@[0] && a[1] == "flac"@[1] && a.len() == 4);
            assert(format_for_extension(a) == AudioFormat::Flac);
        },
        AudioFormat::Wav => {
            assert(a =~= "wav"@);
            assert(a[0] == 'w' && "mp3"@[0] == 'm' && "wav"@[0] == 'w' && "aac"@[0] == 'a');
            assert(a[1] == "wav"@[1] && "aac"@[1] == 'a' && "m4a"@[0] == 'm');
            assert(format_for_extension(a) == AudioFormat::Wav);
        },
        AudioFormat::Aac => {
            assert(a =~= "aac"@);
            assert(a[0] == 'a' && "mp3"@[0] == 'm' && "wav"@[0] == 'w' && "aac"@[0] == 'a');
            assert(a[1] == "aac"@[1] && "aac"@[1] == 'a' && "m4a"@[0] == 'm');
            assert(format_for_extension(a) == AudioFormat::Aac);
        },
        AudioFormat::Ogg => {
            assert(a =~= "ogg"@);
            assert(a[0] == 'o' && "mp3"@[0] == 'm' && "wav"@[0] == 'w' && "aac"@[0] == 'a');
            assert(a[1] == "ogg"@[1] && "aac"@[1] == 'a' && "m4a"@[0] == 'm');
            assert(format_for_extension(a) == AudioFormat::Ogg);
        },
        AudioFormat::Opus => {
            assert(a =~= "opus"@);
            assert(a[0] == "opus"@[0] && a[1] == "opus"@[1] && a.len() == 4);
            assert(format_for_extension(a) == AudioFormat::Opus);
        },
        AudioFormat::Aiff => {
            assert(a =~= "aiff"@);
            assert(a[0] == "aiff"@[0] && a[1] == "aiff"@[1] && a.len() == 4);
            assert(format_for_extension(a) == AudioFormat::Aiff);
        },
        AudioFormat::Alac => {
            assert(a =~= "alac"@);
            assert(a[0] == "alac"@[0] && a[1] == "alac"@[1] && a.len() == 4);
            assert(format_for_extension(a) == AudioFormat::Alac);
        },
        AudioFormat::Unknown => {
            assert(a.len() == 5);
            assert(a[0] == 'a');
            assert(a != "mp3"@ && a != "flac"@ && a != "wav"@ && a != "aac"@ && a != "m4a"@);
            assert(a != "ogg"@ && a != "opus"@ && a != "aiff"@ && a != "aif"@ && a != "alac"@);
            assert(format_for_extension(a) == AudioFormat::Unknown);
        },
    }
}

// ---------------------------------------------------------------------------
// Tracks and playback state
// ---------------------------------------------------------------------------

/// Core domain metadata of a music track. The file path is held as text; the
/// ReplayGain values are held as the bit patterns of their `f32` values.
#[derive(Debug, Clone)]
pub struct Track {
    pub id: TrackId,
    pub file_path: String,
    pub title: String,
    pub artist: String,
    pub album: String,
    pub genre: Option<String>,
    pub year: Option<u32>,
    pub track_number: Option<u32>,
    pub duration_ms: u64,
    pub bitrate: Option<u32>,
    pub sample_rate: u32,
    pub channels: u16,
    pub format: AudioFormat,
    pub replaygain_track_gain_bits: Option<u32>,
    pub replaygain_track_peak_bits: Option<u32>,
    pub play_count: u32,
    pub rating: u8,
}

fn clone_opt_string(o: &Option<String>) -> (r: Option<String>)
    ensures
        r == *o,
{
    match o {
        Some(s) => Some(s.clone()),
        None => None,
    }
}

impl Track {
    /// An identical copy of this track.
    pub fn duplicate(&self) -> (t: Track)
        ensures
            t == *self,
    {
        Track {
            id: TrackId(self.id.0.clone()),
            file_path: self.file_path.clone(),
            title: self.title.clone(),
            artist: self.artist.clone(),
            album: self.album.clone(),
            genre: clone_opt_string(&self.genre),
            year: self.year,
            track_number: self.track_number,
            duration_ms: self.duration_ms,
            bitrate: self.bitrate,
            sample_rate: self.sample_rate,
            channels: self.channels,
            format: self.format,
            replaygain_track_gain_bits: self.replaygain_track_gain_bits,
            replaygain_track_peak_bits: self.replaygain_track_peak_bits,
            play_count: self.play_count,
            rating: self.rating,
        }
    }
}

/// Metadata update payload.
#[derive(Debug, Clone)]
pub struct MetadataUpdate {
    pub title: Option<String>,
    pub artist: Option<String>,
    pub album: Option<String>,
    pub genre: Option<String>,
    pub year: Option<u32>,
    pub rating: Option<u8>,
}

/// Current playback state of the audio engine.
#[derive(Debug, Clone, Copy, PartialEq, Eq, Structural)]
pub enum PlayState {
    Stopped,
    Playing,
    Paused,
}

/// ReplayGain mode setting.
#[derive(Debug, Clone, Copy, PartialEq, Eq, Structural)]
pub enum ReplayGainMode {
    Off,
    Track,
    Album,
}

/// Where playback is in the current track. The progress ratio (0 to 1) is
/// the bit pattern of its `f32` value.
#[derive(Debug, Clone, Copy, PartialEq, Eq, Structural)]
pub struct PlaybackPosition {
    pub current_ms: u64,
    pub total_ms: u64,
    pub progress_ratio_bits: u32,
}

/// Events the engine sends to its subscribers, as the interface receives
/// them. A volume travels as the bit pattern of its `f32` value.
#[derive(Debug, Clone)]
pub enum PlayerEvent {
    StateChanged(PlayState),
    TrackStarted(Track),
    TrackEnded,
    PositionUpdated(PlaybackPosition),
    VolumeChanged(u32),
    MuteChanged(bool),
    QueueUpdated(Vec<Track>),
    ErrorOccurred(String),
}

} // verus!
