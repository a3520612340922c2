//! Music library rules: which files the scanner and the watcher pick up, and
//! how a track record is built from what the metadata prober found. Walking
//! directories and probing files is done by the caller.

use vstd::prelude::*;
use std::io::Cursor;
use symphonia::default::get_probe;
use crate::duration_text::{parse_decimal, parsed_decimal};
use crate::error::{AetherError, Result};
use crate::text::{chars_of, str_eq};
use crate::types::{AudioFormat, Track, TrackId, format_for_extension, is_v4_uuid, ascii_lower, format_label,
    lemma_format_label_lower, all_ascii,
    to_lowercase, unicode_lowercase};

verus! {

// ---------------------------------------------------------------------------
// File selection
// ---------------------------------------------------------------------------

/// The lower-case extensions the library scanner and watcher index.
pub open spec fn is_indexed_extension(lower: Seq<char>) -> bool {
    lower == "mp3"@ || lower == "flac"@ || lower == "wav"@ || lower == "aac"@ || lower == "m4a"@
        || lower == "ogg"@ || lower == "opus"@ || lower == "aiff"@
}

/// Whether a file with extension `ext` (any case) is indexed by the library
/// scanner and the library watcher.
pub fn is_scannable_extension(ext: &str) -> (b: bool)
    ensures
        b == is_indexed_extension(unicode_lowercase(ext@)),
        all_ascii(ext@) ==> b == is_indexed_extension(ascii_lower(ext@)),
{
    let lower = to_lowercase(ext);
    let l = lower.as_str();
    str_eq(l, "mp3") || str_eq(l, "flac") || str_eq(l, "wav") || str_eq(l, "aac") || str_eq(l, "m4a")
        || str_eq(l, "ogg") || str_eq(l, "opus") || str_eq(l, "aiff")
}

/// The lower-case extensions the player's folder view lists.
pub open spec fn is_listed_extension(lower: Seq<char>) -> bool {
    is_indexed_extension(lower) || lower == "alac"@
}

/// Whether the folder view lists a file with extension `ext` (any case).
pub fn is_listed_audio_extension(ext: &str) -> (b: bool)
    ensures
        b == is_listed_extension(unicode_lowercase(ext@)),
        all_ascii(ext@) ==> b == is_listed_extension(ascii_lower(ext@)),
{
    let lower = to_lowercase(ext);
    let l = lower.as_str();
    str_eq(l, "mp3") || str_eq(l, "flac") || str_eq(l, "wav") || str_eq(l, "aac") || str_eq(l, "ogg")
        || str_eq(l, "opus") || str_eq(l, "m4a") || str_eq(l, "aiff") || str_eq(l, "alac")
}

// ---------------------------------------------------------------------------
// Track records from probed metadata
// ---------------------------------------------------------------------------

/// The metadata tags the library reads.
#[derive(Debug, Clone, Copy, PartialEq, Eq, Structural)]
pub enum StandardTag {
    TrackTitle,
    Artist,
    Album,
    Genre,
    Date,
    TrackNumber,
    Other,
}

/// Stream parameters reported by the prober for the default track.
#[derive(Debug, Clone, Copy, PartialEq, Eq, Structural)]
pub struct StreamParams {
    pub n_frames: Option<u64>,
    pub sample_rate: Option<u32>,
    pub channel_count: Option<usize>,
    pub bits_per_sample: Option<u32>,
}

/// The value of the last tag of kind `kind`, if any (later tags override earlier ones).
pub open spec fn last_tag(tags: Seq<(StandardTag, Seq<char>)>, kind: StandardTag) -> Option<Seq<char>>
    decreases tags.len(),
{
    if tags.len() == 0 {
        None
    } else if tags.last().0 == kind {
        Some(tags.last().1)
    } else {
        last_tag(tags.drop_last(), kind)
    }
}

/// The value of the last tag of kind `kind` that reads as a `u32`, if any.
pub open spec fn last_number_tag(tags: Seq<(StandardTag, Seq<char>)>, kind: StandardTag) -> Option<nat>
    decreases tags.len(),
{
    if tags.len() == 0 {
        None
    } else if tags.last().0 == kind && parsed_u32(tags.last().1) is Some {
        parsed_u32(tags.last().1)
    } else {
        last_number_tag(tags.drop_last(), kind)
    }
}

/// Tags as plain values.
pub open spec fn tag_views(tags: Seq<(StandardTag, String)>) -> Seq<(StandardTag, Seq<char>)> {
    tags.map_values(|t: (StandardTag, String)| (t.0, t.1@))
}

/// What `text.parse::<u32>()` gives.
pub open spec fn parsed_u32(text: Seq<char>) -> Option<nat> {
    match parsed_decimal(text) {
        Some(v) => if v <= u32::MAX {
            Some(v)
        } else {
            None
        },
        None => None,
    }
}

/// Reads a number the way `parse::<u32>()` does.
pub fn parse_u32(text: &str) -> (r: Option<u32>)
    ensures
        match r {
            Some(v) => parsed_u32(text@) == Some(v as nat),
            None => parsed_u32(text@) is None,
        },
{
    let chars = chars_of(text);
    match parse_decimal(chars.as_slice()) {
        Some(v) => if v <= 0xFFFF_FFFF {
            Some(v as u32)
        } else {
            None
        },
        None => None,
    }
}

/// The sample rate used when the prober reports none.
pub const DEFAULT_SAMPLE_RATE: u32 = 44100;

/// `o` as a value, or `d` when absent.
pub open spec fn or_text(o: Option<Seq<char>>, d: Seq<char>) -> Seq<char> {
    match o {
        Some(v) => v,
        None => d,
    }
}

/// The track's length: frames times 1000 over the sample rate, or 0 when the
/// frame count is unknown.
pub open spec fn probed_duration_ms(params: StreamParams) -> nat {
    let sr = match params.sample_rate {
        Some(r) => r as nat,
        None => DEFAULT_SAMPLE_RATE as nat,
    };
    match params.n_frames {
        Some(f) => (f as nat * 1000) / sr,
        None => 0,
    }
}

/// The arithmetic on the probed values neither overflows nor divides by zero.
pub open spec fn probe_in_range(params: StreamParams) -> bool {
    match params.n_frames {
        Some(f) => f as nat * 1000 <= u64::MAX && params.sample_rate != Some(0u32),
        None => true,
    }
}

/// The track record built from a file's path pieces, its stream parameters
/// and its tags (the identifier is fresh and random, so it is left out).
pub open spec fn assembled_track(
    t: Track,
    path: Seq<char>,
    file_stem: Option<Seq<char>>,
    extension: Option<Seq<char>>,
    params: StreamParams,
    tags: Seq<(StandardTag, Seq<char>)>,
) -> bool {
    &&& t.file_path@ == path
    &&& t.title@ == or_text(last_tag(tags, StandardTag::TrackTitle), or_text(file_stem, "Unknown Track"@))
    &&& t.artist@ == or_text(last_tag(tags, StandardTag::Artist), "Unknown Artist"@)
    &&& t.album@ == or_text(last_tag(tags, StandardTag::Album), "Unknown Album"@)
    &&& match t.genre {
        Some(g) => last_tag(tags, StandardTag::Genre) == Some(g@),
        None => last_tag(tags, StandardTag::Genre) is None,
    }
    &&& match t.year {
        Some(y) => last_number_tag(tags, StandardTag::Date) == Some(y as nat),
        None => last_number_tag(tags, StandardTag::Date) is None,
    }
    &&& match t.track_number {
        Some(n) => last_number_tag(tags, StandardTag::TrackNumber) == Some(n as nat),
        None => last_number_tag(tags, StandardTag::TrackNumber) is None,
    }
    &&& t.duration_ms as nat == probed_duration_ms(params)
    &&& t.bitrate == params.bits_per_sample
    &&& t.sample_rate == match params.sample_rate {
        Some(r) => r,
        None => DEFAULT_SAMPLE_RATE,
    }
    &&& t.channels == match params.channel_count {
        Some(c) => c as u16,
        None => 2u16,
    }
    &&& t.format == format_for_extension(unicode_lowercase(or_text(extension, ""@)))
    &&& t.replaygain_track_gain_bits is None
    &&& t.replaygain_track_peak_bits is None
    &&& t.play_count == 0
    &&& t.rating == 0
    &&& is_v4_uuid(t.id.0@)
}

// ---------------------------------------------------------------------------
// Probing a file's bytes
// ---------------------------------------------------------------------------

/// What probing a file's bytes finds, as plain values.
pub enum ProbeFinding {
    /// The stream parameters of the default track.
    Found(StreamParams),
    /// No container was recognised; the prober's error, as text.
    Unprobeable(Seq<char>),
    /// A container was recognised but it holds no default track.
    NoTrack,
}

/// What probing a file's bytes finds.
#[derive(Debug)]
pub enum ProbeOutcome {
    /// The stream parameters of the default track.
    Found(StreamParams),
    /// No container was recognised; the prober's error, as text.
    Unprobeable(String),
    /// A container was recognised but it holds no default track.
    NoTrack,
}

/// A probe outcome as plain values.
pub open spec fn probe_outcome_view(o: ProbeOutcome) -> ProbeFinding {
    match o {
        ProbeOutcome::Found(p) => ProbeFinding::Found(p),
        ProbeOutcome::Unprobeable(e) => ProbeFinding::Unprobeable(e@),
        ProbeOutcome::NoTrack => ProbeFinding::NoTrack,
    }
}

/// What `symphonia`'s prober finds in a file's bytes: the default track's
/// stream parameters, the prober's error text, or that there is no track.
pub uninterp spec fn probed_stream(bytes: Seq<u8>) -> ProbeFinding;

/// The tags of the current metadata revision of the format `symphonia`'s
/// prober finds in a file's bytes, in order: each tag's standard key by its
/// variant name, if it has one, and its value as text (nothing when the bytes
/// cannot be probed).
pub uninterp spec fn probed_tags(bytes: Seq<u8>) -> Seq<(Option<Seq<char>>, Seq<char>)>;

/// The decoder error's message when the bytes cannot be probed.
pub open spec fn probe_failed_text(e: Seq<char>) -> Seq<char> {
    "Probe failed: "@ + e
}

/// An optional text as a plain value.
pub open spec fn opt_view(o: Option<String>) -> Option<Seq<char>> {
    match o {
        Some(s) => Some(s@),
        None => None,
    }
}

/// `Probe::format` of `symphonia` on the bytes, then `default_track` of the
/// format found: the default track's codec parameters, the probe's error
/// (its `Display` text) or the absence of a track. The outcome depends on the
/// bytes alone: the probe in this version does not read the hint, so an empty
/// one is given.
#[verifier::external_body]
fn probe_stream(bytes: Vec<u8>) -> (r: ProbeOutcome)
    ensures
        probe_outcome_view(r) == probed_stream(bytes@),
{
    let source = symphonia::core::io::MediaSourceStream::new(Box::new(Cursor::new(bytes)), Default::default());
    match get_probe().format(&Default::default(), source, &Default::default(), &Default::default()) {
        Err(e) => ProbeOutcome::Unprobeable(e.to_string()),
        Ok(probed) => match probed.format.default_track() {
            None => ProbeOutcome::NoTrack,
            Some(t) => ProbeOutcome::Found(StreamParams {
                n_frames: t.codec_params.n_frames,
                sample_rate: t.codec_params.sample_rate,
                channel_count: t.codec_params.channels.map(|ch| ch.count()),
                bits_per_sample: t.codec_params.bits_per_sample,
            }),
        },
    }
}

/// `Probe::format` of `symphonia` on the bytes, then the tags of the format's
/// current metadata revision, each as its standard key's variant name (the
/// derived `Debug` text) and its value's text; none when probing fails.
#[verifier::external_body]
fn probe_tags(bytes: Vec<u8>) -> (r: Vec<(Option<String>, String)>)
    ensures
        r@.map_values(|t: (Option<String>, String)| (opt_view(t.0), t.1@)) == probed_tags(bytes@),
{
    let source = symphonia::core::io::MediaSourceStream::new(Box::new(Cursor::new(bytes)), Default::default());
    let probed = get_probe().format(&Default::default(), source, &Default::default(), &Default::default());
    let tags = probed.ok().and_then(|mut p| p.format.metadata().current().map(|r| r.tags().to_vec()));
    tags.unwrap_or_default().into_iter().map(|t| (t.std_key.map(|k| format!("{:?}", k)), t.value.to_string())).collect()
}

/// The tag kind a standard key names; keys the library does not read, and
/// tags without a standard key, are `Other`.
pub open spec fn tag_kind_of(key: Option<Seq<char>>) -> StandardTag {
    match key {
        Some(k) => if k == "TrackTitle"@ {
            StandardTag::TrackTitle
        } else if k == "Artist"@ {
            StandardTag::Artist
        } else if k == "Album"@ {
            StandardTag::Album
        } else if k == "Genre"@ {
            StandardTag::Genre
        } else if k == "Date"@ {
            StandardTag::Date
        } else if k == "TrackNumber"@ {
            StandardTag::TrackNumber
        } else {
            StandardTag::Other
        },
        None => StandardTag::Other,
    }
}

/// Probed tags with their kinds.
pub open spec fn kinded_tags(raw: Seq<(Option<Seq<char>>, Seq<char>)>) -> Seq<(StandardTag, Seq<char>)> {
    raw.map_values(|t: (Option<Seq<char>>, Seq<char>)| (tag_kind_of(t.0), t.1))
}

/// The kind of a tag by its standard key (see [`tag_kind_of`]).
pub fn tag_kind(key: &Option<String>) -> (k: StandardTag)
    ensures
        k == tag_kind_of(opt_view(*key)),
{
    match key {
        Some(name) => {
            let n = name.as_str();
            if str_eq(n, "TrackTitle") {
                StandardTag::TrackTitle
            } else if str_eq(n, "Artist") {
                StandardTag::Artist
            } else if str_eq(n, "Album") {
                StandardTag::Album
            } else if str_eq(n, "Genre") {
                StandardTag::Genre
            } else if str_eq(n, "Date") {
                StandardTag::Date
            } else if str_eq(n, "TrackNumber") {
                StandardTag::TrackNumber
            } else {
                StandardTag::Other
            }
        },
        None => StandardTag::Other,
    }
}

/// Reads track metadata out of probed files.
pub struct MetadataExtractor;

fn opt_text(o: &Option<String>) -> (r: Option<String>)
    ensures
        match r {
            Some(v) => *o matches Some(w) && v@ == w@,
            None => o is None,
        },
{
    match o {
        Some(s) => Some(s.clone()),
        None => None,
    }
}

impl MetadataExtractor {
    /// The track record of a file with the given path pieces and contents:
    /// its bytes are probed (see [`probed_stream`], [`probed_tags`]) and the
    /// record assembled (see [`MetadataExtractor::assemble_track`]). Bytes that
    /// cannot be probed give a decoder error. A frame count whose length in
    /// milliseconds overflows, or a sample rate of 0 with a frame count, has no
    /// record: `None`.
    pub fn extract_from_bytes(
        path: String,
        file_stem: Option<String>,
        extension: Option<String>,
        bytes: Vec<u8>,
    ) -> (r: Option<Result<Track>>)
        ensures
            match probed_stream(bytes@) {
                ProbeFinding::Unprobeable(e) => r matches Some(Err(AetherError::Decoder(m))) && m@
                    == probe_failed_text(e),
                ProbeFinding::NoTrack => r matches Some(Err(AetherError::Decoder(m))) && m@ == "No audio track"@,
                ProbeFinding::Found(p) => if probe_in_range(p) {
                    r matches Some(Ok(t)) && assembled_track(
                        t,
                        path@,
                        opt_view(file_stem),
                        opt_view(extension),
                        p,
                        kinded_tags(probed_tags(bytes@)),
                    )
                } else {
                    r is None
                },
            },
    {
        let ghost b = bytes@;
        let params = match probe_stream(bytes.clone()) {
            ProbeOutcome::Found(p) => p,
            ProbeOutcome::Unprobeable(e) => {
                let mut message = "Probe failed: ".to_owned();
                message.append(e.as_str());
                return Some(Err(AetherError::Decoder(message)));
            },
            ProbeOutcome::NoTrack => {
                return Some(Err(AetherError::Decoder("No audio track".to_owned())));
            },
        };
        let in_range = match params.n_frames {
            Some(f) => f <= u64::MAX / 1000 && params.sample_rate != Some(0u32),
            None => true,
        };
        if !in_range {
            return None;
        }
        let raw = probe_tags(bytes);
        let mut tags: Vec<(StandardTag, String)> = Vec::new();
        let n = raw.len();
        let mut i: usize = 0;
        while i < n
            invariant
                n == raw@.len(),
                i <= n,
                tag_views(tags@) == kinded_tags(raw@.map_values(
                    |t: (Option<String>, String)| (opt_view(t.0), t.1@),
                )).take(i as int),
            decreases n - i,
        {
            let ghost before = tags@;
            let ghost all = kinded_tags(raw@.map_values(|t: (Option<String>, String)| (opt_view(t.0), t.1@)));
            let kind = tag_kind(&raw[i].0);
            let value = raw[i].1.clone();
            assert(value@ == raw@[i as int].1@);
            assert(all[i as int] == (kind, value@));
            tags.push((kind, value));
            assert(tag_views(tags@) =~= tag_views(before).push((kind, value@)));
            assert(all.take(i + 1) =~= all.take(i as int).push(all[i as int]));
            assert(tag_views(tags@) =~= kinded_tags(raw@.map_values(
                |t: (Option<String>, String)| (opt_view(t.0), t.1@),
            )).take(i + 1));
            i = i + 1;
        }
        assert(kinded_tags(raw@.map_values(|t: (Option<String>, String)| (opt_view(t.0), t.1@))).take(
            n as int,
        ) =~= kinded_tags(probed_tags(b)));
        let t = Self::assemble_track(path, file_stem, extension, params, &tags);
        Some(Ok(t))
    }

    /// Builds the track record of a probed file (see [`assembled_track`]).
    pub fn assemble_track(
        path: String,
        file_stem: Option<String>,
        extension: Option<String>,
        params: StreamParams,
        tags: &Vec<(StandardTag, String)>,
    ) -> (t: Track)
        requires
            probe_in_range(params),
        ensures
            assembled_track(
                t,
                path@,
                match file_stem {
                    Some(s) => Some(s@),
                    None => None,
                },
                match extension {
                    Some(e) => Some(e@),
                    None => None,
                },
                params,
                tag_views(tags@),
            ),
    {
        let sample_rate = match params.sample_rate {
            Some(r) => r,
            None => DEFAULT_SAMPLE_RATE,
        };
        let duration_ms = match params.n_frames {
            Some(f) => (f * 1000) / (sample_rate as u64),
            None => 0,
        };
        let channels: u16 = match params.channel_count {
            Some(c) => c as u16,
            None => 2,
        };

        let mut title: Option<String> = None;
        let mut artist: Option<String> = None;
        let mut album: Option<String> = None;
        let mut genre: Option<String> = None;
        let mut year: Option<u32> = None;
        let mut track_number: Option<u32> = None;
        let n = tags.len();
        let ghost tv = tag_views(tags@);
        let mut i: usize = 0;
        while i < n
            invariant
                n == tags@.len(),
                tv == tag_views(tags@),
                i <= n,
                match title {
                    Some(v) => last_tag(tv.take(i as int), StandardTag::TrackTitle) == Some(v@),
                    None => last_tag(tv.take(i as int), StandardTag::TrackTitle) is None,
                },
                match artist {
                    Some(v) => last_tag(tv.take(i as int), StandardTag::Artist) == Some(v@),
                    None => last_tag(tv.take(i as int), StandardTag::Artist) is None,
                },
                match album {
                    Some(v) => last_tag(tv.take(i as int), StandardTag::Album) == Some(v@),
                    None => last_tag(tv.take(i as int), StandardTag::Album) is None,
                },
                match genre {
                    Some(v) => last_tag(tv.take(i as int), StandardTag::Genre) == Some(v@),
                    None => last_tag(tv.take(i as int), StandardTag::Genre) is None,
                },
                match year {
                    Some(v) => last_number_tag(tv.take(i as int), StandardTag::Date) == Some(v as nat),
                    None => last_number_tag(tv.take(i as int), StandardTag::Date) is None,
                },
                match track_number {
                    Some(v) => last_number_tag(tv.take(i as int), StandardTag::TrackNumber) == Some(
                        v as nat,
                    ),
                    None => last_number_tag(tv.take(i as int), StandardTag::TrackNumber) is None,
                },
            decreases n - i,
        {
            let ghost prefix = tv.take(i + 1);
            assert(prefix.drop_last() =~= tv.take(i as int));
            assert(prefix.last() == (tags@[i as int].0, tags@[i as int].1@));
            let kind = tags[i].0;
            let value = &tags[i].1;
            match kind {
                StandardTag::TrackTitle => {
                    title = Some(value.clone());
                },
                StandardTag::Artist => {
                    artist = Some(value.clone());
                },
                StandardTag::Album => {
                    album = Some(value.clone());
                },
                StandardTag::Genre => {
                    genre = Some(value.clone());
                },
                StandardTag::Date => {
                    if let Some(y) = parse_u32(value.as_str()) {
                        year = Some(y);
                    }
                },
                StandardTag::TrackNumber => {
                    if let Some(t) = parse_u32(value.as_str()) {
                        track_number = Some(t);
                    }
                },
                StandardTag::Other => {},
            }
            i = i + 1;
        }
        assert(tv.take(n as int) =~= tv);

        let file_name = match opt_text(&file_stem) {
            Some(s) => s,
            None => "Unknown Track".to_owned(),
        };
        let ext = match opt_text(&extension) {
            Some(e) => e,
            None => "".to_owned(),
        };
        let format = AudioFormat::from_extension(ext.as_str());
        Track {
            id: TrackId::new(),
            file_path: path,
            title: match title {
                Some(t) => t,
                None => file_name,
            },
            artist: match artist {
                Some(a) => a,
                None => "Unknown Artist".to_owned(),
            },
            album: match album {
                Some(a) => a,
                None => "Unknown Album".to_owned(),
            },
            genre,
            year,
            track_number,
            duration_ms,
            bitrate: params.bits_per_sample,
            sample_rate,
            channels,
            format,
            replaygain_track_gain_bits: None,
            replaygain_track_peak_bits: None,
            play_count: 0,
            rating: 0,
        }
    }
}

proof fn lemma_no_tag_of_kind(tags: Seq<(StandardTag, Seq<char>)>, kind: StandardTag)
    requires
        forall|j: int| 0 <= j < tags.len() ==> (#[trigger] tags[j]).0 != kind,
    ensures
        last_tag(tags, kind) is None,
    decreases tags.len(),
{
    if tags.len() > 0 {
        assert(tags.last() == tags[tags.len() - 1]);
        assert forall|j: int| 0 <= j < tags.len() - 1 implies (#[trigger] tags.drop_last()[j]).0 != kind by {
            assert(tags.drop_last()[j] == tags[j]);
        }
        lemma_no_tag_of_kind(tags.drop_last(), kind);
    }
}

/// The last tag of each kind decides the field it names: a record assembled
/// from tags ending with an artist, album, title or genre tag has that tag's
/// value as its artist, album, title or genre.
pub proof fn lemma_last_tag_decides(
    t: Track,
    path: Seq<char>,
    file_stem: Option<Seq<char>>,
    extension: Option<Seq<char>>,
    params: StreamParams,
    tags: Seq<(StandardTag, Seq<char>)>,
    value: Seq<char>,
)
    ensures
        assembled_track(t, path, file_stem, extension, params, tags.push((StandardTag::Artist, value)))
            ==> t.artist@ == value,
        assembled_track(t, path, file_stem, extension, params, tags.push((StandardTag::Album, value)))
            ==> t.album@ == value,
        assembled_track(t, path, file_stem, extension, params, tags.push((StandardTag::TrackTitle, value)))
            ==> t.title@ == value,
        assembled_track(t, path, file_stem, extension, params, tags.push((StandardTag::Genre, value)))
            ==> (t.genre matches Some(g) && g@ == value),
{
    assert(tags.push((StandardTag::Artist, value)).last() == (StandardTag::Artist, value));
    assert(tags.push((StandardTag::Album, value)).last() == (StandardTag::Album, value));
    assert(tags.push((StandardTag::TrackTitle, value)).last() == (StandardTag::TrackTitle, value));
    assert(tags.push((StandardTag::Genre, value)).last() == (StandardTag::Genre, value));
}

/// Without a tag of its kind a field takes its default: the artist is
/// "Unknown Artist", the album "Unknown Album", the title the file's stem (or
/// "Unknown Track"), and there is no genre.
pub proof fn lemma_untagged_defaults(
    t: Track,
    path: Seq<char>,
    file_stem: Option<Seq<char>>,
    extension: Option<Seq<char>>,
    params: StreamParams,
    tags: Seq<(StandardTag, Seq<char>)>,
)
    requires
        assembled_track(t, path, file_stem, extension, params, tags),
    ensures
        (forall|j: int| 0 <= j < tags.len() ==> (#[trigger] tags[j]).0 != StandardTag::Artist) ==> t.artist@
            == "Unknown Artist"@,
        (forall|j: int| 0 <= j < tags.len() ==> (#[trigger] tags[j]).0 != StandardTag::Album) ==> t.album@
            == "Unknown Album"@,
        (forall|j: int| 0 <= j < tags.len() ==> (#[trigger] tags[j]).0 != StandardTag::TrackTitle) ==> t.title@
            == (match file_stem {
            Some(s) => s,
            None => "Unknown Track"@,
        }),
        (forall|j: int| 0 <= j < tags.len() ==> (#[trigger] tags[j]).0 != StandardTag::Genre) ==> t.genre is None,
{
    if forall|j: int| 0 <= j < tags.len() ==> (#[trigger] tags[j]).0 != StandardTag::Artist {
        lemma_no_tag_of_kind(tags, StandardTag::Artist);
    }
    if forall|j: int| 0 <= j < tags.len() ==> (#[trigger] tags[j]).0 != StandardTag::Album {
        lemma_no_tag_of_kind(tags, StandardTag::Album);
    }
    if forall|j: int| 0 <= j < tags.len() ==> (#[trigger] tags[j]).0 != StandardTag::TrackTitle {
        lemma_no_tag_of_kind(tags, StandardTag::TrackTitle);
    }
    if forall|j: int| 0 <= j < tags.len() ==> (#[trigger] tags[j]).0 != StandardTag::Genre {
        lemma_no_tag_of_kind(tags, StandardTag::Genre);
    }
}

/// Every format the library knows, ALAC aside, is scanned under its short
/// name in lower case (`mp3`, `flac`, `wav`, `aac`, `ogg`, `opus`, `aiff`),
/// and every known format, ALAC included, is listed by the folder view.
pub proof fn lemma_known_formats_are_scanned(fmt: AudioFormat)
    ensures
        fmt != AudioFormat::Unknown && fmt != AudioFormat::Alac ==> is_indexed_extension(
            ascii_lower(format_label(fmt)),
        ),
        fmt != AudioFormat::Unknown ==> is_listed_extension(ascii_lower(format_label(fmt))),
{
    lemma_format_label_lower(fmt);
}

} // verus!
