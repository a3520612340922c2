//! The text and arithmetic around opening an audio file for decoding: cleaning
//! the path a user typed or dropped, the container hint for its extension, the
//! message for a missing file and the stream length. Probing and decoding are
//! done by the caller.

use vstd::prelude::*;
use crate::text::{chars_of, push_char, str_eq, trim_whitespace, unicode_trim, is_white_space,
    skip_white_space, drop_white_space};

verus! {

/// `s` without its leading run of `c`.
pub open spec fn strip_leading(s: Seq<char>, c: char) -> Seq<char>
    decreases s.len(),
{
    if s.len() > 0 && s[0] == c {
        strip_leading(s.drop_first(), c)
    } else {
        s
    }
}

/// `s` without its trailing run of `c`.
pub open spec fn strip_trailing(s: Seq<char>, c: char) -> Seq<char>
    decreases s.len(),
{
    if s.len() > 0 && s.last() == c {
        strip_trailing(s.drop_last(), c)
    } else {
        s
    }
}

/// `s` without leading and trailing runs of `c` (what `str::trim_matches(c)` gives).
pub open spec fn trim_char(s: Seq<char>, c: char) -> Seq<char> {
    strip_trailing(strip_leading(s, c), c)
}

/// Removes every leading and trailing `c` from `s`.
pub fn trim_matches_char(s: &str, c: char) -> (r: String)
    ensures
        r@ == trim_char(s@, c),
{
    let chars = chars_of(s);
    let n = chars.len();
    let mut start: usize = 0;
    assert(s@.skip(0) =~= s@);
    while start < n && chars[start] == c
        invariant
            chars@ == s@,
            n == s@.len(),
            start <= n,
            strip_leading(s@, c) == strip_leading(s@.skip(start as int), c),
        decreases n - start,
    {
        assert(s@.skip(start as int).drop_first() =~= s@.skip(start + 1));
        start = start + 1;
    }
    let ghost lead = s@.skip(start as int);
    assert(strip_leading(s@, c) == lead);
    let mut end: usize = n;
    assert(lead.take(lead.len() as int) =~= lead);
    while end > start && chars[end - 1] == c
        invariant
            chars@ == s@,
            n == s@.len(),
            start <= end <= n,
            lead == s@.skip(start as int),
            strip_trailing(lead, c) == strip_trailing(s@.subrange(start as int, end as int), c),
        decreases end,
    {
        assert(s@.subrange(start as int, end as int).drop_last() =~= s@.subrange(start as int, end - 1));
        end = end - 1;
    }
    assert(s@.skip(start as int) =~= s@.subrange(start as int, n as int));
    let mut out = String::new();
    let mut k: usize = start;
    while k < end
        invariant
            chars@ == s@,
            n == s@.len(),
            start <= k <= end <= n,
            out@ == s@.subrange(start as int, k as int),
        decreases end - k,
    {
        push_char(&mut out, chars[k]);
        assert(out@ =~= s@.subrange(start as int, k + 1));
        k = k + 1;
    }
    out
}

/// A path as typed, dropped or passed on the command line, cleaned the way the
/// player cleans it: white space trimmed, then double quotes, then single
/// quotes stripped from both ends.
pub open spec fn cleaned_path(raw: Seq<char>) -> Seq<char> {
    trim_char(trim_char(unicode_trim(raw), '"'), '\'')
}

/// Cleans a path the user gave (see [`cleaned_path`]).
pub fn clean_path_text(raw: &str) -> (r: String)
    ensures
        r@ == cleaned_path(raw@),
{
    let trimmed = trim_whitespace(raw);
    let unquoted = trim_matches_char(trimmed.as_str(), '"');
    trim_matches_char(unquoted.as_str(), '\'')
}

/// The MIME type hinted to the prober for a lower-case extension.
pub open spec fn mime_for(lower_ext: Seq<char>) -> Option<Seq<char>> {
    if lower_ext == "mp3"@ {
        Some("audio/mp3"@)
    } else if lower_ext == "flac"@ {
        Some("audio/flac"@)
    } else if lower_ext == "wav"@ {
        Some("audio/wav"@)
    } else if lower_ext == "ogg"@ || lower_ext == "opus"@ {
        Some("audio/ogg"@)
    } else if lower_ext == "m4a"@ || lower_ext == "aac"@ || lower_ext == "mp4"@ {
        Some("audio/mp4"@)
    } else if lower_ext == "aiff"@ || lower_ext == "aif"@ {
        Some("audio/aiff"@)
    } else {
        None
    }
}

/// The MIME type hinted to the prober for a lower-case extension.
pub fn mime_hint(lower_ext: &str) -> (r: Option<&'static str>)
    ensures
        match r {
            Some(m) => mime_for(lower_ext@) == Some(m@),
            None => mime_for(lower_ext@) is None,
        },
{
    if str_eq(lower_ext, "mp3") {
        Some("audio/mp3")
    } else if str_eq(lower_ext, "flac") {
        Some("audio/flac")
    } else if str_eq(lower_ext, "wav") {
        Some("audio/wav")
    } else if str_eq(lower_ext, "ogg") || str_eq(lower_ext, "opus") {
        Some("audio/ogg")
    } else if str_eq(lower_ext, "m4a") || str_eq(lower_ext, "aac") || str_eq(lower_ext, "mp4") {
        Some("audio/mp4")
    } else if str_eq(lower_ext, "aiff") || str_eq(lower_ext, "aif") {
        Some("audio/aiff")
    } else {
        None
    }
}

/// The message for a file that is not there.
pub open spec fn missing_file_text(path: Seq<char>) -> Seq<char> {
    "Audio file does not exist at path: '"@ + path + "'"@
}

/// The message for a file that is not there (see [`missing_file_text`]).
pub fn missing_file_message(path: &str) -> (m: String)
    ensures
        m@ == missing_file_text(path@),
{
    let mut m = "Audio file does not exist at path: '".to_owned();
    m.append(path);
    m.append("'");
    m
}

/// A stream's length in milliseconds: frames times 1000 over the sample rate,
/// 0 when the frame count is unknown or the sample rate is 0.
pub open spec fn stream_length_ms(n_frames: Option<u64>, sample_rate: u32) -> nat {
    match n_frames {
        Some(f) => if sample_rate > 0 {
            (f as nat * 1000) / sample_rate as nat
        } else {
            0
        },
        None => 0,
    }
}

/// A stream's length in milliseconds (see [`stream_length_ms`]).
pub fn stream_duration_ms(n_frames: Option<u64>, sample_rate: u32) -> (ms: u64)
    requires
        n_frames matches Some(f) ==> f as nat * 1000 <= u64::MAX,
    ensures
        ms as nat == stream_length_ms(n_frames, sample_rate),
{
    match n_frames {
        Some(frames) => if sample_rate > 0 {
            (frames * 1000) / (sample_rate as u64)
        } else {
            0
        },
        None => 0,
    }
}

/// Stripping a character from both ends twice is the same as stripping it once.
pub proof fn lemma_trim_char_idempotent(s: Seq<char>, c: char)
    ensures
        trim_char(trim_char(s, c), c) == trim_char(s, c),
{
    lemma_strip_leading_stops(s, c);
    let l = strip_leading(s, c);
    lemma_strip_trailing_keeps_front(l, c);
    let t = strip_trailing(l, c);
    lemma_strip_trailing_stops(l, c);
    if t.len() > 0 {
        assert(strip_leading(t, c) == t);
    } else {
        assert(strip_leading(t, c) == t);
    }
}

proof fn lemma_strip_leading_stops(s: Seq<char>, c: char)
    ensures
        strip_leading(s, c).len() > 0 ==> strip_leading(s, c)[0] != c,
    decreases s.len(),
{
    if s.len() > 0 && s[0] == c {
        lemma_strip_leading_stops(s.drop_first(), c);
    }
}

proof fn lemma_strip_trailing_stops(s: Seq<char>, c: char)
    ensures
        strip_trailing(s, c).len() > 0 ==> strip_trailing(s, c).last() != c,
        strip_trailing(strip_trailing(s, c), c) == strip_trailing(s, c),
    decreases s.len(),
{
    if s.len() > 0 && s.last() == c {
        lemma_strip_trailing_stops(s.drop_last(), c);
    }
}

proof fn lemma_strip_trailing_keeps_front(s: Seq<char>, c: char)
    requires
        s.len() > 0 ==> s[0] != c,
    ensures
        strip_trailing(s, c).len() > 0 ==> strip_trailing(s, c)[0] == s[0],
        strip_leading(strip_trailing(s, c), c) == strip_trailing(s, c),
    decreases s.len(),
{
    if s.len() > 0 && s.last() == c {
        assert(s.drop_last().len() > 0 ==> s.drop_last()[0] == s[0]);
        lemma_strip_trailing_keeps_front(s.drop_last(), c);
    }
}

/// Every character of `w` is white space.
pub open spec fn all_white_space(w: Seq<char>) -> bool {
    forall|i: int| 0 <= i < w.len() ==> is_white_space(#[trigger] w[i])
}

proof fn lemma_skip_white_prefix(w: Seq<char>, x: Seq<char>)
    requires
        all_white_space(w),
    ensures
        skip_white_space(w + x) == skip_white_space(x),
    decreases w.len(),
{
    if w.len() == 0 {
        assert(w + x =~= x);
    } else {
        assert((w + x)[0] == w[0]);
        assert((w + x).drop_first() =~= w.drop_first() + x);
        lemma_skip_white_prefix(w.drop_first(), x);
    }
}

proof fn lemma_drop_white_suffix(y: Seq<char>, w: Seq<char>)
    requires
        all_white_space(w),
    ensures
        drop_white_space(y + w) == drop_white_space(y),
    decreases w.len(),
{
    if w.len() == 0 {
        assert(y + w =~= y);
    } else {
        assert((y + w).last() == w.last());
        assert(is_white_space(w[w.len() - 1]));
        assert((y + w).drop_last() =~= y + w.drop_last());
        lemma_drop_white_suffix(y, w.drop_last());
    }
}

proof fn lemma_skip_white_append(x: Seq<char>, w: Seq<char>)
    ensures
        skip_white_space(x).len() > 0 ==> skip_white_space(x + w) == skip_white_space(x) + w,
        skip_white_space(x).len() == 0 ==> skip_white_space(x + w) == skip_white_space(w),
    decreases x.len(),
{
    if x.len() == 0 {
        assert(x + w =~= w);
        assert(skip_white_space(x) + w =~= w);
    } else {
        assert((x + w)[0] == x[0]);
        assert((x + w).drop_first() =~= x.drop_first() + w);
        lemma_skip_white_append(x.drop_first(), w);
        if !is_white_space(x[0]) {
            assert(skip_white_space(x + w) == x + w);
        }
    }
}

/// Cleaning a path ignores white space around it: the path with any white
/// space before and after it cleans to what the path itself cleans to.
pub proof fn lemma_clean_ignores_surrounding_white_space(before: Seq<char>, raw: Seq<char>, after: Seq<char>)
    requires
        all_white_space(before),
        all_white_space(after),
    ensures
        cleaned_path(before + raw + after) == cleaned_path(raw),
        unicode_trim(before + raw + after) == unicode_trim(raw),
{
    assert(before + raw + after =~= before + (raw + after));
    lemma_skip_white_prefix(before, raw + after);
    lemma_skip_white_append(raw, after);
    if skip_white_space(raw).len() > 0 {
        lemma_drop_white_suffix(skip_white_space(raw), after);
    } else {
        lemma_skip_white_prefix(after, Seq::<char>::empty());
        assert(after + Seq::<char>::empty() =~= after);
        assert(skip_white_space(Seq::<char>::empty()) =~= Seq::<char>::empty());
    }
}

} // verus!
