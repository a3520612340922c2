//! Bidirectional text support: layout direction, alignment mirroring and the
//! visual reordering of Hebrew runs inside mixed left-to-right text.

use vstd::prelude::*;
use crate::text::{chars_of, push_char};

verus! {

/// The direction in which a layout flows.
#[derive(Debug, Clone, Copy, PartialEq, Eq, Structural)]
pub enum LayoutDirection {
    Ltr,
    Rtl,
}

/// A logical text alignment, relative to the reading direction.
#[derive(Debug, Clone, Copy, PartialEq, Eq, Structural)]
pub enum TextAlignment {
    Start,
    Center,
    End,
}

// ---------------------------------------------------------------------------
// Character classes
// ---------------------------------------------------------------------------

/// A character of the Hebrew block (U+0590 ..= U+05FF).
pub open spec fn spec_is_hebrew(c: char) -> bool {
    0x0590 <= (c as u32) && (c as u32) <= 0x05FF
}

/// Punctuation that continues a Hebrew run once one has started.
pub open spec fn spec_is_hebrew_punct(c: char) -> bool {
    c == ' ' || c == '.' || c == ',' || c == '!' || c == '?' || c == '"' || c == '\''
        || c == '-' || c == '(' || c == ')'
}

/// A character of the Hebrew, Arabic or Arabic Supplement blocks.
pub open spec fn spec_is_rtl_script(c: char) -> bool {
    (0x0590 <= (c as u32) && (c as u32) <= 0x05FF) || (0x0600 <= (c as u32) && (c as u32)
        <= 0x06FF) || (0x0750 <= (c as u32) && (c as u32) <= 0x077F)
}

/// The glyph a bracket takes when its run is displayed reversed.
pub open spec fn spec_mirror(c: char) -> char {
    if c == '(' {
        ')'
    } else if c == ')' {
        '('
    } else if c == '[' {
        ']'
    } else if c == ']' {
        '['
    } else if c == '{' {
        '}'
    } else if c == '}' {
        '{'
    } else if c == '<' {
        '>'
    } else if c == '>' {
        '<'
    } else {
        c
    }
}

/// Whether `c` lies in the Hebrew block.
pub fn is_hebrew_char(c: char) -> (b: bool)
    ensures
        b == spec_is_hebrew(c),
{
    let u = c as u32;
    0x0590 <= u && u <= 0x05FF
}

/// Whether `c` is punctuation that stays inside a Hebrew run.
pub fn is_hebrew_punct(c: char) -> (b: bool)
    ensures
        b == spec_is_hebrew_punct(c),
{
    match c {
        ' ' | '.' | ',' | '!' | '?' | '"' | '\'' | '-' | '(' | ')' => true,
        _ => false,
    }
}

fn mirrored(c: char) -> (m: char)
    ensures
        m == spec_mirror(c),
{
    match c {
        '(' => ')',
        ')' => '(',
        '[' => ']',
        ']' => '[',
        '{' => '}',
        '}' => '{',
        '<' => '>',
        '>' => '<',
        other => other,
    }
}

// ---------------------------------------------------------------------------
// The reordering model
// ---------------------------------------------------------------------------

/// Position `i` of `s` belongs to a Hebrew run: it is a Hebrew letter, or it is
/// punctuation directly following a position that belongs to a Hebrew run.
pub open spec fn rtl_flag(s: Seq<char>, i: int) -> bool
    decreases i,
{
    if i <= 0 {
        spec_is_hebrew(s[i])
    } else {
        spec_is_hebrew(s[i]) || (rtl_flag(s, i - 1) && spec_is_hebrew_punct(s[i]))
    }
}

/// First position of the maximal run of equal flags that contains `i`.
pub open spec fn run_start(s: Seq<char>, i: int) -> int
    decreases i,
{
    if i > 0 && rtl_flag(s, i - 1) == rtl_flag(s, i) {
        run_start(s, i - 1)
    } else {
        i
    }
}

/// One past the last position of the maximal run of equal flags that contains `i`.
pub open spec fn run_end(s: Seq<char>, i: int) -> int
    decreases s.len() - i,
{
    if 0 <= i && i + 1 < s.len() && rtl_flag(s, i + 1) == rtl_flag(s, i) {
        run_end(s, i + 1)
    } else {
        i + 1
    }
}

/// A run displayed right to left: reversed, with brackets mirrored.
pub open spec fn reversed_mirrored(seg: Seq<char>) -> Seq<char> {
    Seq::new(seg.len(), |k: int| spec_mirror(seg[seg.len() - 1 - k]))
}

/// The visual form of `s`: each position outside Hebrew runs keeps its
/// character; each position inside a Hebrew run shows the mirrored character
/// found at the opposite place of the same run.
pub open spec fn bidi_text(s: Seq<char>) -> Seq<char> {
    Seq::new(
        s.len(),
        |i: int|
            if rtl_flag(s, i) {
                spec_mirror(s[run_start(s, i) + run_end(s, i) - 1 - i])
            } else {
                s[i]
            },
    )
}

/// Within a maximal run that begins at `a`, every position's run starts at `a`.
proof fn lemma_run_start(s: Seq<char>, a: int, j: int)
    requires
        0 <= a <= j < s.len(),
        forall|k: int| a <= k <= j ==> rtl_flag(s, k) == rtl_flag(s, a),
        a == 0 || rtl_flag(s, a - 1) != rtl_flag(s, a),
    ensures
        run_start(s, j) == a,
    decreases j - a,
{
    if j > a {
        lemma_run_start(s, a, j - 1);
    }
}

/// Within a maximal run that ends before `b`, every position's run ends at `b`.
proof fn lemma_run_end(s: Seq<char>, j: int, b: int)
    requires
        0 <= j < b <= s.len(),
        forall|k: int| j <= k < b ==> rtl_flag(s, k) == rtl_flag(s, j),
        b == s.len() || rtl_flag(s, b) != rtl_flag(s, j),
    ensures
        run_end(s, j) == b,
    decreases b - j,
{
    if j + 1 < b {
        lemma_run_end(s, j + 1, b);
    }
}

/// A maximal run `[a, b)` is displayed as the rendering of its own characters.
proof fn lemma_maximal_run(s: Seq<char>, a: int, b: int, flag: bool)
    requires
        0 <= a < b <= s.len(),
        forall|k: int| a <= k < b ==> rtl_flag(s, k) == flag,
        a == 0 || rtl_flag(s, a - 1) != flag,
        b == s.len() || rtl_flag(s, b) != flag,
    ensures
        bidi_text(s).subrange(a, b) == (if flag {
            reversed_mirrored(s.subrange(a, b))
        } else {
            s.subrange(a, b)
        }),
{
    let out = bidi_text(s);
    let seg = s.subrange(a, b);
    assert forall|j: int| a <= j < b implies out[j] == (if flag {
        reversed_mirrored(seg)
    } else {
        seg
    })[j - a] by {
        lemma_run_start(s, a, j);
        lemma_run_end(s, j, b);
    }
    assert(out.subrange(a, b) =~= (if flag {
        reversed_mirrored(seg)
    } else {
        seg
    }));
}

/// Without a Hebrew letter there is no Hebrew run.
proof fn lemma_no_hebrew_no_flag(s: Seq<char>, i: int)
    requires
        0 <= i < s.len(),
        forall|k: int| 0 <= k < s.len() ==> !spec_is_hebrew(#[trigger] s[k]),
    ensures
        !rtl_flag(s, i),
    decreases i,
{
    if i > 0 {
        lemma_no_hebrew_no_flag(s, i - 1);
    }
}

/// Text without Hebrew letters is displayed unchanged.
pub proof fn lemma_bidi_identity_without_hebrew(s: Seq<char>)
    requires
        forall|k: int| 0 <= k < s.len() ==> !spec_is_hebrew(#[trigger] s[k]),
    ensures
        bidi_text(s) == s,
{
    assert forall|i: int| 0 <= i < s.len() implies bidi_text(s)[i] == s[i] by {
        lemma_no_hebrew_no_flag(s, i);
    }
    assert(bidi_text(s) =~= s);
}

// ---------------------------------------------------------------------------
// Executable reordering
// ---------------------------------------------------------------------------

/// Reverses a Hebrew segment for display, mirroring its brackets.
pub fn reverse_hebrew_segment(segment: &str) -> (out: String)
    ensures
        out@ == reversed_mirrored(segment@),
{
    let chars = chars_of(segment);
    let n = chars.len();
    let mut out = String::new();
    let mut k: usize = 0;
    while k < n
        invariant
            n == chars@.len(),
            chars@ == segment@,
            k <= n,
            out@ == reversed_mirrored(segment@).take(k as int),
        decreases n - k,
    {
        let c = mirrored(chars[n - 1 - k]);
        push_char(&mut out, c);
        k = k + 1;
        assert(out@ =~= reversed_mirrored(segment@).take(k as int));
    }
    assert(out@ =~= reversed_mirrored(segment@));
    out
}

/// Reorders every Hebrew run of `input` for display in a left-to-right
/// renderer; text without Hebrew letters is returned unchanged.
pub fn process_bidi_text(input: &str) -> (out: String)
    ensures
        out@ == bidi_text(input@),
{
    let chars = chars_of(input);
    let n = chars.len();
    let ghost s = input@;

    let mut any_hebrew = false;
    let mut p: usize = 0;
    while p < n
        invariant
            n == s.len(),
            chars@ == s,
            p <= n,
            any_hebrew ==> 0 < n,
            !any_hebrew ==> forall|k: int| 0 <= k < p ==> !spec_is_hebrew(#[trigger] s[k]),
        decreases n - p,
    {
        if is_hebrew_char(chars[p]) {
            any_hebrew = true;
        }
        p = p + 1;
    }
    if !any_hebrew {
        proof {
            lemma_bidi_identity_without_hebrew(s);
        }
        return input.to_owned();
    }

    let mut result = String::new();
    let mut segment = String::new();
    let mut is_current_hebrew = false;
    let mut seg_start: usize = 0;
    let mut i: usize = 0;
    while i < n
        invariant
            n == s.len(),
            0 < n,
            chars@ == s,
            seg_start <= i <= n,
            i > 0 ==> seg_start < i,
            i == 0 ==> seg_start == 0 && !is_current_hebrew,
            i > 0 ==> is_current_hebrew == rtl_flag(s, i - 1),
            forall|k: int| seg_start <= k < i ==> rtl_flag(s, k) == is_current_hebrew,
            seg_start > 0 ==> rtl_flag(s, seg_start - 1) != is_current_hebrew,
            segment@ == s.subrange(seg_start as int, i as int),
            result@ == bidi_text(s).take(seg_start as int),
        decreases n - i,
    {
        let ch = chars[i];
        let is_heb = is_hebrew_char(ch) || (is_current_hebrew && is_hebrew_punct(ch));
        assert(is_heb == rtl_flag(s, i as int));
        if is_heb == is_current_hebrew {
            push_char(&mut segment, ch);
            assert(segment@ =~= s.subrange(seg_start as int, i + 1));
        } else {
            if i > 0 {
                proof {
                    lemma_maximal_run(s, seg_start as int, i as int, is_current_hebrew);
                    assert(bidi_text(s).take(i as int) =~= bidi_text(s).take(seg_start as int)
                        + bidi_text(s).subrange(seg_start as int, i as int));
                }
                if is_current_hebrew {
                    let rendered = reverse_hebrew_segment(segment.as_str());
                    result.append(rendered.as_str());
                } else {
                    result.append(segment.as_str());
                }
            }
            is_current_hebrew = is_heb;
            segment = String::new();
            push_char(&mut segment, ch);
            seg_start = i;
            assert(segment@ =~= s.subrange(seg_start as int, i + 1));
        }
        i = i + 1;
    }

    proof {
        lemma_maximal_run(s, seg_start as int, n as int, is_current_hebrew);
        assert(bidi_text(s).take(n as int) =~= bidi_text(s).take(seg_start as int)
            + bidi_text(s).subrange(seg_start as int, n as int));
        assert(bidi_text(s).take(n as int) =~= bidi_text(s));
    }
    if is_current_hebrew {
        let rendered = reverse_hebrew_segment(segment.as_str());
        result.append(rendered.as_str());
    } else {
        result.append(segment.as_str());
    }
    result
}

/// Display form of `text` (see [`process_bidi_text`]).
pub fn bidi(text: &str) -> (out: String)
    ensures
        out@ == bidi_text(text@),
{
    process_bidi_text(text)
}

// ---------------------------------------------------------------------------
// Direction detection
// ---------------------------------------------------------------------------

/// Whether Unicode gives `c` the Alphabetic property (as `char::is_alphabetic` reports).
pub uninterp spec fn unicode_alphabetic(c: char) -> bool;

/// `char::is_alphabetic`: whether `c` has the Unicode Alphabetic property.
/// Its result is named, not described: the property table is Unicode's.
#[verifier::external_body]
fn is_alphabetic(c: char) -> (b: bool)
    ensures
        b == unicode_alphabetic(c),
{
    c.is_alphabetic()
}

/// The direction set by the first strong character of `s`, where
/// `alphabetic[i]` tells whether `s[i]` is alphabetic: a character of a
/// right-to-left script gives `Rtl`, any other alphabetic character gives
/// `Ltr`, and text without a strong character reads left to right.
pub open spec fn direction_by_classes(s: Seq<char>, alphabetic: Seq<bool>) -> LayoutDirection
    decreases s.len(),
{
    if s.len() == 0 || alphabetic.len() == 0 {
        LayoutDirection::Ltr
    } else if spec_is_rtl_script(s[0]) {
        LayoutDirection::Rtl
    } else if alphabetic[0] {
        LayoutDirection::Ltr
    } else {
        direction_by_classes(s.drop_first(), alphabetic.drop_first())
    }
}

/// Whether each character of `s` is alphabetic.
pub open spec fn alphabetic_classes(s: Seq<char>) -> Seq<bool> {
    Seq::new(s.len(), |i: int| unicode_alphabetic(s[i]))
}

/// The direction of `s`, decided by its first strong character.
pub open spec fn detected_direction(s: Seq<char>) -> LayoutDirection {
    direction_by_classes(s, alphabetic_classes(s))
}

/// Manages the layout direction of the interface.
#[derive(Debug, Clone)]
pub struct BiDiEngine {
    direction: LayoutDirection,
}

impl BiDiEngine {
    /// The direction this engine lays out in.
    pub closed spec fn spec_direction(&self) -> LayoutDirection {
        self.direction
    }

    pub fn new(direction: LayoutDirection) -> (e: Self)
        ensures
            e.spec_direction() == direction,
    {
        BiDiEngine { direction }
    }

    pub fn direction(&self) -> (d: LayoutDirection)
        ensures
            d == self.spec_direction(),
    {
        self.direction
    }

    pub fn is_rtl(&self) -> (b: bool)
        ensures
            b == (self.spec_direction() == LayoutDirection::Rtl),
    {
        self.direction == LayoutDirection::Rtl
    }

    /// The direction of `text`, decided by its first strong character.
    pub fn detect_text_direction(text: &str) -> (d: LayoutDirection)
        ensures
            d == detected_direction(text@),
    {
        let chars = chars_of(text);
        let n = chars.len();
        let mut classes: Vec<bool> = Vec::new();
        let mut i: usize = 0;
        while i < n
            invariant
                n == text@.len(),
                chars@ == text@,
                i <= n,
                classes@ == alphabetic_classes(text@).take(i as int),
            decreases n - i,
        {
            classes.push(is_alphabetic(chars[i]));
            i = i + 1;
            assert(classes@ =~= alphabetic_classes(text@).take(i as int));
        }
        assert(classes@ =~= alphabetic_classes(text@));
        Self::direction_with_classes(text, &classes)
    }

    /// The direction of `text` given which of its characters are alphabetic
    /// (see [`direction_by_classes`]).
    pub fn direction_with_classes(text: &str, alphabetic: &Vec<bool>) -> (d: LayoutDirection)
        requires
            alphabetic@.len() == text@.len(),
        ensures
            d == direction_by_classes(text@, alphabetic@),
    {
        let chars = chars_of(text);
        let n = chars.len();
        let ghost s = text@;
        let ghost f = alphabetic@;
        let mut i: usize = 0;
        assert(s.skip(0) =~= s);
        assert(f.skip(0) =~= f);
        while i < n
            invariant
                n == s.len(),
                n == f.len(),
                s == text@,
                f == alphabetic@,
                chars@ == s,
                i <= n,
                direction_by_classes(s, f) == direction_by_classes(s.skip(i as int), f.skip(i as int)),
            decreases n - i,
        {
            let ch = chars[i];
            let u = ch as u32;
            let ghost rest = s.skip(i as int);
            let ghost frest = f.skip(i as int);
            assert(rest.len() > 0 && rest[0] == ch);
            assert(frest.len() > 0 && frest[0] == alphabetic@[i as int]);
            if (0x0590 <= u && u <= 0x05FF) || (0x0600 <= u && u <= 0x06FF) || (0x0750 <= u && u
                <= 0x077F) {
                assert(spec_is_rtl_script(ch));
                return LayoutDirection::Rtl;
            } else if alphabetic[i] {
                assert(!spec_is_rtl_script(ch));
                return LayoutDirection::Ltr;
            }
            assert(!spec_is_rtl_script(ch));
            assert(rest.drop_first() =~= s.skip(i + 1));
            assert(frest.drop_first() =~= f.skip(i + 1));
            i = i + 1;
        }
        assert(s.skip(n as int).len() == 0);
        LayoutDirection::Ltr
    }

    /// The alignment to use on screen: in right-to-left layouts `Start` and
    /// `End` swap, `Center` stays.
    pub fn resolve_alignment(&self, align: TextAlignment) -> (r: TextAlignment)
        ensures
            r == resolved_alignment(self.spec_direction(), align),
    {
        if self.is_rtl() {
            match align {
                TextAlignment::Start => TextAlignment::End,
                TextAlignment::End => TextAlignment::Start,
                TextAlignment::Center => TextAlignment::Center,
            }
        } else {
            align
        }
    }

    /// The display form of `text`: reordered in right-to-left layouts, unchanged otherwise.
    pub fn process(&self, text: &str) -> (out: String)
        ensures
            out@ == (if self.spec_direction() == LayoutDirection::Rtl {
                bidi_text(text@)
            } else {
                text@
            }),
    {
        if self.is_rtl() {
            process_bidi_text(text)
        } else {
            text.to_owned()
        }
    }

    /// The default engine lays out right to left.
    pub fn default() -> (e: Self)
        ensures
            e.spec_direction() == LayoutDirection::Rtl,
    {
        Self::new(LayoutDirection::Rtl)
    }
}

/// Alignment `align` as shown in a layout flowing in direction `dir`.
pub open spec fn resolved_alignment(dir: LayoutDirection, align: TextAlignment) -> TextAlignment {
    if dir == LayoutDirection::Rtl {
        match align {
            TextAlignment::Start => TextAlignment::End,
            TextAlignment::End => TextAlignment::Start,
            TextAlignment::Center => TextAlignment::Center,
        }
    } else {
        align
    }
}

/// Resolving an alignment twice in the same layout gives it back.
pub proof fn lemma_resolve_alignment_involution(dir: LayoutDirection, align: TextAlignment)
    ensures
        resolved_alignment(dir, resolved_alignment(dir, align)) == align,
{
}

/// Display never changes the number of characters.
pub proof fn lemma_bidi_preserves_length(s: Seq<char>)
    ensures
        bidi_text(s).len() == s.len(),
{
}

/// Positions outside Hebrew runs keep their character.
pub proof fn lemma_bidi_keeps_ltr_positions(s: Seq<char>, i: int)
    requires
        0 <= i < s.len(),
        !rtl_flag(s, i),
    ensures
        bidi_text(s)[i] == s[i],
{
}

/// Whether `c` may stand inside a Hebrew phrase: a Hebrew letter, a space,
/// or one of `. , ! ? " ' - ( )`.
pub open spec fn in_hebrew_phrase(c: char) -> bool {
    spec_is_hebrew(c) || c == ' ' || c == '.' || c == ',' || c == '!' || c == '?' || c == '"' || c
        == '\'' || c == '-' || c == '(' || c == ')'
}

proof fn lemma_phrase_flags(s: Seq<char>, i: int)
    requires
        0 <= i < s.len(),
        spec_is_hebrew(s[0]),
        forall|k: int| 0 <= k < s.len() ==> in_hebrew_phrase(#[trigger] s[k]),
    ensures
        rtl_flag(s, i),
    decreases i,
{
    if i > 0 {
        lemma_phrase_flags(s, i - 1);
        assert(in_hebrew_phrase(s[i]));
    }
}

/// A Hebrew phrase, which starts with a Hebrew letter and holds only Hebrew
/// letters, spaces and the punctuation `. , ! ? " ' - ( )`, is one run: it is
/// displayed reversed as a whole, brackets mirrored, so a title such as
/// "word - word" keeps its words in reading order.
pub proof fn lemma_hebrew_phrase_is_one_run(s: Seq<char>)
    requires
        s.len() > 0,
        spec_is_hebrew(s[0]),
        forall|k: int| 0 <= k < s.len() ==> in_hebrew_phrase(#[trigger] s[k]),
    ensures
        bidi_text(s) == reversed_mirrored(s),
{
    assert forall|k: int| 0 <= k < s.len() implies rtl_flag(s, k) == true by {
        lemma_phrase_flags(s, k);
    }
    lemma_maximal_run(s, 0, s.len() as int, true);
    assert(s.subrange(0, s.len() as int) =~= s);
    assert(bidi_text(s).subrange(0, s.len() as int) =~= bidi_text(s));
}

/// A Hebrew phrase followed by left-to-right text that starts with a
/// character outside the phrase set keeps that text after it, in place; the
/// phrase itself is displayed reversed.
pub proof fn lemma_hebrew_phrase_then_ltr(h: Seq<char>, rest: Seq<char>)
    requires
        h.len() > 0,
        spec_is_hebrew(h[0]),
        forall|k: int| 0 <= k < h.len() ==> in_hebrew_phrase(#[trigger] h[k]),
        forall|k: int| 0 <= k < rest.len() ==> !spec_is_hebrew(#[trigger] rest[k]),
        rest.len() > 0 ==> !in_hebrew_phrase(rest[0]),
    ensures
        bidi_text(h + rest) == reversed_mirrored(h) + rest,
{
    let s = h + rest;
    assert forall|k: int| 0 <= k < h.len() implies rtl_flag(s, k) == true by {
        assert(s.subrange(0, h.len() as int) =~= h);
        lemma_prefix_flags(h, rest, k);
    }
    assert forall|k: int| h.len() <= k < s.len() implies rtl_flag(s, k) == false by {
        lemma_rest_flags(h, rest, k);
    }
    lemma_maximal_run(s, 0, h.len() as int, true);
    if rest.len() > 0 {
        lemma_maximal_run(s, h.len() as int, s.len() as int, false);
        assert(s.subrange(h.len() as int, s.len() as int) =~= rest);
    }
    assert(s.subrange(0, h.len() as int) =~= h);
    let out = bidi_text(s);
    assert(out =~= out.subrange(0, h.len() as int) + out.subrange(h.len() as int, s.len() as int));
}

proof fn lemma_prefix_flags(h: Seq<char>, rest: Seq<char>, i: int)
    requires
        0 <= i < h.len(),
        spec_is_hebrew(h[0]),
        forall|k: int| 0 <= k < h.len() ==> in_hebrew_phrase(#[trigger] h[k]),
    ensures
        rtl_flag(h + rest, i),
    decreases i,
{
    let s = h + rest;
    assert(s[i] == h[i]);
    assert(in_hebrew_phrase(h[i]));
    if i > 0 {
        lemma_prefix_flags(h, rest, i - 1);
    }
}

proof fn lemma_rest_flags(h: Seq<char>, rest: Seq<char>, i: int)
    requires
        h.len() <= i < h.len() + rest.len(),
        forall|k: int| 0 <= k < rest.len() ==> !spec_is_hebrew(#[trigger] rest[k]),
        rest.len() > 0 ==> !in_hebrew_phrase(rest[0]),
    ensures
        !rtl_flag(h + rest, i),
    decreases i,
{
    let s = h + rest;
    assert(s[i] == rest[i - h.len()]);
    assert(!spec_is_hebrew(rest[i - h.len()]));
    if i > h.len() {
        lemma_rest_flags(h, rest, i - 1);
    } else {
        assert(!in_hebrew_phrase(rest[0]));
    }
}

} // verus!
