//! Display of playback times as `m:ss` and reading such text back.

use vstd::prelude::*;
use crate::text::{chars_of, push_char};

verus! {

// ---------------------------------------------------------------------------
// Decimal digits
// ---------------------------------------------------------------------------

/// The character of the decimal digit `d` (`0 <= d < 10`).
pub open spec fn digit_char(d: int) -> char {
    ((d + 48) as u8) as char
}

/// Whether `c` is one of `0` to `9`.
pub open spec fn is_digit(c: char) -> bool {
    '0' <= c && c <= '9'
}

/// The decimal representation of `n`, without leading zeros.
pub open spec fn decimal(n: nat) -> Seq<char>
    decreases n,
{
    if n < 10 {
        seq![digit_char(n as int)]
    } else {
        decimal(n / 10).push(digit_char((n % 10) as int))
    }
}

/// The value of a sequence of decimal digits.
pub open spec fn digits_value(d: Seq<char>) -> nat
    decreases d.len(),
{
    if d.len() == 0 {
        0
    } else {
        digits_value(d.drop_last()) * 10 + ((d.last() as u32) - 48) as nat
    }
}

/// Every character of `d` is a decimal digit.
pub open spec fn all_digits(d: Seq<char>) -> bool {
    forall|i: int| 0 <= i < d.len() ==> is_digit(#[trigger] d[i])
}

/// What `text.parse::<u64>()` gives: an optional leading `+`, then one or more
/// decimal digits whose value fits in a `u64`; anything else is an error.
pub open spec fn parsed_decimal(text: Seq<char>) -> Option<nat> {
    let d = if text.len() > 0 && text[0] == '+' {
        text.drop_first()
    } else {
        text
    };
    if d.len() > 0 && all_digits(d) && digits_value(d) <= u64::MAX {
        Some(digits_value(d))
    } else {
        None
    }
}

/// What `text.parse::<u64>().unwrap_or(0)` gives.
pub open spec fn parsed_u64_or_zero(text: Seq<char>) -> nat {
    match parsed_decimal(text) {
        Some(v) => v,
        None => 0,
    }
}

proof fn lemma_digit_char(d: int)
    requires
        0 <= d < 10,
    ensures
        (digit_char(d) as u32) == d + 48,
        is_digit(digit_char(d)),
{
}

proof fn lemma_decimal_digits(n: nat)
    ensures
        all_digits(decimal(n)),
        digits_value(decimal(n)) == n,
        decimal(n).len() > 0,
    decreases n,
{
    lemma_digit_char((n % 10) as int);
    if n >= 10 {
        lemma_decimal_digits(n / 10);
        let d = decimal(n);
        assert(d.drop_last() =~= decimal(n / 10));
        assert(d.last() == digit_char((n % 10) as int));
        assert(digits_value(d) == digits_value(decimal(n / 10)) * 10 + (n % 10));
        assert forall|i: int| 0 <= i < d.len() implies is_digit(#[trigger] d[i]) by {
            if i < d.len() - 1 {
                assert(d[i] == decimal(n / 10)[i]);
            }
        }
    } else {
        let d = decimal(n);
        assert(d.drop_last() =~= Seq::<char>::empty());
        assert(digits_value(d.drop_last()) == 0);
        assert(d.last() == digit_char(n as int));
    }
}

proof fn lemma_digits_value_grows(d: Seq<char>, i: int)
    requires
        0 <= i <= d.len(),
        all_digits(d),
    ensures
        digits_value(d.take(i)) <= digits_value(d),
    decreases d.len() - i,
{
    if i < d.len() {
        lemma_digits_value_grows(d, i + 1);
        assert(d.take(i + 1).drop_last() =~= d.take(i));
    } else {
        assert(d.take(i) =~= d);
    }
}

/// Appends the decimal digits of `n`.
pub(crate) fn push_decimal(out: &mut String, n: u64)
    ensures
        final(out)@ == old(out)@ + decimal(n as nat),
    decreases n,
{
    if n >= 10 {
        push_decimal(out, n / 10);
    }
    let d = (n % 10) as u8;
    push_char(out, (d + 48) as char);
    assert(final(out)@ =~= old(out)@ + decimal(n as nat));
}

// ---------------------------------------------------------------------------
// m:ss
// ---------------------------------------------------------------------------

/// `ms` milliseconds shown as whole minutes, a colon and two-digit seconds
/// (the `{}:{:02}` layout).
pub open spec fn duration_text(ms: nat) -> Seq<char> {
    let total_secs = ms / 1000;
    let minutes = total_secs / 60;
    let seconds = total_secs % 60;
    decimal(minutes) + seq![':', digit_char((seconds / 10) as int), digit_char((seconds % 10) as int)]
}

/// Formats milliseconds as `m:ss`.
pub fn format_duration(ms: u64) -> (s: String)
    ensures
        s@ == duration_text(ms as nat),
{
    let total_secs = ms / 1000;
    let minutes = total_secs / 60;
    let seconds = total_secs % 60;
    let mut out = String::new();
    push_decimal(&mut out, minutes);
    push_char(&mut out, ':');
    let tens = (seconds / 10) as u8;
    let ones = (seconds % 10) as u8;
    push_char(&mut out, (tens + 48) as char);
    push_char(&mut out, (ones + 48) as char);
    assert(out@ =~= duration_text(ms as nat));
    out
}

/// The number of `:` characters in `s`.
pub open spec fn colon_count(s: Seq<char>) -> nat
    decreases s.len(),
{
    if s.len() == 0 {
        0
    } else {
        colon_count(s.drop_last()) + if s.last() == ':' {
            1nat
        } else {
            0nat
        }
    }
}

/// The position of the first `:` in `s` (or `s.len()` when there is none).
pub open spec fn first_colon(s: Seq<char>) -> int
    decreases s.len(),
{
    if s.len() == 0 {
        0
    } else if s[0] == ':' {
        0
    } else {
        1 + first_colon(s.drop_first())
    }
}

/// The minutes and seconds fields of `m:ss` text, when it splits into exactly
/// two fields at `:`, each read with [`parsed_u64_or_zero`].
pub open spec fn duration_fields(s: Seq<char>) -> (nat, nat) {
    let k = first_colon(s);
    (parsed_u64_or_zero(s.take(k)), parsed_u64_or_zero(s.skip(k + 1)))
}

/// The milliseconds that `m:ss` text stands for: text with exactly one `:`
/// gives `(minutes * 60 + seconds) * 1000`, any other text gives 0.
pub open spec fn duration_value(s: Seq<char>) -> nat {
    if colon_count(s) == 1 {
        let (m, sec) = duration_fields(s);
        (m * 60 + sec) * 1000
    } else {
        0
    }
}

/// The text can be read without the multiplication overflowing a `u64`.
pub open spec fn duration_value_fits(s: Seq<char>) -> bool {
    duration_value(s) <= u64::MAX
}

/// Reads a decimal number the way `parse::<u64>()` does.
pub fn parse_decimal(text: &[char]) -> (r: Option<u64>)
    ensures
        match r {
            Some(v) => parsed_decimal(text@) == Some(v as nat),
            None => parsed_decimal(text@) is None,
        },
{
    let n = text.len();
    let start: usize = if n > 0 && text[0] == '+' {
        1
    } else {
        0
    };
    let ghost d = if text@.len() > 0 && text@[0] == '+' {
        text@.drop_first()
    } else {
        text@
    };
    assert(d =~= text@.skip(start as int));
    if start == n {
        return None;
    }
    let mut value: u64 = 0;
    let mut i: usize = start;
    while i < n
        invariant
            n == text@.len(),
            start <= i <= n,
            d =~= text@.skip(start as int),
            d == (if text@.len() > 0 && text@[0] == '+' {
                text@.drop_first()
            } else {
                text@
            }),
            all_digits(d.take(i - start)),
            value as nat == digits_value(d.take(i - start)),
        decreases n - i,
    {
        let c = text[i];
        let ghost prefix = d.take(i - start);
        assert(d.take(i + 1 - start).drop_last() =~= prefix);
        if !('0' <= c && c <= '9') {
            assert(!is_digit(d[i - start]));
            assert(!all_digits(d));
            return None;
        }
        let digit = (c as u32 - 48) as u64;
        match value.checked_mul(10) {
            Some(t) => match t.checked_add(digit) {
                Some(v2) => {
                    value = v2;
                },
                None => {
                    proof {
                        assert(d.take(i + 1 - start).last() == c);
                        assert(digits_value(d.take(i + 1 - start)) == t + digit);
                        assert(all_digits(d.take(i + 1 - start)));
                        if all_digits(d) {
                            lemma_digits_value_grows(d, i + 1 - start);
                        }
                    }
                    return None;
                },
            },
            None => {
                proof {
                    assert(all_digits(d.take(i + 1 - start)));
                    if all_digits(d) {
                        lemma_digits_value_grows(d, i + 1 - start);
                    }
                }
                return None;
            },
        }
        i = i + 1;
        assert(all_digits(d.take(i - start)));
    }
    assert(d.take(n - start) =~= d);
    Some(value)
}

/// Reads a field the way `parse::<u64>().unwrap_or(0)` does.
pub fn parse_u64_or_zero(text: &[char]) -> (v: u64)
    ensures
        v as nat == parsed_u64_or_zero(text@),
{
    match parse_decimal(text) {
        Some(v) => v,
        None => 0,
    }
}

proof fn lemma_first_colon_nonneg(s: Seq<char>)
    ensures
        first_colon(s) >= 0,
    decreases s.len(),
{
    if s.len() > 0 && s[0] != ':' {
        lemma_first_colon_nonneg(s.drop_first());
    }
}

proof fn lemma_first_colon_prefix(s: Seq<char>, i: int)
    requires
        0 <= i <= s.len(),
        colon_count(s.take(i)) == 0,
    ensures
        first_colon(s) >= i,
        i < s.len() && s[i] == ':' ==> first_colon(s) == i,
    decreases i,
{
    lemma_first_colon_nonneg(s);
    if i > 0 {
        lemma_colon_count_zero_no_colon(s.take(i), 0);
        lemma_colon_count_drop_first(s.take(i));
        assert(s.drop_first().take(i - 1) =~= s.take(i).drop_first());
        lemma_first_colon_prefix(s.drop_first(), i - 1);
    }
}

proof fn lemma_colon_count_zero_no_colon(s: Seq<char>, j: int)
    requires
        0 <= j < s.len(),
        colon_count(s) == 0,
    ensures
        s[j] != ':',
    decreases s.len(),
{
    if j < s.len() - 1 {
        lemma_colon_count_zero_no_colon(s.drop_last(), j);
    }
}

proof fn lemma_colon_count_drop_first(s: Seq<char>)
    requires
        s.len() > 0,
    ensures
        colon_count(s) == colon_count(s.drop_first()) + if s[0] == ':' {
            1nat
        } else {
            0nat
        },
    decreases s.len(),
{
    if s.len() > 1 {
        lemma_colon_count_drop_first(s.drop_last());
        assert(s.drop_last().drop_first() =~= s.drop_first().drop_last());
        assert(s.drop_first().last() == s.last());
    } else {
        assert(s.drop_last().len() == 0);
        assert(s.drop_first().len() == 0);
        assert(colon_count(s.drop_last()) == 0);
        assert(colon_count(s.drop_first()) == 0);
    }
}

/// Reads `m:ss` text back into milliseconds (see [`duration_value`]).
pub fn parse_duration_string(s: &str) -> (ms: u64)
    requires
        duration_value_fits(s@),
    ensures
        ms as nat == duration_value(s@),
{
    let chars = chars_of(s);
    let n = chars.len();
    let ghost t = s@;
    let mut colons: usize = 0;
    let mut first: usize = n;
    let mut i: usize = 0;
    while i < n
        invariant
            n == t.len(),
            chars@ == t,
            i <= n,
            colons as nat == colon_count(t.take(i as int)),
            colons <= i,
            colons == 0 ==> first == n,
            colons > 0 ==> first < i && first == first_colon(t),
        decreases n - i,
    {
        proof {
            if colons == 0 {
                lemma_first_colon_prefix(t, i as int);
            }
            assert(t.take(i + 1).drop_last() =~= t.take(i as int));
        }
        if chars[i] == ':' {
            if colons == 0 {
                first = i;
            }
            colons = colons + 1;
        }
        i = i + 1;
    }
    assert(t.take(n as int) =~= t);
    if colons != 1 {
        return 0;
    }
    let minutes = parse_u64_or_zero(&chars[0..first]);
    let seconds = parse_u64_or_zero(&chars[first + 1..n]);
    assert(t.take(first as int) =~= chars@.subrange(0, first as int));
    assert(t.skip(first + 1) =~= chars@.subrange(first + 1, n as int));
    assert(duration_fields(t) == (minutes as nat, seconds as nat));
    (minutes * 60 + seconds) * 1000
}

// ---------------------------------------------------------------------------
// Laws
// ---------------------------------------------------------------------------

proof fn lemma_digits_have_no_colon(d: Seq<char>)
    requires
        all_digits(d),
    ensures
        colon_count(d) == 0,
    decreases d.len(),
{
    if d.len() > 0 {
        assert(is_digit(d[d.len() - 1]));
        assert(all_digits(d.drop_last())) by {
            assert forall|i: int| 0 <= i < d.drop_last().len() implies is_digit(
                #[trigger] d.drop_last()[i],
            ) by {
                assert(d.drop_last()[i] == d[i]);
            }
        }
        lemma_digits_have_no_colon(d.drop_last());
    }
}

/// Reading back the text that [`format_duration`] shows gives the time
/// rounded down to whole seconds, and reading it never overflows.
pub proof fn lemma_duration_text_roundtrip(ms: u64)
    ensures
        duration_value_fits(duration_text(ms as nat)),
        duration_value(duration_text(ms as nat)) == (ms as nat / 1000) * 1000,
{
    let total = ms as nat / 1000;
    let m = total / 60;
    let sec = total % 60;
    let dm = decimal(m);
    let a = digit_char((sec / 10) as int);
    let b = digit_char((sec % 10) as int);
    let t = duration_text(ms as nat);
    lemma_decimal_digits(m);
    lemma_digit_char((sec / 10) as int);
    lemma_digit_char((sec % 10) as int);
    let k = dm.len() as int;
    assert(t == dm + seq![':', a, b]);
    // exactly one colon
    lemma_digits_have_no_colon(dm);
    assert(t.drop_last() =~= dm + seq![':', a]);
    assert(t.drop_last().drop_last() =~= dm + seq![':']);
    assert((dm + seq![':']).drop_last() =~= dm);
    assert(colon_count(dm + seq![':']) == 1);
    assert(colon_count(t.drop_last()) == 1);
    assert(colon_count(t) == 1);
    // the colon sits right after the minutes
    assert(t.take(k) =~= dm);
    lemma_first_colon_prefix(t, k);
    assert(first_colon(t) == k);
    // the two fields
    assert(parsed_u64_or_zero(dm) == m);
    let tail = t.skip(k + 1);
    assert(tail =~= seq![a, b]);
    assert(all_digits(tail));
    assert(tail.drop_last() =~= seq![a]);
    assert(seq![a].drop_last() =~= Seq::<char>::empty());
    assert(digits_value(Seq::<char>::empty()) == 0);
    assert(seq![a].last() == a);
    assert(digits_value(seq![a]) == digits_value(seq![a].drop_last()) * 10 + ((a as u32) - 48) as nat);
    assert(digits_value(seq![a]) == sec / 10);
    assert(digits_value(tail) == (sec / 10) * 10 + sec % 10);
    assert(parsed_u64_or_zero(tail) == sec);
    assert(duration_fields(t) == (m, sec));
    assert((m * 60 + sec) == total);
}

} // verus!
