//! The track database: tracks keyed by identifier, a full-text index of their
//! search text, substring search and a listing sorted by artist and album.
//! Reading and writing the database file is done by the caller.

use vstd::prelude::*;
use crate::error::Result;
use crate::text::{trim_whitespace, unicode_trim, str_eq, str_contains, has_substring, compare_text, lex_order,
    lemma_lex_order_antisym, lemma_lex_order_trans};
use crate::types::{Track, TrackId, to_lowercase, unicode_lowercase};

verus! {

broadcast use vstd::seq_lib::group_to_multiset_ensures;

// ---------------------------------------------------------------------------
// Model
// ---------------------------------------------------------------------------

/// Position of the first track whose identifier is `id`, or -1.
pub open spec fn track_position(s: Seq<Track>, id: Seq<char>) -> int
    decreases s.len(),
{
    if s.len() == 0 {
        -1
    } else {
        let r = track_position(s.drop_last(), id);
        if r >= 0 {
            r
        } else if s.last().id.0@ == id {
            s.len() - 1
        } else {
            -1
        }
    }
}

/// No two tracks share an identifier.
pub open spec fn ids_unique(s: Seq<Track>) -> bool {
    forall|i: int, j: int| 0 <= i < j < s.len() ==> #[trigger] s[i].id.0@ != #[trigger] s[j].id.0@
}

/// The track stored under `id`, if any.
pub open spec fn model_find(s: Seq<Track>, id: Seq<char>) -> Option<Track> {
    let i = track_position(s, id);
    if i >= 0 {
        Some(s[i])
    } else {
        None
    }
}

/// The tracks after storing `t`: it replaces the track with its identifier, or
/// is added after the others.
pub open spec fn model_upsert(s: Seq<Track>, t: Track) -> Seq<Track> {
    let i = track_position(s, t.id.0@);
    if i >= 0 {
        s.update(i, t)
    } else {
        s.push(t)
    }
}

/// An index entry as plain values: search text and track identifiers.
pub open spec fn index_entry_view(e: (String, Vec<TrackId>)) -> (Seq<char>, Seq<Seq<char>>) {
    (e.0@, ids_view(e.1@))
}

/// Track identifiers as plain text.
pub open spec fn ids_view(ids: Seq<TrackId>) -> Seq<Seq<char>> {
    Seq::new(ids.len(), |i: int| ids[i].0@)
}

/// Position of the index entry for `text`, or -1.
pub open spec fn entry_position(ix: Seq<(Seq<char>, Seq<Seq<char>>)>, text: Seq<char>) -> int
    decreases ix.len(),
{
    if ix.len() == 0 {
        -1
    } else {
        let r = entry_position(ix.drop_last(), text);
        if r >= 0 {
            r
        } else if ix.last().0 == text {
            ix.len() - 1
        } else {
            -1
        }
    }
}

/// The index after mapping `text` to the single identifier `id`.
pub open spec fn model_index_put(
    ix: Seq<(Seq<char>, Seq<Seq<char>>)>,
    text: Seq<char>,
    id: Seq<char>,
) -> Seq<(Seq<char>, Seq<Seq<char>>)> {
    let i = entry_position(ix, text);
    if i >= 0 {
        ix.update(i, (text, seq![id]))
    } else {
        ix.push((text, seq![id]))
    }
}

/// The text a track is found by: title, artist, album and genre separated by
/// spaces (an absent genre is empty), in lower case.
pub open spec fn search_text(t: Track) -> Seq<char> {
    let genre = match t.genre {
        Some(g) => g@,
        None => Seq::empty(),
    };
    unicode_lowercase(t.title@ + seq![' '] + t.artist@ + seq![' '] + t.album@ + seq![' '] + genre)
}

/// The tracks after storing each of `ts` in order.
pub open spec fn upserted_all(s: Seq<Track>, ts: Seq<Track>) -> Seq<Track>
    decreases ts.len(),
{
    if ts.len() == 0 {
        s
    } else {
        model_upsert(upserted_all(s, ts.drop_last()), ts.last())
    }
}

/// The index after indexing each of `s` in order.
pub open spec fn reindexed(ix: Seq<(Seq<char>, Seq<Seq<char>>)>, s: Seq<Track>) -> Seq<(Seq<char>, Seq<Seq<char>>)>
    decreases s.len(),
{
    if s.len() == 0 {
        ix
    } else {
        model_index_put(reindexed(ix, s.drop_last()), search_text(s.last()), s.last().id.0@)
    }
}

/// The text a query is matched with: trimmed, then in lower case.
pub open spec fn query_text(q: Seq<char>) -> Seq<char> {
    unicode_lowercase(unicode_trim(q))
}

/// A track matches a (cleaned) query when its title, artist, album or genre,
/// in lower case, contains the query.
pub open spec fn track_matches(t: Track, q: Seq<char>) -> bool {
    ||| has_substring(unicode_lowercase(t.title@), q)
    ||| has_substring(unicode_lowercase(t.artist@), q)
    ||| has_substring(unicode_lowercase(t.album@), q)
    ||| (t.genre matches Some(g) && has_substring(unicode_lowercase(g@), q))
}

/// Identifiers of the tracks of `s` that match `q`, in store order.
pub open spec fn matching_ids(s: Seq<Track>, q: Seq<char>) -> Seq<Seq<char>>
    decreases s.len(),
{
    if s.len() == 0 {
        Seq::empty()
    } else {
        let r = matching_ids(s.drop_last(), q);
        if track_matches(s.last(), q) {
            r.push(s.last().id.0@)
        } else {
            r
        }
    }
}

/// The answer to a search: nothing for an empty query; otherwise the first
/// matching identifiers, at most `limit` of them but at least one when any match.
pub open spec fn search_result(s: Seq<Track>, q: Seq<char>, limit: nat) -> Seq<Seq<char>> {
    if q.len() == 0 {
        Seq::empty()
    } else {
        let all = matching_ids(s, q);
        let cap = if limit == 0 {
            1
        } else {
            limit
        };
        if all.len() <= cap {
            all
        } else {
            all.take(cap as int)
        }
    }
}

/// The identifiers the index leads to from the entries whose search text
/// contains `q`, entry by entry in index order.
pub open spec fn index_matching_ids(ix: Seq<(Seq<char>, Seq<Seq<char>>)>, q: Seq<char>) -> Seq<Seq<char>>
    decreases ix.len(),
{
    if ix.len() == 0 {
        Seq::empty()
    } else {
        let r = index_matching_ids(ix.drop_last(), q);
        if has_substring(ix.last().0, q) {
            r + ix.last().1
        } else {
            r
        }
    }
}

/// The first identifiers of `all`: at most `limit` of them, but at least one
/// when there is any.
pub open spec fn capped(all: Seq<Seq<char>>, limit: nat) -> Seq<Seq<char>> {
    let cap = if limit == 0 {
        1
    } else {
        limit
    };
    if all.len() <= cap {
        all
    } else {
        all.take(cap as int)
    }
}

/// The answer of the search engine, which reads the full-text index: nothing
/// for an empty query; otherwise the identifiers of the entries whose search
/// text contains the query (see [`index_matching_ids`]), capped as
/// [`search_result`] caps.
pub open spec fn index_search_result(ix: Seq<(Seq<char>, Seq<Seq<char>>)>, q: Seq<char>, limit: nat) -> Seq<Seq<char>> {
    if q.len() == 0 {
        Seq::empty()
    } else {
        capped(index_matching_ids(ix, q), limit)
    }
}

/// The listing order: by artist, then by album (code point order).
pub open spec fn track_order(a: Track, b: Track) -> int {
    let c = lex_order(a.artist@, b.artist@);
    if c != 0 {
        c
    } else {
        lex_order(a.album@, b.album@)
    }
}

/// Tracks in listing order.
pub open spec fn sorted_for_listing(s: Seq<Track>) -> bool {
    forall|i: int, j: int| 0 <= i < j < s.len() ==> track_order(#[trigger] s[i], #[trigger] s[j]) <= 0
}

// ---------------------------------------------------------------------------
// Lemmas
// ---------------------------------------------------------------------------

proof fn lemma_track_position(s: Seq<Track>, id: Seq<char>)
    ensures
        -1 <= track_position(s, id) < s.len(),
        track_position(s, id) >= 0 ==> s[track_position(s, id)].id.0@ == id,
        track_position(s, id) >= 0 ==> forall|j: int|
            0 <= j < track_position(s, id) ==> #[trigger] s[j].id.0@ != id,
        track_position(s, id) < 0 ==> forall|j: int| 0 <= j < s.len() ==> #[trigger] s[j].id.0@ != id,
    decreases s.len(),
{
    if s.len() > 0 {
        lemma_track_position(s.drop_last(), id);
        assert forall|j: int| 0 <= j < s.len() - 1 implies #[trigger] s[j] == s.drop_last()[j] by {}
    }
}

proof fn lemma_entry_position(ix: Seq<(Seq<char>, Seq<Seq<char>>)>, text: Seq<char>)
    ensures
        -1 <= entry_position(ix, text) < ix.len(),
        entry_position(ix, text) >= 0 ==> ix[entry_position(ix, text)].0 == text,
        entry_position(ix, text) >= 0 ==> forall|j: int|
            0 <= j < entry_position(ix, text) ==> #[trigger] ix[j].0 != text,
        entry_position(ix, text) < 0 ==> forall|j: int| 0 <= j < ix.len() ==> #[trigger] ix[j].0 != text,
    decreases ix.len(),
{
    if ix.len() > 0 {
        lemma_entry_position(ix.drop_last(), text);
        assert forall|j: int| 0 <= j < ix.len() - 1 implies #[trigger] ix[j] == ix.drop_last()[j] by {}
    }
}

/// The first position whose identifier is `id` is found as such.
proof fn lemma_track_position_at(s: Seq<Track>, id: Seq<char>, p: int)
    requires
        0 <= p < s.len(),
        s[p].id.0@ == id,
        forall|j: int| 0 <= j < p ==> #[trigger] s[j].id.0@ != id,
    ensures
        track_position(s, id) == p,
{
    lemma_track_position(s, id);
}

proof fn lemma_entry_position_at(ix: Seq<(Seq<char>, Seq<Seq<char>>)>, text: Seq<char>, p: int)
    requires
        0 <= p < ix.len(),
        ix[p].0 == text,
        forall|j: int| 0 <= j < p ==> #[trigger] ix[j].0 != text,
    ensures
        entry_position(ix, text) == p,
{
    lemma_entry_position(ix, text);
}

/// What is stored under an identifier is what the last store under it put there.
pub proof fn lemma_find_after_upsert(s: Seq<Track>, t: Track)
    ensures
        model_find(model_upsert(s, t), t.id.0@) == Some(t),
{
    lemma_track_position(s, t.id.0@);
    let u = model_upsert(s, t);
    let i = track_position(s, t.id.0@);
    if i >= 0 {
        assert forall|j: int| 0 <= j < i implies #[trigger] u[j].id.0@ != t.id.0@ by {
            assert(u[j] == s[j]);
        }
        lemma_track_position_at(u, t.id.0@, i);
    } else {
        assert forall|j: int| 0 <= j < s.len() implies #[trigger] u[j].id.0@ != t.id.0@ by {
            assert(u[j] == s[j]);
        }
        lemma_track_position_at(u, t.id.0@, s.len() as int);
    }
}

/// Storing a track leaves every other identifier's track as it was.
pub proof fn lemma_upsert_keeps_others(s: Seq<Track>, t: Track, other: Seq<char>)
    requires
        other != t.id.0@,
    ensures
        model_find(model_upsert(s, t), other) == model_find(s, other),
{
    lemma_track_position(s, other);
    lemma_track_position(s, t.id.0@);
    let u = model_upsert(s, t);
    lemma_track_position(u, other);
    let p = track_position(s, other);
    let i = track_position(s, t.id.0@);
    if p >= 0 {
        assert(u[p] == s[p]);
        assert forall|j: int| 0 <= j < p implies #[trigger] u[j].id.0@ != other by {
            assert(u[j] == s[j] || u[j] == t);
        }
        lemma_track_position_at(u, other, p);
    } else {
        assert forall|j: int| 0 <= j < u.len() implies #[trigger] u[j].id.0@ != other by {
            if j < s.len() {
                assert(u[j] == s[j] || u[j] == t);
            } else {
                assert(u[j] == t);
            }
        }
    }
}

/// Storing keeps identifiers distinct.
pub proof fn lemma_upsert_keeps_unique(s: Seq<Track>, t: Track)
    requires
        ids_unique(s),
    ensures
        ids_unique(model_upsert(s, t)),
        model_upsert(s, t).len() == s.len() || model_upsert(s, t).len() == s.len() + 1,
{
    lemma_track_position(s, t.id.0@);
    let u = model_upsert(s, t);
    let i = track_position(s, t.id.0@);
    assert forall|a: int, b: int| 0 <= a < b < u.len() implies #[trigger] u[a].id.0@ != #[trigger] u[b].id.0@ by {
        if i >= 0 {
            if a == i {
                assert(s[b].id.0@ != s[i].id.0@);
            } else if b == i {
                assert(s[a].id.0@ != s[i].id.0@);
            }
        }
    }
}

proof fn lemma_matching_prefix(s: Seq<Track>, q: Seq<char>, j: int)
    requires
        0 <= j <= s.len(),
    ensures
        matching_ids(s.take(j), q) == matching_ids(s, q).take(matching_ids(s.take(j), q).len() as int),
        matching_ids(s.take(j), q).len() <= matching_ids(s, q).len(),
    decreases s.len() - j,
{
    if j == s.len() {
        assert(s.take(j) =~= s);
        assert(matching_ids(s, q).take(matching_ids(s, q).len() as int) =~= matching_ids(s, q));
    } else {
        lemma_matching_prefix(s, q, j + 1);
        assert(s.take(j + 1).drop_last() =~= s.take(j));
        let a = matching_ids(s.take(j), q);
        let b = matching_ids(s.take(j + 1), q);
        let all = matching_ids(s, q);
        assert(b == all.take(b.len() as int));
        if b.len() == a.len() {
            assert(a =~= b);
        } else {
            assert(b == a.push(s[j].id.0@));
            assert(a =~= all.take(a.len() as int));
        }
    }
}

/// The `k`-th matching identifier is that of a matching track.
proof fn lemma_matching_member_at(s: Seq<Track>, q: Seq<char>, k: int)
    requires
        0 <= k < matching_ids(s, q).len(),
    ensures
        exists|i: int| 0 <= i < s.len() && track_matches(#[trigger] s[i], q) && s[i].id.0@ == matching_ids(s, q)[k],
    decreases s.len(),
{
    let d = s.drop_last();
    let r = matching_ids(d, q);
    let m = matching_ids(s, q);
    if k < r.len() {
        assert(m[k] == r[k]);
        lemma_matching_member_at(d, q, k);
        let i = choose|i: int| 0 <= i < d.len() && track_matches(#[trigger] d[i], q) && d[i].id.0@ == r[k];
        assert(s[i] == d[i]);
        assert(track_matches(s[i], q) && s[i].id.0@ == m[k]);
    } else {
        let w = s.len() - 1;
        assert(s[w] == s.last());
        assert(track_matches(s[w], q) && s[w].id.0@ == m[k]);
    }
}

/// A matching track's identifier is among the matching identifiers.
proof fn lemma_matching_contains(s: Seq<Track>, q: Seq<char>, i: int)
    requires
        0 <= i < s.len(),
        track_matches(s[i], q),
    ensures
        matching_ids(s, q).contains(s[i].id.0@),
    decreases s.len(),
{
    let d = s.drop_last();
    let r = matching_ids(d, q);
    let m = matching_ids(s, q);
    if i < s.len() - 1 {
        assert(d[i] == s[i]);
        lemma_matching_contains(d, q, i);
        let k = choose|k: int| 0 <= k < r.len() && r[k] == s[i].id.0@;
        assert(m[k] == r[k]);
    } else {
        assert(m[m.len() - 1] == s.last().id.0@);
    }
}

/// Every identifier a search returns belongs to a stored track that matches the query.
pub proof fn lemma_search_sound(s: Seq<Track>, q: Seq<char>, limit: nat, k: int)
    requires
        0 <= k < search_result(s, q, limit).len(),
    ensures
        exists|i: int|
            0 <= i < s.len() && track_matches(#[trigger] s[i], q) && s[i].id.0@ == search_result(
                s,
                q,
                limit,
            )[k],
{
    let all = matching_ids(s, q);
    assert(search_result(s, q, limit)[k] == all[k]);
    lemma_matching_member_at(s, q, k);
}

/// When no more tracks match than the limit allows (at least one), a search
/// returns every stored track that matches a non-empty query.
pub proof fn lemma_search_complete(s: Seq<Track>, q: Seq<char>, limit: nat, i: int)
    requires
        q.len() > 0,
        0 <= i < s.len(),
        track_matches(s[i], q),
        matching_ids(s, q).len() <= (if limit == 0 {
            1
        } else {
            limit
        }),
    ensures
        search_result(s, q, limit).contains(s[i].id.0@),
{
    lemma_matching_contains(s, q, i);
}

/// A track is found through each of its four fields: when the lower-case
/// title, artist, album or genre of a stored track contains a non-empty query,
/// and no more tracks match than the limit allows (at least one), the search
/// returns that track.
pub proof fn lemma_search_finds_by_any_field(s: Seq<Track>, q: Seq<char>, limit: nat, i: int)
    requires
        q.len() > 0,
        0 <= i < s.len(),
        has_substring(unicode_lowercase(s[i].title@), q) || has_substring(unicode_lowercase(s[i].artist@), q)
            || has_substring(unicode_lowercase(s[i].album@), q) || (s[i].genre matches Some(g)
            && has_substring(unicode_lowercase(g@), q)),
        matching_ids(s, q).len() <= (if limit == 0 {
            1
        } else {
            limit
        }),
    ensures
        search_result(s, q, limit).contains(s[i].id.0@),
{
    lemma_matching_contains(s, q, i);
}

/// A track whose lower-case artist contains the query is found, whatever its
/// title, album and genre.
pub proof fn lemma_search_finds_by_artist(s: Seq<Track>, q: Seq<char>, limit: nat, i: int)
    requires
        q.len() > 0,
        0 <= i < s.len(),
        has_substring(unicode_lowercase(s[i].artist@), q),
        matching_ids(s, q).len() <= (if limit == 0 {
            1
        } else {
            limit
        }),
    ensures
        search_result(s, q, limit).contains(s[i].id.0@),
{
    lemma_search_finds_by_any_field(s, q, limit, i);
}

/// A track none of whose four lower-case fields contains the query is never
/// returned (no other track has its identifier).
pub proof fn lemma_search_skips_unrelated(s: Seq<Track>, q: Seq<char>, limit: nat, i: int)
    requires
        ids_unique(s),
        0 <= i < s.len(),
        !has_substring(unicode_lowercase(s[i].title@), q),
        !has_substring(unicode_lowercase(s[i].artist@), q),
        !has_substring(unicode_lowercase(s[i].album@), q),
        !(s[i].genre matches Some(g) && has_substring(unicode_lowercase(g@), q)),
    ensures
        !search_result(s, q, limit).contains(s[i].id.0@),
{
    if search_result(s, q, limit).contains(s[i].id.0@) {
        let k = choose|k: int| 0 <= k < search_result(s, q, limit).len() && search_result(s, q, limit)[k] == s[i].id.0@;
        lemma_search_sound(s, q, limit, k);
        let j = choose|j: int| 0 <= j < s.len() && track_matches(#[trigger] s[j], q) && s[j].id.0@ == search_result(s, q, limit)[k];
        if j != i {
            if j < i {
                assert(s[j].id.0@ != s[i].id.0@);
            } else {
                assert(s[i].id.0@ != s[j].id.0@);
            }
        }
    }
}

proof fn lemma_track_order_facts(a: Track, b: Track)
    ensures
        track_order(a, b) == -track_order(b, a),
        -1 <= track_order(a, b) <= 1,
{
    lemma_lex_order_antisym(a.artist@, b.artist@);
    lemma_lex_order_antisym(a.album@, b.album@);
}

proof fn lemma_track_order_trans(a: Track, b: Track, c: Track)
    requires
        track_order(a, b) <= 0,
        track_order(b, c) <= 0,
    ensures
        track_order(a, c) <= 0,
{
    lemma_lex_order_antisym(a.artist@, b.artist@);
    lemma_lex_order_antisym(b.artist@, c.artist@);
    lemma_lex_order_antisym(a.artist@, c.artist@);
    lemma_lex_order_antisym(a.album@, b.album@);
    lemma_lex_order_antisym(b.album@, c.album@);
    lemma_lex_order_antisym(a.album@, c.album@);
    lemma_lex_order_trans(a.artist@, b.artist@, c.artist@);
    if lex_order(a.artist@, b.artist@) == 0 && lex_order(b.artist@, c.artist@) == 0 {
        lemma_lex_order_trans(a.album@, b.album@, c.album@);
    }
}

// ---------------------------------------------------------------------------
// Executable helpers
// ---------------------------------------------------------------------------

fn clone_id(id: &TrackId) -> (r: TrackId)
    ensures
        r == *id,
{
    TrackId(id.0.clone())
}

/// Position of the track with identifier `id`, or `None`.
fn find_track(tracks: &Vec<Track>, id: &str) -> (r: Option<usize>)
    ensures
        match r {
            Some(i) => i < tracks@.len() && track_position(tracks@, id@) == i,
            None => track_position(tracks@, id@) < 0,
        },
{
    proof {
        lemma_track_position(tracks@, id@);
    }
    let n = tracks.len();
    let mut i: usize = 0;
    while i < n
        invariant
            n == tracks@.len(),
            i <= n,
            forall|j: int| 0 <= j < i ==> #[trigger] tracks@[j].id.0@ != id@,
        decreases n - i,
    {
        if str_eq(tracks[i].id.0.as_str(), id) {
            proof {
                lemma_track_position_at(tracks@, id@, i as int);
            }
            return Some(i);
        }
        i = i + 1;
    }
    None
}

/// Position of the index entry for `text`, or `None`.
fn find_entry(ix: &Vec<(String, Vec<TrackId>)>, text: &str) -> (r: Option<usize>)
    ensures
        match r {
            Some(i) => i < ix@.len() && entry_position(ix@.map_values(|e: (String, Vec<TrackId>)| index_entry_view(e)), text@) == i,
            None => entry_position(ix@.map_values(|e: (String, Vec<TrackId>)| index_entry_view(e)), text@) < 0,
        },
{
    let ghost v = ix@.map_values(|e: (String, Vec<TrackId>)| index_entry_view(e));
    proof {
        lemma_entry_position(v, text@);
    }
    let n = ix.len();
    let mut i: usize = 0;
    while i < n
        invariant
            n == ix@.len(),
            v == ix@.map_values(|e: (String, Vec<TrackId>)| index_entry_view(e)),
            i <= n,
            forall|j: int| 0 <= j < i ==> #[trigger] v[j].0 != text@,
        decreases n - i,
    {
        assert(v[i as int].0 == ix@[i as int].0@);
        if str_eq(ix[i].0.as_str(), text) {
            proof {
                lemma_entry_position_at(v, text@, i as int);
            }
            return Some(i);
        }
        i = i + 1;
    }
    None
}

/// Appends `part` to `out`.
fn append_str(out: &mut String, part: &str)
    ensures
        final(out)@ == old(out)@ + part@,
{
    out.append(part);
}

/// The lower-case search text of a track (see [`search_text`]).
pub fn track_search_text(t: &Track) -> (r: String)
    ensures
        r@ == search_text(*t),
{
    let mut text = String::new();
    append_str(&mut text, t.title.as_str());
    append_str(&mut text, " ");
    append_str(&mut text, t.artist.as_str());
    append_str(&mut text, " ");
    append_str(&mut text, t.album.as_str());
    append_str(&mut text, " ");
    match &t.genre {
        Some(g) => append_str(&mut text, g.as_str()),
        None => {},
    }
    proof {
        reveal_strlit(" ");
    }
    let ghost genre_view = match &t.genre {
        Some(g) => g@,
        None => Seq::<char>::empty(),
    };
    assert(text@ =~= t.title@ + seq![' '] + t.artist@ + seq![' '] + t.album@ + seq![' '] + genre_view);
    to_lowercase(text.as_str())
}

/// Whether a track matches a cleaned query (see [`track_matches`]).
pub fn matches_query(t: &Track, q: &str) -> (r: bool)
    ensures
        r == track_matches(*t, q@),
{
    let title = to_lowercase(t.title.as_str());
    if str_contains(title.as_str(), q) {
        return true;
    }
    let artist = to_lowercase(t.artist.as_str());
    if str_contains(artist.as_str(), q) {
        return true;
    }
    let album = to_lowercase(t.album.as_str());
    if str_contains(album.as_str(), q) {
        return true;
    }
    match &t.genre {
        Some(g) => {
            let genre = to_lowercase(g.as_str());
            str_contains(genre.as_str(), q)
        },
        None => false,
    }
}

/// Compares tracks for the listing (see [`track_order`]).
pub fn compare_tracks(a: &Track, b: &Track) -> (c: i8)
    ensures
        c as int == track_order(*a, *b),
{
    let c = compare_text(a.artist.as_str(), b.artist.as_str());
    if c != 0 {
        c
    } else {
        compare_text(a.album.as_str(), b.album.as_str())
    }
}

/// The tracks of `tracks` in listing order.
pub fn sorted_copy(tracks: &Vec<Track>) -> (out: Vec<Track>)
    ensures
        out@.to_multiset() == tracks@.to_multiset(),
        sorted_for_listing(out@),
{
    let mut out: Vec<Track> = Vec::new();
    let n = tracks.len();
    let mut i: usize = 0;
    while i < n
        invariant
            n == tracks@.len(),
            i <= n,
            out@.to_multiset() == tracks@.take(i as int).to_multiset(),
            sorted_for_listing(out@),
        decreases n - i,
    {
        let t = tracks[i].duplicate();
        let m = out.len();
        let mut p: usize = 0;
        while p < m && compare_tracks(&t, &out[p]) >= 0
            invariant
                m == out@.len(),
                p <= m,
                forall|k: int| 0 <= k < p ==> track_order(t, #[trigger] out@[k]) >= 0,
            decreases m - p,
        {
            p = p + 1;
        }
        let ghost before = out@;
        proof {
            assert forall|a: int, b: int|
                0 <= a < b < before.len() + 1 implies track_order(
                #[trigger] before.insert(p as int, t)[a],
                #[trigger] before.insert(p as int, t)[b],
            ) <= 0 by {
                let ins = before.insert(p as int, t);
                if b < p {
                    assert(ins[a] == before[a] && ins[b] == before[b]);
                } else if b == p {
                    assert(ins[a] == before[a] && ins[b] == t);
                    lemma_track_order_facts(t, before[a]);
                } else if a < p {
                    assert(ins[a] == before[a] && ins[b] == before[b - 1]);
                } else if a == p {
                    assert(ins[a] == t && ins[b] == before[b - 1]);
                    lemma_track_order_facts(t, before[p as int]);
                    if b - 1 > p {
                        lemma_track_order_trans(t, before[p as int], before[b - 1]);
                    }
                } else {
                    assert(ins[a] == before[a - 1] && ins[b] == before[b - 1]);
                }
            }
        }
        out.insert(p, t);
        assert(tracks@.take(i + 1) =~= tracks@.take(i as int).push(tracks@[i as int]));
        i = i + 1;
    }
    assert(tracks@.take(n as int) =~= tracks@);
    out
}

// ---------------------------------------------------------------------------
// The database
// ---------------------------------------------------------------------------

/// The track database.
pub struct Database {
    db_path: Option<String>,
    tracks: Vec<Track>,
    fts_index: Vec<(String, Vec<TrackId>)>,
}

impl Database {
    /// The stored tracks, in the order they were first stored.
    pub closed spec fn stored(&self) -> Seq<Track> {
        self.tracks@
    }

    /// The full-text index: search texts and the identifiers they lead to.
    pub closed spec fn index(&self) -> Seq<(Seq<char>, Seq<Seq<char>>)> {
        self.fts_index@.map_values(|e: (String, Vec<TrackId>)| index_entry_view(e))
    }

    /// The file the database is kept in, if any.
    pub closed spec fn path(&self) -> Option<Seq<char>> {
        match self.db_path {
            Some(p) => Some(p@),
            None => None,
        }
    }

    /// Identifiers are distinct.
    pub open spec fn wf(&self) -> bool {
        ids_unique(self.stored())
    }

    /// An empty database that is not kept in a file.
    pub fn in_memory() -> (r: Result<Self>)
        ensures
            r matches Ok(db) && db.wf() && db.stored().len() == 0 && db.index().len() == 0
                && db.path() is None,
    {
        Ok(Database { db_path: None, tracks: Vec::new(), fts_index: Vec::new() })
    }

    /// An empty database kept in the file at `path`; the caller loads the
    /// file's tracks with [`Database::insert_or_update_track`].
    pub fn with_path(path: String) -> (db: Self)
        ensures
            db.wf(),
            db.stored().len() == 0,
            db.index().len() == 0,
            db.path() == Some(path@),
    {
        Database { db_path: Some(path), tracks: Vec::new(), fts_index: Vec::new() }
    }

    /// Stores `track` without indexing it.
    fn store_track(&mut self, track: &Track)
        requires
            old(self).wf(),
        ensures
            final(self).wf(),
            final(self).stored() == model_upsert(old(self).stored(), *track),
            final(self).path() == old(self).path(),
            final(self).index() == old(self).index(),
    {
        proof {
            lemma_upsert_keeps_unique(self.tracks@, *track);
        }
        let copy = track.duplicate();
        match find_track(&self.tracks, track.id.0.as_str()) {
            Some(i) => {
                self.tracks.set(i, copy);
            },
            None => {
                self.tracks.push(copy);
            },
        }
    }

    /// The database kept in the file at `path`, holding the tracks read from
    /// that file (a later track replaces an earlier one with the same
    /// identifier), with every track indexed.
    pub fn open_with_tracks(path: String, loaded: Vec<Track>) -> (r: Result<Self>)
        ensures
            r matches Ok(db) && db.wf() && db.stored() == upserted_all(Seq::empty(), loaded@)
                && db.index() == reindexed(Seq::empty(), db.stored()) && db.path() == Some(path@),
    {
        let mut db = Database::with_path(path);
        let n = loaded.len();
        let mut i: usize = 0;
        while i < n
            invariant
                n == loaded@.len(),
                i <= n,
                db.wf(),
                db.stored() == upserted_all(Seq::empty(), loaded@.take(i as int)),
                db.index().len() == 0,
                db.path() == Some(path@),
            decreases n - i,
        {
            assert(loaded@.take(i + 1).drop_last() =~= loaded@.take(i as int));
            db.store_track(&loaded[i]);
            i = i + 1;
        }
        assert(loaded@.take(n as int) =~= loaded@);
        assert(db.index() =~= Seq::empty());
        db.rebuild_fts_index()?;
        Ok(db)
    }

    /// The file the database is kept in, if any.
    pub fn db_path(&self) -> (r: Option<&String>)
        ensures
            match r {
                Some(p) => self.path() == Some(p@),
                None => self.path() is None,
            },
    {
        match &self.db_path {
            Some(p) => Some(p),
            None => None,
        }
    }

    /// The stored tracks, in the order they were first stored.
    pub fn tracks(&self) -> (r: &Vec<Track>)
        ensures
            r@ == self.stored(),
    {
        &self.tracks
    }

    /// Indexes every stored track again, in store order.
    pub fn rebuild_fts_index(&mut self) -> (r: Result<()>)
        ensures
            r is Ok,
            final(self).stored() == old(self).stored(),
            final(self).path() == old(self).path(),
            final(self).index() == reindexed(old(self).index(), old(self).stored()),
    {
        let n = self.tracks.len();
        let mut i: usize = 0;
        let ghost s = self.tracks@;
        let ghost ix0 = self.index();
        while i < n
            invariant
                n == s.len(),
                self.tracks@ == s,
                self.path() == old(self).path(),
                i <= n,
                self.index() == reindexed(ix0, s.take(i as int)),
            decreases n - i,
        {
            assert(s.take(i + 1).drop_last() =~= s.take(i as int));
            let t = self.tracks[i].duplicate();
            self.index_track_fts(&t)?;
            i = i + 1;
        }
        assert(s.take(n as int) =~= s);
        Ok(())
    }

    /// Prepares the full-text index; there is nothing to prepare.
    pub fn execute_fts_init(&self) -> (r: Result<()>)
        ensures
            r is Ok,
    {
        Ok(())
    }

    /// Maps the track's search text to its identifier in the full-text index.
    pub fn index_track_fts(&mut self, track: &Track) -> (r: Result<()>)
        ensures
            r is Ok,
            final(self).stored() == old(self).stored(),
            final(self).path() == old(self).path(),
            final(self).index() == model_index_put(old(self).index(), search_text(*track), track.id.0@),
    {
        let text = track_search_text(track);
        let ghost old_ix = self.index();
        let mut ids: Vec<TrackId> = Vec::new();
        ids.push(clone_id(&track.id));
        assert(ids_view(ids@) =~= seq![track.id.0@]);
        match find_entry(&self.fts_index, text.as_str()) {
            Some(i) => {
                self.fts_index.set(i, (text, ids));
            },
            None => {
                self.fts_index.push((text, ids));
            },
        }
        assert(self.index() =~= model_index_put(old_ix, search_text(*track), track.id.0@));
        Ok(())
    }

    /// Stores `track`, replacing the track with the same identifier, and
    /// indexes it. The caller then writes the database file.
    pub fn insert_or_update_track(&mut self, track: &Track) -> (r: Result<()>)
        requires
            old(self).wf(),
        ensures
            r is Ok,
            final(self).wf(),
            final(self).stored() == model_upsert(old(self).stored(), *track),
            final(self).path() == old(self).path(),
            final(self).index() == model_index_put(old(self).index(), search_text(*track), track.id.0@),
    {
        self.store_track(track);
        self.index_track_fts(track)
    }

    /// The track stored under `id`, if any.
    pub fn get_track_by_id(&self, id: &TrackId) -> (r: Result<Option<Track>>)
        ensures
            r matches Ok(found) && found == model_find(self.stored(), id.0@),
    {
        match find_track(&self.tracks, id.0.as_str()) {
            Some(i) => Ok(Some(self.tracks[i].duplicate())),
            None => Ok(None),
        }
    }

    /// Every stored track, ordered by artist and then album.
    pub fn get_all_tracks(&self) -> (r: Result<Vec<Track>>)
        ensures
            r matches Ok(v) && v@.to_multiset() == self.stored().to_multiset()
                && sorted_for_listing(v@),
    {
        Ok(sorted_copy(&self.tracks))
    }

    /// Identifiers of the tracks whose title, artist, album or genre contains
    /// the query (see [`search_result`]).
    pub fn search_fts(&self, query_str: &str, limit: usize) -> (r: Result<Vec<TrackId>>)
        ensures
            r matches Ok(v) && ids_view(v@) == search_result(self.stored(), query_text(query_str@), limit as nat),
    {
        let trimmed = trim_whitespace(query_str);
        let clean = to_lowercase(trimmed.as_str());
        Ok(self.search_cleaned(clean.as_str(), limit))
    }

    /// The search for a query that is already trimmed and in lower case
    /// (see [`search_result`]).
    pub fn search_cleaned(&self, clean: &str, limit: usize) -> (v: Vec<TrackId>)
        ensures
            ids_view(v@) == search_result(self.stored(), clean@, limit as nat),
    {
        let ghost q = clean@;
        if clean.unicode_len() == 0 {
            let empty: Vec<TrackId> = Vec::new();
            assert(ids_view(empty@) =~= Seq::<Seq<char>>::empty());
            return empty;
        }
        let ghost s = self.tracks@;
        let ghost cap: nat = if limit == 0 { 1 } else { limit as nat };
        let mut results: Vec<TrackId> = Vec::new();
        let n = self.tracks.len();
        let mut i: usize = 0;
        assert(s.take(n as int) =~= s);
        while i < n
            invariant_except_break
                ids_view(results@) == matching_ids(s.take(i as int), q),
                results@.len() < cap,
            invariant
                n == s.len(),
                s.take(n as int) == s,
                s == self.tracks@,
                q == clean@,
                q.len() > 0,
                cap == (if limit == 0 { 1 } else { limit as nat }),
                i <= n,
            ensures
                (ids_view(results@) == matching_ids(s, q) && results@.len() < cap)
                    || (ids_view(results@) == matching_ids(s, q).take(cap as int) && results@.len() == cap
                        && matching_ids(s, q).len() >= cap),
            decreases n - i,
        {
            let ghost prev = results@;
            assert(s.take(i + 1).drop_last() =~= s.take(i as int));
            assert(s.take(i + 1).last() == s[i as int]);
            if matches_query(&self.tracks[i], clean) {
                results.push(clone_id(&self.tracks[i].id));
                assert(ids_view(results@) =~= ids_view(prev).push(s[i as int].id.0@));
                if results.len() >= limit {
                    proof {
                        lemma_matching_prefix(s, q, i + 1);
                    }
                    break;
                }
            }
            i = i + 1;
        }
        proof {
            if i == n {
                assert(s.take(n as int) =~= s);
            }
        }
        results
    }
}

/// The identifiers `ix` leads to for an already cleaned query (see
/// [`index_search_result`]).
fn search_index(ix: &Vec<(String, Vec<TrackId>)>, clean: &str, limit: usize) -> (v: Vec<TrackId>)
    ensures
        ids_view(v@) == index_search_result(
            ix@.map_values(|e: (String, Vec<TrackId>)| index_entry_view(e)),
            clean@,
            limit as nat,
        ),
{
    let ghost iv = ix@.map_values(|e: (String, Vec<TrackId>)| index_entry_view(e));
    let ghost q = clean@;
    if clean.unicode_len() == 0 {
        let empty: Vec<TrackId> = Vec::new();
        assert(ids_view(empty@) =~= Seq::<Seq<char>>::empty());
        return empty;
    }
    let mut all: Vec<TrackId> = Vec::new();
    let n = ix.len();
    let mut i: usize = 0;
    while i < n
        invariant
            n == ix@.len(),
            iv == ix@.map_values(|e: (String, Vec<TrackId>)| index_entry_view(e)),
            q == clean@,
            i <= n,
            ids_view(all@) == index_matching_ids(iv.take(i as int), q),
        decreases n - i,
    {
        assert(iv.take(i + 1).drop_last() =~= iv.take(i as int));
        assert(iv.take(i + 1).last() == iv[i as int]);
        assert(iv[i as int] == index_entry_view(ix@[i as int]));
        if str_contains(ix[i].0.as_str(), clean) {
            let ids = &ix[i].1;
            let ghost before = ids_view(all@);
            let m = ids.len();
            let mut j: usize = 0;
            while j < m
                invariant
                    m == ids@.len(),
                    j <= m,
                    ids_view(all@) == before + ids_view(ids@).take(j as int),
                decreases m - j,
            {
                let ghost prev = all@;
                all.push(clone_id(&ids[j]));
                assert(ids_view(all@) =~= ids_view(prev).push(ids@[j as int].0@));
                assert(ids_view(ids@).take(j + 1) =~= ids_view(ids@).take(j as int).push(ids@[j as int].0@));
                assert(ids_view(all@) =~= before + ids_view(ids@).take(j + 1));
                j = j + 1;
            }
            assert(ids_view(ids@).take(m as int) =~= ids_view(ids@));
        }
        i = i + 1;
    }
    assert(iv.take(n as int) =~= iv);
    let cap: usize = if limit == 0 {
        1
    } else {
        limit
    };
    if all.len() <= cap {
        return all;
    }
    let mut out: Vec<TrackId> = Vec::new();
    let mut k: usize = 0;
    while k < cap
        invariant
            cap < all@.len(),
            k <= cap,
            ids_view(out@) == ids_view(all@).take(k as int),
        decreases cap - k,
    {
        let ghost prev = out@;
        out.push(clone_id(&all[k]));
        assert(ids_view(out@) =~= ids_view(prev).push(all@[k as int].0@));
        assert(ids_view(out@) =~= ids_view(all@).take(k + 1));
        k = k + 1;
    }
    out
}

proof fn lemma_index_match_contains(ix: Seq<(Seq<char>, Seq<Seq<char>>)>, q: Seq<char>, i: int, k: int)
    requires
        0 <= i < ix.len(),
        0 <= k < ix[i].1.len(),
        has_substring(ix[i].0, q),
    ensures
        index_matching_ids(ix, q).contains(ix[i].1[k]),
    decreases ix.len(),
{
    let r = index_matching_ids(ix.drop_last(), q);
    if i == ix.len() - 1 {
        assert((r + ix.last().1)[r.len() + k] == ix[i].1[k]);
    } else {
        assert(ix.drop_last()[i] == ix[i]);
        lemma_index_match_contains(ix.drop_last(), q, i, k);
        let j = choose|j: int| 0 <= j < r.len() && r[j] == ix[i].1[k];
        if has_substring(ix.last().0, q) {
            assert((r + ix.last().1)[j] == ix[i].1[k]);
        }
    }
}

/// A track just indexed is among what its search text leads to from any
/// query that the text contains: indexing makes a track searchable.
pub proof fn lemma_indexed_track_found(ix: Seq<(Seq<char>, Seq<Seq<char>>)>, t: Track, q: Seq<char>)
    requires
        has_substring(search_text(t), q),
    ensures
        index_matching_ids(model_index_put(ix, search_text(t), t.id.0@), q).contains(t.id.0@),
{
    lemma_entry_position(ix, search_text(t));
    let n = model_index_put(ix, search_text(t), t.id.0@);
    let p = entry_position(ix, search_text(t));
    let i = if p >= 0 {
        p
    } else {
        ix.len() as int
    };
    assert(n[i] == (search_text(t), seq![t.id.0@]));
    lemma_index_match_contains(n, q, i, 0);
}

/// Search over a track database.
pub struct InstantSearchEngine {
    db: Database,
}

impl InstantSearchEngine {
    /// The database searched.
    pub closed spec fn database(&self) -> Database {
        self.db
    }

    /// A search engine over `db`, whose index is prepared first.
    pub fn new(db: Database) -> (r: Result<Self>)
        ensures
            r matches Ok(e) && e.database() == db,
    {
        db.execute_fts_init()?;
        Ok(InstantSearchEngine { db })
    }

    /// A search engine over an empty database that is not kept in a file.
    pub fn new_in_memory() -> (r: Result<Self>)
        ensures
            r matches Ok(e) && e.database().stored().len() == 0 && e.database().index().len() == 0
                && e.database().path() is None,
    {
        let db = Database::in_memory()?;
        Self::new(db)
    }

    /// Indexes `track` in the database's full-text index.
    pub fn index_track(&mut self, track: &Track) -> (r: Result<()>)
        ensures
            r is Ok,
            final(self).database().stored() == old(self).database().stored(),
            final(self).database().path() == old(self).database().path(),
            final(self).database().index() == model_index_put(
                old(self).database().index(),
                search_text(*track),
                track.id.0@,
            ),
    {
        self.db.index_track_fts(track)
    }

    /// Searches the full-text index: the identifiers of the indexed texts
    /// that contain the trimmed, lower-case query (see
    /// [`index_search_result`]). A track indexed through this engine is found
    /// whether or not it is stored.
    pub fn search(&self, query_str: &str, limit: usize) -> (r: Result<Vec<TrackId>>)
        ensures
            r matches Ok(v) && ids_view(v@) == index_search_result(
                self.database().index(),
                query_text(query_str@),
                limit as nat,
            ),
    {
        let trimmed = trim_whitespace(query_str);
        let clean = to_lowercase(trimmed.as_str());
        Ok(search_index(&self.db.fts_index, clean.as_str(), limit))
    }

    /// The database searched.
    pub fn db(&self) -> (r: &Database)
        ensures
            *r == self.database(),
    {
        &self.db
    }

    /// Stores a track in the database searched (see
    /// [`Database::insert_or_update_track`]).
    pub fn insert_or_update_track(&mut self, track: &Track) -> (r: Result<()>)
        requires
            old(self).database().wf(),
        ensures
            r is Ok,
            final(self).database().wf(),
            final(self).database().stored() == model_upsert(old(self).database().stored(), *track),
            final(self).database().path() == old(self).database().path(),
            final(self).database().index() == model_index_put(
                old(self).database().index(),
                search_text(*track),
                track.id.0@,
            ),
    {
        self.db.insert_or_update_track(track)
    }
}

} // verus!
