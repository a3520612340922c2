//! The in-memory tier of the artwork cache: a bounded least-recently-used map
//! from track identifiers to image bytes, kept in `lru::LruCache`.

use vstd::prelude::*;
use lru::LruCache;
use std::num::NonZeroUsize;

verus! {

#[verifier::external_type_specification]
#[verifier::external_body]
#[verifier::reject_recursive_types(K)]
#[verifier::reject_recursive_types(V)]
#[verifier::reject_recursive_types(S)]
pub struct ExLruCache<K, V, S>(LruCache<K, V, S>);

#[verifier::external_type_specification]
#[verifier::external_body]
pub struct ExLruHasher(lru::DefaultHasher);

/// The entries of an `lru::LruCache`, most recently used first, each as a key
/// and its value.
pub uninterp spec fn lru_entries(c: LruCache<String, Vec<u8>>) -> Seq<(Seq<char>, Seq<u8>)>;

/// The capacity an `lru::LruCache` was created with.
pub uninterp spec fn lru_capacity(c: LruCache<String, Vec<u8>>) -> nat;

// ---------------------------------------------------------------------------
// The LRU model
// ---------------------------------------------------------------------------

/// Position of the first entry whose key is `k`, or -1 when there is none.
pub open spec fn key_index(e: Seq<(Seq<char>, Seq<u8>)>, k: Seq<char>) -> int
    decreases e.len(),
{
    if e.len() == 0 {
        -1
    } else if e[0].0 == k {
        0
    } else {
        let r = key_index(e.drop_first(), k);
        if r < 0 {
            -1
        } else {
            r + 1
        }
    }
}

/// No two entries share a key.
pub open spec fn unique_keys(e: Seq<(Seq<char>, Seq<u8>)>) -> bool {
    forall|i: int, j: int| 0 <= i < j < e.len() ==> #[trigger] e[i].0 != #[trigger] e[j].0
}

/// The value stored under `k`, if any.
pub open spec fn model_lookup(e: Seq<(Seq<char>, Seq<u8>)>, k: Seq<char>) -> Option<Seq<u8>> {
    let i = key_index(e, k);
    if i >= 0 {
        Some(e[i].1)
    } else {
        None
    }
}

/// The entries after a lookup of `k`: a found entry becomes the most recently used.
pub open spec fn model_touch(e: Seq<(Seq<char>, Seq<u8>)>, k: Seq<char>) -> Seq<(Seq<char>, Seq<u8>)> {
    let i = key_index(e, k);
    if i >= 0 {
        seq![e[i]] + e.remove(i)
    } else {
        e
    }
}

/// The entries after storing `v` under `k` in a cache of capacity `cap`: an
/// existing entry for `k` is replaced; otherwise, in a full cache, the least
/// recently used entry is evicted. The new entry is the most recently used.
pub open spec fn model_put(
    e: Seq<(Seq<char>, Seq<u8>)>,
    cap: nat,
    k: Seq<char>,
    v: Seq<u8>,
) -> Seq<(Seq<char>, Seq<u8>)> {
    let i = key_index(e, k);
    if i >= 0 {
        seq![(k, v)] + e.remove(i)
    } else if e.len() == cap {
        seq![(k, v)] + e.drop_last()
    } else {
        seq![(k, v)] + e
    }
}

proof fn lemma_key_index(e: Seq<(Seq<char>, Seq<u8>)>, k: Seq<char>)
    ensures
        -1 <= key_index(e, k) < e.len(),
        key_index(e, k) >= 0 ==> e[key_index(e, k)].0 == k,
        key_index(e, k) < 0 ==> forall|j: int| 0 <= j < e.len() ==> #[trigger] e[j].0 != k,
        key_index(e, k) >= 0 ==> forall|j: int| 0 <= j < key_index(e, k) ==> #[trigger] e[j].0 != k,
    decreases e.len(),
{
    if e.len() > 0 && e[0].0 != k {
        lemma_key_index(e.drop_first(), k);
        assert forall|j: int| 1 <= j < e.len() implies #[trigger] e[j] == e.drop_first()[j - 1] by {}
    }
}

proof fn lemma_unique_key_index(e: Seq<(Seq<char>, Seq<u8>)>, k: Seq<char>, j: int)
    requires
        unique_keys(e),
        0 <= j < e.len(),
        e[j].0 == k,
    ensures
        key_index(e, k) == j,
{
    lemma_key_index(e, k);
    let i = key_index(e, k);
    if i != j {
        if i < j {
            assert(e[i].0 != e[j].0);
        }
    }
}

/// The state a cache keeps at all times: distinct keys, no more entries than
/// its capacity, and a capacity of at least one.
pub open spec fn lru_valid(e: Seq<(Seq<char>, Seq<u8>)>, cap: nat) -> bool {
    &&& unique_keys(e)
    &&& e.len() <= cap
    &&& cap > 0
}

proof fn lemma_remove_keeps_unique(e: Seq<(Seq<char>, Seq<u8>)>, i: int, k: Seq<char>)
    requires
        unique_keys(e),
        0 <= i < e.len(),
        e[i].0 == k,
    ensures
        unique_keys(seq![e[i]] + e.remove(i)),
        unique_keys(e.remove(i)),
        forall|j: int| 0 <= j < e.remove(i).len() ==> #[trigger] e.remove(i)[j].0 != k,
{
    let r = e.remove(i);
    assert forall|j: int| 0 <= j < r.len() implies #[trigger] r[j].0 != k by {
        if j < i {
            assert(r[j] == e[j]);
        } else {
            assert(r[j] == e[j + 1]);
        }
    }
    let n = seq![e[i]] + r;
    assert forall|a: int, b: int| 0 <= a < b < n.len() implies #[trigger] n[a].0 != #[trigger] n[b].0 by {
        if a == 0 {
            assert(n[b] == r[b - 1]);
        } else {
            assert(n[a] == r[a - 1]);
            assert(n[b] == r[b - 1]);
            let ia = if a - 1 < i { a - 1 } else { a };
            let ib = if b - 1 < i { b - 1 } else { b };
            assert(r[a - 1] == e[ia]);
            assert(r[b - 1] == e[ib]);
        }
    }
    assert forall|a: int, b: int| 0 <= a < b < r.len() implies #[trigger] r[a].0 != #[trigger] r[b].0 by {
        assert(r[a] == n[a + 1]);
        assert(r[b] == n[b + 1]);
    }
}

proof fn lemma_prepend_fresh(e: Seq<(Seq<char>, Seq<u8>)>, k: Seq<char>, v: Seq<u8>)
    requires
        unique_keys(e),
        forall|j: int| 0 <= j < e.len() ==> #[trigger] e[j].0 != k,
    ensures
        unique_keys(seq![(k, v)] + e),
{
    let n = seq![(k, v)] + e;
    assert forall|a: int, b: int| 0 <= a < b < n.len() implies #[trigger] n[a].0 != #[trigger] n[b].0 by {
        assert(n[b] == e[b - 1]);
        if a > 0 {
            assert(n[a] == e[a - 1]);
        }
    }
}

proof fn lemma_drop_last_keeps_unique(e: Seq<(Seq<char>, Seq<u8>)>)
    requires
        unique_keys(e),
        e.len() > 0,
    ensures
        unique_keys(e.drop_last()),
{
    let d = e.drop_last();
    assert forall|a: int, b: int| 0 <= a < b < d.len() implies #[trigger] d[a].0 != #[trigger] d[b].0 by {
        assert(d[a] == e[a]);
        assert(d[b] == e[b]);
    }
}

/// Storing keeps a cache valid.
pub proof fn lemma_put_keeps_valid(e: Seq<(Seq<char>, Seq<u8>)>, cap: nat, k: Seq<char>, v: Seq<u8>)
    requires
        lru_valid(e, cap),
    ensures
        lru_valid(model_put(e, cap, k, v), cap),
{
    lemma_key_index(e, k);
    let i = key_index(e, k);
    if i >= 0 {
        lemma_remove_keeps_unique(e, i, k);
        lemma_prepend_fresh(e.remove(i), k, v);
    } else if e.len() == cap {
        lemma_drop_last_keeps_unique(e);
        assert forall|j: int| 0 <= j < e.drop_last().len() implies #[trigger] e.drop_last()[j].0
            != k by {
            assert(e.drop_last()[j] == e[j]);
        }
        lemma_prepend_fresh(e.drop_last(), k, v);
    } else {
        lemma_prepend_fresh(e, k, v);
    }
}

/// Looking a key up keeps a cache valid and keeps its entries.
pub proof fn lemma_touch_keeps_valid(e: Seq<(Seq<char>, Seq<u8>)>, cap: nat, k: Seq<char>)
    requires
        lru_valid(e, cap),
    ensures
        lru_valid(model_touch(e, k), cap),
        model_touch(e, k).len() == e.len(),
{
    lemma_key_index(e, k);
    let i = key_index(e, k);
    if i >= 0 {
        lemma_remove_keeps_unique(e, i, k);
    }
}

// ---------------------------------------------------------------------------
// Calls into `lru`
// ---------------------------------------------------------------------------

/// `LruCache::new` with capacity `cap`: an empty cache of that capacity.
#[verifier::external_body]
fn lru_new(cap: usize) -> (c: LruCache<String, Vec<u8>>)
    requires
        cap > 0,
    ensures
        lru_entries(c) == Seq::<(Seq<char>, Seq<u8>)>::empty(),
        lru_capacity(c) == cap,
{
    LruCache::new(NonZeroUsize::new(cap).unwrap())
}

/// `LruCache::get` followed by a clone of the value: a found entry becomes the
/// most recently used and its value is returned; otherwise nothing changes.
#[verifier::external_body]
fn lru_get(c: &mut LruCache<String, Vec<u8>>, key: &String) -> (r: Option<Vec<u8>>)
    ensures
        lru_capacity(*final(c)) == lru_capacity(*old(c)),
        lru_entries(*final(c)) == model_touch(lru_entries(*old(c)), key@),
        match r {
            Some(v) => model_lookup(lru_entries(*old(c)), key@) == Some(v@),
            None => model_lookup(lru_entries(*old(c)), key@) is None,
        },
{
    c.get(key).cloned()
}

/// `LruCache::put`: replaces the value of an existing key, or adds the key,
/// evicting the least recently used entry when the cache is full; the entry
/// put becomes the most recently used.
#[verifier::external_body]
fn lru_put(c: &mut LruCache<String, Vec<u8>>, key: String, value: Vec<u8>)
    ensures
        lru_capacity(*final(c)) == lru_capacity(*old(c)),
        lru_entries(*final(c)) == model_put(
            lru_entries(*old(c)),
            lru_capacity(*old(c)),
            key@,
            value@,
        ),
{
    c.put(key, value);
}

/// `LruCache::clear`: removes every entry, keeping the capacity.
#[verifier::external_body]
fn lru_clear(c: &mut LruCache<String, Vec<u8>>)
    ensures
        lru_capacity(*final(c)) == lru_capacity(*old(c)),
        lru_entries(*final(c)) == Seq::<(Seq<char>, Seq<u8>)>::empty(),
{
    c.clear();
}

// ---------------------------------------------------------------------------
// The cache
// ---------------------------------------------------------------------------

/// A bounded least-recently-used cache of byte buffers keyed by text.
pub struct MemoryLruCache {
    cache: LruCache<String, Vec<u8>>,
}

impl MemoryLruCache {
    /// The cache is valid (see [`lru_valid`]).
    pub open spec fn wf(&self) -> bool {
        lru_valid(self.entries(), self.capacity())
    }

    /// The entries, most recently used first.
    pub closed spec fn entries(&self) -> Seq<(Seq<char>, Seq<u8>)> {
        lru_entries(self.cache)
    }

    /// The number of entries the cache holds before it evicts.
    pub closed spec fn capacity(&self) -> nat {
        lru_capacity(self.cache)
    }

    /// An empty cache holding at most `capacity` entries (at least one).
    pub fn new(capacity: usize) -> (c: Self)
        ensures
            c.wf(),
            c.entries() == Seq::<(Seq<char>, Seq<u8>)>::empty(),
            c.capacity() == if capacity == 0 {
                1
            } else {
                capacity as nat
            },
    {
        let cap = if capacity == 0 {
            1
        } else {
            capacity
        };
        MemoryLruCache { cache: lru_new(cap) }
    }

    /// The value stored under `key`, which becomes the most recently used entry.
    pub fn get(&mut self, key: &String) -> (r: Option<Vec<u8>>)
        requires
            old(self).wf(),
        ensures
            final(self).wf(),
            final(self).capacity() == old(self).capacity(),
            final(self).entries() == model_touch(old(self).entries(), key@),
            match r {
                Some(v) => model_lookup(old(self).entries(), key@) == Some(v@),
                None => model_lookup(old(self).entries(), key@) is None,
            },
    {
        proof {
            lemma_touch_keeps_valid(lru_entries(self.cache), lru_capacity(self.cache), key@);
        }
        lru_get(&mut self.cache, key)
    }

    /// Stores `value` under `key` (see [`model_put`]).
    pub fn put(&mut self, key: String, value: Vec<u8>)
        requires
            old(self).wf(),
        ensures
            final(self).wf(),
            final(self).capacity() == old(self).capacity(),
            final(self).entries() == model_put(old(self).entries(), old(self).capacity(), key@, value@),
    {
        proof {
            lemma_put_keeps_valid(lru_entries(self.cache), lru_capacity(self.cache), key@, value@);
        }
        lru_put(&mut self.cache, key, value);
    }

    /// Removes every entry.
    pub fn clear(&mut self)
        requires
            old(self).wf(),
        ensures
            final(self).wf(),
            final(self).capacity() == old(self).capacity(),
            final(self).entries() == Seq::<(Seq<char>, Seq<u8>)>::empty(),
    {
        lru_clear(&mut self.cache);
    }
}

// ---------------------------------------------------------------------------
// Laws
// ---------------------------------------------------------------------------

/// A value just stored is what the next lookup of its key returns.
pub proof fn lemma_lookup_after_put(e: Seq<(Seq<char>, Seq<u8>)>, cap: nat, k: Seq<char>, v: Seq<u8>)
    ensures
        model_lookup(model_put(e, cap, k, v), k) == Some(v),
{
    let n = model_put(e, cap, k, v);
    assert(n[0] == (k, v));
}

/// A cache never holds more entries than its capacity.
pub proof fn lemma_put_within_capacity(e: Seq<(Seq<char>, Seq<u8>)>, cap: nat, k: Seq<char>, v: Seq<u8>)
    requires
        lru_valid(e, cap),
    ensures
        model_put(e, cap, k, v).len() <= cap,
{
    lemma_put_keeps_valid(e, cap, k, v);
}

/// Storing under one key leaves every other key's value as it was, except the
/// least recently used entry, which a full cache evicts to make room for a new key.
pub proof fn lemma_put_keeps_other_keys(
    e: Seq<(Seq<char>, Seq<u8>)>,
    cap: nat,
    k: Seq<char>,
    v: Seq<u8>,
    other: Seq<char>,
)
    requires
        lru_valid(e, cap),
        other != k,
        !(key_index(e, k) < 0 && e.len() == cap && e.len() > 0 && e.last().0 == other),
    ensures
        model_lookup(model_put(e, cap, k, v), other) == model_lookup(e, other),
{
    lemma_key_index(e, k);
    lemma_key_index(e, other);
    lemma_put_keeps_valid(e, cap, k, v);
    let n = model_put(e, cap, k, v);
    lemma_key_index(n, other);
    let i = key_index(e, k);
    let j = key_index(e, other);
    if j >= 0 {
        // `other` is still present, at a shifted position
        let pos = if i >= 0 {
            if j < i { j + 1 } else { j }
        } else {
            j + 1
        };
        if i >= 0 {
            assert(n[pos] == e[j]);
        } else if e.len() == cap {
            assert(j != e.len() - 1);
            assert(n[pos] == e[j]);
        } else {
            assert(n[pos] == e[j]);
        }
        lemma_unique_key_index(n, other, pos);
    } else {
        // `other` was absent and is still absent
        assert forall|p: int| 0 <= p < n.len() implies #[trigger] n[p].0 != other by {
            if p > 0 {
                if i >= 0 {
                    let q = if p - 1 < i { p - 1 } else { p };
                    assert(n[p] == e[q]);
                } else {
                    assert(n[p] == e[p - 1]);
                }
            }
        }
        if key_index(n, other) >= 0 {
            assert(n[key_index(n, other)].0 == other);
        }
    }
}

/// When a full cache takes a new key, the least recently used key is gone.
pub proof fn lemma_put_evicts_least_recent(
    e: Seq<(Seq<char>, Seq<u8>)>,
    cap: nat,
    k: Seq<char>,
    v: Seq<u8>,
)
    requires
        lru_valid(e, cap),
        key_index(e, k) < 0,
        e.len() == cap,
    ensures
        model_lookup(model_put(e, cap, k, v), e.last().0) is None,
{
    lemma_key_index(e, k);
    let n = model_put(e, cap, k, v);
    let gone = e.last().0;
    assert forall|p: int| 0 <= p < n.len() implies #[trigger] n[p].0 != gone by {
        if p > 0 {
            assert(n[p] == e[p - 1]);
            assert(e[p - 1].0 != e[e.len() - 1].0);
        }
    }
    lemma_key_index(n, gone);
    if key_index(n, gone) >= 0 {
        assert(n[key_index(n, gone)].0 == gone);
    }
}

} // verus!
