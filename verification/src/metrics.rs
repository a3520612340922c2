//! Internal diagnostics counters: the last database latency and the cache
//! hit and miss counts.

use vstd::prelude::*;

verus! {

/// Diagnostics counters. Counts wrap around at `u64::MAX`, as atomic
/// counters do.
#[derive(Debug, Clone)]
pub struct MonitorEngine {
    db_latency_ns: u64,
    cache_hits: u64,
    cache_misses: u64,
}

/// `x + 1` wrapped at `u64::MAX`.
pub open spec fn wrapping_succ(x: u64) -> u64 {
    if x == u64::MAX {
        0
    } else {
        (x + 1) as u64
    }
}

impl MonitorEngine {
    /// The last recorded database latency, in nanoseconds.
    pub closed spec fn spec_db_latency_ns(&self) -> u64 {
        self.db_latency_ns
    }

    /// The number of cache hits recorded.
    pub closed spec fn spec_cache_hits(&self) -> u64 {
        self.cache_hits
    }

    /// The number of cache misses recorded.
    pub closed spec fn spec_cache_misses(&self) -> u64 {
        self.cache_misses
    }

    /// All counters start at zero.
    pub fn new() -> (m: Self)
        ensures
            m.spec_db_latency_ns() == 0,
            m.spec_cache_hits() == 0,
            m.spec_cache_misses() == 0,
    {
        MonitorEngine { db_latency_ns: 0, cache_hits: 0, cache_misses: 0 }
    }

    /// The same as [`MonitorEngine::new`].
    pub fn default() -> (m: Self)
        ensures
            m.spec_db_latency_ns() == 0,
            m.spec_cache_hits() == 0,
            m.spec_cache_misses() == 0,
    {
        Self::new()
    }

    /// Records the latency of the last database query.
    pub fn record_db_latency(&mut self, duration_ns: u64)
        ensures
            final(self).spec_db_latency_ns() == duration_ns,
            final(self).spec_cache_hits() == old(self).spec_cache_hits(),
            final(self).spec_cache_misses() == old(self).spec_cache_misses(),
    {
        self.db_latency_ns = duration_ns;
    }

    /// Counts one cache hit.
    pub fn record_cache_hit(&mut self)
        ensures
            final(self).spec_cache_hits() == wrapping_succ(old(self).spec_cache_hits()),
            final(self).spec_cache_misses() == old(self).spec_cache_misses(),
            final(self).spec_db_latency_ns() == old(self).spec_db_latency_ns(),
    {
        self.cache_hits = self.cache_hits.wrapping_add(1);
    }

    /// Counts one cache miss.
    pub fn record_cache_miss(&mut self)
        ensures
            final(self).spec_cache_misses() == wrapping_succ(old(self).spec_cache_misses()),
            final(self).spec_cache_hits() == old(self).spec_cache_hits(),
            final(self).spec_db_latency_ns() == old(self).spec_db_latency_ns(),
    {
        self.cache_misses = self.cache_misses.wrapping_add(1);
    }

    /// The last recorded database latency, in nanoseconds.
    pub fn db_latency_ns(&self) -> (v: u64)
        ensures
            v == self.spec_db_latency_ns(),
    {
        self.db_latency_ns
    }

    /// The number of cache hits recorded.
    pub fn cache_hits(&self) -> (v: u64)
        ensures
            v == self.spec_cache_hits(),
    {
        self.cache_hits
    }

    /// The number of cache misses recorded.
    pub fn cache_misses(&self) -> (v: u64)
        ensures
            v == self.spec_cache_misses(),
    {
        self.cache_misses
    }
}

/// A count after `n` wrapping increments of `x`.
pub open spec fn wrapping_succ_n(x: u64, n: nat) -> u64
    decreases n,
{
    if n == 0 {
        x
    } else {
        wrapping_succ(wrapping_succ_n(x, (n - 1) as nat))
    }
}

/// After `n` recorded cache hits, the hit count is the old count plus `n`,
/// wrapped at `u64::MAX`; no hit is lost.
pub proof fn lemma_hits_after_n_records(h: u64, n: nat)
    ensures
        wrapping_succ_n(h, n) == (h + n) % 0x1_0000_0000_0000_0000,
        h + n <= u64::MAX ==> wrapping_succ_n(h, n) == h + n,
    decreases n,
{
    if n > 0 {
        lemma_hits_after_n_records(h, (n - 1) as nat);
        let p = wrapping_succ_n(h, (n - 1) as nat);
        assert(p == (h + n - 1) % 0x1_0000_0000_0000_0000);
        if p == u64::MAX {
            assert((h + n) % 0x1_0000_0000_0000_0000 == 0) by (nonlinear_arith)
                requires
                    p == (h + n - 1) % 0x1_0000_0000_0000_0000,
                    p == 0xFFFF_FFFF_FFFF_FFFF,
                    n >= 1,
            ;
        } else {
            assert((h + n) % 0x1_0000_0000_0000_0000 == p + 1) by (nonlinear_arith)
                requires
                    p == (h + n - 1) % 0x1_0000_0000_0000_0000,
                    p < 0xFFFF_FFFF_FFFF_FFFF,
                    n >= 1,
            ;
        }
    }
}

} // verus!
