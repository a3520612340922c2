//! The two-tier artwork cache: an in-memory LRU tier in front of a disk tier.
//! The disk itself is read and written by the caller; this module decides when
//! the disk is consulted and what the memory tier holds.

use vstd::prelude::*;
use vstd::slice::slice_to_vec;
use crate::memory_cache::{MemoryLruCache, model_lookup, model_put, model_touch, lemma_lookup_after_put};

verus! {

/// Entries the memory tier holds.
pub const MEMORY_ARTWORK_CAPACITY: usize = 200;

/// The outcome of looking artwork up in the memory tier.
#[derive(Debug)]
pub enum ArtworkLookup {
    /// The memory tier held the artwork.
    Hit(Vec<u8>),
    /// The memory tier missed; the disk tier must be read, and its answer
    /// handed to [`CacheManager::complete_artwork_read`].
    ReadDisk,
}

/// The artwork cache's memory tier and the rules that connect it to the disk tier.
pub struct CacheManager {
    memory_artwork: MemoryLruCache,
}

impl CacheManager {
    /// The memory tier.
    pub closed spec fn memory(&self) -> MemoryLruCache {
        self.memory_artwork
    }

    pub open spec fn wf(&self) -> bool {
        self.memory().wf()
    }

    /// A cache whose memory tier is empty and holds up to
    /// [`MEMORY_ARTWORK_CAPACITY`] entries.
    pub fn new() -> (m: Self)
        ensures
            m.wf(),
            m.memory().entries().len() == 0,
            m.memory().capacity() == MEMORY_ARTWORK_CAPACITY,
    {
        CacheManager { memory_artwork: MemoryLruCache::new(MEMORY_ARTWORK_CAPACITY) }
    }

    /// First step of an artwork lookup: the memory tier answers, or the disk
    /// tier must be read.
    pub fn get_artwork(&mut self, track_id: &str) -> (r: ArtworkLookup)
        requires
            old(self).wf(),
        ensures
            final(self).wf(),
            final(self).memory().capacity() == old(self).memory().capacity(),
            final(self).memory().entries() == model_touch(old(self).memory().entries(), track_id@),
            match r {
                ArtworkLookup::Hit(bytes) => model_lookup(old(self).memory().entries(), track_id@)
                    == Some(bytes@),
                ArtworkLookup::ReadDisk => model_lookup(old(self).memory().entries(), track_id@) is None,
            },
    {
        let key = track_id.to_owned();
        match self.memory_artwork.get(&key) {
            Some(bytes) => ArtworkLookup::Hit(bytes),
            None => ArtworkLookup::ReadDisk,
        }
    }

    /// Second step of a lookup that missed in memory: artwork found on disk is
    /// copied into the memory tier and returned; otherwise there is none.
    pub fn complete_artwork_read(&mut self, track_id: &str, disk_bytes: Option<Vec<u8>>) -> (r:
        Option<Vec<u8>>)
        requires
            old(self).wf(),
        ensures
            final(self).wf(),
            final(self).memory().capacity() == old(self).memory().capacity(),
            match disk_bytes {
                Some(b) => {
                    &&& r matches Some(out) && out@ == b@
                    &&& final(self).memory().entries() == model_put(
                        old(self).memory().entries(),
                        old(self).memory().capacity(),
                        track_id@,
                        b@,
                    )
                },
                None => r is None && final(self).memory().entries() == old(self).memory().entries(),
            },
    {
        match disk_bytes {
            Some(bytes) => {
                let copy = bytes.clone();
                self.memory_artwork.put(track_id.to_owned(), copy);
                Some(bytes)
            },
            None => None,
        }
    }

    /// Puts artwork into the memory tier; the caller writes the same bytes to disk.
    pub fn store_artwork(&mut self, track_id: &str, data: &[u8])
        requires
            old(self).wf(),
        ensures
            final(self).wf(),
            final(self).memory().capacity() == old(self).memory().capacity(),
            final(self).memory().entries() == model_put(
                old(self).memory().entries(),
                old(self).memory().capacity(),
                track_id@,
                data@,
            ),
    {
        self.memory_artwork.put(track_id.to_owned(), slice_to_vec(data));
    }
}

/// Artwork stored under a track is what the next lookup of that track finds
/// in the memory tier: after [`CacheManager::store_artwork`], the lookup in
/// [`CacheManager::get_artwork`] is a hit with the stored bytes.
pub proof fn lemma_store_then_get(m: CacheManager, track_id: Seq<char>, data: Seq<u8>)
    ensures
        model_lookup(model_put(m.memory().entries(), m.memory().capacity(), track_id, data), track_id)
            == Some(data),
{
    lemma_lookup_after_put(m.memory().entries(), m.memory().capacity(), track_id, data);
}

} // verus!
