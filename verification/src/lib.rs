//! Verified core of a desktop music player: text direction handling,
//! library data model, caches, storage, playback decisions, what the
//! interface does with clicks, keys and engine events, and display helpers.

pub mod text;
pub mod bidi;
pub mod error;
pub mod types;
pub mod duration_text;
pub mod virtual_list;
pub mod entropy;
pub mod metrics;
pub mod memory_cache;
pub mod cache_manager;
pub mod toast;
pub mod storage;
pub mod engine;
pub mod library;
pub mod theme;
pub mod state;
pub mod playlist;
pub mod associations;
pub mod decoding;
pub mod controls;
