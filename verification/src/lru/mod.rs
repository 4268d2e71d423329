//! LRU eviction cache with capacity limits and hit/miss tracking.
pub mod cache;
pub mod entry;
