//! Offline maps and offline-to-online synchronisation.
pub mod cache;
pub mod sync_engine;
