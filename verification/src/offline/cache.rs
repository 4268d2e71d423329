//! Offline map cache: downloaded regions.
use vstd::prelude::*;

verus! {

/// Status of an offline region.
#[derive(Debug, Clone, Copy, PartialEq, Eq)]
pub enum RegionStatus {
    /// Fully downloaded and current.
    Ready,
    /// Download in progress.
    Downloading,
    /// Update available.
    UpdateAvailable,
    /// Download failed — partial data.
    Failed,
}

} // verus!
