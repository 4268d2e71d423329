//! Map matching types.
use vstd::prelude::*;

verus! {

/// Match confidence level.
#[derive(Debug, Clone, Copy, PartialEq)]
pub enum MatchConfidence {
    /// High confidence — position clearly on a single segment.
    High,
    /// Medium — position near intersection or ambiguous.
    Medium,
    /// Low — large distance to nearest segment.
    Low,
    /// NoMatch — no road segment within search radius.
    NoMatch,
}

} // verus!
