//! Lane guidance types.
use vstd::prelude::*;

verus! {

/// Visual representation of a lane arrow for UI rendering.
#[derive(Debug, Clone)]
pub struct LaneArrow {
    pub lane_index: u8,
    pub arrows: Vec<String>,
    pub highlighted: bool,
}

} // verus!
