//! Noise mapping: noise source classification.
use vstd::prelude::*;

verus! {

/// A source of ambient noise.
#[derive(Debug, Clone, Copy, PartialEq, Eq, Structural)]
pub enum NoiseSource {
    Traffic,
    Construction,
    Industrial,
    Airport,
    Railway,
    Nightlife,
    Nature,
    Residential,
}

impl NoiseSource {
    /// Airports, railways and construction produce intermittent noise.
    pub fn is_intermittent(&self) -> (b: bool)
        ensures
            b == (*self == NoiseSource::Airport || *self == NoiseSource::Railway || *self
                == NoiseSource::Construction),
    {
        match self {
            NoiseSource::Airport | NoiseSource::Railway | NoiseSource::Construction => true,
            _ => false,
        }
    }
}

} // verus!
