//! Multimodal journey types: transport modes and cycling conditions.
use vstd::prelude::*;

verus! {

/// Type of cycling infrastructure.
#[derive(Debug, Clone, Copy, PartialEq, Eq)]
pub enum BikeInfrastructure {
    /// Physically separated bike lane.
    ProtectedLane,
    /// Painted bike lane on road.
    PaintedLane,
    /// Shared road with sharrows / signage.
    SharedRoad,
    /// Dedicated cycling path (off-road).
    DedicatedPath,
    /// No cycling infrastructure.
    NoInfrastructure,
}

/// Road surface suitability for cycling.
#[derive(Debug, Clone, Copy, PartialEq, Eq)]
pub enum BikeSurface {
    Asphalt,
    Concrete,
    Gravel,
    Cobblestone,
    Dirt,
}

/// Bicycle type affects speed and terrain capability.
#[derive(Debug, Clone, Copy, PartialEq, Eq)]
pub enum BikeType {
    Road,
    Hybrid,
    Mountain,
    EBike,
    Cargo,
}

/// Traffic density classification.
#[derive(Debug, Clone, Copy, PartialEq, Eq)]
pub enum TrafficDensity {
    Low,
    Medium,
    High,
    VeryHigh,
}

/// Transport mode for a journey leg.
#[derive(Debug, Clone, Copy, PartialEq, Eq, Structural)]
pub enum Mode {
    Walk,
    Bicycle,
    BikeShare,
    Bus,
    Tram,
    Metro,
    Train,
    Ferry,
    Taxi,
    Drive,
}

impl Mode {
    /// Whether this mode is human-powered (walking or own bicycle).
    pub fn is_active(self) -> (b: bool)
        ensures
            b == (self == Mode::Walk || self == Mode::Bicycle),
    {
        match self {
            Mode::Walk | Mode::Bicycle => true,
            _ => false,
        }
    }

    /// Whether this mode uses public transit.
    pub fn is_transit(self) -> (b: bool)
        ensures
            b == (self == Mode::Bus || self == Mode::Tram || self == Mode::Metro || self
                == Mode::Train || self == Mode::Ferry),
    {
        match self {
            Mode::Bus | Mode::Tram | Mode::Metro | Mode::Train | Mode::Ferry => true,
            _ => false,
        }
    }
}

/// The number of changes of mode along a sequence of legs' modes: the adjacent pairs
/// whose modes differ.
pub open spec fn spec_mode_changes(modes: Seq<Mode>) -> nat
    decreases modes.len(),
{
    if modes.len() <= 1 {
        0
    } else {
        spec_mode_changes(modes.drop_last()) + if modes[modes.len() - 2] != modes.last() {
            1nat
        } else {
            0nat
        }
    }
}

/// The sum of some fares.
pub open spec fn spec_fare_total(fares: Seq<u32>) -> nat
    decreases fares.len(),
{
    if fares.len() == 0 {
        0
    } else {
        spec_fare_total(fares.drop_last()) + fares.last() as nat
    }
}

/// A journey changes mode at most once between consecutive legs.
pub proof fn lemma_mode_changes_bound(modes: Seq<Mode>)
    ensures
        modes.len() >= 1 ==> spec_mode_changes(modes) <= modes.len() - 1,
        modes.len() == 0 ==> spec_mode_changes(modes) == 0,
    decreases modes.len(),
{
    if modes.len() > 1 {
        lemma_mode_changes_bound(modes.drop_last());
    }
}

/// How many times the mode changes between consecutive legs of a journey.
pub fn mode_changes(modes: &[Mode]) -> (n: usize)
    ensures
        n == spec_mode_changes(modes@),
{
    let mut n: usize = 0;
    let mut i: usize = 1;
    if modes.len() <= 1 {
        return 0;
    }
    while i < modes.len()
        invariant
            1 <= i <= modes@.len(),
            n == spec_mode_changes(modes@.take(i as int)),
            n < i,
        decreases modes@.len() - i,
    {
        proof {
            let t = modes@.take(i + 1);
            assert(t.drop_last() =~= modes@.take(i as int));
            assert(t[t.len() - 2] == modes@[i - 1]);
        }
        if modes[i - 1] != modes[i] {
            n = n + 1;
        }
        i = i + 1;
    }
    assert(modes@.take(i as int) =~= modes@);
    n
}

/// The total fare of a journey's legs, in cents.
pub fn total_fare_cents(fares: &[u32]) -> (total: u32)
    requires
        spec_fare_total(fares@) <= u32::MAX,
    ensures
        total == spec_fare_total(fares@),
{
    let mut total: u32 = 0;
    let mut i: usize = 0;
    while i < fares.len()
        invariant
            i <= fares@.len(),
            total == spec_fare_total(fares@.take(i as int)),
            spec_fare_total(fares@) <= u32::MAX,
        decreases fares@.len() - i,
    {
        proof {
            assert(fares@.take(i + 1).drop_last() =~= fares@.take(i as int));
            lemma_fare_prefix(fares@, i + 1);
        }
        total = total + fares[i];
        i = i + 1;
    }
    assert(fares@.take(i as int) =~= fares@);
    total
}

proof fn lemma_fare_prefix(s: Seq<u32>, k: int)
    requires
        0 <= k <= s.len(),
    ensures
        spec_fare_total(s.take(k)) <= spec_fare_total(s),
    decreases s.len() - k,
{
    if k < s.len() {
        lemma_fare_prefix(s, k + 1);
        assert(s.take(k + 1).drop_last() =~= s.take(k));
    } else {
        assert(s.take(k) =~= s);
    }
}

} // verus!
