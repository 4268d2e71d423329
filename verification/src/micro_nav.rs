//! Micro-navigation types for the last metres of a trip.
use vstd::prelude::*;

verus! {

/// Types of arrival points.
#[derive(Debug, Clone, Copy, PartialEq, Eq)]
pub enum ArrivalPointType {
    MainEntrance,
    SideEntrance,
    ParkingEntrance,
    Gate,
    PickupZone,
    DropoffZone,
    LoadingDock,
    EmergencyEntrance,
    PedestrianEntrance,
    ServiceEntrance,
}

/// Types of micro-navigation instructions.
#[derive(Debug, Clone, Copy, PartialEq, Eq)]
pub enum MicroInstructionType {
    /// Continue straight ahead.
    Continue,
    /// Turn at an intersection or path junction.
    Turn,
    /// Enter a building or structure.
    Enter,
    /// Exit a building or structure.
    Exit,
    /// Take stairs or elevator.
    LevelChange,
    /// Arrive at the destination point.
    Arrive,
    /// Wait at a gate or barrier.
    Wait,
    /// Cross a road or walkway.
    Cross,
}

} // verus!
