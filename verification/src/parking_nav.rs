//! Parking navigation: parking facility types.
use vstd::prelude::*;

verus! {

/// A kind of parking facility.
#[derive(Debug, Clone, Copy, PartialEq, Eq, Structural)]
pub enum ParkingType {
    Street,
    Garage,
    Lot,
    Underground,
    Rooftop,
    Valet,
    Disabled,
    EvCharging,
}

impl ParkingType {
    /// Garages and underground parking are covered.
    pub fn is_covered(&self) -> (b: bool)
        ensures
            b == (*self == ParkingType::Garage || *self == ParkingType::Underground),
    {
        match self {
            ParkingType::Garage | ParkingType::Underground => true,
            _ => false,
        }
    }
}

/// Reservation status.
#[derive(Debug, Clone, Copy, PartialEq, Eq)]
pub enum ReservationStatus {
    Pending,
    Confirmed,
    Active,
    Expired,
    Cancelled,
}

} // verus!
