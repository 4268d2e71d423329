//! Parking routing: parking reservations and their lifecycle, and the route plans
//! considered for a trip.
use vstd::prelude::*;
use crate::types::{now_millis, EntityId};

verus! {

/// Reservation status.
#[derive(Debug, Clone, Copy, PartialEq, Eq, Structural)]
pub enum ReservationStatus {
    Pending,
    Confirmed,
    Active,
    Expired,
    Cancelled,
}

/// A parking reservation.
#[derive(Debug, Clone)]
pub struct ParkingReservation {
    pub id: EntityId,
    pub user_id: EntityId,
    pub zone_id: EntityId,
    pub spot_id: Option<EntityId>,
    /// Start of the reservation, in milliseconds since the Unix epoch.
    pub reserved_from_ms: i64,
    /// End of the reservation, in milliseconds since the Unix epoch.
    pub reserved_until_ms: i64,
    pub status: ReservationStatus,
    pub confirmation_code: Option<String>,
}

/// A reservation of this user that is confirmed or active.
pub open spec fn active_for(user: EntityId) -> spec_fn(ParkingReservation) -> bool {
    |r: ParkingReservation| r.user_id == user && (r.status == ReservationStatus::Confirmed
        || r.status == ReservationStatus::Active)
}

/// A reservation as it stands after expiring at time `now_ms`: one that ended before
/// then and is still pending or confirmed becomes expired.
pub open spec fn expired_at(r: ParkingReservation, now_ms: i64) -> ParkingReservation {
    if r.reserved_until_ms < now_ms && (r.status == ReservationStatus::Confirmed || r.status
        == ReservationStatus::Pending) {
        ParkingReservation { status: ReservationStatus::Expired, ..r }
    } else {
        r
    }
}

/// `after` is `before` with every reservation expired at time `now_ms`.
pub open spec fn expired_all(before: Seq<ParkingReservation>, after: Seq<ParkingReservation>, now_ms: i64) -> bool {
    &&& after.len() == before.len()
    &&& forall|i: int| 0 <= i < before.len() ==> #[trigger] after[i] == expired_at(before[i], now_ms)
}

/// `r` refers to exactly the elements of `s`, in order.
pub open spec fn reservation_refs(r: Seq<&ParkingReservation>, s: Seq<ParkingReservation>) -> bool {
    r.len() == s.len() && forall|i: int| 0 <= i < s.len() ==> *r[i] == s[i]
}

/// Parking router: the reservations it holds and the route plans computed so far.
pub struct ParkingRouter<P> {
    reservations: Vec<ParkingReservation>,
    route_plans: Vec<P>,
}

impl<P> ParkingRouter<P> {
    /// The reservations, in the order they were added.
    pub closed spec fn spec_reservations(&self) -> Seq<ParkingReservation> {
        self.reservations@
    }

    /// The route plans, in the order they were made.
    pub closed spec fn spec_plans(&self) -> Seq<P> {
        self.route_plans@
    }

    /// A router with no reservations and no route plans.
    pub fn new() -> (r: Self)
        ensures
            r.spec_reservations().len() == 0,
            r.spec_plans().len() == 0,
    {
        ParkingRouter { reservations: Vec::new(), route_plans: Vec::new() }
    }

    /// Add a reservation.
    pub fn add_reservation(&mut self, reservation: ParkingReservation)
        ensures
            final(self).spec_reservations() == old(self).spec_reservations().push(reservation),
            final(self).spec_plans() == old(self).spec_plans(),
    {
        self.reservations.push(reservation);
    }

    /// The confirmed or active reservations of a user, in the order they were added.
    pub fn active_reservations(&self, user_id: &EntityId) -> (r: Vec<&ParkingReservation>)
        ensures
            reservation_refs(r@, self.spec_reservations().filter(active_for(*user_id))),
    {
        let ghost s = self.reservations@;
        let ghost f = active_for(*user_id);
        let mut out: Vec<&ParkingReservation> = Vec::new();
        let mut i: usize = 0;
        proof {
            reveal(Seq::filter);
            assert(s.take(0) =~= Seq::<ParkingReservation>::empty());
        }
        while i < self.reservations.len()
            invariant
                s == self.reservations@,
                f == active_for(*user_id),
                i <= s.len(),
                reservation_refs(out@, s.take(i as int).filter(f)),
            decreases s.len() - i,
        {
            proof {
                assert(s.take(i + 1) =~= s.take(i as int).push(s[i as int]));
                s.take(i as int).lemma_filter_push(s[i as int], f);
            }
            let r = &self.reservations[i];
            if r.user_id == *user_id && (r.status == ReservationStatus::Confirmed || r.status
                == ReservationStatus::Active) {
                out.push(r);
            }
            i = i + 1;
        }
        proof {
            assert(s.take(i as int) =~= s);
        }
        out
    }

    /// Cancel the first reservation with this id; false when there is none.
    pub fn cancel_reservation(&mut self, reservation_id: &EntityId) -> (found: bool)
        ensures
            final(self).spec_plans() == old(self).spec_plans(),
            found == exists|i: int|
                0 <= i < old(self).spec_reservations().len() && old(self).spec_reservations()[i].id == *reservation_id,
            !found ==> final(self).spec_reservations() == old(self).spec_reservations(),
            found ==> exists|k: int|
                0 <= k < old(self).spec_reservations().len() && old(self).spec_reservations()[k].id == *reservation_id && (forall|j: int|
                    0 <= j < k ==> old(self).spec_reservations()[j].id != *reservation_id)
                    && final(self).spec_reservations() == old(self).spec_reservations().update(
                    k,
                    ParkingReservation {
                        status: ReservationStatus::Cancelled,
                        ..old(self).spec_reservations()[k]
                    },
                ),
    {
        let ghost s0 = self.reservations@;
        let mut i: usize = 0;
        while i < self.reservations.len()
            invariant
                s0 == self.reservations@,
                s0 == old(self).spec_reservations(),
                self.route_plans@ == old(self).spec_plans(),
                i <= s0.len(),
                forall|j: int| 0 <= j < i ==> s0[j].id != *reservation_id,
            decreases s0.len() - i,
        {
            if self.reservations[i].id == *reservation_id {
                let mut r = self.reservations.remove(i);
                let ghost r0 = r;
                r.status = ReservationStatus::Cancelled;
                self.reservations.insert(i, r);
                assert(self.reservations@ =~= s0.update(
                    i as int,
                    ParkingReservation { status: ReservationStatus::Cancelled, ..r0 },
                ));
                assert(s0[i as int].id == *reservation_id);
                return true;
            }
            i = i + 1;
        }
        false
    }

    /// Expire the reservations that ended before `now_ms` and are still pending or
    /// confirmed.
    pub fn expire_reservations_before(&mut self, now_ms: i64)
        ensures
            final(self).spec_plans() == old(self).spec_plans(),
            expired_all(old(self).spec_reservations(), final(self).spec_reservations(), now_ms),
    {
        let ghost s0 = self.reservations@;
        let mut i: usize = 0;
        while i < self.reservations.len()
            invariant
                self.reservations@.len() == s0.len(),
                self.route_plans@ == old(self).spec_plans(),
                i <= s0.len(),
                forall|j: int| 0 <= j < i ==> #[trigger] self.reservations@[j] == expired_at(s0[j], now_ms),
                forall|j: int| i <= j < s0.len() ==> #[trigger] self.reservations@[j] == s0[j],
            decreases s0.len() - i,
        {
            if self.reservations[i].reserved_until_ms < now_ms && (self.reservations[i].status
                == ReservationStatus::Confirmed || self.reservations[i].status
                == ReservationStatus::Pending) {
                let ghost before = self.reservations@;
                let mut r = self.reservations.remove(i);
                r.status = ReservationStatus::Expired;
                self.reservations.insert(i, r);
                assert(self.reservations@ =~= before.update(i as int, expired_at(s0[i as int], now_ms)));
            }
            i = i + 1;
        }
    }

    /// Expire the reservations that ended before now (read from the system clock) and
    /// are still pending or confirmed.
    pub fn expire_old_reservations(&mut self)
        ensures
            final(self).spec_plans() == old(self).spec_plans(),
            exists|now_ms: i64|
                #[trigger] expired_all(old(self).spec_reservations(), final(self).spec_reservations(), now_ms),
    {
        let now = now_millis();
        self.expire_reservations_before(now);
    }

    /// Record a route plan.
    pub fn add_route_plan(&mut self, plan: P)
        ensures
            final(self).spec_plans() == old(self).spec_plans().push(plan),
            final(self).spec_reservations() == old(self).spec_reservations(),
    {
        self.route_plans.push(plan);
    }

    /// All route plans.
    pub fn route_plans(&self) -> (r: &[P])
        ensures
            r@ == self.spec_plans(),
    {
        self.route_plans.as_slice()
    }

    /// Clear route plans.
    pub fn clear_plans(&mut self)
        ensures
            final(self).spec_plans().len() == 0,
            final(self).spec_reservations() == old(self).spec_reservations(),
    {
        self.route_plans.clear();
    }
}

impl<P> Default for ParkingRouter<P> {
    /// A router with no reservations and no route plans.
    fn default() -> (r: Self)
        ensures
            r.spec_reservations().len() == 0,
            r.spec_plans().len() == 0,
    {
        Self::new()
    }
}

/// After expiring at time `now_ms`, no reservation that ended before then is still
/// pending or confirmed, and every reservation keeps all but its status.
pub proof fn law_expiry_leaves_no_stale(
    before: Seq<ParkingReservation>,
    after: Seq<ParkingReservation>,
    now_ms: i64,
)
    requires
        expired_all(before, after, now_ms),
    ensures
        forall|i: int|
            0 <= i < after.len() ==> !(#[trigger] after[i].reserved_until_ms < now_ms && (
            after[i].status == ReservationStatus::Confirmed || after[i].status
                == ReservationStatus::Pending)),
        forall|i: int|
            0 <= i < after.len() ==> (ParkingReservation { status: before[i].status, ..#[trigger] after[i] }) == before[i],
{
    assert forall|i: int| 0 <= i < after.len() implies (ParkingReservation { status: before[i].status, ..#[trigger] after[i] }) == before[i] by {
        assert(after[i] == expired_at(before[i], now_ms));
    }
}

} // verus!
