use chrono::Utc;
use gane::parking::{ParkingReservation, ParkingRouter, ReservationStatus};
use gane::types::EntityId;

const HOUR_MS: i64 = 3_600_000;

fn now_ms() -> i64 {
    Utc::now().timestamp_millis()
}

#[test]
fn reservation_lifecycle() {
    let mut router: ParkingRouter<()> = ParkingRouter::new();
    let user = EntityId::new();
    let res = ParkingReservation {
        id: EntityId::new(),
        user_id: user,
        zone_id: EntityId::new(),
        spot_id: None,
        reserved_from_ms: now_ms(),
        reserved_until_ms: now_ms() + 2 * HOUR_MS,
        status: ReservationStatus::Confirmed,
        confirmation_code: Some("ABC123".into()),
    };
    let rid = res.id;
    router.add_reservation(res);

    assert_eq!(router.active_reservations(&user).len(), 1);
    assert!(router.cancel_reservation(&rid));
    assert_eq!(router.active_reservations(&user).len(), 0);
}

#[test]
fn expire_old_reservations() {
    let mut router: ParkingRouter<()> = ParkingRouter::new();
    let user = EntityId::new();
    let res = ParkingReservation {
        id: EntityId::new(),
        user_id: user,
        zone_id: EntityId::new(),
        spot_id: None,
        reserved_from_ms: now_ms() - 3 * HOUR_MS,
        reserved_until_ms: now_ms() - HOUR_MS,
        status: ReservationStatus::Confirmed,
        confirmation_code: None,
    };
    router.add_reservation(res);

    router.expire_old_reservations();
    assert_eq!(router.active_reservations(&user).len(), 0);
}

fn reservation(id: u128, user: EntityId, until_ms: i64, status: ReservationStatus) -> ParkingReservation {
    ParkingReservation {
        id: EntityId::from_u128(id),
        user_id: user,
        zone_id: EntityId::from_u128(1000),
        spot_id: None,
        reserved_from_ms: 0,
        reserved_until_ms: until_ms,
        status,
        confirmation_code: None,
    }
}

#[test]
fn expiry_at_a_given_time_touches_only_stale_pending_or_confirmed() {
    let user = EntityId::from_u128(1);
    let mut router: ParkingRouter<()> = ParkingRouter::new();
    router.add_reservation(reservation(1, user, 100, ReservationStatus::Pending));
    router.add_reservation(reservation(2, user, 100, ReservationStatus::Confirmed));
    router.add_reservation(reservation(3, user, 100, ReservationStatus::Active));
    router.add_reservation(reservation(4, user, 100, ReservationStatus::Cancelled));
    router.add_reservation(reservation(5, user, 200, ReservationStatus::Confirmed));
    router.add_reservation(reservation(6, user, 150, ReservationStatus::Confirmed));
    router.expire_reservations_before(150);
    let active = router.active_reservations(&user);
    let ids: Vec<u128> = active.iter().map(|r| r.id.as_u128()).collect();
    assert_eq!(ids, vec![3, 5, 6]);
}

#[test]
fn cancel_unknown_reservation_is_false() {
    let user = EntityId::from_u128(1);
    let mut router: ParkingRouter<()> = ParkingRouter::new();
    router.add_reservation(reservation(1, user, 100, ReservationStatus::Confirmed));
    assert!(!router.cancel_reservation(&EntityId::from_u128(9)));
    assert_eq!(router.active_reservations(&user).len(), 1);
}

#[test]
fn cancel_marks_only_the_first_with_the_id() {
    let user = EntityId::from_u128(1);
    let mut router: ParkingRouter<()> = ParkingRouter::new();
    router.add_reservation(reservation(7, user, 100, ReservationStatus::Confirmed));
    router.add_reservation(reservation(7, user, 100, ReservationStatus::Active));
    assert!(router.cancel_reservation(&EntityId::from_u128(7)));
    let active = router.active_reservations(&user);
    assert_eq!(active.len(), 1);
    assert_eq!(active[0].status, ReservationStatus::Active);
}

#[test]
fn active_reservations_are_per_user() {
    let a = EntityId::from_u128(1);
    let b = EntityId::from_u128(2);
    let mut router: ParkingRouter<()> = ParkingRouter::default();
    router.add_reservation(reservation(1, a, 100, ReservationStatus::Confirmed));
    router.add_reservation(reservation(2, b, 100, ReservationStatus::Active));
    router.add_reservation(reservation(3, a, 100, ReservationStatus::Pending));
    assert_eq!(router.active_reservations(&a).len(), 1);
    assert_eq!(router.active_reservations(&b).len(), 1);
}

#[test]
fn route_plans_recorded_and_cleared() {
    let mut router: ParkingRouter<&str> = ParkingRouter::new();
    router.add_route_plan("Lot A");
    router.add_route_plan("Lot B");
    assert_eq!(router.route_plans(), &["Lot A", "Lot B"]);
    router.clear_plans();
    assert!(router.route_plans().is_empty());
}
