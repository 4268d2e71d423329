use gane::profile::{group_trips, suggested_departure, TimeBucket, TripKey};

fn key(from: &str, to: &str, hour: u8, route: Option<&str>) -> TripKey {
    TripKey {
        from_label: from.into(),
        to_label: to.into(),
        departure_hour: hour,
        route_id: route.map(|r| r.to_string()),
    }
}

#[test]
fn same_route_and_bucket_form_one_group() {
    let trips = vec![
        key("Home", "Work", 8, Some("r1")),
        key("Home", "Work", 8, Some("r1")),
        key("Home", "Work", 8, Some("r1")),
    ];
    let groups = group_trips(&trips);
    assert_eq!(groups.len(), 1);
    assert_eq!(groups[0].members, vec![0, 1, 2]);
    assert_eq!(groups[0].bucket, TimeBucket::MorningRush);
    assert_eq!(groups[0].preferred_route_id, Some("r1".to_string()));
}

#[test]
fn groups_split_by_endpoints_and_bucket_in_first_seen_order() {
    let trips = vec![
        key("Home", "Work", 7, None),
        key("Work", "Home", 17, None),
        key("Home", "Work", 8, None),
        key("Home", "Work", 16, None),
        key("Work", "Home", 16, None),
    ];
    let groups = group_trips(&trips);
    assert_eq!(groups.len(), 3);
    assert_eq!(groups[0].members, vec![0, 2]);
    assert_eq!(groups[0].bucket, TimeBucket::MorningRush);
    assert_eq!(groups[1].from_label, "Work");
    assert_eq!(groups[1].members, vec![1, 4]);
    assert_eq!(groups[1].bucket, TimeBucket::EveningRush);
    assert_eq!(groups[2].members, vec![3]);
    assert_eq!(groups[2].preferred_route_id, None);
}

#[test]
fn most_common_route_is_preferred() {
    let trips = vec![
        key("A", "B", 8, Some("fast")),
        key("A", "B", 8, Some("fast")),
        key("A", "B", 8, Some("scenic")),
        key("A", "B", 8, None),
    ];
    let groups = group_trips(&trips);
    assert_eq!(groups[0].preferred_route_id, Some("fast".to_string()));
}

#[test]
fn suggested_departure_picks_the_busiest_bucket() {
    let mut trips = Vec::new();
    for _ in 0..5 {
        trips.push(key("Home", "Work", 7, Some("r1")));
    }
    trips.push(key("Home", "Work", 16, Some("r1")));
    let groups = group_trips(&trips);
    assert_eq!(suggested_departure(&groups, "Home", "Work"), Some(TimeBucket::MorningRush));
    assert_eq!(suggested_departure(&groups, "Work", "Home"), None);
}

#[test]
fn no_trips_no_groups() {
    let groups = group_trips(&Vec::new());
    assert!(groups.is_empty());
    assert_eq!(suggested_departure(&groups, "A", "B"), None);
}
