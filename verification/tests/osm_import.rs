use std::collections::HashMap;

use gane::osm_import::{
    is_shared_node, leg_bounds, oriented_refs, parse_oneway, road_class, routable_class, OneWay,
    RawWay, RoadClass,
};

#[test]
fn classifies_highways() {
    assert_eq!(road_class("motorway"), Some(RoadClass::Motorway));
    assert_eq!(road_class("residential"), Some(RoadClass::Residential));
    assert_eq!(road_class("construction"), None);
}

#[test]
fn classifies_link_and_path_variants() {
    assert_eq!(road_class("motorway_link"), Some(RoadClass::Motorway));
    assert_eq!(road_class("living_street"), Some(RoadClass::Residential));
    assert_eq!(road_class("road"), Some(RoadClass::Unclassified));
    assert_eq!(road_class("steps"), Some(RoadClass::Pedestrian));
    assert_eq!(road_class("cycleway"), Some(RoadClass::Cycleway));
    assert_eq!(road_class("track"), Some(RoadClass::Track));
    assert_eq!(road_class("Motorway"), None);
    assert_eq!(road_class(""), None);
}

fn tags(pairs: &[(&str, &str)]) -> HashMap<String, String> {
    pairs.iter().map(|(k, v)| (k.to_string(), v.to_string())).collect()
}

fn is_forward(o: OneWay) -> bool {
    matches!(o, OneWay::Forward)
}

#[test]
fn oneway_values() {
    assert!(is_forward(parse_oneway(&tags(&[("oneway", "yes")]), RoadClass::Primary)));
    assert!(is_forward(parse_oneway(&tags(&[("oneway", "true")]), RoadClass::Primary)));
    assert!(is_forward(parse_oneway(&tags(&[("oneway", "1")]), RoadClass::Primary)));
    assert!(matches!(parse_oneway(&tags(&[("oneway", "-1")]), RoadClass::Primary), OneWay::Reverse));
    assert!(matches!(parse_oneway(&tags(&[("oneway", "no")]), RoadClass::Motorway), OneWay::No));
}

#[test]
fn oneway_defaults_by_class() {
    assert!(is_forward(parse_oneway(&tags(&[("highway", "motorway")]), RoadClass::Motorway)));
    assert!(matches!(parse_oneway(&tags(&[]), RoadClass::Residential), OneWay::No));
    assert!(matches!(parse_oneway(&tags(&[("oneways", "yes")]), RoadClass::Primary), OneWay::No));
}

fn way(id: i64, refs: &[i64], pairs: &[(&str, &str)]) -> RawWay {
    RawWay { id, node_refs: refs.to_vec(), tags: tags(pairs) }
}

#[test]
fn split_legs_at_a_shared_crossing() {
    // Way A: 1-2-3, way B: 4-2-5; node 2 is a crossing, so each way splits in two.
    let ways = vec![vec![1, 2, 3], vec![4, 2, 5]];
    assert!(is_shared_node(&ways, 2));
    assert!(!is_shared_node(&ways, 1));
    assert!(!is_shared_node(&ways, 9));
    assert_eq!(leg_bounds(&ways[0], &ways), vec![(0, 1), (1, 2)]);
    assert_eq!(leg_bounds(&ways[1], &ways), vec![(0, 1), (1, 2)]);
    let total: usize = ways.iter().map(|w| leg_bounds(w, &ways).len()).sum();
    assert_eq!(total, 4);
}

#[test]
fn unshared_way_is_one_leg() {
    let ways = vec![vec![1, 2, 3, 4], vec![7, 8]];
    assert_eq!(leg_bounds(&ways[0], &ways), vec![(0, 3)]);
    assert_eq!(leg_bounds(&ways[1], &ways), vec![(0, 1)]);
}

#[test]
fn a_node_visited_twice_cuts_the_way() {
    let ways = vec![vec![1, 2, 3, 2, 4]];
    assert!(is_shared_node(&ways, 2));
    assert_eq!(leg_bounds(&ways[0], &ways), vec![(0, 1), (1, 3), (3, 4)]);
}

#[test]
fn routable_ways_need_a_road_class_and_two_nodes() {
    assert_eq!(routable_class(&way(10, &[1, 2], &[("highway", "primary")])), Some(RoadClass::Primary));
    assert_eq!(routable_class(&way(10, &[1, 2], &[("highway", "construction")])), None);
    assert_eq!(routable_class(&way(10, &[1], &[("highway", "primary")])), None);
    assert_eq!(routable_class(&way(10, &[1, 2], &[("name", "x")])), None);
}

#[test]
fn reversed_one_way_is_flipped_once() {
    let (refs, one_way) = oriented_refs(&vec![1, 2, 3], &OneWay::Reverse);
    assert_eq!(refs, vec![3, 2, 1]);
    assert!(one_way);
    let (refs, one_way) = oriented_refs(&vec![1, 2, 3], &OneWay::Forward);
    assert_eq!(refs, vec![1, 2, 3]);
    assert!(one_way);
    let (refs, one_way) = oriented_refs(&vec![1, 2, 3], &OneWay::No);
    assert_eq!(refs, vec![1, 2, 3]);
    assert!(!one_way);
}
