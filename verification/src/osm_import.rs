//! OSM import: raw ways and the classification of their tags into road classes and
//! one-way handling.
use vstd::prelude::*;
use std::collections::HashMap;
use crate::text::str_eq;

verus! {

/// A road class of the routing graph.
#[derive(Debug, Clone, Copy, PartialEq, Eq, Structural)]
pub enum RoadClass {
    Motorway,
    Trunk,
    Primary,
    Secondary,
    Tertiary,
    Residential,
    Service,
    Unclassified,
    Pedestrian,
    Cycleway,
    Track,
}

/// One-way handling: `yes`/`true`/`1` forward, `-1` reversed (caller flips refs).
pub enum OneWay {
    No,
    Forward,
    Reverse,
}

/// An OSM way with its ordered node references and tag map.
#[derive(Debug, Clone)]
pub struct RawWay {
    pub id: i64,
    pub node_refs: Vec<i64>,
    pub tags: HashMap<String, String>,
}

/// The road class of an OSM `highway=*` value; `None` for values that are not
/// routable (construction, proposed, bus stops and the like).
pub open spec fn spec_road_class(h: Seq<char>) -> Option<RoadClass> {
    if h == "motorway"@ || h == "motorway_link"@ {
        Some(RoadClass::Motorway)
    } else if h == "trunk"@ || h == "trunk_link"@ {
        Some(RoadClass::Trunk)
    } else if h == "primary"@ || h == "primary_link"@ {
        Some(RoadClass::Primary)
    } else if h == "secondary"@ || h == "secondary_link"@ {
        Some(RoadClass::Secondary)
    } else if h == "tertiary"@ || h == "tertiary_link"@ {
        Some(RoadClass::Tertiary)
    } else if h == "residential"@ || h == "living_street"@ {
        Some(RoadClass::Residential)
    } else if h == "service"@ {
        Some(RoadClass::Service)
    } else if h == "unclassified"@ || h == "road"@ {
        Some(RoadClass::Unclassified)
    } else if h == "pedestrian"@ || h == "footway"@ || h == "path"@ || h == "steps"@ {
        Some(RoadClass::Pedestrian)
    } else if h == "cycleway"@ {
        Some(RoadClass::Cycleway)
    } else if h == "track"@ {
        Some(RoadClass::Track)
    } else {
        None
    }
}

/// The OSM `highway` values that belong to each road class.
pub open spec fn class_tags(c: RoadClass) -> Seq<Seq<char>> {
    match c {
        RoadClass::Motorway => seq!["motorway"@, "motorway_link"@],
        RoadClass::Trunk => seq!["trunk"@, "trunk_link"@],
        RoadClass::Primary => seq!["primary"@, "primary_link"@],
        RoadClass::Secondary => seq!["secondary"@, "secondary_link"@],
        RoadClass::Tertiary => seq!["tertiary"@, "tertiary_link"@],
        RoadClass::Residential => seq!["residential"@, "living_street"@],
        RoadClass::Service => seq!["service"@],
        RoadClass::Unclassified => seq!["unclassified"@, "road"@],
        RoadClass::Pedestrian => seq!["pedestrian"@, "footway"@, "path"@, "steps"@],
        RoadClass::Cycleway => seq!["cycleway"@],
        RoadClass::Track => seq!["track"@],
    }
}

/// A `highway` value has road class `c` exactly when it is one of the values that belong
/// to `c`; a value that belongs to no class is not routable.
pub proof fn law_road_class_by_tags(h: Seq<char>, c: RoadClass)
    ensures
        spec_road_class(h) == Some(c) <==> class_tags(c).contains(h),
{
    reveal_strlit("motorway");
    reveal_strlit("motorway_link");
    reveal_strlit("trunk");
    reveal_strlit("trunk_link");
    reveal_strlit("primary");
    reveal_strlit("primary_link");
    reveal_strlit("secondary");
    reveal_strlit("secondary_link");
    reveal_strlit("tertiary");
    reveal_strlit("tertiary_link");
    reveal_strlit("residential");
    reveal_strlit("living_street");
    reveal_strlit("service");
    reveal_strlit("unclassified");
    reveal_strlit("road");
    reveal_strlit("pedestrian");
    reveal_strlit("footway");
    reveal_strlit("path");
    reveal_strlit("steps");
    reveal_strlit("cycleway");
    reveal_strlit("track");
    if class_tags(c).contains(h) {
        let k = choose|k: int| 0 <= k < class_tags(c).len() && class_tags(c)[k] == h;
        let t = class_tags(c)[k];
        assert(h.len() == t.len() && h[0] == t[0] && h[1] == t[1] && h[2] == t[2]);
        assert(spec_road_class(h) == Some(c));
    }
    if spec_road_class(h) == Some(c) {
        let t = class_tags(c);
        if h == t[0] {
        } else if t.len() > 1 && h == t[1] {
        } else if t.len() > 2 && h == t[2] {
        } else {
            assert(t.len() > 3 && h == t[3]);
        }
    }
}

/// Map an OSM `highway=*` value to a road class.
/// Returns `None` for non-routable values (construction, proposed, bus stops…).
pub fn road_class(highway: &str) -> (r: Option<RoadClass>)
    ensures
        r == spec_road_class(highway@),
{
    if str_eq(highway, "motorway") || str_eq(highway, "motorway_link") {
        Some(RoadClass::Motorway)
    } else if str_eq(highway, "trunk") || str_eq(highway, "trunk_link") {
        Some(RoadClass::Trunk)
    } else if str_eq(highway, "primary") || str_eq(highway, "primary_link") {
        Some(RoadClass::Primary)
    } else if str_eq(highway, "secondary") || str_eq(highway, "secondary_link") {
        Some(RoadClass::Secondary)
    } else if str_eq(highway, "tertiary") || str_eq(highway, "tertiary_link") {
        Some(RoadClass::Tertiary)
    } else if str_eq(highway, "residential") || str_eq(highway, "living_street") {
        Some(RoadClass::Residential)
    } else if str_eq(highway, "service") {
        Some(RoadClass::Service)
    } else if str_eq(highway, "unclassified") || str_eq(highway, "road") {
        Some(RoadClass::Unclassified)
    } else if str_eq(highway, "pedestrian") || str_eq(highway, "footway") || str_eq(highway, "path")
        || str_eq(highway, "steps") {
        Some(RoadClass::Pedestrian)
    } else if str_eq(highway, "cycleway") {
        Some(RoadClass::Cycleway)
    } else if str_eq(highway, "track") {
        Some(RoadClass::Track)
    } else {
        None
    }
}

/// The value a tag map holds under a key, if any.
pub open spec fn tag_value(tags: Map<String, String>, key: Seq<char>) -> Option<Seq<char>> {
    if exists|k: String| tags.dom().contains(k) && k@ == key {
        Some(tags[choose|k: String| tags.dom().contains(k) && k@ == key]@)
    } else {
        None
    }
}

/// Look up a tag with `HashMap::get`. String keys compare by their characters, so the
/// result is the value stored under the key with the same characters as `key`, if any.
#[verifier::external_body]
fn get_tag<'a>(tags: &'a HashMap<String, String>, key: &str) -> (r: Option<&'a String>)
    ensures
        r matches Some(v) ==> tag_value(tags@, key@) == Some(v@),
        r is None ==> tag_value(tags@, key@) is None,
{
    tags.get(key)
}

/// One-way handling of a way from its `oneway` tag and road class.
pub open spec fn spec_oneway(value: Option<Seq<char>>, class: RoadClass) -> OneWay {
    match value {
        Some(v) => if v == "yes"@ || v == "true"@ || v == "1"@ {
            OneWay::Forward
        } else if v == "-1"@ {
            OneWay::Reverse
        } else {
            OneWay::No
        },
        None => if class == RoadClass::Motorway {
            OneWay::Forward
        } else {
            OneWay::No
        },
    }
}

/// A way is reversed exactly when its `oneway` tag is `-1`; it is one-way forward exactly
/// when the tag is `yes`, `true` or `1`, or when it has no tag and is a motorway; every
/// other way is two-way.
pub proof fn law_oneway_by_value(value: Option<Seq<char>>, class: RoadClass)
    ensures
        spec_oneway(value, class) is Reverse <==> value == Some("-1"@),
        spec_oneway(value, class) is Forward <==> (value == Some("yes"@) || value == Some(
            "true"@,
        ) || value == Some("1"@) || (value is None && class == RoadClass::Motorway)),
        spec_oneway(value, class) is No <==> !(value == Some("-1"@) || value == Some("yes"@)
            || value == Some("true"@) || value == Some("1"@) || (value is None && class
            == RoadClass::Motorway)),
{
    reveal_strlit("-1");
    reveal_strlit("yes");
    reveal_strlit("true");
    reveal_strlit("1");
    if value == Some("-1"@) {
        let v = value->0;
        assert(v.len() == 2 && v[0] == '-');
    }
}

/// One-way handling of a way: `yes`/`true`/`1` forward, `-1` reversed, any other value
/// two-way; without the tag, motorways are one-way (as OSM implies) and others two-way.
pub fn parse_oneway(tags: &HashMap<String, String>, class: RoadClass) -> (r: OneWay)
    ensures
        r == spec_oneway(tag_value(tags@, "oneway"@), class),
{
    match get_tag(tags, "oneway") {
        Some(v) => {
            let v = v.as_str();
            if str_eq(v, "yes") || str_eq(v, "true") || str_eq(v, "1") {
                OneWay::Forward
            } else if str_eq(v, "-1") {
                OneWay::Reverse
            } else {
                OneWay::No
            }
        },
        None => {
            if class == RoadClass::Motorway {
                OneWay::Forward
            } else {
                OneWay::No
            }
        },
    }
}

/// The road class of a way that can carry traffic: its `highway` tag names a road class
/// and it has at least two nodes.
pub open spec fn spec_routable_class(refs_len: nat, tags: Map<String, String>) -> Option<RoadClass> {
    if refs_len >= 2 {
        match tag_value(tags, "highway"@) {
            Some(h) => spec_road_class(h),
            None => None,
        }
    } else {
        None
    }
}

/// The road class of a routable way, or `None` when the way is not routable.
pub fn routable_class(way: &RawWay) -> (r: Option<RoadClass>)
    ensures
        r == spec_routable_class(way.node_refs@.len(), way.tags@),
{
    if way.node_refs.len() < 2 {
        return None;
    }
    match get_tag(&way.tags, "highway") {
        Some(h) => road_class(h.as_str()),
        None => None,
    }
}

/// Whether a way's one-way handling makes it one-way.
pub open spec fn is_one_way(o: OneWay) -> bool {
    !(o is No)
}

/// A way's node references in travel direction (a reversed one-way way is flipped once),
/// and whether the way is one-way.
pub fn oriented_refs(refs: &Vec<i64>, oneway: &OneWay) -> (r: (Vec<i64>, bool))
    ensures
        r.0@ == (if *oneway is Reverse { refs@.reverse() } else { refs@ }),
        r.1 == is_one_way(*oneway),
{
    match oneway {
        OneWay::No => (refs.clone(), false),
        OneWay::Forward => (refs.clone(), true),
        OneWay::Reverse => {
            let mut out: Vec<i64> = Vec::new();
            let mut i: usize = refs.len();
            while i > 0
                invariant
                    i <= refs@.len(),
                    out@ == refs@.subrange(i as int, refs@.len() as int).reverse(),
                decreases i,
            {
                i = i - 1;
                out.push(refs[i]);
                assert(out@ =~= refs@.subrange(i as int, refs@.len() as int).reverse());
            }
            assert(refs@.subrange(0, refs@.len() as int) =~= refs@);
            (out, true)
        },
    }
}

/// How often `id` occurs in `s`.
pub open spec fn count_in(s: Seq<i64>, id: i64) -> nat
    decreases s.len(),
{
    if s.len() == 0 {
        0
    } else {
        count_in(s.drop_last(), id) + (if s.last() == id { 1nat } else { 0nat })
    }
}

/// How often `id` occurs over all the node lists of `ways`.
pub open spec fn uses(ways: Seq<Seq<i64>>, id: i64) -> nat
    decreases ways.len(),
{
    if ways.len() == 0 {
        0
    } else {
        uses(ways.drop_last(), id) + count_in(ways.last(), id)
    }
}

/// The node lists of the ways.
pub open spec fn ref_lists(ways: Seq<Vec<i64>>) -> Seq<Seq<i64>> {
    ways.map_values(|w: Vec<i64>| w@)
}

/// Whether `id` occurs more than once over the node lists of `ways` (an intersection, or a
/// node that a way visits twice).
pub fn is_shared_node(ways: &Vec<Vec<i64>>, id: i64) -> (b: bool)
    ensures
        b == (uses(ref_lists(ways@), id) > 1),
{
    let ghost ws = ref_lists(ways@);
    let mut seen: usize = 0;
    let mut w: usize = 0;
    while w < ways.len()
        invariant
            ws == ref_lists(ways@),
            w <= ws.len(),
            seen <= 1,
            seen == uses(ws.take(w as int), id),
        decreases ws.len() - w,
    {
        let refs = &ways[w];
        let ghost s = ws[w as int];
        assert(s == refs@);
        let mut k: usize = 0;
        assert(s.take(0) =~= Seq::<i64>::empty());
        while k < refs.len()
            invariant
                ws == ref_lists(ways@),
                w < ws.len(),
                s == ws[w as int],
                s == refs@,
                k <= s.len(),
                seen <= 1,
                seen == uses(ws.take(w as int), id) + count_in(s.take(k as int), id),
            decreases s.len() - k,
        {
            assert(s.take(k + 1).drop_last() =~= s.take(k as int));
            if refs[k] == id {
                if seen == 1 {
                    proof {
                        lemma_uses_prefix_bound(ws, w as int + 1, id);
                        assert(ws.take(w + 1).drop_last() =~= ws.take(w as int));
                        lemma_count_prefix_bound(s, k as int + 1, id);
                    }
                    return true;
                }
                seen = seen + 1;
            }
            k = k + 1;
        }
        proof {
            assert(s.take(k as int) =~= s);
            assert(ws.take(w + 1).drop_last() =~= ws.take(w as int));
        }
        w = w + 1;
    }
    proof {
        assert(ws.take(w as int) =~= ws);
    }
    false
}

/// Occurrences in a prefix are at most the occurrences in the whole.
proof fn lemma_count_prefix_bound(s: Seq<i64>, k: int, id: i64)
    requires
        0 <= k <= s.len(),
    ensures
        count_in(s.take(k), id) <= count_in(s, id),
    decreases s.len() - k,
{
    if k < s.len() {
        lemma_count_prefix_bound(s, k + 1, id);
        assert(s.take(k + 1).drop_last() =~= s.take(k));
    } else {
        assert(s.take(k) =~= s);
    }
}

/// Uses over a prefix of the ways are at most the uses over all of them.
proof fn lemma_uses_prefix_bound(ws: Seq<Seq<i64>>, w: int, id: i64)
    requires
        0 <= w <= ws.len(),
    ensures
        uses(ws.take(w), id) <= uses(ws, id),
    decreases ws.len() - w,
{
    if w < ws.len() {
        lemma_uses_prefix_bound(ws, w + 1, id);
        assert(ws.take(w + 1).drop_last() =~= ws.take(w));
    } else {
        assert(ws.take(w) =~= ws);
    }
}

/// Whether a way is cut into a new leg at position `i`: at its last node, or at a node
/// that the routable ways use more than once.
pub open spec fn cut_at(refs: Seq<i64>, ways: Seq<Seq<i64>>, i: int) -> bool {
    i == refs.len() - 1 || uses(ways, refs[i]) > 1
}

/// `legs` splits positions `0..refs.len()` into consecutive legs `(start, end)`, each
/// ending at a cut with no cut strictly inside it.
pub open spec fn legs_split_at_cuts(refs: Seq<i64>, ways: Seq<Seq<i64>>, legs: Seq<(usize, usize)>) -> bool {
    &&& legs.len() >= 1
    &&& legs[0].0 == 0
    &&& legs.last().1 == refs.len() - 1
    &&& forall|k: int| 0 < k < legs.len() ==> #[trigger] legs[k].0 == legs[k - 1].1
    &&& forall|k: int|
        0 <= k < legs.len() ==> #[trigger] legs[k].0 < legs[k].1 && legs[k].1 < refs.len()
            && cut_at(refs, ways, legs[k].1 as int)
    &&& forall|k: int, i: int|
        #![trigger legs[k], cut_at(refs, ways, i)]
        0 <= k < legs.len() && legs[k].0 < i < legs[k].1 ==> !cut_at(refs, ways, i)
}

/// Split a way's node references at intersections: each leg runs from the previous cut
/// (or the first node) to the next node that the routable ways share, or to the last node.
pub fn leg_bounds(refs: &Vec<i64>, ways: &Vec<Vec<i64>>) -> (legs: Vec<(usize, usize)>)
    requires
        refs@.len() >= 2,
    ensures
        legs_split_at_cuts(refs@, ref_lists(ways@), legs@),
{
    let ghost ws = ref_lists(ways@);
    let last = refs.len() - 1;
    let mut legs: Vec<(usize, usize)> = Vec::new();
    let mut start: usize = 0;
    let mut i: usize = 1;
    while i <= last
        invariant
            ws == ref_lists(ways@),
            last == refs@.len() - 1,
            refs@.len() >= 2,
            1 <= i <= last + 1,
            last < usize::MAX,
            i > last ==> legs@.len() > 0 && start == last,
            start < i,
            legs@.len() == 0 ==> start == 0,
            legs@.len() > 0 ==> legs@.last().1 == start,
            forall|k: int| 0 < k < legs@.len() ==> #[trigger] legs@[k].0 == legs@[k - 1].1,
            legs@.len() > 0 ==> legs@[0].0 == 0,
            forall|k: int|
                0 <= k < legs@.len() ==> #[trigger] legs@[k].0 < legs@[k].1 && legs@[k].1 < refs@.len()
                    && cut_at(refs@, ws, legs@[k].1 as int),
            forall|k: int, j: int|
                #![trigger legs@[k], cut_at(refs@, ws, j)]
                0 <= k < legs@.len() && legs@[k].0 < j < legs@[k].1 ==> !cut_at(refs@, ws, j),
            forall|j: int| start < j < i ==> !#[trigger] cut_at(refs@, ws, j),
        decreases last + 1 - i,
    {
        let cut = i == last || is_shared_node(ways, refs[i]);
        if cut {
            let ghost l0 = legs@;
            legs.push((start, i));
            proof {
                assert forall|k: int, j: int|
                    #![trigger legs@[k], cut_at(refs@, ws, j)]
                    0 <= k < legs@.len() && legs@[k].0 < j < legs@[k].1 implies !cut_at(
                    refs@,
                    ws,
                    j,
                ) by {
                    if k < l0.len() {
                        assert(legs@[k] == l0[k]);
                    }
                }
            }
            start = i;
        }
        i = i + 1;
    }
    legs
}

} // verus!
