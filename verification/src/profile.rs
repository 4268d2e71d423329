//! Profile learning: time-of-day buckets for pattern analysis.
use vstd::prelude::*;
use crate::text::str_eq;

verus! {

/// Time-of-day bucket for pattern analysis.
#[derive(Debug, Clone, Copy, PartialEq, Eq, Hash, Structural)]
pub enum TimeBucket {
    /// 5:00–6:59.
    EarlyMorning,
    /// 7:00–8:59.
    MorningRush,
    /// 9:00–11:59.
    Morning,
    /// 12:00–14:59.
    Afternoon,
    /// 15:00–17:59.
    EveningRush,
    /// 18:00–20:59.
    Evening,
    /// 21:00–4:59 (and any hour outside 0–23).
    Night,
}

impl TimeBucket {
    /// The bucket of an hour of the day.
    pub fn from_hour(h: u8) -> (b: Self)
        ensures
            b == (if 5 <= h <= 6 {
                TimeBucket::EarlyMorning
            } else if 7 <= h <= 8 {
                TimeBucket::MorningRush
            } else if 9 <= h <= 11 {
                TimeBucket::Morning
            } else if 12 <= h <= 14 {
                TimeBucket::Afternoon
            } else if 15 <= h <= 17 {
                TimeBucket::EveningRush
            } else if 18 <= h <= 20 {
                TimeBucket::Evening
            } else {
                TimeBucket::Night
            }),
    {
        if 5 <= h && h <= 6 {
            TimeBucket::EarlyMorning
        } else if 7 <= h && h <= 8 {
            TimeBucket::MorningRush
        } else if 9 <= h && h <= 11 {
            TimeBucket::Morning
        } else if 12 <= h && h <= 14 {
            TimeBucket::Afternoon
        } else if 15 <= h && h <= 17 {
            TimeBucket::EveningRush
        } else if 18 <= h && h <= 20 {
            TimeBucket::Evening
        } else {
            TimeBucket::Night
        }
    }
}


/// The part of a recorded trip that groups it into a pattern: its endpoints, departure
/// hour and route.
#[derive(Debug, Clone)]
pub struct TripKey {
    pub from_label: String,
    pub to_label: String,
    pub departure_hour: u8,
    pub route_id: Option<String>,
}

/// The trips with the same endpoints and departure time bucket, and their most common
/// route.
#[derive(Debug, Clone)]
pub struct TripGroup {
    pub from_label: String,
    pub to_label: String,
    pub bucket: TimeBucket,
    /// Positions of the group's trips, in increasing order.
    pub members: Vec<usize>,
    /// A route taken by the most trips of the group, if any trip records one.
    pub preferred_route_id: Option<String>,
}

/// The time bucket of an hour (as `TimeBucket::from_hour` computes it).
pub open spec fn spec_bucket(h: u8) -> TimeBucket {
    if 5 <= h <= 6 {
        TimeBucket::EarlyMorning
    } else if 7 <= h <= 8 {
        TimeBucket::MorningRush
    } else if 9 <= h <= 11 {
        TimeBucket::Morning
    } else if 12 <= h <= 14 {
        TimeBucket::Afternoon
    } else if 15 <= h <= 17 {
        TimeBucket::EveningRush
    } else if 18 <= h <= 20 {
        TimeBucket::Evening
    } else {
        TimeBucket::Night
    }
}

/// The grouping key of a trip.
pub open spec fn trip_key(t: TripKey) -> (Seq<char>, Seq<char>, TimeBucket) {
    (t.from_label@, t.to_label@, spec_bucket(t.departure_hour))
}

/// The key of a group.
pub open spec fn group_key(g: TripGroup) -> (Seq<char>, Seq<char>, TimeBucket) {
    (g.from_label@, g.to_label@, g.bucket)
}

/// The route of a trip, as characters.
pub open spec fn route_of(t: TripKey) -> Option<Seq<char>> {
    match t.route_id {
        Some(r) => Some(r@),
        None => None,
    }
}

/// How many of the trips at positions `members` took route `r`.
pub open spec fn route_count(trips: Seq<TripKey>, members: Seq<usize>, r: Seq<char>) -> nat
    decreases members.len(),
{
    if members.len() == 0 {
        0
    } else {
        route_count(trips, members.drop_last(), r) + if route_of(trips[members.last() as int]) == Some(r) {
            1nat
        } else {
            0nat
        }
    }
}

/// `p` is a most common route among the trips at `members`: `None` when none of them
/// records a route.
pub open spec fn is_preferred_route(trips: Seq<TripKey>, members: Seq<usize>, p: Option<Seq<char>>) -> bool {
    match p {
        None => forall|j: int| 0 <= j < members.len() ==> route_of(#[trigger] trips[members[j] as int]) is None,
        Some(r) => route_count(trips, members, r) >= 1 && forall|j: int|
            0 <= j < members.len() && #[trigger] route_of(trips[members[j] as int]) is Some ==> route_count(
                trips,
                members,
                route_of(trips[members[j] as int])->0,
            ) <= route_count(trips, members, r),
    }
}

/// Trip `i` is in the group of its key.
pub open spec fn covered(trips: Seq<TripKey>, groups: Seq<TripGroup>, i: int) -> bool {
    exists|k: int|
        0 <= k < groups.len() && group_key(#[trigger] groups[k]) == trip_key(trips[i])
            && groups[k].members@.contains(i as usize)
}

/// The groups partition the first `n` trips by key: each group is non-empty, lists the
/// positions of trips with its key in increasing order, no two groups share a key, every
/// trip is in the group of its key, and groups come in the order their first trip came.
pub open spec fn partitions(trips: Seq<TripKey>, n: int, groups: Seq<TripGroup>) -> bool {
    &&& forall|k: int| 0 <= k < groups.len() ==> (#[trigger] groups[k]).members@.len() > 0
    &&& forall|k: int, j: int|
        0 <= k < groups.len() && 0 <= j < groups[k].members@.len() ==> {
            let i = #[trigger] groups[k].members@[j];
            &&& i < n
            &&& trip_key(trips[i as int]) == group_key(groups[k])
        }
    &&& forall|k: int, j1: int, j2: int|
        0 <= k < groups.len() && 0 <= j1 < j2 < groups[k].members@.len() ==> #[trigger] groups[k].members@[j1]
            < #[trigger] groups[k].members@[j2]
    &&& forall|k1: int, k2: int|
        0 <= k1 < groups.len() && 0 <= k2 < groups.len() && k1 != k2 ==> group_key(#[trigger] groups[k1])
            != group_key(#[trigger] groups[k2])
    &&& forall|i: int| 0 <= i < n ==> #[trigger] covered(trips, groups, i)
    &&& forall|k1: int, k2: int|
        0 <= k1 < k2 < groups.len() ==> #[trigger] groups[k1].members@[0] < #[trigger] groups[k2].members@[0]
}

/// An optional string, as characters.
pub open spec fn opt_view(o: Option<String>) -> Option<Seq<char>> {
    match o {
        Some(r) => Some(r@),
        None => None,
    }
}

/// A route taken by one of the trips is counted at least once.
proof fn lemma_route_count_pos(trips: Seq<TripKey>, members: Seq<usize>, j: int, r: Seq<char>)
    requires
        0 <= j < members.len(),
        route_of(trips[members[j] as int]) == Some(r),
    ensures
        route_count(trips, members, r) >= 1,
    decreases members.len(),
{
    if j < members.len() - 1 {
        lemma_route_count_pos(trips, members.drop_last(), j, r);
    }
}

/// How many of the trips at positions `members` took route `r`.
fn count_route(trips: &Vec<TripKey>, members: &Vec<usize>, r: &str) -> (n: usize)
    requires
        forall|j: int| 0 <= j < members@.len() ==> (#[trigger] members@[j]) < trips@.len(),
    ensures
        n == route_count(trips@, members@, r@),
{
    let mut n: usize = 0;
    let mut j: usize = 0;
    proof {
        assert(members@.take(0) =~= Seq::<usize>::empty());
    }
    while j < members.len()
        invariant
            j <= members@.len(),
            n <= j,
            forall|q: int| 0 <= q < members@.len() ==> (#[trigger] members@[q]) < trips@.len(),
            n == route_count(trips@, members@.take(j as int), r@),
        decreases members@.len() - j,
    {
        let ghost t = members@.take(j + 1);
        proof {
            assert(t.drop_last() =~= members@.take(j as int));
            assert(t.last() == members@[j as int]);
        }
        let m = members[j];
        let hit = match &trips[m].route_id {
            Some(x) => str_eq(x.as_str(), r),
            None => false,
        };
        if hit {
            n = n + 1;
        }
        j = j + 1;
    }
    proof {
        assert(members@.take(j as int) =~= members@);
    }
    n
}

/// A route taken by the most trips at positions `members`; `None` when none of them
/// records a route.
fn most_common_route(trips: &Vec<TripKey>, members: &Vec<usize>) -> (r: Option<String>)
    requires
        forall|j: int| 0 <= j < members@.len() ==> (#[trigger] members@[j]) < trips@.len(),
    ensures
        is_preferred_route(trips@, members@, opt_view(r)),
{
    let mut best: Option<String> = None;
    let mut best_count: usize = 0;
    let mut j: usize = 0;
    while j < members.len()
        invariant
            j <= members@.len(),
            forall|q: int| 0 <= q < members@.len() ==> (#[trigger] members@[q]) < trips@.len(),
            best is None ==> best_count == 0,
            best is None ==> forall|q: int| 0 <= q < j ==> route_of(#[trigger] trips@[members@[q] as int]) is None,
            best matches Some(b) ==> best_count == route_count(trips@, members@, b@) && best_count >= 1,
            forall|q: int|
                0 <= q < j && #[trigger] route_of(trips@[members@[q] as int]) is Some ==> route_count(
                    trips@,
                    members@,
                    route_of(trips@[members@[q] as int])->0,
                ) <= best_count,
        decreases members@.len() - j,
    {
        let m = members[j];
        match &trips[m].route_id {
            Some(x) => {
                let c = count_route(trips, members, x.as_str());
                proof {
                    lemma_route_count_pos(trips@, members@, j as int, x@);
                }
                if c > best_count {
                    best = Some(x.clone());
                    best_count = c;
                }
            },
            None => {},
        }
        j = j + 1;
    }
    best
}

/// Whether the trip at `i` has the key of group `g`.
fn same_key(t: &TripKey, g: &TripGroup) -> (b: bool)
    ensures
        b == (trip_key(*t) == group_key(*g)),
{
    let bucket = TimeBucket::from_hour(t.departure_hour);
    str_eq(t.from_label.as_str(), g.from_label.as_str()) && str_eq(t.to_label.as_str(), g.to_label.as_str())
        && bucket == g.bucket
}

/// Group trips by endpoints and departure time bucket, in the order each key first
/// appears, with the most common route of each group.
pub fn group_trips(trips: &Vec<TripKey>) -> (groups: Vec<TripGroup>)
    ensures
        partitions(trips@, trips@.len() as int, groups@),
        forall|k: int|
            0 <= k < groups@.len() ==> is_preferred_route(
                trips@,
                (#[trigger] groups@[k]).members@,
                opt_view(groups@[k].preferred_route_id),
            ),
{
    let mut groups: Vec<TripGroup> = Vec::new();
    let mut i: usize = 0;
    while i < trips.len()
        invariant
            i <= trips@.len(),
            partitions(trips@, i as int, groups@),
        decreases trips@.len() - i,
    {
        let ghost g0 = groups@;
        let t = &trips[i];
        let mut k: usize = 0;
        while k < groups.len() && !same_key(t, &groups[k])
            invariant
                k <= groups@.len(),
                groups@ == g0,
                *t == trips@[i as int],
                forall|q: int| 0 <= q < k ==> group_key(#[trigger] g0[q]) != trip_key(trips@[i as int]),
            decreases groups@.len() - k,
        {
            k = k + 1;
        }
        if k < groups.len() {
            let mut g = groups.remove(k);
            let ghost gk = g;
            g.members.push(i);
            groups.insert(k, g);
            proof {
                let g1 = groups@;
                assert(g1 =~= g0.update(k as int, g));
                assert(group_key(g) == group_key(gk));
                assert(g.members@ == gk.members@.push(i));
                assert forall|kk: int, j: int|
                    0 <= kk < g1.len() && 0 <= j < g1[kk].members@.len() implies {
                        let m = #[trigger] g1[kk].members@[j];
                        &&& m < i + 1
                        &&& trip_key(trips@[m as int]) == group_key(g1[kk])
                    } by {
                    if kk == k && j == gk.members@.len() {
                    } else if kk == k {
                        assert(g1[kk].members@[j] == gk.members@[j]);
                    }
                }
                assert forall|kk: int, j1: int, j2: int|
                    0 <= kk < g1.len() && 0 <= j1 < j2 < g1[kk].members@.len() implies #[trigger] g1[kk].members@[j1]
                        < #[trigger] g1[kk].members@[j2] by {
                    if kk == k {
                        assert(g1[kk].members@[j1] == gk.members@[j1]);
                        if j2 < gk.members@.len() {
                            assert(g1[kk].members@[j2] == gk.members@[j2]);
                        }
                    }
                }
                assert forall|kk1: int, kk2: int|
                    0 <= kk1 < g1.len() && 0 <= kk2 < g1.len() && kk1 != kk2 implies group_key(#[trigger] g1[kk1])
                        != group_key(#[trigger] g1[kk2]) by {
                    assert(group_key(g1[kk1]) == group_key(g0[kk1]));
                    assert(group_key(g1[kk2]) == group_key(g0[kk2]));
                }
                assert forall|ii: int| 0 <= ii < i + 1 implies #[trigger] covered(trips@, g1, ii) by {
                    if ii == i {
                        assert(g1[k as int].members@[gk.members@.len() as int] == i);
                        assert(group_key(g1[k as int]) == trip_key(trips@[ii]));
                    } else {
                        assert(covered(trips@, g0, ii));
                        let kk = choose|kk: int|
                            0 <= kk < g0.len() && group_key(#[trigger] g0[kk]) == trip_key(trips@[ii])
                                && g0[kk].members@.contains(ii as usize);
                        let j = choose|j: int| 0 <= j < g0[kk].members@.len() && g0[kk].members@[j] == ii as usize;
                        assert(g1[kk].members@[j] == ii as usize);
                        assert(group_key(g1[kk]) == group_key(g0[kk]));
                    }
                }
                assert forall|kk1: int, kk2: int|
                    0 <= kk1 < kk2 < g1.len() implies #[trigger] g1[kk1].members@[0] < #[trigger] g1[kk2].members@[0] by {
                    assert(g1[kk1].members@[0] == g0[kk1].members@[0]);
                    assert(g1[kk2].members@[0] == g0[kk2].members@[0]);
                }
                assert forall|kk: int| 0 <= kk < g1.len() implies (#[trigger] g1[kk]).members@.len() > 0 by {
                    assert(g1[kk].members@.len() >= g0[kk].members@.len());
                }
            }
        } else {
            let mut members: Vec<usize> = Vec::new();
            members.push(i);
            let g = TripGroup {
                from_label: t.from_label.clone(),
                to_label: t.to_label.clone(),
                bucket: TimeBucket::from_hour(t.departure_hour),
                members,
                preferred_route_id: None,
            };
            groups.push(g);
            proof {
                let g1 = groups@;
                let n0 = g0.len() as int;
                assert(g1 =~= g0.push(g));
                assert(group_key(g) == trip_key(trips@[i as int]));
                assert forall|kk: int, j: int|
                    0 <= kk < g1.len() && 0 <= j < g1[kk].members@.len() implies {
                        let m = #[trigger] g1[kk].members@[j];
                        &&& m < i + 1
                        &&& trip_key(trips@[m as int]) == group_key(g1[kk])
                    } by {
                    if kk < n0 {
                        assert(g1[kk] == g0[kk]);
                    }
                }
                assert forall|kk1: int, kk2: int|
                    0 <= kk1 < g1.len() && 0 <= kk2 < g1.len() && kk1 != kk2 implies group_key(#[trigger] g1[kk1])
                        != group_key(#[trigger] g1[kk2]) by {
                    if kk1 < n0 && kk2 < n0 {
                        assert(g1[kk1] == g0[kk1] && g1[kk2] == g0[kk2]);
                    } else if kk1 < n0 {
                        assert(g1[kk1] == g0[kk1]);
                    } else {
                        assert(g1[kk2] == g0[kk2]);
                    }
                }
                assert forall|ii: int| 0 <= ii < i + 1 implies #[trigger] covered(trips@, g1, ii) by {
                    if ii == i {
                        assert(g1[n0].members@[0] == i);
                    } else {
                        assert(covered(trips@, g0, ii));
                        let kk = choose|kk: int|
                            0 <= kk < g0.len() && group_key(#[trigger] g0[kk]) == trip_key(trips@[ii])
                                && g0[kk].members@.contains(ii as usize);
                        assert(g1[kk] == g0[kk]);
                    }
                }
                assert forall|kk1: int, kk2: int|
                    0 <= kk1 < kk2 < g1.len() implies #[trigger] g1[kk1].members@[0] < #[trigger] g1[kk2].members@[0] by {
                    assert(g1[kk1] == g0[kk1]);
                    if kk2 < n0 {
                        assert(g1[kk2] == g0[kk2]);
                    } else {
                        assert(g0[kk1].members@[0] < i);
                    }
                }
                assert forall|kk: int| 0 <= kk < g1.len() implies (#[trigger] g1[kk]).members@.len() > 0 by {
                    if kk < n0 {
                        assert(g1[kk] == g0[kk]);
                    }
                }
                assert forall|kk: int, j1: int, j2: int|
                    0 <= kk < g1.len() && 0 <= j1 < j2 < g1[kk].members@.len() implies #[trigger] g1[kk].members@[j1]
                        < #[trigger] g1[kk].members@[j2] by {
                    if kk < n0 {
                        assert(g1[kk] == g0[kk]);
                    }
                }
            }
        }
        i = i + 1;
    }
    let mut k: usize = 0;
    while k < groups.len()
        invariant
            k <= groups@.len(),
            partitions(trips@, trips@.len() as int, groups@),
            forall|q: int|
                0 <= q < k ==> is_preferred_route(
                    trips@,
                    (#[trigger] groups@[q]).members@,
                    opt_view(groups@[q].preferred_route_id),
                ),
        decreases groups@.len() - k,
    {
        proof {
            let gk = groups@[k as int];
            assert forall|j: int| 0 <= j < gk.members@.len() implies (#[trigger] gk.members@[j]) < trips@.len() by {
                let m = groups@[k as int].members@[j];
            }
        }
        let pref = most_common_route(trips, &groups[k].members);
        let ghost g0 = groups@;
        let mut g = groups.remove(k);
        g.preferred_route_id = pref;
        groups.insert(k, g);
        proof {
            let g1 = groups@;
            assert(g1 =~= g0.update(k as int, g));
            assert forall|q: int| 0 <= q < g1.len() implies #[trigger] g1[q].members@ == g0[q].members@ && group_key(g1[q])
                == group_key(g0[q]) by {}
            assert forall|ii: int| 0 <= ii < trips@.len() implies #[trigger] covered(trips@, g1, ii) by {
                assert(covered(trips@, g0, ii));
                let kk = choose|kk: int|
                    0 <= kk < g0.len() && group_key(#[trigger] g0[kk]) == trip_key(trips@[ii])
                        && g0[kk].members@.contains(ii as usize);
                assert(g1[kk].members@ == g0[kk].members@);
            }
        }
        k = k + 1;
    }
    groups
}

/// A departure time bucket for a route: that of the group of trips from `from` to `to`
/// with the most trips; `None` when no trip went from `from` to `to`.
pub fn suggested_departure(groups: &Vec<TripGroup>, from: &str, to: &str) -> (r: Option<TimeBucket>)
    ensures
        r is None <==> forall|k: int|
            0 <= k < groups@.len() ==> !((#[trigger] groups@[k]).from_label@ == from@ && groups@[k].to_label@ == to@),
        r matches Some(b) ==> exists|k: int|
            0 <= k < groups@.len() && (#[trigger] groups@[k]).from_label@ == from@ && groups@[k].to_label@ == to@
                && groups@[k].bucket == b && forall|q: int|
                0 <= q < groups@.len() && (#[trigger] groups@[q]).from_label@ == from@ && groups@[q].to_label@ == to@
                    ==> groups@[q].members@.len() <= groups@[k].members@.len(),
{
    let mut best: Option<usize> = None;
    let mut k: usize = 0;
    while k < groups.len()
        invariant
            k <= groups@.len(),
            best is None ==> forall|q: int|
                0 <= q < k ==> !((#[trigger] groups@[q]).from_label@ == from@ && groups@[q].to_label@ == to@),
            best matches Some(b) ==> b < k && groups@[b as int].from_label@ == from@ && groups@[b as int].to_label@ == to@
                && forall|q: int|
                0 <= q < k && (#[trigger] groups@[q]).from_label@ == from@ && groups@[q].to_label@ == to@
                    ==> groups@[q].members@.len() <= groups@[b as int].members@.len(),
        decreases groups@.len() - k,
    {
        if str_eq(groups[k].from_label.as_str(), from) && str_eq(groups[k].to_label.as_str(), to) {
            match best {
                Some(b) => {
                    if groups[k].members.len() > groups[b].members.len() {
                        best = Some(k);
                    }
                },
                None => {
                    best = Some(k);
                },
            }
        }
        k = k + 1;
    }
    match best {
        Some(b) => Some(groups[b].bucket),
        None => None,
    }
}

} // verus!
