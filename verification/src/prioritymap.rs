//! Priority map — a min-priority queue with key-based lookup and update.
//!
//! The entries live in a binary min-heap stored in a vector; a key is found by
//! scanning the heap.
use vstd::prelude::*;

verus! {

struct PMapEntry {
    key: String,
    priority: i64,
}

/// Index of the parent of heap slot `i > 0`.
pub open spec fn parent(i: int) -> int {
    (i - 1) / 2
}

spec fn keys_distinct(s: Seq<PMapEntry>) -> bool {
    forall|i: int, j: int|
        0 <= i < s.len() && 0 <= j < s.len() && i != j ==> s[i].key@ != s[j].key@
}

spec fn has_key_at(s: Seq<PMapEntry>, k: Seq<char>) -> bool {
    exists|i: int| 0 <= i < s.len() && s[i].key@ == k
}

spec fn key_index(s: Seq<PMapEntry>, k: Seq<char>) -> int {
    choose|i: int| 0 <= i < s.len() && s[i].key@ == k
}

/// The key-to-priority map held by a heap sequence.
spec fn heap_map(s: Seq<PMapEntry>) -> Map<Seq<char>, i64> {
    Map::new(|k: Seq<char>| has_key_at(s, k), |k: Seq<char>| s[key_index(s, k)].priority)
}

/// Every slot's parent has a priority no greater than the slot's.
spec fn heap_ordered(s: Seq<PMapEntry>) -> bool {
    forall|i: int| 0 < i < s.len() ==> #[trigger] s[parent(i)].priority <= s[i].priority
}

/// Heap order holds except possibly between `idx` and its parent, and the parent of
/// `idx` is no greater than the children of `idx`.
spec fn ordered_except_up(s: Seq<PMapEntry>, idx: int) -> bool {
    &&& forall|i: int|
        0 < i < s.len() && i != idx ==> #[trigger] s[parent(i)].priority <= s[i].priority
    &&& forall|c: int|
        0 < c < s.len() && parent(c) == idx && idx > 0 ==> s[parent(idx)].priority
            <= #[trigger] s[c].priority
}

/// Heap order holds except possibly between `idx` and its children, and the parent of
/// `idx` is no greater than the children of `idx`.
spec fn ordered_except_down(s: Seq<PMapEntry>, idx: int) -> bool {
    &&& forall|i: int|
        0 < i < s.len() && parent(i) != idx ==> #[trigger] s[parent(i)].priority
            <= s[i].priority
    &&& forall|c: int|
        0 < c < s.len() && parent(c) == idx && idx > 0 ==> s[parent(idx)].priority
            <= #[trigger] s[c].priority
}

proof fn lemma_map_at(s: Seq<PMapEntry>, i: int)
    requires
        keys_distinct(s),
        0 <= i < s.len(),
    ensures
        heap_map(s).contains_key(s[i].key@),
        heap_map(s)[s[i].key@] == s[i].priority,
{
    let k = s[i].key@;
    assert(has_key_at(s, k));
    let j = key_index(s, k);
    assert(s[j].key@ == k);
}

proof fn lemma_swap(s: Seq<PMapEntry>, a: int, b: int)
    requires
        keys_distinct(s),
        0 <= a < s.len(),
        0 <= b < s.len(),
    ensures
        keys_distinct(s.update(a, s[b]).update(b, s[a])),
        heap_map(s.update(a, s[b]).update(b, s[a])) == heap_map(s),
{
    let t = s.update(a, s[b]).update(b, s[a]);
    let f = |i: int|
        if i == a {
            b
        } else if i == b {
            a
        } else {
            i
        };
    assert forall|i: int| 0 <= i < t.len() implies t[i] == s[f(i)] by {}
    assert(keys_distinct(t)) by {
        assert forall|i: int, j: int|
            0 <= i < t.len() && 0 <= j < t.len() && i != j implies t[i].key@ != t[j].key@ by {
            assert(t[i] == s[f(i)] && t[j] == s[f(j)]);
        }
    }
    assert forall|k: Seq<char>| has_key_at(t, k) == has_key_at(s, k) by {
        if has_key_at(t, k) {
            let i = choose|i: int| 0 <= i < t.len() && t[i].key@ == k;
            assert(s[f(i)].key@ == k);
        }
        if has_key_at(s, k) {
            let i = choose|i: int| 0 <= i < s.len() && s[i].key@ == k;
            assert(t[f(i)] == s[i]);
        }
    }
    assert forall|k: Seq<char>| has_key_at(s, k) implies heap_map(t)[k] == heap_map(s)[k] by {
        let i = key_index(s, k);
        lemma_map_at(s, i);
        lemma_map_at(t, f(i));
        assert(t[f(i)] == s[i]);
    }
    assert(heap_map(t) =~= heap_map(s));
}

proof fn lemma_drop_last(s: Seq<PMapEntry>)
    requires
        keys_distinct(s),
        s.len() > 0,
    ensures
        keys_distinct(s.drop_last()),
        heap_map(s.drop_last()) == heap_map(s).remove(s.last().key@),
        !heap_map(s.drop_last()).contains_key(s.last().key@),
{
    let t = s.drop_last();
    let k0 = s.last().key@;
    assert forall|k: Seq<char>| has_key_at(t, k) == (has_key_at(s, k) && k != k0) by {
        if has_key_at(t, k) {
            let i = choose|i: int| 0 <= i < t.len() && t[i].key@ == k;
            assert(s[i] == t[i]);
            assert(i != s.len() - 1);
        }
        if has_key_at(s, k) && k != k0 {
            let i = choose|i: int| 0 <= i < s.len() && s[i].key@ == k;
            assert(i != s.len() - 1);
            assert(t[i] == s[i]);
        }
    }
    assert forall|k: Seq<char>| has_key_at(t, k) implies heap_map(t)[k] == heap_map(s)[k] by {
        let i = key_index(t, k);
        lemma_map_at(t, i);
        assert(t[i] == s[i]);
        lemma_map_at(s, i);
    }
    assert(heap_map(t) =~= heap_map(s).remove(k0));
}

proof fn lemma_push(s: Seq<PMapEntry>, e: PMapEntry)
    requires
        keys_distinct(s),
        !heap_map(s).contains_key(e.key@),
    ensures
        keys_distinct(s.push(e)),
        heap_map(s.push(e)) == heap_map(s).insert(e.key@, e.priority),
{
    let t = s.push(e);
    assert(keys_distinct(t)) by {
        assert forall|i: int, j: int|
            0 <= i < t.len() && 0 <= j < t.len() && i != j implies t[i].key@ != t[j].key@ by {
            if i < s.len() && j < s.len() {
                assert(t[i] == s[i] && t[j] == s[j]);
            } else if i < s.len() {
                assert(t[i] == s[i]);
                assert(has_key_at(s, s[i].key@));
            } else {
                assert(t[j] == s[j]);
                assert(has_key_at(s, s[j].key@));
            }
        }
    }
    assert(t.drop_last() =~= s);
    lemma_drop_last(t);
    lemma_map_at(t, t.len() - 1);
    assert(heap_map(t) =~= heap_map(s).insert(e.key@, e.priority));
}

proof fn lemma_set_priority(s: Seq<PMapEntry>, i: int, e: PMapEntry)
    requires
        keys_distinct(s),
        0 <= i < s.len(),
        e.key@ == s[i].key@,
    ensures
        keys_distinct(s.update(i, e)),
        heap_map(s.update(i, e)) == heap_map(s).insert(e.key@, e.priority),
{
    let t = s.update(i, e);
    assert(keys_distinct(t)) by {
        assert forall|a: int, b: int|
            0 <= a < t.len() && 0 <= b < t.len() && a != b implies t[a].key@ != t[b].key@ by {
            assert(t[a].key@ == s[a].key@ && t[b].key@ == s[b].key@);
        }
    }
    assert forall|k: Seq<char>| has_key_at(t, k) == has_key_at(s, k) by {
        if has_key_at(t, k) {
            let j = choose|j: int| 0 <= j < t.len() && t[j].key@ == k;
            assert(s[j].key@ == k);
        }
        if has_key_at(s, k) {
            let j = choose|j: int| 0 <= j < s.len() && s[j].key@ == k;
            assert(t[j].key@ == k);
        }
    }
    assert forall|k: Seq<char>| has_key_at(t, k) implies heap_map(t)[k] == heap_map(
        s,
    ).insert(e.key@, e.priority)[k] by {
        let j = key_index(t, k);
        lemma_map_at(t, j);
        if j != i {
            assert(t[j] == s[j]);
            lemma_map_at(s, j);
        }
    }
    assert(heap_map(t) =~= heap_map(s).insert(e.key@, e.priority));
}

proof fn lemma_map_len(s: Seq<PMapEntry>)
    requires
        keys_distinct(s),
    ensures
        heap_map(s).dom().finite(),
        heap_map(s).len() == s.len(),
    decreases s.len(),
{
    if s.len() == 0 {
        assert(heap_map(s).dom() =~= Set::<Seq<char>>::empty());
    } else {
        lemma_drop_last(s);
        lemma_map_len(s.drop_last());
        lemma_map_at(s, s.len() - 1);
        assert(heap_map(s).dom() =~= heap_map(s.drop_last()).dom().insert(s.last().key@));
    }
}

proof fn lemma_root_min(s: Seq<PMapEntry>, i: int)
    requires
        heap_ordered(s),
        0 <= i < s.len(),
    ensures
        s[0].priority <= s[i].priority,
    decreases i,
{
    if i > 0 {
        assert(s[parent(i)].priority <= s[i].priority);
        lemma_root_min(s, parent(i));
    }
}

/// The priority of `k` is the least priority in `m`.
pub open spec fn is_min_entry(m: Map<Seq<char>, i64>, k: Seq<char>, p: i64) -> bool {
    &&& m.contains_key(k)
    &&& m[k] == p
    &&& forall|j: Seq<char>| m.contains_key(j) ==> p <= #[trigger] m[j]
}

proof fn lemma_min_entry(s: Seq<PMapEntry>)
    requires
        keys_distinct(s),
        heap_ordered(s),
        s.len() > 0,
    ensures
        is_min_entry(heap_map(s), s[0].key@, s[0].priority),
{
    lemma_map_at(s, 0);
    assert forall|j: Seq<char>| heap_map(s).contains_key(j) implies s[0].priority <= #[trigger] heap_map(
        s,
    )[j] by {
        let i = key_index(s, j);
        lemma_map_at(s, i);
        lemma_root_min(s, i);
    }
}

spec fn from_heap(s: Seq<PMapEntry>, n: int, e: (String, i64)) -> bool {
    exists|j: int| 0 <= j < n && s[j].key@ == e.0@ && s[j].priority == e.1
}

spec fn in_result(r: Seq<(String, i64)>, k: Seq<char>) -> bool {
    exists|a: int| 0 <= a < r.len() && r[a].0@ == k
}

/// A priority map that combines a min-priority queue with key-based lookup and update.
pub struct PriorityMap {
    heap: Vec<PMapEntry>,
    ops: u64,
}

impl PriorityMap {
    #[verifier::type_invariant]
    spec fn inv(self) -> bool {
        keys_distinct(self.heap@) && heap_ordered(self.heap@)
    }

    /// The map from keys to their priorities.
    pub closed spec fn view(&self) -> Map<Seq<char>, i64> {
        heap_map(self.heap@)
    }

    /// Number of counted operations.
    pub closed spec fn spec_ops(&self) -> u64 {
        self.ops
    }

    /// The entry at the top of the heap (none when empty): the one `peek_min` shows and
    /// the one `pop_min` takes next.
    pub closed spec fn spec_root(&self) -> Option<(Seq<char>, i64)> {
        if self.heap@.len() == 0 {
            None
        } else {
            Some((self.heap@[0].key@, self.heap@[0].priority))
        }
    }

    /// Create a new empty priority map.
    pub fn new() -> (m: Self)
        ensures
            m@ == Map::<Seq<char>, i64>::empty(),
            m@.dom().finite(),
            m.spec_ops() == 0,
    {
        let m = PriorityMap { heap: Vec::new(), ops: 0 };
        assert(m@ =~= Map::<Seq<char>, i64>::empty());
        m
    }

    fn find(heap: &Vec<PMapEntry>, key: &String) -> (r: Option<usize>)
        requires
            keys_distinct(heap@),
        ensures
            match r {
                Some(i) => i < heap@.len() && heap@[i as int].key@ == key@,
                None => !has_key_at(heap@, key@),
            },
    {
        let mut i: usize = 0;
        while i < heap.len()
            invariant
                i <= heap@.len(),
                forall|j: int| 0 <= j < i ==> heap@[j].key@ != key@,
            decreases heap@.len() - i,
        {
            if heap[i].key == *key {
                return Some(i);
            }
            i = i + 1;
        }
        None
    }

    fn swap_slots(heap: &mut Vec<PMapEntry>, a: usize, b: usize)
        requires
            a < old(heap)@.len(),
            b < old(heap)@.len(),
        ensures
            final(heap)@ == old(heap)@.update(a as int, old(heap)@[b as int]).update(
                b as int,
                old(heap)@[a as int],
            ),
    {
        if a == b {
            assert(heap@ =~= old(heap)@.update(a as int, old(heap)@[b as int]).update(
                b as int,
                old(heap)@[a as int],
            ));
            return;
        }
        let mut tmp = PMapEntry { key: String::new(), priority: 0 };
        std::mem::swap(&mut tmp, &mut heap[a]);
        std::mem::swap(&mut tmp, &mut heap[b]);
        std::mem::swap(&mut tmp, &mut heap[a]);
        assert(heap@ =~= old(heap)@.update(a as int, old(heap)@[b as int]).update(
            b as int,
            old(heap)@[a as int],
        ));
    }

    fn sift_up(heap: &mut Vec<PMapEntry>, idx: usize)
        requires
            idx < old(heap)@.len(),
            keys_distinct(old(heap)@),
            ordered_except_up(old(heap)@, idx as int),
        ensures
            keys_distinct(final(heap)@),
            heap_ordered(final(heap)@),
            heap_map(final(heap)@) == heap_map(old(heap)@),
            final(heap)@.len() == old(heap)@.len(),
    {
        let mut idx = idx;
        while idx > 0
            invariant
                idx < heap@.len(),
                heap@.len() == old(heap)@.len(),
                keys_distinct(heap@),
                ordered_except_up(heap@, idx as int),
                heap_map(heap@) == heap_map(old(heap)@),
            decreases idx,
        {
            let p = (idx - 1) / 2;
            if heap[idx].priority < heap[p].priority {
                let ghost s = heap@;
                proof {
                    lemma_swap(s, idx as int, p as int);
                }
                Self::swap_slots(heap, idx, p);
                proof {
                    let t = heap@;
                    assert(t[p as int] == s[idx as int] && t[idx as int] == s[p as int]);
                    assert forall|i: int|
                        0 < i < t.len() && i != p implies #[trigger] t[parent(i)].priority
                        <= t[i].priority by {
                        if i == idx {
                        } else if parent(i) == idx {
                            assert(s[parent(idx as int)].priority <= s[i].priority);
                        } else if parent(i) == p {
                            assert(s[parent(i)].priority <= s[i].priority);
                        } else {
                            assert(t[i] == s[i]);
                            if i == p as int {
                            } else {
                                assert(s[parent(i)].priority <= s[i].priority);
                            }
                        }
                    }
                    assert forall|c: int|
                        0 < c < t.len() && parent(c) == p && p > 0 implies t[parent(
                            p as int,
                        )].priority <= #[trigger] t[c].priority by {
                        assert(s[parent(p as int)].priority <= s[p as int].priority);
                        if c != idx {
                            assert(s[parent(c)].priority <= s[c].priority);
                        }
                    }
                }
                idx = p;
            } else {
                return;
            }
        }
    }

    fn sift_down(heap: &mut Vec<PMapEntry>, idx: usize)
        requires
            idx < old(heap)@.len(),
            keys_distinct(old(heap)@),
            ordered_except_down(old(heap)@, idx as int),
        ensures
            keys_distinct(final(heap)@),
            heap_ordered(final(heap)@),
            heap_map(final(heap)@) == heap_map(old(heap)@),
            final(heap)@.len() == old(heap)@.len(),
    {
        let len = heap.len();
        let mut idx = idx;
        loop
            invariant
                idx < heap@.len(),
                len == heap@.len(),
                heap@.len() == old(heap)@.len(),
                keys_distinct(heap@),
                ordered_except_down(heap@, idx as int),
                heap_map(heap@) == heap_map(old(heap)@),
            decreases len - idx,
        {
            let ghost s = heap@;
            let left = if idx < len / 2 { 2 * idx + 1 } else { len };
            let right = if idx < len / 2 { 2 * idx + 2 } else { len };
            let mut smallest = idx;
            if left < len && heap[left].priority < heap[smallest].priority {
                smallest = left;
            }
            if right < len && heap[right].priority < heap[smallest].priority {
                smallest = right;
            }
            proof {
                assert(left < len ==> parent(left as int) == idx);
                assert(right < len ==> parent(right as int) == idx);
                assert forall|c: int| 0 < c < len && parent(c) == idx implies c == left || c
                    == right by {}
            }
            if smallest != idx {
                proof {
                    lemma_swap(s, idx as int, smallest as int);
                }
                Self::swap_slots(heap, idx, smallest);
                proof {
                    let t = heap@;
                    let sm = smallest as int;
                    assert(t[idx as int] == s[sm] && t[sm] == s[idx as int]);
                    assert(parent(sm) == idx);
                    assert forall|i: int|
                        0 < i < t.len() && parent(i) != sm implies #[trigger] t[parent(
                            i,
                        )].priority <= t[i].priority by {
                        if i == sm {
                        } else if i == idx {
                            assert(s[parent(idx as int)].priority <= s[sm].priority);
                        } else if parent(i) == idx {
                            assert(t[i] == s[i]);
                        } else {
                            assert(t[i] == s[i]);
                            assert(s[parent(i)].priority <= s[i].priority);
                        }
                    }
                    assert forall|c: int|
                        0 < c < t.len() && parent(c) == sm && sm > 0 implies t[parent(
                            sm,
                        )].priority <= #[trigger] t[c].priority by {
                        assert(t[c] == s[c]);
                        assert(s[parent(c)].priority <= s[c].priority);
                    }
                }
                idx = smallest;
            } else {
                proof {
                    assert forall|i: int| 0 < i < s.len() implies #[trigger] s[parent(
                        i,
                    )].priority <= s[i].priority by {
                        if parent(i) == idx {
                        }
                    }
                }
                return;
            }
        }
    }

    /// Insert or update a key with the given priority.
    /// Returns `true` if the key was newly inserted, `false` if updated.
    pub fn insert(&mut self, key: &str, priority: i64) -> (inserted: bool)
        ensures
            inserted == !old(self)@.contains_key(key@),
            final(self)@ == old(self)@.insert(key@, priority),
            final(self)@.dom().finite(),
            final(self)@.len() == old(self)@.len() + (if inserted { 1int } else { 0int }),
            final(self).spec_ops() == old(self).spec_ops().saturating_add(1),
    {
        proof {
            use_type_invariant(&*self);
            lemma_map_len(self.heap@);
        }
        self.ops = self.ops.saturating_add(1);
        let k = key.to_owned();
        let mut heap: Vec<PMapEntry> = Vec::new();
        std::mem::swap(&mut heap, &mut self.heap);
        let ghost s = heap@;
        let inserted = match Self::find(&heap, &k) {
            Some(idx) => {
                proof {
                    lemma_map_at(s, idx as int);
                }
                let old_priority = heap[idx].priority;
                let mut e = PMapEntry { key: String::new(), priority: 0 };
                std::mem::swap(&mut e, &mut heap[idx]);
                e.priority = priority;
                let ghost ee = e;
                std::mem::swap(&mut e, &mut heap[idx]);
                proof {
                    assert(heap@ =~= s.update(idx as int, ee));
                    lemma_set_priority(s, idx as int, ee);
                    let t = heap@;
                    assert forall|c: int| 0 < c < t.len() && parent(c) == idx implies t[c]
                        == s[c] by {}
                }
                if priority < old_priority {
                    proof {
                        let t = heap@;
                        assert forall|i: int|
                            0 < i < t.len() && i != idx implies #[trigger] t[parent(i)].priority
                            <= t[i].priority by {
                            assert(s[parent(i)].priority <= s[i].priority);
                        }
                        assert forall|c: int|
                            0 < c < t.len() && parent(c) == idx && idx > 0 implies t[parent(
                                idx as int,
                            )].priority <= #[trigger] t[c].priority by {
                            assert(s[parent(c)].priority <= s[c].priority);
                            assert(s[parent(idx as int)].priority <= s[idx as int].priority);
                        }
                    }
                    Self::sift_up(&mut heap, idx);
                } else {
                    proof {
                        let t = heap@;
                        assert forall|i: int|
                            0 < i < t.len() && parent(i) != idx implies #[trigger] t[parent(
                                i,
                            )].priority <= t[i].priority by {
                            assert(s[parent(i)].priority <= s[i].priority);
                        }
                        assert forall|c: int|
                            0 < c < t.len() && parent(c) == idx && idx > 0 implies t[parent(
                                idx as int,
                            )].priority <= #[trigger] t[c].priority by {
                            assert(s[parent(c)].priority <= s[c].priority);
                            assert(s[parent(idx as int)].priority <= s[idx as int].priority);
                        }
                    }
                    Self::sift_down(&mut heap, idx);
                }
                false
            },
            None => {
                let e = PMapEntry { key: k, priority };
                proof {
                    lemma_push(s, e);
                }
                heap.push(e);
                let last = heap.len() - 1;
                proof {
                    let t = heap@;
                    assert forall|i: int|
                        0 < i < t.len() && i != last implies #[trigger] t[parent(i)].priority
                        <= t[i].priority by {
                        assert(t[i] == s[i] && t[parent(i)] == s[parent(i)]);
                    }
                }
                Self::sift_up(&mut heap, last);
                true
            },
        };
        self.heap = heap;
        proof {
            use_type_invariant(&*self);
            lemma_map_len(self.heap@);
        }
        inserted
    }

    /// Remove and return the key with the minimum priority (None when empty).
    /// Among equal minimum priorities, which key is returned is left open.
    pub fn pop_min(&mut self) -> (r: Option<(String, i64)>)
        ensures
            old(self)@.len() == 0 ==> r is None && final(self)@ == old(self)@ && final(self).spec_ops() == old(self).spec_ops(),
            old(self)@.len() > 0 ==> match r {
                Some((k, p)) => is_min_entry(old(self)@, k@, p) && old(self).spec_root() == Some((k@, p))
                    && final(self)@ == old(self)@.remove(k@) && final(self)@.len() == old(self)@.len() - 1
                    && final(self).spec_ops() == old(self).spec_ops().saturating_add(1),
                None => false,
            },
            final(self)@.dom().finite(),
    {
        proof {
            use_type_invariant(&*self);
            lemma_map_len(self.heap@);
        }
        if self.heap.len() == 0 {
            return None;
        }
        self.ops = self.ops.saturating_add(1);
        let mut heap: Vec<PMapEntry> = Vec::new();
        std::mem::swap(&mut heap, &mut self.heap);
        let ghost s = heap@;
        proof {
            lemma_min_entry(s);
        }
        let last = heap.len() - 1;
        proof {
            lemma_swap(s, 0, last as int);
        }
        Self::swap_slots(&mut heap, 0, last);
        let ghost s2 = heap@;
        proof {
            lemma_drop_last(s2);
        }
        let entry = heap.pop().unwrap();
        proof {
            assert(heap@ =~= s2.drop_last());
        }
        if heap.len() > 0 {
            proof {
                let t = heap@;
                assert forall|i: int|
                    0 < i < t.len() && parent(i) != 0 implies #[trigger] t[parent(i)].priority
                    <= t[i].priority by {
                    assert(t[i] == s[i] && t[parent(i)] == s[parent(i)]);
                }
            }
            Self::sift_down(&mut heap, 0);
        } else {
            assert(heap_ordered(heap@));
        }
        self.heap = heap;
        proof {
            use_type_invariant(&*self);
            lemma_map_len(self.heap@);
        }
        Some((entry.key, entry.priority))
    }

    /// Peek at the minimum priority entry without removing it.
    pub fn peek_min(&self) -> (r: Option<(&str, i64)>)
        ensures
            self@.len() == 0 ==> r is None,
            self@.len() > 0 ==> match r {
                Some((k, p)) => is_min_entry(self@, k@, p) && self.spec_root() == Some((k@, p)),
                None => false,
            },
            self@.dom().finite(),
    {
        proof {
            use_type_invariant(self);
            lemma_map_len(self.heap@);
        }
        if self.heap.len() == 0 {
            None
        } else {
            proof {
                lemma_min_entry(self.heap@);
            }
            Some((self.heap[0].key.as_str(), self.heap[0].priority))
        }
    }

    /// Get the priority of a key.
    pub fn get(&self, key: &str) -> (r: Option<i64>)
        ensures
            r == (if self@.contains_key(key@) {
                Some(self@[key@])
            } else {
                None
            }),
    {
        proof {
            use_type_invariant(self);
        }
        let k = key.to_owned();
        match Self::find(&self.heap, &k) {
            Some(i) => {
                proof {
                    lemma_map_at(self.heap@, i as int);
                }
                Some(self.heap[i].priority)
            },
            None => None,
        }
    }

    /// Remove a key from the map. Returns its priority if found.
    pub fn remove(&mut self, key: &str) -> (r: Option<i64>)
        ensures
            r == (if old(self)@.contains_key(key@) {
                Some(old(self)@[key@])
            } else {
                None
            }),
            final(self)@ == old(self)@.remove(key@),
            final(self)@.dom().finite(),
            final(self)@.len() == old(self)@.len() - (if r is Some { 1int } else { 0int }),
            final(self).spec_ops() == (if r is Some {
                old(self).spec_ops().saturating_add(1)
            } else {
                old(self).spec_ops()
            }),
    {
        proof {
            use_type_invariant(&*self);
            lemma_map_len(self.heap@);
        }
        let k = key.to_owned();
        let idx = match Self::find(&self.heap, &k) {
            Some(i) => i,
            None => {
                assert(self@.remove(key@) =~= self@);
                return None;
            },
        };
        self.ops = self.ops.saturating_add(1);
        let mut heap: Vec<PMapEntry> = Vec::new();
        std::mem::swap(&mut heap, &mut self.heap);
        let ghost s = heap@;
        proof {
            lemma_map_at(s, idx as int);
        }
        let last = heap.len() - 1;
        proof {
            lemma_swap(s, idx as int, last as int);
        }
        Self::swap_slots(&mut heap, idx, last);
        let ghost s2 = heap@;
        proof {
            lemma_drop_last(s2);
        }
        let entry = heap.pop().unwrap();
        proof {
            assert(heap@ =~= s2.drop_last());
        }
        if idx < heap.len() {
            let t0 = heap.len();
            let ghost t = heap@;
            proof {
                assert(t[idx as int] == s[last as int]);
                assert forall|i: int| 0 <= i < t.len() && i != idx implies t[i] == s[i] by {}
            }
            if idx > 0 && heap[idx].priority < heap[(idx - 1) / 2].priority {
                proof {
                    assert forall|i: int|
                        0 < i < t.len() && i != idx implies #[trigger] t[parent(i)].priority
                        <= t[i].priority by {
                        if parent(i) == idx {
                            assert(s[parent(i)].priority <= s[i].priority);
                            assert(s[parent(idx as int)].priority <= s[idx as int].priority);
                        } else {
                            assert(s[parent(i)].priority <= s[i].priority);
                        }
                    }
                    assert forall|c: int|
                        0 < c < t.len() && parent(c) == idx && idx > 0 implies t[parent(
                            idx as int,
                        )].priority <= #[trigger] t[c].priority by {
                        assert(s[parent(c)].priority <= s[c].priority);
                        assert(s[parent(idx as int)].priority <= s[idx as int].priority);
                    }
                }
                Self::sift_up(&mut heap, idx);
            } else {
                proof {
                    assert forall|i: int|
                        0 < i < t.len() && parent(i) != idx implies #[trigger] t[parent(
                            i,
                        )].priority <= t[i].priority by {
                        if i == idx {
                        } else {
                            assert(s[parent(i)].priority <= s[i].priority);
                        }
                    }
                    assert forall|c: int|
                        0 < c < t.len() && parent(c) == idx && idx > 0 implies t[parent(
                            idx as int,
                        )].priority <= #[trigger] t[c].priority by {
                        assert(s[parent(c)].priority <= s[c].priority);
                        assert(s[parent(idx as int)].priority <= s[idx as int].priority);
                    }
                }
                Self::sift_down(&mut heap, idx);
            }
        } else {
            proof {
                let t = heap@;
                assert forall|i: int| 0 < i < t.len() implies #[trigger] t[parent(i)].priority
                    <= t[i].priority by {
                    assert(t[i] == s[i] && t[parent(i)] == s[parent(i)]);
                }
            }
        }
        self.heap = heap;
        proof {
            use_type_invariant(&*self);
            lemma_map_len(self.heap@);
        }
        Some(entry.priority)
    }

    /// Check if a key exists.
    pub fn contains(&self, key: &str) -> (b: bool)
        ensures
            b == self@.contains_key(key@),
    {
        proof {
            use_type_invariant(self);
        }
        let k = key.to_owned();
        match Self::find(&self.heap, &k) {
            Some(i) => {
                proof {
                    lemma_map_at(self.heap@, i as int);
                }
                true
            },
            None => false,
        }
    }

    /// Number of entries.
    pub fn len(&self) -> (n: usize)
        ensures
            n == self@.len(),
            self@.dom().finite(),
    {
        proof {
            use_type_invariant(self);
            lemma_map_len(self.heap@);
        }
        self.heap.len()
    }

    /// Check if empty.
    pub fn is_empty(&self) -> (b: bool)
        ensures
            b == (self@.len() == 0),
            self@.dom().finite(),
    {
        proof {
            use_type_invariant(self);
            lemma_map_len(self.heap@);
        }
        self.heap.len() == 0
    }

    /// Total operations performed (inserts, successful pops and removals).
    pub fn total_ops(&self) -> (n: u64)
        ensures
            n == self.spec_ops(),
    {
        self.ops
    }

    /// Clear all entries; the operation count is kept.
    pub fn clear(&mut self)
        ensures
            final(self)@ == Map::<Seq<char>, i64>::empty(),
            final(self)@.dom().finite(),
            final(self).spec_ops() == old(self).spec_ops(),
    {
        self.heap = Vec::new();
        assert(self@ =~= Map::<Seq<char>, i64>::empty());
    }

    /// All entries as (key, priority) pairs sorted by ascending priority.
    pub fn sorted_keys(&self) -> (r: Vec<(String, i64)>)
        ensures
            r@.len() == self@.len(),
            forall|i: int, j: int| 0 <= i < j < r@.len() ==> r@[i].1 <= r@[j].1,
            forall|i: int|
                0 <= i < r@.len() ==> self@.contains_key(r@[i].0@) && self@[r@[i].0@]
                    == r@[i].1,
            forall|i: int, j: int| 0 <= i < r@.len() && 0 <= j < r@.len() && i != j ==> r@[i].0@ != r@[j].0@,
            forall|k: Seq<char>|
                self@.contains_key(k) ==> exists|i: int| 0 <= i < r@.len() && r@[i].0@ == k,
    {
        proof {
            use_type_invariant(self);
            lemma_map_len(self.heap@);
        }
        let ghost s = self.heap@;
        let mut r: Vec<(String, i64)> = Vec::new();
        let mut i: usize = 0;
        while i < self.heap.len()
            invariant
                s == self.heap@,
                keys_distinct(s),
                i <= s.len(),
                r@.len() == i,
                forall|a: int, b: int| 0 <= a < b < r@.len() ==> r@[a].1 <= r@[b].1,
                forall|a: int| 0 <= a < r@.len() ==> from_heap(s, i as int, #[trigger] r@[a]),
                forall|j: int| 0 <= j < i ==> in_result(r@, #[trigger] s[j].key@),
                forall|a: int, b: int|
                    0 <= a < r@.len() && 0 <= b < r@.len() && a != b ==> r@[a].0@ != r@[b].0@,
            decreases s.len() - i,
        {
            let p = self.heap[i].priority;
            let mut t: usize = 0;
            while t < r.len() && r[t].1 <= p
                invariant
                    t <= r@.len(),
                    forall|a: int| 0 <= a < t ==> r@[a].1 <= p,
                decreases r@.len() - t,
            {
                t = t + 1;
            }
            let pos = t;
            let ghost r0 = r@;
            let kc = self.heap[i].key.clone();
            r.insert(pos, (kc, p));
            proof {
                assert forall|a: int| 0 <= a < r@.len() implies r@[a] == (if a < pos {
                    r0[a]
                } else if a == pos {
                    (kc, p)
                } else {
                    r0[a - 1]
                }) by {}
                assert forall|a: int, b: int| 0 <= a < b < r@.len() implies r@[a].1 <= r@[b].1 by {
                    if b == pos {
                        assert(r@[a] == r0[a]);
                    } else if a == pos {
                        assert(r@[b] == r0[b - 1]);
                        assert(r0[pos as int].1 > p);
                    } else if a < pos && b > pos {
                        assert(r@[a] == r0[a] && r@[b] == r0[b - 1]);
                    } else if b < pos {
                        assert(r@[a] == r0[a] && r@[b] == r0[b]);
                    } else {
                        assert(r@[a] == r0[a - 1] && r@[b] == r0[b - 1]);
                    }
                }
                assert forall|a: int| 0 <= a < r0.len() implies r0[a].0@ != s[i as int].key@ by {
                    assert(from_heap(s, i as int, r0[a]));
                    let j = choose|j: int|
                        0 <= j < i && s[j].key@ == r0[a].0@ && s[j].priority == r0[a].1;
                    assert(j != i);
                }
                assert forall|a: int| 0 <= a < r@.len() implies from_heap(s, i + 1, #[trigger] r@[a]) by {
                    if a < pos {
                        assert(r@[a] == r0[a]);
                        assert(from_heap(s, i as int, r0[a]));
                    } else if a == pos {
                        assert(s[i as int].key@ == r@[a].0@);
                    } else {
                        assert(r@[a] == r0[a - 1]);
                        assert(from_heap(s, i as int, r0[a - 1]));
                    }
                }
                assert forall|a: int, b: int|
                    0 <= a < r@.len() && 0 <= b < r@.len() && a != b implies r@[a].0@
                    != r@[b].0@ by {
                    let fa = if a < pos { a } else { a - 1 };
                    let fb = if b < pos { b } else { b - 1 };
                    if a != pos && b != pos {
                        assert(r@[a] == r0[fa] && r@[b] == r0[fb]);
                    } else if a == pos {
                        assert(r@[b] == r0[fb]);
                    } else {
                        assert(r@[a] == r0[fa]);
                    }
                }
                assert forall|j: int| 0 <= j < i + 1 implies in_result(r@, #[trigger] s[j].key@) by {
                    if j == i {
                        assert(r@[pos as int].0@ == s[j].key@);
                    } else {
                        assert(in_result(r0, s[j].key@));
                        let a = choose|a: int| 0 <= a < r0.len() && r0[a].0@ == s[j].key@;
                        if a < pos {
                            assert(r@[a] == r0[a]);
                        } else {
                            assert(r@[a + 1] == r0[a]);
                        }
                    }
                }
            }
            i = i + 1;
        }
        proof {
            assert forall|a: int|
                0 <= a < r@.len() implies self@.contains_key(r@[a].0@) && self@[r@[a].0@]
                == r@[a].1 by {
                assert(from_heap(s, s.len() as int, r@[a]));
                let j = choose|j: int|
                    0 <= j < s.len() && s[j].key@ == r@[a].0@ && s[j].priority == r@[a].1;
                lemma_map_at(s, j);
            }
            assert forall|k: Seq<char>| self@.contains_key(k) implies exists|a: int|
                0 <= a < r@.len() && r@[a].0@ == k by {
                let j = key_index(s, k);
                assert(s[j].key@ == k);
                assert(in_result(r@, s[j].key@));
            }
        }
        r
    }

    /// Decrease the priority of a key (only if the new priority is lower).
    /// Returns `true` if the priority was decreased.
    pub fn decrease_priority(&mut self, key: &str, new_priority: i64) -> (changed: bool)
        ensures
            changed == (old(self)@.contains_key(key@) && new_priority < old(self)@[key@]),
            changed ==> final(self)@ == old(self)@.insert(key@, new_priority),
            !changed ==> final(self)@ == old(self)@,
            final(self)@.dom().finite(),
            final(self).spec_ops() == old(self).spec_ops(),
    {
        proof {
            use_type_invariant(&*self);
            lemma_map_len(self.heap@);
        }
        let k = key.to_owned();
        let idx = match Self::find(&self.heap, &k) {
            Some(i) => i,
            None => {
                return false;
            },
        };
        proof {
            lemma_map_at(self.heap@, idx as int);
        }
        if new_priority >= self.heap[idx].priority {
            return false;
        }
        let mut heap: Vec<PMapEntry> = Vec::new();
        std::mem::swap(&mut heap, &mut self.heap);
        let ghost s = heap@;
        let mut e = PMapEntry { key: String::new(), priority: 0 };
        std::mem::swap(&mut e, &mut heap[idx]);
        e.priority = new_priority;
        let ghost ee = e;
        std::mem::swap(&mut e, &mut heap[idx]);
        proof {
            assert(heap@ =~= s.update(idx as int, ee));
            lemma_set_priority(s, idx as int, ee);
            let t = heap@;
            assert forall|i: int|
                0 < i < t.len() && i != idx implies #[trigger] t[parent(i)].priority
                <= t[i].priority by {
                assert(s[parent(i)].priority <= s[i].priority);
            }
            assert forall|c: int|
                0 < c < t.len() && parent(c) == idx && idx > 0 implies t[parent(
                    idx as int,
                )].priority <= #[trigger] t[c].priority by {
                assert(s[parent(c)].priority <= s[c].priority);
                assert(s[parent(idx as int)].priority <= s[idx as int].priority);
            }
        }
        Self::sift_up(&mut heap, idx);
        self.heap = heap;
        proof {
            use_type_invariant(&*self);
            lemma_map_len(self.heap@);
        }
        true
    }
}

impl Default for PriorityMap {
    fn default() -> (m: Self)
        ensures
            m@ == Map::<Seq<char>, i64>::empty(),
            m@.dom().finite(),
            m.spec_ops() == 0,
    {
        PriorityMap::new()
    }
}

/// A read gives back what a write wrote: after `insert(k, p)` the map holds `k` with
/// priority `p` (so `get(k)` returns `Some(p)`), and every other key keeps its priority.
pub proof fn law_get_after_insert(m: Map<Seq<char>, i64>, k: Seq<char>, p: i64, other: Seq<char>)
    requires
        other != k,
    ensures
        m.insert(k, p).contains_key(k) && m.insert(k, p)[k] == p,
        m.insert(k, p).contains_key(other) == m.contains_key(other),
        m.contains_key(other) ==> m.insert(k, p)[other] == m[other],
{
}

/// Popping twice yields priorities in non-decreasing order: the minimum of what is left
/// after removing a minimum entry is no smaller than it. Repeated `pop_min` therefore
/// drains the map in priority order.
pub proof fn law_pop_order(m: Map<Seq<char>, i64>, k1: Seq<char>, p1: i64, k2: Seq<char>, p2: i64)
    requires
        is_min_entry(m, k1, p1),
        is_min_entry(m.remove(k1), k2, p2),
    ensures
        p1 <= p2,
{
    assert(m.contains_key(k2));
    assert(p1 <= m[k2]);
}

} // verus!
