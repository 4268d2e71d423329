//! Plugin registry — central registration, discovery, and lookup of plugins.
use vstd::prelude::*;
use crate::text::{concat3, decimal, insert_sorted, lex_sorted, push_decimal, str_eq, str_views};

verus! {

/// Plugin status.
#[derive(Debug, Clone, Copy, PartialEq, Eq, Structural)]
pub enum PluginStatus {
    /// Plugin is registered but not loaded.
    Registered,
    /// Plugin is loaded and ready.
    Active,
    /// Plugin is temporarily disabled.
    Disabled,
    /// Plugin failed to load or crashed.
    Failed,
    /// Plugin is being unloaded.
    Unloading,
}

/// Plugin metadata.
#[derive(Debug, Clone)]
pub struct PluginInfo {
    /// Unique plugin identifier.
    pub id: String,
    /// Human-readable name.
    pub name: String,
    /// Semantic version string.
    pub version: String,
    /// Plugin author.
    pub author: String,
    /// Plugin description.
    pub description: String,
    /// Required capabilities.
    pub capabilities: Vec<String>,
    /// Current status.
    pub status: PluginStatus,
    /// Priority (higher = loaded first).
    pub priority: u32,
}

/// The position of key `k` in `keys` (meaningful when `keys.contains(k)`).
pub open spec fn key_index(keys: Seq<Seq<char>>, k: Seq<char>) -> int {
    choose|i: int| 0 <= i < keys.len() && keys[i] == k
}

/// No key occurs twice.
pub open spec fn distinct_keys(keys: Seq<Seq<char>>) -> bool {
    forall|a: int, b: int| 0 <= a < keys.len() && 0 <= b < keys.len() && a != b ==> keys[a] != keys[b]
}

/// Whether the plugin declares capability `c`.
pub open spec fn has_capability(p: PluginInfo, c: Seq<char>) -> bool {
    exists|i: int| 0 <= i < p.capabilities@.len() && p.capabilities@[i]@ == c
}

/// The error for an unknown plugin.
pub open spec fn not_found_msg(id: Seq<char>) -> Seq<char> {
    "Plugin '"@ + id + "' not found"@
}

/// `r` holds references to exactly the elements of `s`, in order.
pub open spec fn refs_match(r: Seq<&PluginInfo>, s: Seq<PluginInfo>) -> bool {
    r.len() == s.len() && forall|i: int| 0 <= i < s.len() ==> *r[i] == s[i]
}

/// The predicate "has status `s`".
pub open spec fn status_is(s: PluginStatus) -> spec_fn(PluginInfo) -> bool {
    |p: PluginInfo| p.status == s
}

/// Every element of `s` is referenced by some element of `r`.
pub open spec fn covers(r: Seq<&PluginInfo>, s: Seq<PluginInfo>) -> bool {
    forall|j: int|
        #[trigger] referenced(r, s, j) || !(0 <= j < s.len())
}

/// Some element of `r` refers to `s[j]`.
pub open spec fn referenced(r: Seq<&PluginInfo>, s: Seq<PluginInfo>, j: int) -> bool {
    exists|a: int| #![trigger r[a]] 0 <= a < r.len() && *r[a] == s[j]
}

/// The records that a sequence of references points to.
pub open spec fn info_values(r: Seq<&PluginInfo>) -> Seq<PluginInfo> {
    r.map_values(|x: &PluginInfo| *x)
}

/// Priorities never increase along `s`.
pub open spec fn priority_desc(s: Seq<PluginInfo>) -> bool {
    forall|a: int, b: int| 0 <= a < b < s.len() ==> s[a].priority >= s[b].priority
}

/// Insert `x` after every element whose priority is at least its own.
fn insert_by_priority<'a>(v: &mut Vec<&'a PluginInfo>, x: &'a PluginInfo)
    requires
        priority_desc(info_values(old(v)@)),
    ensures
        priority_desc(info_values(final(v)@)),
        info_values(final(v)@).to_multiset() == info_values(old(v)@).to_multiset().insert(*x),
{
    let mut t: usize = 0;
    while t < v.len() && v[t].priority >= x.priority
        invariant
            t <= v@.len(),
            forall|a: int| 0 <= a < t ==> v@[a].priority >= x.priority,
        decreases v@.len() - t,
    {
        t = t + 1;
    }
    let ghost r0 = v@;
    v.insert(t, x);
    proof {
        let s0 = info_values(r0);
        let s1 = info_values(v@);
        assert(s1 =~= s0.insert(t as int, *x));
        vstd::seq_lib::to_multiset_insert(s0, t as int, *x);
        assert forall|a: int, b: int| 0 <= a < b < s1.len() implies s1[a].priority
            >= s1[b].priority by {
            if b == t {
                assert(s1[a] == s0[a]);
            } else if a == t {
                assert(s1[b] == s0[b - 1]);
                assert(s0[t as int].priority < x.priority);
            } else if a < t && b > t {
                assert(s1[a] == s0[a] && s1[b] == s0[b - 1]);
            } else if b < t {
                assert(s1[a] == s0[a] && s1[b] == s0[b]);
            } else {
                assert(s1[a] == s0[a - 1] && s1[b] == s0[b - 1]);
            }
        }
    }
}

/// Plugin registry — manages plugin lifecycle and discovery.
pub struct PluginRegistry {
    keys: Vec<String>,
    infos: Vec<PluginInfo>,
    max_plugins: usize,
}

impl PluginRegistry {
    /// The registered plugin ids, in registration order (the load order).
    pub closed spec fn spec_keys(&self) -> Seq<Seq<char>> {
        self.keys@.map_values(|s: String| s@)
    }

    /// The plugin records, aligned with `spec_keys`.
    pub closed spec fn spec_infos(&self) -> Seq<PluginInfo> {
        self.infos@
    }

    /// The maximum number of plugins.
    pub closed spec fn spec_max(&self) -> usize {
        self.max_plugins
    }

    /// Well-formedness: ids are distinct and every id has one record.
    pub open spec fn wf(&self) -> bool {
        &&& distinct_keys(self.spec_keys())
        &&& self.spec_keys().len() == self.spec_infos().len()
    }

    /// Create a new, empty registry with a maximum plugin count.
    pub fn new(max_plugins: usize) -> (r: Self)
        ensures
            r.wf(),
            r.spec_keys().len() == 0,
            r.spec_max() == max_plugins,
    {
        let r = PluginRegistry { keys: Vec::new(), infos: Vec::new(), max_plugins };
        assert(r.spec_keys() =~= Seq::<Seq<char>>::empty());
        r
    }

    fn find(&self, id: &str) -> (r: Option<usize>)
        requires
            self.wf(),
        ensures
            match r {
                Some(i) => i < self.spec_keys().len() && self.spec_keys()[i as int] == id@
                    && self.spec_keys().contains(id@) && key_index(self.spec_keys(), id@) == i,
                None => !self.spec_keys().contains(id@),
            },
    {
        let ghost ks = self.spec_keys();
        let mut i: usize = 0;
        while i < self.keys.len()
            invariant
                ks == self.spec_keys(),
                distinct_keys(ks),
                i <= ks.len(),
                forall|j: int| 0 <= j < i ==> ks[j] != id@,
            decreases ks.len() - i,
        {
            if str_eq(self.keys[i].as_str(), id) {
                proof {
                    assert(ks[i as int] == id@);
                    let q = key_index(ks, id@);
                    assert(q == i);
                }
                return Some(i);
            }
            i = i + 1;
        }
        None
    }

    /// Register a new plugin under its id; fails when the registry is full or the id is
    /// taken (the capacity is checked first).
    pub fn register(&mut self, info: PluginInfo) -> (r: Result<(), String>)
        requires
            old(self).wf(),
        ensures
            final(self).wf(),
            final(self).spec_max() == old(self).spec_max(),
            old(self).spec_keys().len() >= old(self).spec_max() ==> r is Err && r->Err_0@
                == "Registry full: max "@ + decimal(old(self).spec_max() as nat) + " plugins"@
                && final(self).spec_keys() == old(self).spec_keys() && final(self).spec_infos()
                == old(self).spec_infos(),
            old(self).spec_keys().len() < old(self).spec_max() && old(self).spec_keys().contains(
                info.id@,
            ) ==> r is Err && r->Err_0@ == "Plugin '"@ + info.id@ + "' already registered"@
                && final(self).spec_keys() == old(self).spec_keys() && final(self).spec_infos()
                == old(self).spec_infos(),
            old(self).spec_keys().len() < old(self).spec_max() && !old(
                self,
            ).spec_keys().contains(info.id@) ==> r is Ok && final(self).spec_keys() == old(
                self,
            ).spec_keys().push(info.id@) && final(self).spec_infos() == old(
                self,
            ).spec_infos().push(info),
    {
        if self.keys.len() >= self.max_plugins {
            let mut msg = "Registry full: max ".to_owned();
            push_decimal(&mut msg, self.max_plugins as u64);
            msg.append(" plugins");
            return Err(msg);
        }
        if let Some(_) = self.find(info.id.as_str()) {
            return Err(concat3("Plugin '", info.id.as_str(), "' already registered"));
        }
        let id = info.id.clone();
        let ghost k0 = self.spec_keys();
        self.keys.push(id);
        self.infos.push(info);
        proof {
            let ks = self.spec_keys();
            assert(ks =~= k0.push(info.id@));
            assert forall|a: int, b: int|
                0 <= a < ks.len() && 0 <= b < ks.len() && a != b implies ks[a] != ks[b] by {
                if a == ks.len() - 1 {
                    assert(ks[b] == k0[b]);
                } else if b == ks.len() - 1 {
                    assert(ks[a] == k0[a]);
                }
            }
        }
        Ok(())
    }

    /// Unregister a plugin and return its record.
    pub fn unregister(&mut self, id: &str) -> (r: Result<PluginInfo, String>)
        requires
            old(self).wf(),
        ensures
            final(self).wf(),
            final(self).spec_max() == old(self).spec_max(),
            !old(self).spec_keys().contains(id@) ==> r is Err && r->Err_0@ == not_found_msg(id@)
                && final(self).spec_keys() == old(self).spec_keys() && final(self).spec_infos()
                == old(self).spec_infos(),
            old(self).spec_keys().contains(id@) ==> ({
                let p = key_index(old(self).spec_keys(), id@);
                &&& r is Ok
                &&& r->Ok_0 == old(self).spec_infos()[p]
                &&& final(self).spec_keys() == old(self).spec_keys().remove(p)
                &&& final(self).spec_infos() == old(self).spec_infos().remove(p)
            }),
    {
        let idx = match self.find(id) {
            Some(i) => i,
            None => {
                return Err(concat3("Plugin '", id, "' not found"));
            },
        };
        let ghost k0 = self.spec_keys();
        let _k = self.keys.remove(idx);
        let info = self.infos.remove(idx);
        proof {
            let ks = self.spec_keys();
            assert(ks =~= k0.remove(idx as int));
            assert forall|a: int, b: int|
                0 <= a < ks.len() && 0 <= b < ks.len() && a != b implies ks[a] != ks[b] by {
                assert(ks[a] == k0[if a < idx { a } else { a + 1 }]);
                assert(ks[b] == k0[if b < idx { b } else { b + 1 }]);
            }
        }
        Ok(info)
    }

    /// Get a plugin by id.
    pub fn get(&self, id: &str) -> (r: Option<&PluginInfo>)
        requires
            self.wf(),
        ensures
            self.spec_keys().contains(id@) ==> r is Some && *r->0 == self.spec_infos()[key_index(
                self.spec_keys(),
                id@,
            )],
            !self.spec_keys().contains(id@) ==> r is None,
    {
        match self.find(id) {
            Some(i) => Some(&self.infos[i]),
            None => None,
        }
    }

    /// Get a mutable reference to a plugin's record.
    pub fn get_mut(&mut self, id: &str) -> (r: Option<&mut PluginInfo>)
        requires
            old(self).wf(),
        ensures
            final(self).spec_keys() == old(self).spec_keys(),
            final(self).spec_max() == old(self).spec_max(),
            old(self).spec_keys().contains(id@) ==> ({
                let p = key_index(old(self).spec_keys(), id@);
                r is Some && *r->0 == old(self).spec_infos()[p] && final(self).spec_infos() == old(
                    self,
                ).spec_infos().update(p, *final(r->0))
            }),
            !old(self).spec_keys().contains(id@) ==> r is None && final(self).spec_infos() == old(
                self,
            ).spec_infos(),
    {
        match self.find(id) {
            Some(i) => Some(&mut self.infos[i]),
            None => None,
        }
    }

    /// Set a plugin's status.
    pub fn set_status(&mut self, id: &str, status: PluginStatus) -> (r: Result<(), String>)
        requires
            old(self).wf(),
        ensures
            final(self).wf(),
            final(self).spec_keys() == old(self).spec_keys(),
            final(self).spec_max() == old(self).spec_max(),
            !old(self).spec_keys().contains(id@) ==> r is Err && r->Err_0@ == not_found_msg(id@)
                && final(self).spec_infos() == old(self).spec_infos(),
            old(self).spec_keys().contains(id@) ==> ({
                let p = key_index(old(self).spec_keys(), id@);
                r is Ok && final(self).spec_infos() == old(self).spec_infos().update(
                    p,
                    PluginInfo { status, ..old(self).spec_infos()[p] },
                )
            }),
    {
        match self.find(id) {
            Some(i) => {
                self.infos[i].status = status;
                Ok(())
            },
            None => Err(concat3("Plugin '", id, "' not found")),
        }
    }

    /// All plugins with a given status, in registration order.
    pub fn by_status(&self, status: PluginStatus) -> (r: Vec<&PluginInfo>)
        ensures
            refs_match(r@, self.spec_infos().filter(status_is(status))),
    {
        let ghost s = self.infos@;
        let ghost f = status_is(status);
        let mut out: Vec<&PluginInfo> = Vec::new();
        let mut i: usize = 0;
        proof {
            reveal(Seq::filter);
            assert(s.take(0) =~= Seq::<PluginInfo>::empty());
        }
        while i < self.infos.len()
            invariant
                s == self.infos@,
                i <= s.len(),
                f == status_is(status),
                refs_match(out@, s.take(i as int).filter(f)),
            decreases s.len() - i,
        {
            proof {
                assert(s.take(i + 1) =~= s.take(i as int).push(s[i as int]));
                s.take(i as int).lemma_filter_push(s[i as int], f);
            }
            if self.infos[i].status == status {
                out.push(&self.infos[i]);
            }
            i = i + 1;
        }
        proof {
            assert(s.take(i as int) =~= s);
        }
        out
    }

    /// All active plugins sorted by priority, highest first (equal priorities keep
    /// registration order).
    pub fn active_by_priority(&self) -> (r: Vec<&PluginInfo>)
        ensures
            info_values(r@).to_multiset() == self.spec_infos().filter(
                status_is(PluginStatus::Active),
            ).to_multiset(),
            r@.len() == self.spec_infos().filter(status_is(PluginStatus::Active)).len(),
            forall|a: int, b: int| 0 <= a < b < r@.len() ==> r@[a].priority >= r@[b].priority,
            forall|a: int|
                0 <= a < r@.len() ==> self.spec_infos().filter(
                    status_is(PluginStatus::Active),
                ).contains(*r@[a]),
            covers(r@, self.spec_infos().filter(status_is(PluginStatus::Active))),
    {
        let act = self.by_status(PluginStatus::Active);
        let ghost av = self.infos@.filter(status_is(PluginStatus::Active));
        let mut out: Vec<&PluginInfo> = Vec::new();
        let mut i: usize = 0;
        proof {
            assert(av.take(0) =~= Seq::<PluginInfo>::empty());
            assert(info_values(out@) =~= Seq::<PluginInfo>::empty());
        }
        while i < act.len()
            invariant
                refs_match(act@, av),
                i <= av.len(),
                priority_desc(info_values(out@)),
                info_values(out@).to_multiset() == av.take(i as int).to_multiset(),
            decreases av.len() - i,
        {
            insert_by_priority(&mut out, act[i]);
            proof {
                assert(av.take(i + 1) =~= av.take(i as int).push(av[i as int]));
                vstd::seq_lib::to_multiset_build(av.take(i as int), av[i as int]);
            }
            i = i + 1;
        }
        proof {
            let vs = info_values(out@);
            assert(av.take(i as int) =~= av);
            assert(av == self.spec_infos().filter(status_is(PluginStatus::Active)));
            vstd::seq_lib::to_multiset_len(vs);
            vstd::seq_lib::to_multiset_len(av);
            assert forall|a: int, b: int| 0 <= a < b < out@.len() implies out@[a].priority
                >= out@[b].priority by {
                assert(vs[a] == *out@[a] && vs[b] == *out@[b]);
            }
            assert forall|a: int| 0 <= a < out@.len() implies av.contains(*out@[a]) by {
                assert(vs[a] == *out@[a]);
                vstd::seq_lib::to_multiset_contains(vs, *out@[a]);
                vstd::seq_lib::to_multiset_contains(av, *out@[a]);
            }
            assert forall|j: int| 0 <= j < av.len() implies #[trigger] referenced(out@, av, j) by {
                assert(av.contains(av[j]));
                vstd::seq_lib::to_multiset_contains(vs, av[j]);
                vstd::seq_lib::to_multiset_contains(av, av[j]);
                let a = choose|a: int| 0 <= a < vs.len() && vs[a] == av[j];
                assert(*out@[a] == av[j]);
            }
        }
        out
    }

    fn has_cap(p: &PluginInfo, capability: &str) -> (b: bool)
        ensures
            b == has_capability(*p, capability@),
    {
        let mut i: usize = 0;
        while i < p.capabilities.len()
            invariant
                i <= p.capabilities@.len(),
                forall|j: int| 0 <= j < i ==> p.capabilities@[j]@ != capability@,
            decreases p.capabilities@.len() - i,
        {
            if str_eq(p.capabilities[i].as_str(), capability) {
                assert(p.capabilities@[i as int]@ == capability@);
                return true;
            }
            i = i + 1;
        }
        false
    }

    /// All plugins declaring a capability, in registration order.
    pub fn with_capability(&self, capability: &str) -> (r: Vec<&PluginInfo>)
        ensures
            refs_match(r@, self.spec_infos().filter(|p: PluginInfo| has_capability(p, capability@))),
    {
        let ghost s = self.infos@;
        let ghost f = |p: PluginInfo| has_capability(p, capability@);
        let mut out: Vec<&PluginInfo> = Vec::new();
        let mut i: usize = 0;
        proof {
            reveal(Seq::filter);
            assert(s.take(0) =~= Seq::<PluginInfo>::empty());
        }
        while i < self.infos.len()
            invariant
                s == self.infos@,
                i <= s.len(),
                f == |p: PluginInfo| has_capability(p, capability@),
                refs_match(out@, s.take(i as int).filter(f)),
            decreases s.len() - i,
        {
            proof {
                assert(s.take(i + 1) =~= s.take(i as int).push(s[i as int]));
                s.take(i as int).lemma_filter_push(s[i as int], f);
            }
            if Self::has_cap(&self.infos[i], capability) {
                out.push(&self.infos[i]);
            }
            i = i + 1;
        }
        proof {
            assert(s.take(i as int) =~= s);
        }
        out
    }

    /// Total plugin count.
    pub fn count(&self) -> (n: usize)
        ensures
            n == self.spec_keys().len(),
    {
        self.keys.len()
    }

    /// Remaining capacity (0 when full).
    pub fn remaining_capacity(&self) -> (n: usize)
        ensures
            n == self.spec_max().saturating_sub(self.spec_keys().len() as usize),
    {
        self.max_plugins.saturating_sub(self.keys.len())
    }

    /// The plugin ids in registration order.
    pub fn load_order(&self) -> (r: &[String])
        ensures
            r@.map_values(|s: String| s@) == self.spec_keys(),
    {
        self.keys.as_slice()
    }

    /// Check if a plugin is registered.
    pub fn contains(&self, id: &str) -> (b: bool)
        requires
            self.wf(),
        ensures
            b == self.spec_keys().contains(id@),
    {
        match self.find(id) {
            Some(_) => true,
            None => false,
        }
    }

    /// All plugin ids, in lexicographic order.
    pub fn plugin_ids(&self) -> (ids: Vec<&str>)
        ensures
            ids@.len() == self.spec_keys().len(),
            lex_sorted(str_views(ids@)),
            forall|i: int| 0 <= i < ids@.len() ==> self.spec_keys().contains(#[trigger] ids@[i]@),
            forall|i: int|
                0 <= i < self.spec_keys().len() ==> str_views(ids@).contains(
                    #[trigger] self.spec_keys()[i],
                ),
    {
        let ghost v = self.spec_keys();
        let mut ids: Vec<&str> = Vec::new();
        let mut i: usize = 0;
        while i < self.keys.len()
            invariant
                v == self.spec_keys(),
                i <= v.len(),
                ids@.len() == i,
                lex_sorted(str_views(ids@)),
                forall|a: int| 0 <= a < ids@.len() ==> exists|j: int| 0 <= j < i && v[j] == #[trigger] ids@[a]@,
                forall|j: int| 0 <= j < i ==> str_views(ids@).contains(#[trigger] v[j]),
            decreases v.len() - i,
        {
            let ghost n0 = ids@;
            let nm = self.keys[i].as_str();
            insert_sorted(&mut ids, nm);
            proof {
                let p = choose|p: int| 0 <= p <= n0.len() && ids@ == n0.insert(p, nm);
                assert(str_views(ids@)[p] == v[i as int]);
                assert forall|a: int| 0 <= a < ids@.len() implies exists|j: int| 0 <= j < i + 1 && v[j] == #[trigger] ids@[a]@ by {
                    if a < p {
                        assert(ids@[a] == n0[a]);
                    } else if a == p {
                        assert(v[i as int] == ids@[a]@);
                    } else {
                        assert(ids@[a] == n0[a - 1]);
                    }
                }
                assert forall|j: int| 0 <= j < i + 1 implies str_views(ids@).contains(#[trigger] v[j]) by {
                    if j == i {
                        assert(str_views(ids@)[p] == v[j]);
                    } else {
                        assert(str_views(n0).contains(v[j]));
                        let a = choose|a: int| 0 <= a < str_views(n0).len() && str_views(n0)[a] == v[j];
                        if a < p {
                            assert(str_views(ids@)[a] == str_views(n0)[a]);
                        } else {
                            assert(str_views(ids@)[a + 1] == str_views(n0)[a]);
                        }
                    }
                }
            }
            i = i + 1;
        }
        proof {
            assert forall|a: int| 0 <= a < ids@.len() implies v.contains(#[trigger] ids@[a]@) by {
                let j = choose|j: int| 0 <= j < i && v[j] == ids@[a]@;
            }
        }
        ids
    }
}

impl Default for PluginRegistry {
    fn default() -> (r: Self)
        ensures
            r.wf(),
            r.spec_keys().len() == 0,
            r.spec_max() == 100,
    {
        PluginRegistry::new(100)
    }
}

/// A lookup after a registration finds the registered record: registering `info` under
/// a new id appends the id and the record, and the id then leads to that record.
pub proof fn law_get_after_register(keys: Seq<Seq<char>>, infos: Seq<PluginInfo>, info: PluginInfo)
    requires
        distinct_keys(keys),
        keys.len() == infos.len(),
        !keys.contains(info.id@),
    ensures
        distinct_keys(keys.push(info.id@)),
        keys.push(info.id@).contains(info.id@),
        key_index(keys.push(info.id@), info.id@) == keys.len(),
        infos.push(info)[key_index(keys.push(info.id@), info.id@)] == info,
{
    let k2 = keys.push(info.id@);
    assert(k2[keys.len() as int] == info.id@);
    let q = key_index(k2, info.id@);
    if q != keys.len() {
        assert(k2[q] == keys[q]);
    }
    assert forall|a: int, b: int| 0 <= a < k2.len() && 0 <= b < k2.len() && a != b implies k2[a]
        != k2[b] by {
        if a == keys.len() {
            assert(k2[b] == keys[b]);
        } else if b == keys.len() {
            assert(k2[a] == keys[a]);
        }
    }
}

/// After an unregistration the id is gone: removing the position of a registered id from
/// distinct ids leaves no trace of it.
pub proof fn law_unregister_removes(keys: Seq<Seq<char>>, id: Seq<char>)
    requires
        distinct_keys(keys),
        keys.contains(id),
    ensures
        !keys.remove(key_index(keys, id)).contains(id),
        keys.remove(key_index(keys, id)).len() == keys.len() - 1,
{
    let p = key_index(keys, id);
    let r = keys.remove(p);
    if r.contains(id) {
        let a = choose|a: int| 0 <= a < r.len() && r[a] == id;
        let b = if a < p { a } else { a + 1 };
        assert(r[a] == keys[b]);
    }
}

} // verus!
