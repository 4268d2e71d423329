//! Lazy loading: deferred resource loading with a queue, dependencies, a concurrency
//! bound and memory accounting.
use vstd::prelude::*;
use crate::text::str_eq;

verus! {

/// Load state of a resource.
#[derive(Debug, Clone, Copy, PartialEq, Eq, Structural)]
pub enum LoadState {
    /// Not yet requested.
    Unloaded,
    /// Queued for loading but not yet started.
    Queued,
    /// Loading in progress.
    Loading,
    /// Loaded successfully.
    Loaded,
    /// Failed to load.
    Failed,
    /// Evicted from memory.
    Evicted,
}

/// Priority level for loading, from lowest to highest.
#[derive(Debug, Clone, Copy, PartialEq, Eq, PartialOrd, Ord, Hash, Structural)]
pub enum LoadPriority {
    Low,
    Normal,
    High,
    Critical,
}

/// Type of loadable resource.
#[derive(Debug, Clone, Copy, PartialEq, Eq, Structural)]
pub enum ResourceType {
    MapTile,
    RouteData,
    PoiData,
    TextureAtlas,
    AudioClip,
    FontSet,
    TranslationBundle,
    ConfigData,
}

/// A lazily loaded resource descriptor.
#[derive(Debug, Clone)]
pub struct LazyResource {
    pub id: String,
    pub resource_type: ResourceType,
    pub state: LoadState,
    pub priority: LoadPriority,
    pub size_bytes: Option<usize>,
    pub dependencies: Vec<String>,
}

/// The character sequences of some strings.
pub open spec fn str_seqs(s: Seq<String>) -> Seq<Seq<char>> {
    s.map_values(|x: String| x@)
}

/// Every dependency of `r` is among `loaded`.
pub open spec fn deps_met(r: LazyResource, loaded: Seq<Seq<char>>) -> bool {
    forall|i: int| 0 <= i < r.dependencies@.len() ==> loaded.contains(#[trigger] r.dependencies@[i]@)
}

impl LazyResource {
    /// Create a new, unloaded resource of normal priority without dependencies.
    pub fn new(id: &str, resource_type: ResourceType) -> (r: Self)
        ensures
            r.id@ == id@,
            r.resource_type == resource_type,
            r.state == LoadState::Unloaded,
            r.priority == LoadPriority::Normal,
            r.size_bytes is None,
            r.dependencies@.len() == 0,
    {
        LazyResource {
            id: id.to_owned(),
            resource_type,
            state: LoadState::Unloaded,
            priority: LoadPriority::Normal,
            size_bytes: None,
            dependencies: Vec::new(),
        }
    }

    /// Set priority.
    pub fn with_priority(self, priority: LoadPriority) -> (r: Self)
        ensures
            r == (LazyResource { priority, ..self }),
    {
        let mut r = self;
        r.priority = priority;
        r
    }

    /// Add a dependency.
    pub fn with_dependency(self, dep: &str) -> (r: Self)
        ensures
            r.id == self.id,
            r.resource_type == self.resource_type,
            r.state == self.state,
            r.priority == self.priority,
            r.size_bytes == self.size_bytes,
            r.dependencies@.len() == self.dependencies@.len() + 1,
            r.dependencies@.drop_last() == self.dependencies@,
            r.dependencies@.last()@ == dep@,
    {
        let mut r = self;
        r.dependencies.push(dep.to_owned());
        assert(r.dependencies@.drop_last() =~= self.dependencies@);
        r
    }

    /// Whether every dependency is among `loaded`.
    pub fn dependencies_met(&self, loaded: &[String]) -> (b: bool)
        ensures
            b == deps_met(*self, str_seqs(loaded@)),
    {
        let ghost l = str_seqs(loaded@);
        let mut i: usize = 0;
        while i < self.dependencies.len()
            invariant
                l == str_seqs(loaded@),
                i <= self.dependencies@.len(),
                forall|k: int| 0 <= k < i ==> l.contains(#[trigger] self.dependencies@[k]@),
            decreases self.dependencies@.len() - i,
        {
            if !contains_str(loaded, self.dependencies[i].as_str()) {
                return false;
            }
            i = i + 1;
        }
        true
    }
}

/// Whether `s` holds a string equal to `x`.
fn contains_str(s: &[String], x: &str) -> (b: bool)
    ensures
        b == str_seqs(s@).contains(x@),
{
    let ghost v = str_seqs(s@);
    let mut j: usize = 0;
    while j < s.len()
        invariant
            v == str_seqs(s@),
            j <= s@.len(),
            forall|k: int| 0 <= k < j ==> v[k] != x@,
        decreases s@.len() - j,
    {
        if str_eq(s[j].as_str(), x) {
            assert(v[j as int] == x@);
            return true;
        }
        j = j + 1;
    }
    false
}

/// The ids of some resources.
pub open spec fn res_ids(s: Seq<LazyResource>) -> Seq<Seq<char>> {
    s.map_values(|r: LazyResource| r.id@)
}

/// No element occurs twice.
pub open spec fn no_dups(s: Seq<Seq<char>>) -> bool {
    forall|a: int, b: int| 0 <= a < s.len() && 0 <= b < s.len() && a != b ==> s[a] != s[b]
}

/// The position of `k` in `s` (meaningful when present).
pub open spec fn pos_of(s: Seq<Seq<char>>, k: Seq<char>) -> int {
    choose|i: int| 0 <= i < s.len() && s[i] == k
}

/// The resource with id `k` among `res` (meaningful when present).
pub open spec fn res_of(res: Seq<LazyResource>, k: Seq<char>) -> LazyResource {
    res[pos_of(res_ids(res), k)]
}

/// Whether a queued id may start loading: its resource is registered, queued, and its
/// dependencies are loaded.
pub open spec fn is_ready(res: Seq<LazyResource>, loaded: Seq<Seq<char>>, k: Seq<char>) -> bool {
    res_ids(res).contains(k) && res_of(res, k).state == LoadState::Queued && deps_met(
        res_of(res, k),
        loaded,
    )
}

/// The predicate form of `is_ready`.
pub open spec fn ready_pred(res: Seq<LazyResource>, loaded: Seq<Seq<char>>) -> spec_fn(Seq<char>) -> bool {
    |k: Seq<char>| is_ready(res, loaded, k)
}

/// The predicate "is loading".
pub open spec fn loading_pred() -> spec_fn(LazyResource) -> bool {
    |r: LazyResource| r.state == LoadState::Loading
}

/// The resources with those whose id is in `ids` moved to Loading.
pub open spec fn promote(res: Seq<LazyResource>, ids: Seq<Seq<char>>) -> Seq<LazyResource> {
    Seq::new(
        res.len(),
        |i: int|
            if ids.contains(res[i].id@) {
                LazyResource { state: LoadState::Loading, ..res[i] }
            } else {
                res[i]
            },
    )
}

/// `q` with `k` appended unless it is already there.
pub open spec fn enqueue(q: Seq<Seq<char>>, k: Seq<char>) -> Seq<Seq<char>> {
    if q.contains(k) {
        q
    } else {
        q.push(k)
    }
}

/// Whether a resource is of type `t` and may be requested (unloaded or evicted).
pub open spec fn prefetchable(r: LazyResource, t: ResourceType) -> bool {
    r.resource_type == t && (r.state == LoadState::Unloaded || r.state == LoadState::Evicted)
}

/// The predicate form of `prefetchable`.
pub open spec fn prefetch_pred(t: ResourceType) -> spec_fn(LazyResource) -> bool {
    |r: LazyResource| prefetchable(r, t)
}

/// Lazy load manager: registered resources, the queue of requested ids, the ids loaded
/// so far, a bound on concurrent loads and the memory held by loaded resources.
pub struct LazyLoadManager {
    resources: Vec<LazyResource>,
    load_queue: Vec<String>,
    loaded_ids: Vec<String>,
    max_concurrent: usize,
    total_loaded_bytes: usize,
    memory_budget: usize,
}

impl LazyLoadManager {
    #[verifier::type_invariant]
    spec fn inv(self) -> bool {
        &&& no_dups(res_ids(self.resources@))
        &&& no_dups(str_seqs(self.load_queue@))
    }

    /// The registered resources, in registration order; their ids are distinct.
    pub closed spec fn spec_resources(&self) -> Seq<LazyResource> {
        self.resources@
    }

    /// The ids waiting to load, in request order; none occurs twice.
    pub closed spec fn spec_queue(&self) -> Seq<Seq<char>> {
        str_seqs(self.load_queue@)
    }

    /// The ids marked loaded and not evicted, in order.
    pub closed spec fn spec_loaded(&self) -> Seq<Seq<char>> {
        str_seqs(self.loaded_ids@)
    }

    /// The bound on concurrent loads.
    pub closed spec fn spec_max_concurrent(&self) -> usize {
        self.max_concurrent
    }

    /// Bytes held by loaded resources.
    pub closed spec fn spec_memory_used(&self) -> usize {
        self.total_loaded_bytes
    }

    /// The memory budget.
    pub closed spec fn spec_budget(&self) -> usize {
        self.memory_budget
    }

    /// The ids of the registered resources.
    pub open spec fn spec_ids(&self) -> Seq<Seq<char>> {
        res_ids(self.spec_resources())
    }

    /// The resource registered under `id` (meaningful when registered).
    pub open spec fn resource(&self, id: Seq<char>) -> LazyResource {
        res_of(self.spec_resources(), id)
    }

    /// The position of `id` among the resources (meaningful when registered).
    pub open spec fn index_of(&self, id: Seq<char>) -> int {
        pos_of(self.spec_ids(), id)
    }

    /// Create a new lazy load manager.
    pub fn new(max_concurrent: usize, memory_budget: usize) -> (m: Self)
        ensures
            m.spec_resources().len() == 0,
            m.spec_queue().len() == 0,
            m.spec_loaded().len() == 0,
            m.spec_max_concurrent() == max_concurrent,
            m.spec_memory_used() == 0,
            m.spec_budget() == memory_budget,
    {
        let resources: Vec<LazyResource> = Vec::new();
        let load_queue: Vec<String> = Vec::new();
        assert(res_ids(resources@) =~= Seq::<Seq<char>>::empty());
        assert(str_seqs(load_queue@) =~= Seq::<Seq<char>>::empty());
        let m = LazyLoadManager {
            resources,
            load_queue,
            loaded_ids: Vec::new(),
            max_concurrent,
            total_loaded_bytes: 0,
            memory_budget,
        };
        assert(m.spec_loaded() =~= Seq::<Seq<char>>::empty());
        m
    }

    fn find(&self, id: &str) -> (r: Option<usize>)
        ensures
            match r {
                Some(i) => i < self.spec_resources().len() && self.spec_ids().contains(id@)
                    && self.index_of(id@) == i && self.spec_resources()[i as int].id@ == id@,
                None => !self.spec_ids().contains(id@),
            },
    {
        proof {
            use_type_invariant(self);
        }
        let ghost ids = self.spec_ids();
        let mut i: usize = 0;
        while i < self.resources.len()
            invariant
                ids == res_ids(self.resources@),
                no_dups(ids),
                i <= self.resources@.len(),
                forall|j: int| 0 <= j < i ==> ids[j] != id@,
            decreases self.resources@.len() - i,
        {
            if str_eq(self.resources[i].id.as_str(), id) {
                proof {
                    assert(ids[i as int] == id@);
                    assert(pos_of(ids, id@) == i);
                }
                return Some(i);
            }
            i = i + 1;
        }
        None
    }

    /// Register a resource under its id, replacing one registered under the same id.
    pub fn register(&mut self, resource: LazyResource)
        ensures
            old(self).spec_ids().contains(resource.id@) ==> final(self).spec_resources() == old(
                self,
            ).spec_resources().update(old(self).index_of(resource.id@), resource),
            !old(self).spec_ids().contains(resource.id@) ==> final(self).spec_resources() == old(
                self,
            ).spec_resources().push(resource),
            final(self).spec_queue() == old(self).spec_queue(),
            final(self).spec_loaded() == old(self).spec_loaded(),
            final(self).spec_max_concurrent() == old(self).spec_max_concurrent(),
            final(self).spec_memory_used() == old(self).spec_memory_used(),
            final(self).spec_budget() == old(self).spec_budget(),
    {
        proof {
            use_type_invariant(&*self);
        }
        let ghost s0 = self.resources@;
        let ghost n0 = res_ids(s0);
        let found = self.find(resource.id.as_str());
        let mut resources: Vec<LazyResource> = Vec::new();
        std::mem::swap(&mut resources, &mut self.resources);
        match found {
            Some(i) => {
                resources.set(i, resource);
                assert(res_ids(resources@) =~= n0);
            },
            None => {
                resources.push(resource);
                proof {
                    let ns = res_ids(resources@);
                    assert(ns =~= n0.push(resource.id@));
                    assert forall|a: int, b: int|
                        0 <= a < ns.len() && 0 <= b < ns.len() && a != b implies ns[a] != ns[b] by {
                        if a == ns.len() - 1 {
                            assert(ns[b] == n0[b]);
                        } else if b == ns.len() - 1 {
                            assert(ns[a] == n0[a]);
                        }
                    }
                }
            },
        }
        self.resources = resources;
    }

    /// Set the state of the resource at position `i`.
    fn set_state(&mut self, i: usize, state: LoadState)
        requires
            i < old(self).spec_resources().len(),
        ensures
            final(self).spec_resources() == old(self).spec_resources().update(
                i as int,
                LazyResource { state, ..old(self).spec_resources()[i as int] },
            ),
            final(self).spec_queue() == old(self).spec_queue(),
            final(self).spec_loaded() == old(self).spec_loaded(),
            final(self).spec_max_concurrent() == old(self).spec_max_concurrent(),
            final(self).spec_memory_used() == old(self).spec_memory_used(),
            final(self).spec_budget() == old(self).spec_budget(),
    {
        proof {
            use_type_invariant(&*self);
        }
        let ghost s0 = self.resources@;
        let mut resources: Vec<LazyResource> = Vec::new();
        std::mem::swap(&mut resources, &mut self.resources);
        let mut r = resources.remove(i);
        r.state = state;
        resources.insert(i, r);
        proof {
            assert(resources@ =~= s0.update(i as int, r));
            assert(res_ids(resources@) =~= res_ids(s0));
        }
        self.resources = resources;
    }

    /// Remove every occurrence of `id` from the queue.
    fn dequeue(&mut self, id: &str)
        ensures
            final(self).spec_queue() == old(self).spec_queue().filter(|k: Seq<char>| k != id@),
            final(self).spec_resources() == old(self).spec_resources(),
            final(self).spec_loaded() == old(self).spec_loaded(),
            final(self).spec_max_concurrent() == old(self).spec_max_concurrent(),
            final(self).spec_memory_used() == old(self).spec_memory_used(),
            final(self).spec_budget() == old(self).spec_budget(),
    {
        proof {
            use_type_invariant(&*self);
        }
        let mut queue: Vec<String> = Vec::new();
        std::mem::swap(&mut queue, &mut self.load_queue);
        let ghost q0 = str_seqs(queue@);
        let kept = retain_other(queue, id);
        proof {
            lemma_filter_no_dups(q0, |k: Seq<char>| k != id@);
        }
        self.load_queue = kept;
    }

    /// Request a resource to be loaded: an unloaded or evicted resource becomes queued,
    /// and its id joins the queue unless already there.
    pub fn request_load(&mut self, id: &str) -> (ok: bool)
        ensures
            ok == (old(self).spec_ids().contains(id@) && (old(self).resource(id@).state
                == LoadState::Unloaded || old(self).resource(id@).state == LoadState::Evicted)),
            !ok ==> final(self).spec_resources() == old(self).spec_resources()
                && final(self).spec_queue() == old(self).spec_queue(),
            ok ==> final(self).spec_resources() == old(self).spec_resources().update(
                old(self).index_of(id@),
                LazyResource { state: LoadState::Queued, ..old(self).resource(id@) },
            ) && final(self).spec_queue() == enqueue(old(self).spec_queue(), id@),
            final(self).spec_loaded() == old(self).spec_loaded(),
            final(self).spec_max_concurrent() == old(self).spec_max_concurrent(),
            final(self).spec_memory_used() == old(self).spec_memory_used(),
            final(self).spec_budget() == old(self).spec_budget(),
    {
        proof {
            use_type_invariant(&*self);
        }
        let i = match self.find(id) {
            Some(i) => i,
            None => {
                return false;
            },
        };
        let st = self.resources[i].state;
        if st != LoadState::Unloaded && st != LoadState::Evicted {
            return false;
        }
        self.set_state(i, LoadState::Queued);
        proof {
            use_type_invariant(&*self);
        }
        if !contains_str(self.load_queue.as_slice(), id) {
            let ghost q0 = self.spec_queue();
            let mut queue: Vec<String> = Vec::new();
            std::mem::swap(&mut queue, &mut self.load_queue);
            queue.push(id.to_owned());
            proof {
                let q = str_seqs(queue@);
                assert(q =~= q0.push(id@));
                assert forall|a: int, b: int|
                    0 <= a < q.len() && 0 <= b < q.len() && a != b implies q[a] != q[b] by {
                    if a == q.len() - 1 {
                        assert(q[b] == q0[b]);
                    } else if b == q.len() - 1 {
                        assert(q[a] == q0[a]);
                    }
                }
            }
            self.load_queue = queue;
        }
        true
    }

    /// Mark a resource as loaded with its size; its id leaves the queue in any case.
    pub fn mark_loaded(&mut self, id: &str, size_bytes: usize)
        requires
            old(self).spec_ids().contains(id@) ==> old(self).spec_memory_used() + size_bytes
                <= usize::MAX,
        ensures
            final(self).spec_queue() == old(self).spec_queue().filter(|k: Seq<char>| k != id@),
            !old(self).spec_ids().contains(id@) ==> final(self).spec_resources() == old(
                self,
            ).spec_resources() && final(self).spec_loaded() == old(self).spec_loaded()
                && final(self).spec_memory_used() == old(self).spec_memory_used(),
            old(self).spec_ids().contains(id@) ==> final(self).spec_resources() == old(
                self,
            ).spec_resources().update(
                old(self).index_of(id@),
                LazyResource {
                    state: LoadState::Loaded,
                    size_bytes: Some(size_bytes),
                    ..old(self).resource(id@)
                },
            ) && final(self).spec_loaded() == old(self).spec_loaded().push(id@)
                && final(self).spec_memory_used() == old(self).spec_memory_used() + size_bytes,
            final(self).spec_max_concurrent() == old(self).spec_max_concurrent(),
            final(self).spec_budget() == old(self).spec_budget(),
    {
        proof {
            use_type_invariant(&*self);
        }
        if let Some(i) = self.find(id) {
            let ghost s0 = self.resources@;
            let mut resources: Vec<LazyResource> = Vec::new();
            std::mem::swap(&mut resources, &mut self.resources);
            let mut r = resources.remove(i);
            r.state = LoadState::Loaded;
            r.size_bytes = Some(size_bytes);
            resources.insert(i, r);
            proof {
                assert(resources@ =~= s0.update(i as int, r));
                assert(res_ids(resources@) =~= res_ids(s0));
            }
            self.resources = resources;
            let mut loaded: Vec<String> = Vec::new();
            std::mem::swap(&mut loaded, &mut self.loaded_ids);
            loaded.push(id.to_owned());
            self.loaded_ids = loaded;
            assert(self.spec_loaded() =~= old(self).spec_loaded().push(id@));
            self.total_loaded_bytes = self.total_loaded_bytes + size_bytes;
        }
        self.dequeue(id);
    }

    /// Mark a resource as failed; its id leaves the queue in any case.
    pub fn mark_failed(&mut self, id: &str)
        ensures
            final(self).spec_queue() == old(self).spec_queue().filter(|k: Seq<char>| k != id@),
            !old(self).spec_ids().contains(id@) ==> final(self).spec_resources() == old(
                self,
            ).spec_resources(),
            old(self).spec_ids().contains(id@) ==> final(self).spec_resources() == old(
                self,
            ).spec_resources().update(
                old(self).index_of(id@),
                LazyResource { state: LoadState::Failed, ..old(self).resource(id@) },
            ),
            final(self).spec_loaded() == old(self).spec_loaded(),
            final(self).spec_max_concurrent() == old(self).spec_max_concurrent(),
            final(self).spec_memory_used() == old(self).spec_memory_used(),
            final(self).spec_budget() == old(self).spec_budget(),
    {
        if let Some(i) = self.find(id) {
            self.set_state(i, LoadState::Failed);
        }
        self.dequeue(id);
    }

    /// Evict a loaded resource: it becomes evicted with no size, leaves the loaded ids,
    /// and its bytes are released; returns them (0 when nothing was evicted).
    pub fn evict(&mut self, id: &str) -> (freed: usize)
        ensures
            final(self).spec_queue() == old(self).spec_queue(),
            final(self).spec_max_concurrent() == old(self).spec_max_concurrent(),
            final(self).spec_budget() == old(self).spec_budget(),
            !(old(self).spec_ids().contains(id@) && old(self).resource(id@).state
                == LoadState::Loaded) ==> freed == 0 && final(self).spec_resources() == old(
                self,
            ).spec_resources() && final(self).spec_loaded() == old(self).spec_loaded()
                && final(self).spec_memory_used() == old(self).spec_memory_used(),
            old(self).spec_ids().contains(id@) && old(self).resource(id@).state
                == LoadState::Loaded ==> ({
                let r = old(self).resource(id@);
                let f: usize = match r.size_bytes {
                    Some(n) => n,
                    None => 0,
                };
                &&& freed == f
                &&& final(self).spec_resources() == old(self).spec_resources().update(
                    old(self).index_of(id@),
                    LazyResource { state: LoadState::Evicted, size_bytes: None, ..r },
                )
                &&& final(self).spec_loaded() == old(self).spec_loaded().filter(
                    |k: Seq<char>| k != id@,
                )
                &&& final(self).spec_memory_used() == old(self).spec_memory_used().saturating_sub(
                    f,
                )
            }),
    {
        proof {
            use_type_invariant(&*self);
        }
        let i = match self.find(id) {
            Some(i) => i,
            None => {
                return 0;
            },
        };
        if self.resources[i].state != LoadState::Loaded {
            return 0;
        }
        let freed = match self.resources[i].size_bytes {
            Some(n) => n,
            None => 0,
        };
        let ghost s0 = self.resources@;
        let mut resources: Vec<LazyResource> = Vec::new();
        std::mem::swap(&mut resources, &mut self.resources);
        let mut r = resources.remove(i);
        r.state = LoadState::Evicted;
        r.size_bytes = None;
        resources.insert(i, r);
        proof {
            assert(resources@ =~= s0.update(i as int, r));
            assert(res_ids(resources@) =~= res_ids(s0));
        }
        self.resources = resources;
        let mut loaded: Vec<String> = Vec::new();
        std::mem::swap(&mut loaded, &mut self.loaded_ids);
        self.loaded_ids = retain_other(loaded, id);
        self.total_loaded_bytes = self.total_loaded_bytes.saturating_sub(freed);
        freed
    }

    /// Start the next loads: the queued ids whose resources are queued with their
    /// dependencies loaded, in queue order, as many as the free slots allow (the bound
    /// minus the resources loading now); those resources move to Loading.
    pub fn next_batch(&mut self) -> (batch: Vec<String>)
        ensures
            ({
                let res = old(self).spec_resources();
                let slots = old(self).spec_max_concurrent().saturating_sub(
                    res.filter(loading_pred()).len() as usize,
                );
                let ready = old(self).spec_queue().filter(
                    ready_pred(res, old(self).spec_loaded()),
                );
                let chosen = if ready.len() <= slots {
                    ready
                } else {
                    ready.take(slots as int)
                };
                &&& str_seqs(batch@) == chosen
                &&& final(self).spec_resources() == promote(res, chosen)
                &&& batch@.len() == 0 || batch@.len() + res.filter(loading_pred()).len()
                    <= old(self).spec_max_concurrent()
            }),
            final(self).spec_queue() == old(self).spec_queue(),
            final(self).spec_loaded() == old(self).spec_loaded(),
            final(self).spec_max_concurrent() == old(self).spec_max_concurrent(),
            final(self).spec_memory_used() == old(self).spec_memory_used(),
            final(self).spec_budget() == old(self).spec_budget(),
    {
        proof {
            use_type_invariant(&*self);
        }
        let ghost res = self.resources@;
        let ghost loaded = self.spec_loaded();
        let ghost q = self.spec_queue();
        let ghost rp = ready_pred(res, loaded);
        let loading = self.count_loading();
        let slots = self.max_concurrent.saturating_sub(loading);
        // Choose the batch.
        let mut batch: Vec<String> = Vec::new();
        let mut j: usize = 0;
        proof {
            reveal(Seq::filter);
            assert(q.take(0) =~= Seq::<Seq<char>>::empty());
            assert(str_seqs(batch@) =~= Seq::<Seq<char>>::empty());
        }
        while j < self.load_queue.len() && batch.len() < slots
            invariant
                res == self.resources@,
                loaded == self.spec_loaded(),
                q == self.spec_queue(),
                rp == ready_pred(res, loaded),
                no_dups(res_ids(res)),
                j <= q.len(),
                batch@.len() <= slots,
                str_seqs(batch@) == q.take(j as int).filter(rp),
            decreases q.len() - j,
        {
            proof {
                assert(q.take(j + 1) =~= q.take(j as int).push(q[j as int]));
                q.take(j as int).lemma_filter_push(q[j as int], rp);
            }
            let id = self.load_queue[j].as_str();
            let ghost b0 = str_seqs(batch@);
            match self.find(id) {
                Some(i) => {
                    if self.resources[i].state == LoadState::Queued
                        && self.resources[i].dependencies_met(self.loaded_ids.as_slice()) {
                        batch.push(id.to_owned());
                        assert(str_seqs(batch@) =~= b0.push(id@));
                    }
                },
                None => {},
            }
            j = j + 1;
        }
        proof {
            let ready = q.filter(rp);
            if batch@.len() < slots {
                assert(q.take(j as int) =~= q);
            } else {
                lemma_filter_prefix_take(q, rp, j as int);
                q.lemma_filter_take_len(rp, j as int);
                if ready.len() == slots {
                    assert(ready.take(slots as int) =~= ready);
                }
            }
            assert(str_seqs(batch@) == (if ready.len() <= slots {
                ready
            } else {
                ready.take(slots as int)
            }));
        }
        // Promote the chosen resources.
        let ghost chosen = str_seqs(batch@);
        let mut t: usize = 0;
        proof {
            assert(promote(res, chosen.take(0)) =~= res);
        }
        while t < batch.len()
            invariant
                chosen == str_seqs(batch@),
                t <= batch@.len(),
                self.spec_resources() == promote(res, chosen.take(t as int)),
                res_ids(res) == self.spec_ids(),
                no_dups(res_ids(res)),
                self.spec_queue() == old(self).spec_queue(),
                self.spec_loaded() == old(self).spec_loaded(),
                self.spec_max_concurrent() == old(self).spec_max_concurrent(),
                self.spec_memory_used() == old(self).spec_memory_used(),
                self.spec_budget() == old(self).spec_budget(),
            decreases batch@.len() - t,
        {
            let ghost cur = self.spec_resources();
            proof {
                use_type_invariant(&*self);
            }
            match self.find(batch[t].as_str()) {
                Some(i) => {
                    self.set_state(i, LoadState::Loading);
                    proof {
                        let next = promote(res, chosen.take(t + 1));
                        assert forall|m: int| 0 <= m < res.len() implies self.spec_resources()[m]
                            == next[m] by {
                            lemma_promote_step(res, chosen, t as int, m);
                            if m != i {
                                assert(res_ids(res)[m] != res_ids(res)[i as int]);
                            }
                        }
                        assert(self.spec_resources() =~= next);
                    }
                },
                None => {
                    proof {
                        let next = promote(res, chosen.take(t + 1));
                        assert forall|m: int| 0 <= m < res.len() implies cur[m] == next[m] by {
                            lemma_promote_step(res, chosen, t as int, m);
                            assert(res_ids(res)[m] == res[m].id@);
                        }
                        assert(cur =~= next);
                    }
                },
            }
            proof {
                assert(res_ids(self.spec_resources()) =~= res_ids(res));
            }
            t = t + 1;
        }
        proof {
            assert(chosen.take(t as int) =~= chosen);
        }
        batch
    }

    fn count_loading(&self) -> (n: usize)
        ensures
            n == self.spec_resources().filter(loading_pred()).len(),
    {
        let ghost s = self.resources@;
        let ghost f = loading_pred();
        let mut count: usize = 0;
        let mut i: usize = 0;
        proof {
            reveal(Seq::filter);
            assert(s.take(0) =~= Seq::<LazyResource>::empty());
        }
        while i < self.resources.len()
            invariant
                s == self.resources@,
                f == loading_pred(),
                i <= s.len(),
                count == s.take(i as int).filter(f).len(),
                count <= i,
            decreases s.len() - i,
        {
            proof {
                assert(s.take(i + 1) =~= s.take(i as int).push(s[i as int]));
                s.take(i as int).lemma_filter_push(s[i as int], f);
            }
            if self.resources[i].state == LoadState::Loading {
                count = count + 1;
            }
            i = i + 1;
        }
        proof {
            assert(s.take(i as int) =~= s);
        }
        count
    }

    /// The state of a resource.
    pub fn state(&self, id: &str) -> (r: Option<LoadState>)
        ensures
            self.spec_ids().contains(id@) ==> r == Some(self.resource(id@).state),
            !self.spec_ids().contains(id@) ==> r is None,
    {
        match self.find(id) {
            Some(i) => Some(self.resources[i].state),
            None => None,
        }
    }

    /// Memory held by loaded resources.
    pub fn memory_used(&self) -> (n: usize)
        ensures
            n == self.spec_memory_used(),
    {
        self.total_loaded_bytes
    }

    /// Whether the memory held exceeds the budget.
    pub fn over_budget(&self) -> (b: bool)
        ensures
            b == (self.spec_memory_used() > self.spec_budget()),
    {
        self.total_loaded_bytes > self.memory_budget
    }

    /// Number of registered resources.
    pub fn resource_count(&self) -> (n: usize)
        ensures
            n == self.spec_resources().len(),
    {
        self.resources.len()
    }

    /// Number of loaded ids.
    pub fn loaded_count(&self) -> (n: usize)
        ensures
            n == self.spec_loaded().len(),
    {
        self.loaded_ids.len()
    }

    /// Request loading for every unloaded or evicted resource of a type; returns how many
    /// were requested.
    pub fn prefetch_by_type(&mut self, resource_type: ResourceType) -> (count: usize)
        ensures
            count == old(self).spec_resources().filter(prefetch_pred(resource_type)).len(),
            final(self).spec_resources().len() == old(self).spec_resources().len(),
            forall|i: int|
                0 <= i < old(self).spec_resources().len() ==> #[trigger] final(self).spec_resources()[i] == if prefetchable(
                    old(self).spec_resources()[i],
                    resource_type,
                ) {
                    LazyResource { state: LoadState::Queued, ..old(self).spec_resources()[i] }
                } else {
                    old(self).spec_resources()[i]
                },
            forall|k: Seq<char>|
                #[trigger] final(self).spec_queue().contains(k) <==> (old(self).spec_queue().contains(k)
                    || res_ids(old(self).spec_resources().filter(
                    prefetch_pred(resource_type),
                )).contains(k)),
            final(self).spec_loaded() == old(self).spec_loaded(),
            final(self).spec_max_concurrent() == old(self).spec_max_concurrent(),
            final(self).spec_memory_used() == old(self).spec_memory_used(),
            final(self).spec_budget() == old(self).spec_budget(),
    {
        proof {
            use_type_invariant(&*self);
        }
        let ghost s = self.resources@;
        let ghost q0 = self.spec_queue();
        let ghost f = prefetch_pred(resource_type);
        let n = self.resources.len();
        let mut count: usize = 0;
        let mut i: usize = 0;
        proof {
            reveal(Seq::filter);
            assert(s.take(0) =~= Seq::<LazyResource>::empty());
        }
        while i < n
            invariant
                n == s.len(),
                f == prefetch_pred(resource_type),
                i <= n,
                no_dups(res_ids(s)),
                count == s.take(i as int).filter(f).len(),
                count <= i,
                self.spec_resources().len() == n,
                res_ids(self.spec_resources()) == res_ids(s),
                forall|j: int|
                    0 <= j < n ==> #[trigger] self.spec_resources()[j] == if j < i && prefetchable(
                        s[j],
                        resource_type,
                    ) {
                        LazyResource { state: LoadState::Queued, ..s[j] }
                    } else {
                        s[j]
                    },
                forall|k: Seq<char>|
                    #[trigger] self.spec_queue().contains(k) <==> (q0.contains(k) || res_ids(
                        s.take(i as int).filter(f),
                    ).contains(k)),
                self.spec_loaded() == old(self).spec_loaded(),
                self.spec_max_concurrent() == old(self).spec_max_concurrent(),
                self.spec_memory_used() == old(self).spec_memory_used(),
                self.spec_budget() == old(self).spec_budget(),
            decreases n - i,
        {
            proof {
                assert(s.take(i + 1) =~= s.take(i as int).push(s[i as int]));
                s.take(i as int).lemma_filter_push(s[i as int], f);
            }
            let rt = self.resources[i].resource_type;
            let st = self.resources[i].state;
            if rt == resource_type && (st == LoadState::Unloaded || st == LoadState::Evicted) {
                let id = self.resources[i].id.clone();
                let ghost before = self.spec_resources();
                let ghost qb = self.spec_queue();
                proof {
                    assert(res_ids(before)[i as int] == id@);
                    assert(pos_of(res_ids(before), id@) == i) by {
                        assert(res_ids(before) == res_ids(s));
                    }
                }
                let ok = self.request_load(id.as_str());
                assert(ok);
                count = count + 1;
                proof {
                    let t = s.take(i + 1).filter(f);
                    assert(t == s.take(i as int).filter(f).push(s[i as int]));
                    assert(res_ids(t) =~= res_ids(s.take(i as int).filter(f)).push(id@));
                    let r0 = res_ids(s.take(i as int).filter(f));
                    assert forall|k: Seq<char>| #[trigger] self.spec_queue().contains(k) <==> (
                    q0.contains(k) || res_ids(t).contains(k)) by {
                        lemma_push_contains(r0, id@, k);
                        if !qb.contains(id@) {
                            lemma_push_contains(qb, id@, k);
                        }
                        assert(qb.contains(k) <==> (q0.contains(k) || r0.contains(k)));
                    }
                }
            } else {
                proof {
                    assert(s.take(i + 1).filter(f) == s.take(i as int).filter(f));
                }
            }
            i = i + 1;
        }
        proof {
            assert(s.take(n as int) =~= s);
        }
        count
    }
}

/// The strings of `v` not equal to `x`, in order.
fn retain_other(v: Vec<String>, x: &str) -> (r: Vec<String>)
    ensures
        str_seqs(r@) == str_seqs(v@).filter(|k: Seq<char>| k != x@),
{
    let ghost f = |k: Seq<char>| k != x@;
    let ghost s = str_seqs(v@);
    let mut out: Vec<String> = Vec::new();
    proof {
        reveal(Seq::filter);
        assert(s.take(0) =~= Seq::<Seq<char>>::empty());
        assert(str_seqs(out@) =~= Seq::<Seq<char>>::empty());
    }
    for k in it: v
        invariant
            s == str_seqs(it.seq()),
            f == (|k: Seq<char>| k != x@),
            str_seqs(out@) == s.take(it.index() as int).filter(f),
    {
        let ghost i = it.index() as int;
        let ghost o0 = str_seqs(out@);
        proof {
            assert(s.take(i + 1) =~= s.take(i).push(s[i]));
            s.take(i).lemma_filter_push(s[i], f);
            assert(s[i] == k@);
        }
        if !str_eq(k.as_str(), x) {
            out.push(k);
            assert(str_seqs(out@) =~= o0.push(s[i]));
        }
    }
    proof {
        assert(s.take(s.len() as int) =~= s);
    }
    out
}

/// Filtering keeps a sequence free of duplicates.
proof fn lemma_filter_no_dups(s: Seq<Seq<char>>, f: spec_fn(Seq<char>) -> bool)
    requires
        no_dups(s),
    ensures
        no_dups(s.filter(f)),
    decreases s.len(),
{
    reveal(Seq::filter);
    if s.len() > 0 {
        let p = s.drop_last();
        lemma_filter_no_dups(p, f);
        if f(s.last()) {
            let fp = p.filter(f);
            let fs = s.filter(f);
            assert(fs =~= fp.push(s.last()));
            assert forall|a: int, b: int|
                0 <= a < fs.len() && 0 <= b < fs.len() && a != b implies fs[a] != fs[b] by {
                if a == fs.len() - 1 || b == fs.len() - 1 {
                    let o = if a == fs.len() - 1 { b } else { a };
                    assert(fp.contains(fs[o]));
                    p.lemma_filter_contains_rev(f, fs[o]);
                    let q = choose|q: int| 0 <= q < p.len() && p[q] == fs[o];
                    assert(s[q] == p[q]);
                    assert(s[s.len() - 1] == s.last());
                }
            }
        }
    }
}

/// The elements of a prefix that pass a filter are the first ones of those of the whole.
proof fn lemma_filter_prefix_take(s: Seq<Seq<char>>, f: spec_fn(Seq<char>) -> bool, j: int)
    requires
        0 <= j <= s.len(),
    ensures
        s.filter(f).take(s.take(j).filter(f).len() as int) == s.take(j).filter(f),
{
    assert(s.take(j).is_prefix_of(s)) by {
        assert(s.take(j) =~= s.subrange(0, j));
    }
    s.take(j).lemma_filter_monotone(s, f);
    let a = s.take(j).filter(f);
    let b = s.filter(f);
    assert(b.take(a.len() as int) =~= a);
}

/// Membership in a sequence with one more element.
proof fn lemma_push_contains(s: Seq<Seq<char>>, x: Seq<char>, k: Seq<char>)
    ensures
        s.push(x).contains(k) <==> (s.contains(k) || k == x),
{
    if s.push(x).contains(k) && k != x {
        let a = choose|a: int| 0 <= a < s.push(x).len() && s.push(x)[a] == k;
        assert(s[a] == k);
    }
    if s.contains(k) {
        let a = choose|a: int| 0 <= a < s.len() && s[a] == k;
        assert(s.push(x)[a] == k);
    }
    if k == x {
        assert(s.push(x)[s.len() as int] == k);
    }
}

/// One more chosen id moves (only) the resource with that id to Loading.
proof fn lemma_promote_step(res: Seq<LazyResource>, c: Seq<Seq<char>>, t: int, m: int)
    requires
        0 <= t < c.len(),
        0 <= m < res.len(),
    ensures
        promote(res, c.take(t + 1))[m] == if res[m].id@ == c[t] {
            LazyResource { state: LoadState::Loading, ..res[m] }
        } else {
            promote(res, c.take(t))[m]
        },
{
    assert(c.take(t + 1) =~= c.take(t).push(c[t]));
    lemma_push_contains(c.take(t), c[t], res[m].id@);
}

} // verus!
