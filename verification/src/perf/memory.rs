//! Memory management: per-subsystem budgets, a global budget, and pressure levels.
use vstd::prelude::*;
use crate::text::str_eq;

verus! {

/// Memory pressure level, from least to most severe.
#[derive(Debug, Clone, Copy, PartialEq, Eq, PartialOrd, Ord, Structural)]
pub enum MemoryPressure {
    Normal,
    Warning,
    Critical,
    Emergency,
}

/// The severity of a pressure level (the order of the variants).
pub open spec fn pressure_rank(p: MemoryPressure) -> nat {
    match p {
        MemoryPressure::Normal => 0,
        MemoryPressure::Warning => 1,
        MemoryPressure::Critical => 2,
        MemoryPressure::Emergency => 3,
    }
}

/// The pressure of a budget with `used` of `budget` bytes in use: from a usage of 95%
/// on Emergency, from 85% Critical, from 70% Warning, else Normal; an empty budget is
/// never under pressure.
pub open spec fn spec_pressure(used: nat, budget: nat) -> MemoryPressure {
    if budget == 0 {
        MemoryPressure::Normal
    } else if used * 100 >= budget * 95 {
        MemoryPressure::Emergency
    } else if used * 100 >= budget * 85 {
        MemoryPressure::Critical
    } else if used * 100 >= budget * 70 {
        MemoryPressure::Warning
    } else {
        MemoryPressure::Normal
    }
}

/// A pool of reusable objects, refilled by a factory when empty.
#[verifier::reject_recursive_types(T)]
pub struct ObjectPool<T, F: Fn() -> T> {
    pool: Vec<T>,
    capacity: usize,
    factory: F,
    checkout_count: u64,
    return_count: u64,
}

impl<T, F: Fn() -> T> ObjectPool<T, F> {
    #[verifier::type_invariant]
    spec fn inv(self) -> bool {
        &&& self.factory.requires(())
        &&& self.pool@.len() <= self.capacity
    }

    /// The pooled objects; the last one is handed out first.
    pub closed spec fn spec_pool(&self) -> Seq<T> {
        self.pool@
    }

    /// The most objects the pool keeps.
    pub closed spec fn spec_capacity(&self) -> usize {
        self.capacity
    }

    /// The factory that makes objects when the pool is empty.
    pub closed spec fn spec_factory(&self) -> F {
        self.factory
    }

    /// Checkouts so far.
    pub closed spec fn spec_checkouts(&self) -> u64 {
        self.checkout_count
    }

    /// Returns so far.
    pub closed spec fn spec_returns(&self) -> u64 {
        self.return_count
    }

    /// A pool filled with `capacity` objects from the factory.
    pub fn new(capacity: usize, factory: F) -> (p: Self)
        requires
            factory.requires(()),
        ensures
            p.spec_pool().len() == capacity,
            p.spec_pool().len() <= p.spec_capacity(),
            forall|i: int| 0 <= i < capacity ==> factory.ensures((), #[trigger] p.spec_pool()[i]),
            p.spec_capacity() == capacity,
            p.spec_factory() == factory,
            p.spec_checkouts() == 0,
            p.spec_returns() == 0,
    {
        let mut pool: Vec<T> = Vec::new();
        let mut i: usize = 0;
        while i < capacity
            invariant
                factory.requires(()),
                i <= capacity,
                pool@.len() == i,
                forall|k: int| 0 <= k < i ==> factory.ensures((), #[trigger] pool@[k]),
            decreases capacity - i,
        {
            let obj = factory();
            pool.push(obj);
            i = i + 1;
        }
        ObjectPool { pool, capacity, factory, checkout_count: 0, return_count: 0 }
    }

    /// Check out an object: the most recently pooled one, or a new one from the factory
    /// when the pool is empty.
    pub fn checkout(&mut self) -> (obj: T)
        requires
            old(self).spec_checkouts() < u64::MAX,
        ensures
            final(self).spec_checkouts() == old(self).spec_checkouts() + 1,
            final(self).spec_returns() == old(self).spec_returns(),
            final(self).spec_pool().len() <= final(self).spec_capacity(),
            final(self).spec_capacity() == old(self).spec_capacity(),
            final(self).spec_factory() == old(self).spec_factory(),
            old(self).spec_pool().len() > 0 ==> obj == old(self).spec_pool().last()
                && final(self).spec_pool() == old(self).spec_pool().drop_last(),
            old(self).spec_pool().len() == 0 ==> old(self).spec_factory().ensures((), obj)
                && final(self).spec_pool().len() == 0,
    {
        proof {
            use_type_invariant(&*self);
        }
        self.checkout_count = self.checkout_count + 1;
        let mut pool: Vec<T> = Vec::new();
        std::mem::swap(&mut pool, &mut self.pool);
        let obj = match pool.pop() {
            Some(o) => o,
            None => (self.factory)(),
        };
        self.pool = pool;
        obj
    }

    /// Return an object to the pool; it is dropped when the pool is full.
    pub fn checkin(&mut self, obj: T)
        requires
            old(self).spec_returns() < u64::MAX,
        ensures
            final(self).spec_returns() == old(self).spec_returns() + 1,
            final(self).spec_checkouts() == old(self).spec_checkouts(),
            final(self).spec_pool().len() <= final(self).spec_capacity(),
            final(self).spec_capacity() == old(self).spec_capacity(),
            final(self).spec_factory() == old(self).spec_factory(),
            final(self).spec_pool() == if old(self).spec_pool().len() < old(self).spec_capacity() {
                old(self).spec_pool().push(obj)
            } else {
                old(self).spec_pool()
            },
    {
        proof {
            use_type_invariant(&*self);
        }
        self.return_count = self.return_count + 1;
        if self.pool.len() < self.capacity {
            let mut pool: Vec<T> = Vec::new();
            std::mem::swap(&mut pool, &mut self.pool);
            pool.push(obj);
            self.pool = pool;
        }
    }

    /// Current pool size (available objects).
    pub fn available(&self) -> (n: usize)
        ensures
            n == self.spec_pool().len(),
    {
        self.pool.len()
    }

    /// Total checkouts.
    pub fn total_checkouts(&self) -> (n: u64)
        ensures
            n == self.spec_checkouts(),
    {
        self.checkout_count
    }

    /// Total returns.
    pub fn total_returns(&self) -> (n: u64)
        ensures
            n == self.spec_returns(),
    {
        self.return_count
    }
}

/// Memory budget for a subsystem.
#[derive(Debug, Clone)]
pub struct MemoryBudget {
    pub name: String,
    pub budget_bytes: usize,
    pub used_bytes: usize,
    pub peak_bytes: usize,
    pub allocation_count: u64,
}

impl MemoryBudget {
    /// Create a new, unused memory budget.
    pub fn new(name: &str, budget_bytes: usize) -> (b: Self)
        ensures
            b.name@ == name@,
            b.budget_bytes == budget_bytes,
            b.used_bytes == 0,
            b.peak_bytes == 0,
            b.allocation_count == 0,
    {
        MemoryBudget {
            name: name.to_owned(),
            budget_bytes,
            used_bytes: 0,
            peak_bytes: 0,
            allocation_count: 0,
        }
    }

    /// Try to allocate within the budget: succeeds exactly when the bytes fit, and then
    /// raises the usage, the peak (when exceeded) and the allocation count.
    pub fn allocate(&mut self, bytes: usize) -> (ok: bool)
        requires
            old(self).used_bytes + bytes <= usize::MAX,
            old(self).used_bytes + bytes <= old(self).budget_bytes ==> old(self).allocation_count
                < u64::MAX,
        ensures
            ok == (old(self).used_bytes + bytes <= old(self).budget_bytes),
            !ok ==> *final(self) == *old(self),
            ok ==> *final(self) == (MemoryBudget {
                used_bytes: (old(self).used_bytes + bytes) as usize,
                peak_bytes: if old(self).used_bytes + bytes > old(self).peak_bytes {
                    (old(self).used_bytes + bytes) as usize
                } else {
                    old(self).peak_bytes
                },
                allocation_count: (old(self).allocation_count + 1) as u64,
                ..*old(self)
            }),
    {
        if self.used_bytes + bytes > self.budget_bytes {
            return false;
        }
        self.used_bytes = self.used_bytes + bytes;
        if self.used_bytes > self.peak_bytes {
            self.peak_bytes = self.used_bytes;
        }
        self.allocation_count = self.allocation_count + 1;
        true
    }

    /// Free allocated memory (usage never goes below zero).
    pub fn free(&mut self, bytes: usize)
        ensures
            *final(self) == (MemoryBudget {
                used_bytes: old(self).used_bytes.saturating_sub(bytes),
                ..*old(self)
            }),
    {
        self.used_bytes = self.used_bytes.saturating_sub(bytes);
    }

    /// Remaining bytes (zero when over budget).
    pub fn remaining(&self) -> (n: usize)
        ensures
            n == self.budget_bytes.saturating_sub(self.used_bytes),
    {
        self.budget_bytes.saturating_sub(self.used_bytes)
    }

    /// Current pressure level.
    pub fn pressure(&self) -> (p: MemoryPressure)
        ensures
            p == spec_pressure(self.used_bytes as nat, self.budget_bytes as nat),
    {
        if self.budget_bytes == 0 {
            return MemoryPressure::Normal;
        }
        let used: u128 = self.used_bytes as u128 * 100;
        let budget: u128 = self.budget_bytes as u128;
        if used >= budget * 95 {
            MemoryPressure::Emergency
        } else if used >= budget * 85 {
            MemoryPressure::Critical
        } else if used >= budget * 70 {
            MemoryPressure::Warning
        } else {
            MemoryPressure::Normal
        }
    }
}

/// The bytes in use over a list of budgets.
pub open spec fn used_total(s: Seq<MemoryBudget>) -> nat
    decreases s.len(),
{
    if s.len() == 0 {
        0
    } else {
        used_total(s.drop_last()) + s.last().used_bytes as nat
    }
}

/// The highest pressure rank over a list of budgets (0 for none).
pub open spec fn max_rank(s: Seq<MemoryBudget>) -> nat
    decreases s.len(),
{
    if s.len() == 0 {
        0
    } else {
        let r = pressure_rank(spec_pressure(s.last().used_bytes as nat, s.last().budget_bytes as nat));
        let m = max_rank(s.drop_last());
        if r > m {
            r
        } else {
            m
        }
    }
}

/// The names of a list of budgets.
pub open spec fn budget_names(s: Seq<MemoryBudget>) -> Seq<Seq<char>> {
    s.map_values(|b: MemoryBudget| b.name@)
}

/// No name occurs twice.
pub open spec fn names_distinct(n: Seq<Seq<char>>) -> bool {
    forall|a: int, b: int| 0 <= a < n.len() && 0 <= b < n.len() && a != b ==> n[a] != n[b]
}

/// The position of a name (meaningful when present).
pub open spec fn name_index(n: Seq<Seq<char>>, k: Seq<char>) -> int {
    choose|i: int| 0 <= i < n.len() && n[i] == k
}

proof fn lemma_used_total_update(s: Seq<MemoryBudget>, i: int, b: MemoryBudget)
    requires
        0 <= i < s.len(),
    ensures
        used_total(s.update(i, b)) == used_total(s) - s[i].used_bytes + b.used_bytes,
    decreases s.len(),
{
    let t = s.update(i, b);
    if i == s.len() - 1 {
        assert(t.drop_last() =~= s.drop_last());
    } else {
        lemma_used_total_update(s.drop_last(), i, b);
        assert(t.drop_last() =~= s.drop_last().update(i, b));
    }
}

proof fn lemma_used_total_le(s: Seq<MemoryBudget>, i: int)
    requires
        0 <= i < s.len(),
    ensures
        s[i].used_bytes <= used_total(s),
    decreases s.len(),
{
    if i < s.len() - 1 {
        lemma_used_total_le(s.drop_last(), i);
    }
}

/// Memory manager: budgets for named subsystems under one global budget. The bytes in
/// use over all subsystems never exceed the global budget.
pub struct MemoryManager {
    budgets: Vec<MemoryBudget>,
    global_budget: usize,
}

/// Memory snapshot for diagnostics.
#[derive(Debug, Clone)]
pub struct MemorySnapshot {
    pub total_budget: usize,
    pub total_used: usize,
    pub total_remaining: usize,
    pub pressure: MemoryPressure,
    pub subsystems: Vec<MemoryBudget>,
}

impl MemoryManager {
    #[verifier::type_invariant]
    spec fn inv(self) -> bool {
        &&& names_distinct(budget_names(self.budgets@))
        &&& used_total(self.budgets@) <= self.global_budget
    }

    /// The subsystem budgets, in registration order; names are distinct.
    pub closed spec fn spec_budgets(&self) -> Seq<MemoryBudget> {
        self.budgets@
    }

    /// The global budget.
    pub closed spec fn spec_global(&self) -> usize {
        self.global_budget
    }

    /// The registered subsystem names.
    pub open spec fn spec_names(&self) -> Seq<Seq<char>> {
        budget_names(self.spec_budgets())
    }

    /// The budget of a subsystem (meaningful when registered).
    pub open spec fn budget_of(&self, name: Seq<char>) -> MemoryBudget {
        self.spec_budgets()[name_index(self.spec_names(), name)]
    }

    /// Create a new memory manager with a global budget.
    pub fn new(global_budget: usize) -> (m: Self)
        ensures
            m.spec_budgets().len() == 0,
            m.spec_global() == global_budget,
    {
        let budgets: Vec<MemoryBudget> = Vec::new();
        assert(budget_names(budgets@) =~= Seq::<Seq<char>>::empty());
        MemoryManager { budgets, global_budget }
    }

    fn find(&self, name: &str) -> (r: Option<usize>)
        ensures
            match r {
                Some(i) => i < self.spec_budgets().len() && self.spec_names().contains(name@)
                    && name_index(self.spec_names(), name@) == i
                    && self.spec_budgets()[i as int].name@ == name@,
                None => !self.spec_names().contains(name@),
            },
    {
        proof {
            use_type_invariant(self);
        }
        let ghost ns = self.spec_names();
        let mut i: usize = 0;
        while i < self.budgets.len()
            invariant
                ns == budget_names(self.budgets@),
                names_distinct(ns),
                i <= self.budgets@.len(),
                forall|j: int| 0 <= j < i ==> ns[j] != name@,
            decreases self.budgets@.len() - i,
        {
            if str_eq(self.budgets[i].name.as_str(), name) {
                proof {
                    assert(ns[i as int] == name@);
                    assert(name_index(ns, name@) == i);
                }
                return Some(i);
            }
            i = i + 1;
        }
        None
    }

    /// Register a subsystem budget; a budget already under that name is replaced by a
    /// fresh one.
    pub fn register_budget(&mut self, name: &str, budget_bytes: usize)
        ensures
            final(self).spec_global() == old(self).spec_global(),
            old(self).spec_names().contains(name@) ==> final(self).spec_budgets() == old(
                self,
            ).spec_budgets().update(
                name_index(old(self).spec_names(), name@),
                final(self).budget_of(name@),
            ),
            !old(self).spec_names().contains(name@) ==> final(self).spec_budgets().drop_last()
                == old(self).spec_budgets() && final(self).spec_budgets().len() == old(
                self,
            ).spec_budgets().len() + 1,
            final(self).spec_names().contains(name@),
            final(self).budget_of(name@).name@ == name@,
            final(self).budget_of(name@).budget_bytes == budget_bytes,
            final(self).budget_of(name@).used_bytes == 0,
            final(self).budget_of(name@).peak_bytes == 0,
            final(self).budget_of(name@).allocation_count == 0,
    {
        proof {
            use_type_invariant(&*self);
        }
        let fresh = MemoryBudget::new(name, budget_bytes);
        let ghost s0 = self.budgets@;
        let ghost n0 = budget_names(s0);
        let found = self.find(name);
        let mut budgets: Vec<MemoryBudget> = Vec::new();
        std::mem::swap(&mut budgets, &mut self.budgets);
        match found {
            Some(i) => {
                budgets.set(i, fresh);
                proof {
                    lemma_used_total_update(s0, i as int, fresh);
                    assert(budget_names(budgets@) =~= n0);
                }
            },
            None => {
                budgets.push(fresh);
                proof {
                    let ns = budget_names(budgets@);
                    assert(ns =~= n0.push(name@));
                    assert(budgets@.drop_last() =~= s0);
                    assert forall|a: int, b: int|
                        0 <= a < ns.len() && 0 <= b < ns.len() && a != b implies ns[a] != ns[b] by {
                        if a == ns.len() - 1 {
                            assert(ns[b] == n0[b]);
                        } else if b == ns.len() - 1 {
                            assert(ns[a] == n0[a]);
                        }
                    }
                    assert(ns[ns.len() - 1] == name@);
                    assert(name_index(ns, name@) == ns.len() - 1);
                }
            },
        }
        self.budgets = budgets;
    }

    /// Allocate memory for a subsystem: fails when the subsystem is unknown, when the
    /// bytes would take the total over the global budget, or when its own budget refuses.
    pub fn allocate(&mut self, subsystem: &str, bytes: usize) -> (ok: bool)
        requires
            old(self).spec_names().contains(subsystem@) ==> old(self).budget_of(
                subsystem@,
            ).allocation_count < u64::MAX,
        ensures
            final(self).spec_global() == old(self).spec_global(),
            ok == (old(self).spec_names().contains(subsystem@) && used_total(
                old(self).spec_budgets(),
            ) + bytes <= old(self).spec_global() && old(self).budget_of(subsystem@).used_bytes
                + bytes <= old(self).budget_of(subsystem@).budget_bytes),
            !ok ==> final(self).spec_budgets() == old(self).spec_budgets(),
            ok ==> ({
                let p = name_index(old(self).spec_names(), subsystem@);
                let b = old(self).spec_budgets()[p];
                final(self).spec_budgets() == old(self).spec_budgets().update(
                    p,
                    MemoryBudget {
                        used_bytes: (b.used_bytes + bytes) as usize,
                        peak_bytes: if b.used_bytes + bytes > b.peak_bytes {
                            (b.used_bytes + bytes) as usize
                        } else {
                            b.peak_bytes
                        },
                        allocation_count: (b.allocation_count + 1) as u64,
                        ..b
                    },
                )
            }),
    {
        proof {
            use_type_invariant(&*self);
        }
        let total_used = self.total_used();
        if bytes > self.global_budget - total_used {
            return false;
        }
        let i = match self.find(subsystem) {
            Some(i) => i,
            None => {
                return false;
            },
        };
        let ghost s0 = self.budgets@;
        proof {
            lemma_used_total_le(s0, i as int);
        }
        let mut budgets: Vec<MemoryBudget> = Vec::new();
        std::mem::swap(&mut budgets, &mut self.budgets);
        let mut b = budgets.remove(i);
        let ok = b.allocate(bytes);
        budgets.insert(i, b);
        proof {
            assert(budgets@ =~= s0.update(i as int, b));
            lemma_used_total_update(s0, i as int, b);
            assert(budget_names(budgets@) =~= budget_names(s0));
        }
        self.budgets = budgets;
        ok
    }

    /// Free memory for a subsystem (nothing happens for an unknown one).
    pub fn free(&mut self, subsystem: &str, bytes: usize)
        ensures
            final(self).spec_global() == old(self).spec_global(),
            !old(self).spec_names().contains(subsystem@) ==> final(self).spec_budgets() == old(
                self,
            ).spec_budgets(),
            old(self).spec_names().contains(subsystem@) ==> ({
                let p = name_index(old(self).spec_names(), subsystem@);
                let b = old(self).spec_budgets()[p];
                final(self).spec_budgets() == old(self).spec_budgets().update(
                    p,
                    MemoryBudget { used_bytes: b.used_bytes.saturating_sub(bytes), ..b },
                )
            }),
    {
        proof {
            use_type_invariant(&*self);
        }
        let i = match self.find(subsystem) {
            Some(i) => i,
            None => {
                return ;
            },
        };
        let ghost s0 = self.budgets@;
        let mut budgets: Vec<MemoryBudget> = Vec::new();
        std::mem::swap(&mut budgets, &mut self.budgets);
        let mut b = budgets.remove(i);
        b.free(bytes);
        budgets.insert(i, b);
        proof {
            assert(budgets@ =~= s0.update(i as int, b));
            lemma_used_total_update(s0, i as int, b);
            assert(budget_names(budgets@) =~= budget_names(s0));
        }
        self.budgets = budgets;
    }

    /// Total memory used across all subsystems; it never exceeds the global budget.
    pub fn total_used(&self) -> (n: usize)
        ensures
            n == used_total(self.spec_budgets()),
            n <= self.spec_global(),
    {
        proof {
            use_type_invariant(self);
        }
        let ghost s = self.budgets@;
        let mut total: usize = 0;
        let mut i: usize = 0;
        while i < self.budgets.len()
            invariant
                s == self.budgets@,
                used_total(s) <= self.global_budget,
                i <= s.len(),
                total == used_total(s.take(i as int)),
            decreases s.len() - i,
        {
            proof {
                assert(s.take(i + 1).drop_last() =~= s.take(i as int));
                lemma_used_total_prefix(s, i + 1);
            }
            total = total + self.budgets[i].used_bytes;
            i = i + 1;
        }
        assert(s.take(i as int) =~= s);
        total
    }

    /// Global memory remaining.
    pub fn global_remaining(&self) -> (n: usize)
        ensures
            n == self.spec_global() - used_total(self.spec_budgets()),
    {
        proof {
            use_type_invariant(self);
        }
        self.global_budget - self.total_used()
    }

    /// The highest pressure level across all subsystems (Normal when there are none).
    pub fn overall_pressure(&self) -> (p: MemoryPressure)
        ensures
            pressure_rank(p) == max_rank(self.spec_budgets()),
    {
        let ghost s = self.budgets@;
        let mut best = MemoryPressure::Normal;
        let mut best_rank: u8 = 0;
        let mut i: usize = 0;
        while i < self.budgets.len()
            invariant
                s == self.budgets@,
                i <= s.len(),
                best_rank == pressure_rank(best),
                best_rank == max_rank(s.take(i as int)),
            decreases s.len() - i,
        {
            proof {
                assert(s.take(i + 1).drop_last() =~= s.take(i as int));
            }
            let p = self.budgets[i].pressure();
            let r: u8 = match p {
                MemoryPressure::Normal => 0,
                MemoryPressure::Warning => 1,
                MemoryPressure::Critical => 2,
                MemoryPressure::Emergency => 3,
            };
            if r > best_rank {
                best = p;
                best_rank = r;
            }
            i = i + 1;
        }
        assert(s.take(i as int) =~= s);
        best
    }

    /// A copy of a subsystem's budget.
    pub fn budget_info(&self, subsystem: &str) -> (r: Option<MemoryBudget>)
        ensures
            self.spec_names().contains(subsystem@) ==> r is Some && r->0 == self.budget_of(subsystem@),
            !self.spec_names().contains(subsystem@) ==> r is None,
    {
        match self.find(subsystem) {
            Some(i) => Some(copy_budget(&self.budgets[i])),
            None => None,
        }
    }

    /// Copies of all budgets, in registration order.
    pub fn all_budgets(&self) -> (r: Vec<MemoryBudget>)
        ensures
            r@ == self.spec_budgets(),
    {
        let mut out: Vec<MemoryBudget> = Vec::new();
        let mut i: usize = 0;
        while i < self.budgets.len()
            invariant
                i <= self.budgets@.len(),
                out@ == self.budgets@.take(i as int),
            decreases self.budgets@.len() - i,
        {
            out.push(copy_budget(&self.budgets[i]));
            assert(self.budgets@.take(i + 1) =~= self.budgets@.take(i as int).push(
                self.budgets@[i as int],
            ));
            i = i + 1;
        }
        assert(self.budgets@.take(i as int) =~= self.budgets@);
        out
    }

    /// Number of registered subsystems.
    pub fn subsystem_count(&self) -> (n: usize)
        ensures
            n == self.spec_budgets().len(),
    {
        self.budgets.len()
    }

    /// A snapshot of the current memory state.
    pub fn snapshot(&self) -> (s: MemorySnapshot)
        ensures
            s.total_budget == self.spec_global(),
            s.total_used == used_total(self.spec_budgets()),
            s.total_remaining == self.spec_global() - used_total(self.spec_budgets()),
            pressure_rank(s.pressure) == max_rank(self.spec_budgets()),
            s.subsystems@ == self.spec_budgets(),
    {
        MemorySnapshot {
            total_budget: self.global_budget,
            total_used: self.total_used(),
            total_remaining: self.global_remaining(),
            pressure: self.overall_pressure(),
            subsystems: self.all_budgets(),
        }
    }
}

/// A field-by-field copy of a budget.
fn copy_budget(b: &MemoryBudget) -> (c: MemoryBudget)
    ensures
        c == *b,
{
    MemoryBudget {
        name: b.name.clone(),
        budget_bytes: b.budget_bytes,
        used_bytes: b.used_bytes,
        peak_bytes: b.peak_bytes,
        allocation_count: b.allocation_count,
    }
}

proof fn lemma_used_total_prefix(s: Seq<MemoryBudget>, k: int)
    requires
        0 <= k <= s.len(),
    ensures
        used_total(s.take(k)) <= used_total(s),
    decreases s.len() - k,
{
    if k < s.len() {
        lemma_used_total_prefix(s, k + 1);
        assert(s.take(k + 1).drop_last() =~= s.take(k));
    } else {
        assert(s.take(k) =~= s);
    }
}

} // verus!
