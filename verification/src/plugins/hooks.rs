//! Hook system — extension points where plugins can inject behaviour.
use vstd::prelude::*;
use crate::text::{concat3, concat5, insert_sorted, lex_sorted, str_eq, str_views};

verus! {

/// Hook execution priority.
#[derive(Debug, Clone, Copy, PartialEq, Eq, Structural, PartialOrd, Ord)]
pub enum HookPriority {
    /// Runs first.
    Highest,
    /// Runs before normal.
    High,
    /// Default priority.
    Normal,
    /// Runs after normal.
    Low,
    /// Runs last.
    Lowest,
}

/// Position of a priority in execution order (Highest first).
pub open spec fn priority_rank(p: HookPriority) -> nat {
    match p {
        HookPriority::Highest => 0,
        HookPriority::High => 1,
        HookPriority::Normal => 2,
        HookPriority::Low => 3,
        HookPriority::Lowest => 4,
    }
}

fn rank(p: HookPriority) -> (r: u8)
    ensures
        r == priority_rank(p),
{
    match p {
        HookPriority::Highest => 0,
        HookPriority::High => 1,
        HookPriority::Normal => 2,
        HookPriority::Low => 3,
        HookPriority::Lowest => 4,
    }
}

/// Handlers ordered as `invoke` returns them (priority rank never decreasing) run in the
/// declared priority order Highest, High, Normal, Low, Lowest: no handler runs before one
/// whose priority is declared earlier.
pub proof fn law_handlers_follow_declared_priority(hs: Seq<HookHandler>)
    requires
        forall|a: int, b: int|
            0 <= a < b < hs.len() ==> priority_rank(hs[a].priority) <= priority_rank(
                hs[b].priority,
            ),
    ensures
        forall|a: int, b: int|
            #![trigger hs[a], hs[b]]
            0 <= a < b < hs.len() ==> {
                &&& hs[b].priority == HookPriority::Highest ==> hs[a].priority
                    == HookPriority::Highest
                &&& hs[b].priority == HookPriority::High ==> hs[a].priority == HookPriority::Highest
                    || hs[a].priority == HookPriority::High
                &&& hs[a].priority == HookPriority::Low ==> hs[b].priority == HookPriority::Low
                    || hs[b].priority == HookPriority::Lowest
                &&& hs[a].priority == HookPriority::Lowest ==> hs[b].priority
                    == HookPriority::Lowest
                &&& hs[a].priority == HookPriority::Normal ==> hs[b].priority
                    != HookPriority::Highest && hs[b].priority != HookPriority::High
            },
{
}

/// Each priority's rank is below the next one's in declaration order, so sorting by rank
/// runs Highest first and Lowest last.
pub proof fn law_rank_follows_declaration()
    ensures
        priority_rank(HookPriority::Highest) < priority_rank(HookPriority::High),
        priority_rank(HookPriority::High) < priority_rank(HookPriority::Normal),
        priority_rank(HookPriority::Normal) < priority_rank(HookPriority::Low),
        priority_rank(HookPriority::Low) < priority_rank(HookPriority::Lowest),
{
}

/// A registered hook handler.
#[derive(Debug, Clone)]
pub struct HookHandler {
    /// Handler identifier.
    pub id: String,
    /// Plugin that registered this handler.
    pub plugin_id: String,
    /// Priority for ordering.
    pub priority: HookPriority,
    /// Whether the handler is enabled.
    pub enabled: bool,
}

/// Hook point definition.
#[derive(Debug, Clone)]
pub struct HookPoint {
    /// Hook name.
    pub name: String,
    /// Description.
    pub description: String,
    /// Number of times this hook has been invoked.
    pub invocation_count: u64,
}

struct HookSlot {
    point: HookPoint,
    handlers: Vec<HookHandler>,
}

/// The state of one hook: its definition and its handlers in execution order.
pub struct HookState {
    pub point: HookPoint,
    pub handlers: Seq<HookHandler>,
}

spec fn slot_state(s: HookSlot) -> HookState {
    HookState { point: s.point, handlers: s.handlers@ }
}

/// Handlers are ordered by priority, stably.
pub open spec fn rank_sorted(h: Seq<HookHandler>) -> bool {
    forall|a: int, b: int|
        0 <= a < b < h.len() ==> priority_rank(h[a].priority) <= priority_rank(h[b].priority)
}

/// No two handlers share an id.
pub open spec fn ids_unique(h: Seq<HookHandler>) -> bool {
    forall|a: int, b: int| 0 <= a < h.len() && 0 <= b < h.len() && a != b ==> h[a].id@ != h[b].id@
}

/// No two hooks share a name.
pub open spec fn names_unique(s: Seq<HookState>) -> bool {
    forall|a: int, b: int|
        0 <= a < s.len() && 0 <= b < s.len() && a != b ==> s[a].point.name@ != s[b].point.name@
}

/// Some hook is named `name`.
pub open spec fn has_hook(s: Seq<HookState>, name: Seq<char>) -> bool {
    exists|i: int| 0 <= i < s.len() && s[i].point.name@ == name
}

/// The position of the hook named `name` (meaningful when `has_hook(s, name)`).
pub open spec fn hook_pos(s: Seq<HookState>, name: Seq<char>) -> int {
    choose|i: int| 0 <= i < s.len() && s[i].point.name@ == name
}

/// The error for an unknown hook.
pub open spec fn undefined_msg(name: Seq<char>) -> Seq<char> {
    "Hook '"@ + name + "' not defined"@
}

/// `hs` with `h` inserted after every handler whose priority does not come later.
pub open spec fn inserted_by_rank(hs: Seq<HookHandler>, h: HookHandler, out: Seq<HookHandler>) -> bool {
    exists|p: int|
        0 <= p <= hs.len() && (forall|a: int|
            0 <= a < p ==> priority_rank(#[trigger] hs[a].priority) <= priority_rank(h.priority))
            && (forall|a: int|
            p <= a < hs.len() ==> priority_rank(#[trigger] hs[a].priority) > priority_rank(
                h.priority,
            )) && out == hs.insert(p, h)
}

/// Hook names are distinct, and each hook's handlers are ordered by priority with
/// distinct ids.
pub open spec fn hooks_well_formed(v: Seq<HookState>) -> bool {
    &&& names_unique(v)
    &&& forall|i: int|
        0 <= i < v.len() ==> rank_sorted(#[trigger] v[i].handlers) && ids_unique(v[i].handlers)
}

/// Hook manager — manages extension points and handler registration.
pub struct HookManager {
    slots: Vec<HookSlot>,
}

impl HookManager {
    /// The hooks in definition order, each with its handlers.
    pub closed spec fn view(&self) -> Seq<HookState> {
        self.slots@.map_values(|s: HookSlot| slot_state(s))
    }

    #[verifier::type_invariant]
    spec fn inv(self) -> bool {
        hooks_well_formed(self@)
    }

    /// Create a new hook manager without hooks.
    pub fn new() -> (m: Self)
        ensures
            m@.len() == 0,
    {
        HookManager { slots: Vec::new() }
    }

    fn find(slots: &Vec<HookSlot>, name: &str) -> (r: Option<usize>)
        requires
            names_unique(slots@.map_values(|s: HookSlot| slot_state(s))),
        ensures
            ({
                let v = slots@.map_values(|s: HookSlot| slot_state(s));
                match r {
                    Some(i) => i < v.len() && v[i as int].point.name@ == name@ && has_hook(v, name@)
                        && hook_pos(v, name@) == i,
                    None => !has_hook(v, name@),
                }
            }),
    {
        let ghost v = slots@.map_values(|s: HookSlot| slot_state(s));
        let mut i: usize = 0;
        while i < slots.len()
            invariant
                v == slots@.map_values(|s: HookSlot| slot_state(s)),
                names_unique(v),
                i <= slots@.len(),
                forall|j: int| 0 <= j < i ==> v[j].point.name@ != name@,
            decreases slots@.len() - i,
        {
            if str_eq(slots[i].point.name.as_str(), name) {
                proof {
                    assert(v[i as int].point.name@ == name@);
                    let q = hook_pos(v, name@);
                    assert(q == i);
                }
                return Some(i);
            }
            i = i + 1;
        }
        None
    }

    /// Define a new hook point; fails if a hook with that name exists.
    pub fn define_hook(&mut self, name: &str, description: &str) -> (r: Result<(), String>)
        ensures
            has_hook(old(self)@, name@) ==> r is Err && r->Err_0@ == "Hook '"@ + name@
                + "' already defined"@ && final(self)@ == old(self)@,
            !has_hook(old(self)@, name@) ==> r is Ok && final(self)@ == old(self)@.push(
                HookState {
                    point: HookPoint {
                        name: final(self)@.last().point.name,
                        description: final(self)@.last().point.description,
                        invocation_count: 0,
                    },
                    handlers: Seq::empty(),
                },
            ) && final(self)@.last().point.name@ == name@
                && final(self)@.last().point.description@ == description@,
    {
        proof {
            use_type_invariant(&*self);
        }
        if let Some(_) = Self::find(&self.slots, name) {
            return Err(concat3("Hook '", name, "' already defined"));
        }
        let mut slots: Vec<HookSlot> = Vec::new();
        std::mem::swap(&mut slots, &mut self.slots);
        let ghost v0 = slots@.map_values(|s: HookSlot| slot_state(s));
        slots.push(
            HookSlot {
                point: HookPoint {
                    name: name.to_owned(),
                    description: description.to_owned(),
                    invocation_count: 0,
                },
                handlers: Vec::new(),
            },
        );
        proof {
            let v = slots@.map_values(|s: HookSlot| slot_state(s));
            assert(v =~= v0.push(v[v.len() - 1]));
            assert forall|a: int, b: int|
                0 <= a < v.len() && 0 <= b < v.len() && a != b implies v[a].point.name@
                != v[b].point.name@ by {
                if a == v.len() - 1 {
                    assert(v[b] == v0[b]);
                } else if b == v.len() - 1 {
                    assert(v[a] == v0[a]);
                } else {
                    assert(v[a] == v0[a] && v[b] == v0[b]);
                }
            }
            assert forall|i: int|
                0 <= i < v.len() implies rank_sorted(#[trigger] v[i].handlers) && ids_unique(
                v[i].handlers,
            ) by {
                if i < v.len() - 1 {
                    assert(v[i] == v0[i]);
                }
            }
        }
        self.slots = slots;
        Ok(())
    }

    /// Register a handler on a hook, keeping handlers ordered by priority (stably).
    pub fn register_handler(&mut self, hook_name: &str, handler: HookHandler) -> (r: Result<
        (),
        String,
    >)
        ensures
            hooks_well_formed(old(self)@),
            hooks_well_formed(final(self)@),
            !has_hook(old(self)@, hook_name@) ==> r is Err && r->Err_0@ == undefined_msg(
                hook_name@,
            ) && final(self)@ == old(self)@,
            has_hook(old(self)@, hook_name@) ==> ({
                let p = hook_pos(old(self)@, hook_name@);
                let hs = old(self)@[p].handlers;
                if exists|a: int| 0 <= a < hs.len() && hs[a].id@ == handler.id@ {
                    &&& r is Err
                    &&& r->Err_0@ == "Handler '"@ + handler.id@ + "' already registered on hook '"@
                        + hook_name@ + "'"@
                    &&& final(self)@ == old(self)@
                } else {
                    &&& r is Ok
                    &&& final(self)@.len() == old(self)@.len()
                    &&& final(self)@[p].point == old(self)@[p].point
                    &&& inserted_by_rank(hs, handler, final(self)@[p].handlers)
                    &&& forall|i: int|
                        0 <= i < old(self)@.len() && i != p ==> final(self)@[i] == old(self)@[i]
                }
            }),
    {
        proof {
            use_type_invariant(&*self);
        }
        let idx = match Self::find(&self.slots, hook_name) {
            Some(i) => i,
            None => {
                return Err(concat3("Hook '", hook_name, "' not defined"));
            },
        };
        let ghost v0 = self@;
        let ghost hs = v0[idx as int].handlers;
        let mut j: usize = 0;
        while j < self.slots[idx].handlers.len()
            invariant
                idx < self.slots@.len(),
                hs == self.slots@[idx as int].handlers@,
                self@ == v0,
                v0 == old(self)@,
                hooks_well_formed(v0),
                has_hook(v0, hook_name@),
                idx == hook_pos(v0, hook_name@),
                hs == v0[idx as int].handlers,
                j <= hs.len(),
                forall|a: int| 0 <= a < j ==> hs[a].id@ != handler.id@,
            decreases hs.len() - j,
        {
            if str_eq(self.slots[idx].handlers[j].id.as_str(), handler.id.as_str()) {
                assert(hs[j as int].id@ == handler.id@);
                return Err(
                    concat5(
                        "Handler '",
                        handler.id.as_str(),
                        "' already registered on hook '",
                        hook_name,
                        "'",
                    ),
                );
            }
            j = j + 1;
        }
        let r = rank(handler.priority);
        let mut slots: Vec<HookSlot> = Vec::new();
        std::mem::swap(&mut slots, &mut self.slots);
        let mut handlers: Vec<HookHandler> = Vec::new();
        std::mem::swap(&mut handlers, &mut slots[idx].handlers);
        let mut t: usize = 0;
        while t < handlers.len() && rank(handlers[t].priority) <= r
            invariant
                handlers@ == hs,
                t <= hs.len(),
                forall|a: int| 0 <= a < t ==> priority_rank(#[trigger] hs[a].priority) <= r,
            decreases hs.len() - t,
        {
            t = t + 1;
        }
        proof {
            assert forall|a: int| t <= a < hs.len() implies priority_rank(
                #[trigger] hs[a].priority,
            ) > r by {
                assert(priority_rank(hs[t as int].priority) > r);
                assert(rank_sorted(hs));
            }
        }
        let ghost h = handler;
        handlers.insert(t, handler);
        proof {
            let n = handlers@;
            assert(n == hs.insert(t as int, h));
            assert forall|a: int, b: int| 0 <= a < b < n.len() implies priority_rank(
                n[a].priority,
            ) <= priority_rank(n[b].priority) by {
                if a < t && b < t {
                    assert(n[a] == hs[a] && n[b] == hs[b]);
                } else if a < t && b == t {
                    assert(n[a] == hs[a]);
                } else if a < t {
                    assert(n[a] == hs[a] && n[b] == hs[b - 1]);
                } else if a == t {
                    assert(n[b] == hs[b - 1]);
                } else {
                    assert(n[a] == hs[a - 1] && n[b] == hs[b - 1]);
                }
            }
            assert forall|a: int, b: int|
                0 <= a < n.len() && 0 <= b < n.len() && a != b implies n[a].id@ != n[b].id@ by {
                let fa = if a < t { a } else { a - 1 };
                let fb = if b < t { b } else { b - 1 };
                if a != t && b != t {
                    assert(n[a] == hs[fa] && n[b] == hs[fb]);
                } else if a == t {
                    assert(n[b] == hs[fb]);
                } else {
                    assert(n[a] == hs[fa]);
                }
            }
        }
        slots[idx].handlers = handlers;
        proof {
            let v = slots@.map_values(|s: HookSlot| slot_state(s));
            assert forall|i: int| 0 <= i < v.len() && i != idx implies v[i] == v0[i] by {}
            assert(names_unique(v)) by {
                assert forall|a: int, b: int|
                    0 <= a < v.len() && 0 <= b < v.len() && a != b implies v[a].point.name@
                    != v[b].point.name@ by {
                    assert(v[a].point == v0[a].point && v[b].point == v0[b].point);
                }
            }
        }
        self.slots = slots;
        proof {
            use_type_invariant(&*self);
        }
        Ok(())
    }

    /// Unregister a handler by id; fails if the hook or the handler is missing.
    pub fn unregister_handler(&mut self, hook_name: &str, handler_id: &str) -> (r: Result<
        (),
        String,
    >)
        ensures
            !has_hook(old(self)@, hook_name@) ==> r is Err && r->Err_0@ == undefined_msg(
                hook_name@,
            ) && final(self)@ == old(self)@,
            has_hook(old(self)@, hook_name@) ==> ({
                let p = hook_pos(old(self)@, hook_name@);
                let hs = old(self)@[p].handlers;
                &&& final(self)@.len() == old(self)@.len()
                &&& final(self)@[p].point == old(self)@[p].point
                &&& final(self)@[p].handlers == hs.filter(|h: HookHandler| h.id@ != handler_id@)
                &&& forall|i: int|
                    0 <= i < old(self)@.len() && i != p ==> final(self)@[i] == old(self)@[i]
                &&& if exists|a: int| 0 <= a < hs.len() && hs[a].id@ == handler_id@ {
                    r is Ok
                } else {
                    r is Err && r->Err_0@ == "Handler '"@ + handler_id@ + "' not found on hook '"@
                        + hook_name@ + "'"@
                }
            }),
    {
        proof {
            use_type_invariant(&*self);
        }
        let idx = match Self::find(&self.slots, hook_name) {
            Some(i) => i,
            None => {
                return Err(concat3("Hook '", hook_name, "' not defined"));
            },
        };
        let ghost v0 = self@;
        let mut slots: Vec<HookSlot> = Vec::new();
        std::mem::swap(&mut slots, &mut self.slots);
        let mut handlers: Vec<HookHandler> = Vec::new();
        std::mem::swap(&mut handlers, &mut slots[idx].handlers);
        let ghost hs = handlers@;
        let before = handlers.len();
        let kept = Self::retain_handlers(handlers, handler_id, true);
        let after = kept.len();
        proof {
            Self::lemma_filter_sub(hs, |h: HookHandler| h.id@ != handler_id@);
            if exists|a: int| 0 <= a < hs.len() && hs[a].id@ == handler_id@ {
                let a = choose|a: int| 0 <= a < hs.len() && hs[a].id@ == handler_id@;
                Self::lemma_filter_drops(hs, |h: HookHandler| h.id@ != handler_id@, a);
            } else {
                Self::lemma_filter_keeps_all(hs, |h: HookHandler| h.id@ != handler_id@);
            }
        }
        slots[idx].handlers = kept;
        proof {
            let v = slots@.map_values(|s: HookSlot| slot_state(s));
            assert forall|i: int| 0 <= i < v.len() && i != idx implies v[i] == v0[i] by {}
            assert(names_unique(v)) by {
                assert forall|a: int, b: int|
                    0 <= a < v.len() && 0 <= b < v.len() && a != b implies v[a].point.name@
                    != v[b].point.name@ by {
                    assert(v[a].point == v0[a].point && v[b].point == v0[b].point);
                }
            }
        }
        self.slots = slots;
        if after == before {
            return Err(
                concat5("Handler '", handler_id, "' not found on hook '", hook_name, "'"),
            );
        }
        Ok(())
    }

    proof fn lemma_filter_sub(hs: Seq<HookHandler>, f: spec_fn(HookHandler) -> bool)
        requires
            rank_sorted(hs),
            ids_unique(hs),
        ensures
            rank_sorted(hs.filter(f)),
            ids_unique(hs.filter(f)),
            hs.filter(f).len() <= hs.len(),
            forall|b: int|
                0 <= b < hs.filter(f).len() ==> exists|a: int|
                    0 <= a < hs.len() && hs[a] == #[trigger] hs.filter(f)[b],
        decreases hs.len(),
    {
        reveal(Seq::filter);
        if hs.len() > 0 {
            let t = hs.drop_last();
            assert(rank_sorted(t) && ids_unique(t));
            Self::lemma_filter_sub(t, f);
            let ft = t.filter(f);
            assert forall|b: int| 0 <= b < ft.len() implies exists|a: int|
                0 <= a < hs.len() && hs[a] == #[trigger] ft[b] by {
                let a = choose|a: int| 0 <= a < t.len() && t[a] == ft[b];
                assert(hs[a] == t[a]);
            }
            if f(hs.last()) {
                let n = ft.push(hs.last());
                assert(n == hs.filter(f));
                assert forall|b: int| 0 <= b < n.len() implies exists|a: int|
                    0 <= a < hs.len() && hs[a] == #[trigger] n[b] by {
                    if b < ft.len() {
                        assert(n[b] == ft[b]);
                    } else {
                        assert(hs[hs.len() - 1] == n[b]);
                    }
                }
                assert forall|a: int, b: int| 0 <= a < b < n.len() implies priority_rank(
                    n[a].priority,
                ) <= priority_rank(n[b].priority) by {
                    if b == n.len() - 1 {
                        let x = choose|x: int| 0 <= x < t.len() && t[x] == ft[a];
                        assert(hs[x] == n[a]);
                    } else {
                        assert(n[a] == ft[a] && n[b] == ft[b]);
                    }
                }
                assert forall|a: int, b: int|
                    0 <= a < n.len() && 0 <= b < n.len() && a != b implies n[a].id@ != n[b].id@ by {
                    if a == n.len() - 1 {
                        let x = choose|x: int| 0 <= x < t.len() && t[x] == ft[b];
                        assert(hs[x] == n[b]);
                    } else if b == n.len() - 1 {
                        let x = choose|x: int| 0 <= x < t.len() && t[x] == ft[a];
                        assert(hs[x] == n[a]);
                    } else {
                        assert(n[a] == ft[a] && n[b] == ft[b]);
                    }
                }
            } else {
                assert(ft == hs.filter(f));
            }
        }
    }

    proof fn lemma_filter_keeps_all(hs: Seq<HookHandler>, f: spec_fn(HookHandler) -> bool)
        requires
            forall|a: int| 0 <= a < hs.len() ==> f(#[trigger] hs[a]),
        ensures
            hs.filter(f) == hs,
        decreases hs.len(),
    {
        reveal(Seq::filter);
        if hs.len() > 0 {
            Self::lemma_filter_keeps_all(hs.drop_last(), f);
            assert(f(hs[hs.len() - 1]));
            assert(hs.drop_last().push(hs.last()) =~= hs);
        }
    }

    proof fn lemma_filter_drops(hs: Seq<HookHandler>, f: spec_fn(HookHandler) -> bool, a: int)
        requires
            0 <= a < hs.len(),
            !f(hs[a]),
        ensures
            hs.filter(f).len() < hs.len(),
        decreases hs.len(),
    {
        reveal(Seq::filter);
        hs.drop_last().lemma_filter_len(f);
        if a == hs.len() - 1 {
            assert(!f(hs.last()));
        } else {
            assert(hs.drop_last()[a] == hs[a]);
            Self::lemma_filter_drops(hs.drop_last(), f, a);
        }
    }

    fn retain_handlers(handlers: Vec<HookHandler>, key: &str, by_id: bool) -> (r: Vec<HookHandler>)
        ensures
            by_id ==> r@ == handlers@.filter(|h: HookHandler| h.id@ != key@),
            !by_id ==> r@ == handlers@.filter(|h: HookHandler| h.plugin_id@ != key@),
    {
        let ghost f = if by_id {
            |h: HookHandler| h.id@ != key@
        } else {
            |h: HookHandler| h.plugin_id@ != key@
        };
        let ghost s = handlers@;
        let mut src = handlers;
        let mut out: Vec<HookHandler> = Vec::new();
        proof {
            reveal(Seq::filter);
            assert(s.take(0) =~= Seq::<HookHandler>::empty());
        }
        let mut i: usize = 0;
        let n = src.len();
        // Take elements from the back, then restore order.
        let mut rev: Vec<HookHandler> = Vec::new();
        while src.len() > 0
            invariant
                src@.len() + rev@.len() == s.len(),
                src@ == s.take(src@.len() as int),
                forall|j: int| 0 <= j < rev@.len() ==> rev@[j] == s[s.len() - 1 - j],
            decreases src@.len(),
        {
            let ghost k = src@.len();
            let h = src.pop().unwrap();
            proof {
                assert(src@ =~= s.take(k - 1));
            }
            rev.push(h);
        }
        while i < n
            invariant
                n == s.len(),
                i <= n,
                rev@.len() == n - i,
                forall|j: int| 0 <= j < rev@.len() ==> rev@[j] == s[s.len() - 1 - j],
                out@ == s.take(i as int).filter(f),
                f == (if by_id {
                    |h: HookHandler| h.id@ != key@
                } else {
                    |h: HookHandler| h.plugin_id@ != key@
                }),
            decreases n - i,
        {
            let h = rev.pop().unwrap();
            proof {
                assert(h == s[i as int]);
                assert(s.take(i + 1) =~= s.take(i as int).push(h));
                s.take(i as int).lemma_filter_push(h, f);
            }
            let keep = if by_id {
                !str_eq(h.id.as_str(), key)
            } else {
                !str_eq(h.plugin_id.as_str(), key)
            };
            if keep {
                out.push(h);
            }
            i = i + 1;
        }
        proof {
            assert(s.take(n as int) =~= s);
        }
        out
    }

    /// Invoke a hook: count the invocation and return its enabled handlers in order.
    pub fn invoke(&mut self, hook_name: &str) -> (r: Result<Vec<&HookHandler>, String>)
        requires
            has_hook(old(self)@, hook_name@) ==> old(self)@[hook_pos(
                old(self)@,
                hook_name@,
            )].point.invocation_count < u64::MAX,
        ensures
            !has_hook(old(self)@, hook_name@) ==> r is Err && r->Err_0@ == undefined_msg(
                hook_name@,
            ) && final(self)@ == old(self)@,
            has_hook(old(self)@, hook_name@) ==> ({
                let p = hook_pos(old(self)@, hook_name@);
                let o = old(self)@[p];
                let enabled = o.handlers.filter(|h: HookHandler| h.enabled);
                &&& final(self)@ == old(self)@.update(
                    p,
                    HookState {
                        point: HookPoint {
                            invocation_count: (o.point.invocation_count + 1) as u64,
                            ..o.point
                        },
                        handlers: o.handlers,
                    },
                )
                &&& r is Ok
                &&& r->Ok_0@.len() == enabled.len()
                &&& forall|i: int| 0 <= i < enabled.len() ==> *r->Ok_0@[i] == enabled[i]
                &&& forall|a: int, b: int|
                    0 <= a < b < r->Ok_0@.len() ==> priority_rank(r->Ok_0@[a].priority)
                        <= priority_rank(r->Ok_0@[b].priority)
            }),
    {
        proof {
            use_type_invariant(&*self);
        }
        let idx = match Self::find(&self.slots, hook_name) {
            Some(i) => i,
            None => {
                return Err(concat3("Hook '", hook_name, "' not defined"));
            },
        };
        let ghost v0 = self@;
        let mut slots: Vec<HookSlot> = Vec::new();
        std::mem::swap(&mut slots, &mut self.slots);
        let c = slots[idx].point.invocation_count;
        slots[idx].point.invocation_count = c + 1;
        proof {
            let v = slots@.map_values(|s: HookSlot| slot_state(s));
            assert(v =~= v0.update(
                idx as int,
                HookState {
                    point: HookPoint { invocation_count: (c + 1) as u64, ..v0[idx as int].point },
                    handlers: v0[idx as int].handlers,
                },
            ));
            assert(names_unique(v)) by {
                assert forall|a: int, b: int|
                    0 <= a < v.len() && 0 <= b < v.len() && a != b implies v[a].point.name@
                    != v[b].point.name@ by {
                    assert(v[a].point.name == v0[a].point.name);
                    assert(v[b].point.name == v0[b].point.name);
                }
            }
            assert forall|i: int|
                0 <= i < v.len() implies rank_sorted(#[trigger] v[i].handlers) && ids_unique(
                v[i].handlers,
            ) by {
                assert(v[i].handlers == v0[i].handlers);
            }
        }
        self.slots = slots;
        let hs = &self.slots[idx].handlers;
        let ghost s = hs@;
        let ghost f = |h: HookHandler| h.enabled;
        let mut out: Vec<&HookHandler> = Vec::new();
        let mut i: usize = 0;
        proof {
            reveal(Seq::filter);
            assert(s.take(0) =~= Seq::<HookHandler>::empty());
        }
        while i < hs.len()
            invariant
                s == hs@,
                i <= s.len(),
                f == |h: HookHandler| h.enabled,
                out@.len() == s.take(i as int).filter(f).len(),
                forall|j: int| 0 <= j < out@.len() ==> *out@[j] == s.take(i as int).filter(f)[j],
            decreases s.len() - i,
        {
            proof {
                assert(s.take(i + 1) =~= s.take(i as int).push(s[i as int]));
                s.take(i as int).lemma_filter_push(s[i as int], f);
            }
            if hs[i].enabled {
                out.push(&hs[i]);
            }
            i = i + 1;
        }
        proof {
            assert(s.take(i as int) =~= s);
            assert(rank_sorted(v0[idx as int].handlers));
            Self::lemma_filter_sub(s, f);
            let e = s.filter(f);
            assert forall|a: int, b: int| 0 <= a < b < out@.len() implies priority_rank(
                out@[a].priority,
            ) <= priority_rank(out@[b].priority) by {
                assert(*out@[a] == e[a] && *out@[b] == e[b]);
            }
        }
        Ok(out)
    }

    /// Number of handlers on a hook (0 for an unknown hook).
    pub fn handler_count(&self, hook_name: &str) -> (n: usize)
        ensures
            n == (if has_hook(self@, hook_name@) {
                self@[hook_pos(self@, hook_name@)].handlers.len()
            } else {
                0
            }),
    {
        proof {
            use_type_invariant(self);
        }
        match Self::find(&self.slots, hook_name) {
            Some(i) => self.slots[i].handlers.len(),
            None => 0,
        }
    }

    /// Invocation count of a hook (0 for an unknown hook).
    pub fn invocation_count(&self, hook_name: &str) -> (n: u64)
        ensures
            n == (if has_hook(self@, hook_name@) {
                self@[hook_pos(self@, hook_name@)].point.invocation_count
            } else {
                0
            }),
    {
        proof {
            use_type_invariant(self);
        }
        match Self::find(&self.slots, hook_name) {
            Some(i) => self.slots[i].point.invocation_count,
            None => 0,
        }
    }

    /// All hook names, in lexicographic order.
    pub fn hook_names(&self) -> (names: Vec<&str>)
        ensures
            names@.len() == self@.len(),
            lex_sorted(str_views(names@)),
            forall|i: int| 0 <= i < names@.len() ==> has_hook(self@, #[trigger] names@[i]@),
            forall|i: int|
                0 <= i < self@.len() ==> str_views(names@).contains(#[trigger] self@[i].point.name@),
    {
        let ghost v = self@;
        let mut names: Vec<&str> = Vec::new();
        let mut i: usize = 0;
        while i < self.slots.len()
            invariant
                v == self@,
                i <= v.len(),
                names@.len() == i,
                lex_sorted(str_views(names@)),
                forall|a: int| 0 <= a < names@.len() ==> exists|j: int| 0 <= j < i && v[j].point.name@ == #[trigger] names@[a]@,
                forall|j: int| 0 <= j < i ==> str_views(names@).contains(#[trigger] v[j].point.name@),
            decreases v.len() - i,
        {
            let ghost n0 = names@;
            let nm = self.slots[i].point.name.as_str();
            insert_sorted(&mut names, nm);
            proof {
                let x = self.slots@[i as int].point.name@;
                assert(x == v[i as int].point.name@);
                let p = choose|p: int| 0 <= p <= n0.len() && names@ == n0.insert(p, nm);
                assert(str_views(names@)[p] == x);
                assert forall|a: int| 0 <= a < names@.len() implies exists|j: int| 0 <= j < i + 1 && v[j].point.name@ == #[trigger] names@[a]@ by {
                    if a < p {
                        assert(names@[a] == n0[a]);
                    } else if a == p {
                        assert(v[i as int].point.name@ == names@[a]@);
                    } else {
                        assert(names@[a] == n0[a - 1]);
                    }
                }
                assert forall|j: int| 0 <= j < i + 1 implies str_views(names@).contains(#[trigger] v[j].point.name@) by {
                    if j == i {
                        assert(str_views(names@)[p] == v[j].point.name@);
                    } else {
                        assert(str_views(n0).contains(v[j].point.name@));
                        let a = choose|a: int| 0 <= a < str_views(n0).len() && str_views(n0)[a] == v[j].point.name@;
                        if a < p {
                            assert(str_views(names@)[a] == str_views(n0)[a]);
                        } else {
                            assert(str_views(names@)[a + 1] == str_views(n0)[a]);
                        }
                    }
                }
            }
            i = i + 1;
        }
        proof {
            assert forall|a: int| 0 <= a < names@.len() implies has_hook(v, #[trigger] names@[a]@) by {
                let j = choose|j: int| 0 <= j < i && v[j].point.name@ == names@[a]@;
            }
        }
        names
    }

    /// Number of hooks.
    pub fn hook_count(&self) -> (n: usize)
        ensures
            n == self@.len(),
    {
        self.slots.len()
    }

    /// Remove a hook and all its handlers; fails for an unknown hook.
    pub fn remove_hook(&mut self, name: &str) -> (r: Result<(), String>)
        ensures
            !has_hook(old(self)@, name@) ==> r is Err && r->Err_0@ == undefined_msg(name@)
                && final(self)@ == old(self)@,
            has_hook(old(self)@, name@) ==> r is Ok && final(self)@ == old(self)@.remove(
                hook_pos(old(self)@, name@),
            ),
    {
        proof {
            use_type_invariant(&*self);
        }
        let idx = match Self::find(&self.slots, name) {
            Some(i) => i,
            None => {
                return Err(concat3("Hook '", name, "' not defined"));
            },
        };
        let ghost v0 = self@;
        let mut slots: Vec<HookSlot> = Vec::new();
        std::mem::swap(&mut slots, &mut self.slots);
        let _gone = slots.remove(idx);
        proof {
            let v = slots@.map_values(|s: HookSlot| slot_state(s));
            assert(v =~= v0.remove(idx as int));
            assert forall|a: int| 0 <= a < v.len() implies v[a] == v0[if a < idx { a } else { a + 1 }] by {}
            assert(names_unique(v)) by {
                assert forall|a: int, b: int|
                    0 <= a < v.len() && 0 <= b < v.len() && a != b implies v[a].point.name@
                    != v[b].point.name@ by {
                    assert(v[a] == v0[if a < idx { a } else { a + 1 }]);
                    assert(v[b] == v0[if b < idx { b } else { b + 1 }]);
                }
            }
        }
        self.slots = slots;
        Ok(())
    }

    /// Unregister all handlers of a plugin, on every hook.
    pub fn unregister_plugin(&mut self, plugin_id: &str)
        ensures
            final(self)@.len() == old(self)@.len(),
            forall|i: int|
                0 <= i < old(self)@.len() ==> (#[trigger] final(self)@[i]).point == old(self)@[i].point
                    && final(self)@[i].handlers == old(self)@[i].handlers.filter(
                    |h: HookHandler| h.plugin_id@ != plugin_id@,
                ),
    {
        proof {
            use_type_invariant(&*self);
        }
        let ghost v0 = self@;
        let mut slots: Vec<HookSlot> = Vec::new();
        std::mem::swap(&mut slots, &mut self.slots);
        let n = slots.len();
        let mut i: usize = 0;
        while i < n
            invariant
                n == slots@.len(),
                n == v0.len(),
                i <= n,
                names_unique(v0),
                forall|j: int| 0 <= j < n ==> rank_sorted(#[trigger] v0[j].handlers) && ids_unique(v0[j].handlers),
                forall|j: int|
                    0 <= j < n ==> (#[trigger] slots@[j]).point == v0[j].point,
                forall|j: int|
                    0 <= j < i ==> (#[trigger] slots@[j]).handlers@ == v0[j].handlers.filter(
                        |h: HookHandler| h.plugin_id@ != plugin_id@,
                    ),
                forall|j: int| i <= j < n ==> (#[trigger] slots@[j]).handlers@ == v0[j].handlers,
            decreases n - i,
        {
            let mut handlers: Vec<HookHandler> = Vec::new();
            std::mem::swap(&mut handlers, &mut slots[i].handlers);
            let kept = Self::retain_handlers(handlers, plugin_id, false);
            slots[i].handlers = kept;
            i = i + 1;
        }
        proof {
            let v = slots@.map_values(|s: HookSlot| slot_state(s));
            assert forall|j: int| 0 <= j < n implies #[trigger] v[j].point == v0[j].point by {
                assert(slots@[j].point == v0[j].point);
            }
            assert(names_unique(v)) by {
                assert forall|a: int, b: int|
                    0 <= a < v.len() && 0 <= b < v.len() && a != b implies v[a].point.name@
                    != v[b].point.name@ by {
                    assert(v[a].point == v0[a].point && v[b].point == v0[b].point);
                }
            }
            assert forall|j: int|
                0 <= j < v.len() implies rank_sorted(#[trigger] v[j].handlers) && ids_unique(
                v[j].handlers,
            ) by {
                assert(slots@[j].handlers@ == v0[j].handlers.filter(
                    |h: HookHandler| h.plugin_id@ != plugin_id@,
                ));
                Self::lemma_filter_sub(v0[j].handlers, |h: HookHandler| h.plugin_id@ != plugin_id@);
            }
        }
        self.slots = slots;
    }
}

impl Default for HookManager {
    fn default() -> (m: Self)
        ensures
            m@.len() == 0,
    {
        HookManager::new()
    }
}

} // verus!
