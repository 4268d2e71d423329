//! Installation management: plugins installed per user, updates, enable/disable and
//! uninstallation.
use vstd::prelude::*;
use crate::types::{now_millis, EntityId};

verus! {

/// Installation status.
#[derive(Debug, Clone, Copy, PartialEq, Eq, Structural)]
pub enum InstallationStatus {
    /// Actively running.
    Active,
    /// Installed but disabled by user.
    Disabled,
    /// Update available.
    UpdateAvailable,
    /// Currently updating.
    Updating,
    /// Installation failed.
    Failed,
    /// Uninstalled (kept for history).
    Uninstalled,
}

/// An installed plugin instance for a user.
#[derive(Debug, Clone)]
pub struct Installation {
    pub id: EntityId,
    pub listing_id: EntityId,
    pub user_id: EntityId,
    pub installed_version: String,
    pub status: InstallationStatus,
    pub auto_update: bool,
    /// Installation time, in milliseconds since the Unix epoch.
    pub installed_at_ms: i64,
    /// Last change, in milliseconds since the Unix epoch.
    pub updated_at_ms: i64,
}

/// Update check result.
#[derive(Debug, Clone)]
pub struct UpdateInfo {
    pub listing_id: EntityId,
    pub current_version: String,
    pub available_version: String,
    pub changelog: String,
}

/// Installation errors.
#[derive(Debug, Clone, PartialEq, Eq, Structural)]
pub enum InstallationError {
    /// No installation with this id.
    NotFound(EntityId),
    /// The user already has this listing installed.
    AlreadyInstalled { user_id: EntityId, listing_id: EntityId },
    /// The installation was uninstalled already.
    AlreadyUninstalled,
    /// The user has reached the installation limit.
    TooManyInstallations { max: usize },
    /// The status change is not allowed from the current status.
    InvalidTransition { from: InstallationStatus, to: InstallationStatus },
}

/// The ids of some installations.
pub open spec fn install_ids(s: Seq<Installation>) -> Seq<EntityId> {
    s.map_values(|i: Installation| i.id)
}

/// No id occurs twice.
pub open spec fn ids_unique(s: Seq<EntityId>) -> bool {
    forall|a: int, b: int| 0 <= a < s.len() && 0 <= b < s.len() && a != b ==> s[a] != s[b]
}

/// The position of `id` in `s` (meaningful when present).
pub open spec fn id_pos(s: Seq<EntityId>, id: EntityId) -> int {
    choose|i: int| 0 <= i < s.len() && s[i] == id
}

/// The (user, listing) pairs of some installation keys.
pub open spec fn pair_keys(s: Seq<(EntityId, EntityId, EntityId)>) -> Seq<(EntityId, EntityId)> {
    s.map_values(|k: (EntityId, EntityId, EntityId)| (k.0, k.1))
}

/// No (user, listing) pair occurs twice.
pub open spec fn pairs_unique(s: Seq<(EntityId, EntityId)>) -> bool {
    forall|a: int, b: int| 0 <= a < s.len() && 0 <= b < s.len() && a != b ==> s[a] != s[b]
}

/// The predicate "an installation of this user that is not uninstalled".
pub open spec fn live_for(user: EntityId) -> spec_fn(Installation) -> bool {
    |i: Installation| i.user_id == user && i.status != InstallationStatus::Uninstalled
}

/// The predicate "active".
pub open spec fn is_active_install() -> spec_fn(Installation) -> bool {
    |i: Installation| i.status == InstallationStatus::Active
}

/// The predicate "an update is available and applied automatically".
pub open spec fn awaiting_update() -> spec_fn(Installation) -> bool {
    |i: Installation| i.status == InstallationStatus::UpdateAvailable && i.auto_update
}

/// `r` refers to exactly the elements of `s`, in order.
pub open spec fn install_refs(r: Seq<&Installation>, s: Seq<Installation>) -> bool {
    r.len() == s.len() && forall|i: int| 0 <= i < s.len() ==> *r[i] == s[i]
}

/// Manages plugin installations per user.
pub struct InstallationManager {
    installations: Vec<Installation>,
    user_installs: Vec<(EntityId, EntityId, EntityId)>,
    max_per_user: usize,
}

impl InstallationManager {
    #[verifier::type_invariant]
    spec fn inv(self) -> bool {
        &&& ids_unique(install_ids(self.installations@))
        &&& pairs_unique(pair_keys(self.user_installs@))
    }

    /// The installations, in the order they were made; their ids are distinct.
    pub closed spec fn spec_installs(&self) -> Seq<Installation> {
        self.installations@
    }

    /// The (user, listing, installation id) triples of current installations; at most one
    /// per (user, listing) pair.
    pub closed spec fn spec_keys(&self) -> Seq<(EntityId, EntityId, EntityId)> {
        self.user_installs@
    }

    /// The per-user limit.
    pub closed spec fn spec_max(&self) -> usize {
        self.max_per_user
    }

    /// Whether an installation has this id.
    pub open spec fn has_install(&self, id: EntityId) -> bool {
        install_ids(self.spec_installs()).contains(id)
    }

    /// The installation with this id (meaningful when present).
    pub open spec fn install_of(&self, id: EntityId) -> Installation {
        self.spec_installs()[id_pos(install_ids(self.spec_installs()), id)]
    }

    /// The position of the installation with this id (meaningful when present).
    pub open spec fn pos_of(&self, id: EntityId) -> int {
        id_pos(install_ids(self.spec_installs()), id)
    }

    /// Whether the user currently has the listing installed.
    pub open spec fn has_pair(&self, user: EntityId, listing: EntityId) -> bool {
        pair_keys(self.spec_keys()).contains((user, listing))
    }

    /// A manager with no installations and a per-user limit.
    pub fn new(max_per_user: usize) -> (m: Self)
        ensures
            m.spec_installs().len() == 0,
            m.spec_keys().len() == 0,
            m.spec_max() == max_per_user,
    {
        let installations: Vec<Installation> = Vec::new();
        let user_installs: Vec<(EntityId, EntityId, EntityId)> = Vec::new();
        assert(install_ids(installations@) =~= Seq::<EntityId>::empty());
        assert(pair_keys(user_installs@) =~= Seq::<(EntityId, EntityId)>::empty());
        InstallationManager { installations, user_installs, max_per_user }
    }

    fn find(&self, id: EntityId) -> (r: Option<usize>)
        ensures
            match r {
                Some(i) => i < self.spec_installs().len() && self.has_install(id) && self.pos_of(id)
                    == i && self.spec_installs()[i as int].id == id,
                None => !self.has_install(id),
            },
    {
        proof {
            use_type_invariant(self);
        }
        let ghost ids = install_ids(self.installations@);
        let mut i: usize = 0;
        while i < self.installations.len()
            invariant
                ids == install_ids(self.installations@),
                ids_unique(ids),
                i <= self.installations@.len(),
                forall|j: int| 0 <= j < i ==> ids[j] != id,
            decreases self.installations@.len() - i,
        {
            if self.installations[i].id == id {
                proof {
                    assert(ids[i as int] == id);
                    assert(id_pos(ids, id) == i);
                }
                return Some(i);
            }
            i = i + 1;
        }
        None
    }

    fn find_pair(&self, user: EntityId, listing: EntityId) -> (r: Option<usize>)
        ensures
            match r {
                Some(i) => i < self.spec_keys().len() && self.spec_keys()[i as int].0 == user
                    && self.spec_keys()[i as int].1 == listing && self.has_pair(user, listing),
                None => !self.has_pair(user, listing),
            },
    {
        let ghost ks = pair_keys(self.user_installs@);
        let mut i: usize = 0;
        while i < self.user_installs.len()
            invariant
                ks == pair_keys(self.user_installs@),
                i <= self.user_installs@.len(),
                forall|j: int| 0 <= j < i ==> ks[j] != (user, listing),
            decreases self.user_installs@.len() - i,
        {
            let k = self.user_installs[i];
            if k.0 == user && k.1 == listing {
                assert(ks[i as int] == (user, listing));
                return Some(i);
            }
            i = i + 1;
        }
        None
    }

    fn count_live_for(&self, user: EntityId) -> (n: usize)
        ensures
            n == self.spec_installs().filter(live_for(user)).len(),
    {
        let ghost s = self.installations@;
        let ghost f = live_for(user);
        let mut count: usize = 0;
        let mut i: usize = 0;
        proof {
            reveal(Seq::filter);
            assert(s.take(0) =~= Seq::<Installation>::empty());
        }
        while i < self.installations.len()
            invariant
                s == self.installations@,
                f == live_for(user),
                i <= s.len(),
                count == s.take(i as int).filter(f).len(),
                count <= i,
            decreases s.len() - i,
        {
            proof {
                assert(s.take(i + 1) =~= s.take(i as int).push(s[i as int]));
                s.take(i as int).lemma_filter_push(s[i as int], f);
            }
            if self.installations[i].user_id == user && self.installations[i].status
                != InstallationStatus::Uninstalled {
                count = count + 1;
            }
            i = i + 1;
        }
        proof {
            assert(s.take(i as int) =~= s);
        }
        count
    }

    /// Install a listing for a user: refused when the user has it installed already, or
    /// has reached the limit of installations that are not uninstalled. A new
    /// installation is active with automatic updates, under a fresh id (replacing any
    /// earlier installation record with that id).
    pub fn install(&mut self, listing_id: EntityId, user_id: EntityId, version: &str) -> (r: Result<Installation, InstallationError>)
        ensures
            final(self).spec_max() == old(self).spec_max(),
            old(self).has_pair(user_id, listing_id) ==> r == Err::<Installation, InstallationError>(
                InstallationError::AlreadyInstalled { user_id, listing_id },
            ) && final(self).spec_installs() == old(self).spec_installs() && final(self).spec_keys()
                == old(self).spec_keys(),
            !old(self).has_pair(user_id, listing_id) && old(self).spec_installs().filter(
                live_for(user_id),
            ).len() >= old(self).spec_max() ==> r == Err::<Installation, InstallationError>(
                InstallationError::TooManyInstallations { max: old(self).spec_max() },
            ) && final(self).spec_installs() == old(self).spec_installs() && final(self).spec_keys()
                == old(self).spec_keys(),
            !old(self).has_pair(user_id, listing_id) && old(self).spec_installs().filter(
                live_for(user_id),
            ).len() < old(self).spec_max() ==> ({
                let inst = r->Ok_0;
                &&& r is Ok
                &&& inst.listing_id == listing_id
                &&& inst.user_id == user_id
                &&& inst.installed_version@ == version@
                &&& inst.status == InstallationStatus::Active
                &&& inst.auto_update
                &&& final(self).has_install(inst.id)
                &&& final(self).install_of(inst.id) == inst
                &&& final(self).spec_keys() == old(self).spec_keys().push((user_id, listing_id, inst.id))
                &&& forall|id: EntityId| id != inst.id ==> (final(self).has_install(id) == old(
                    self,
                ).has_install(id)) && (old(self).has_install(id) ==> final(self).install_of(id)
                    == old(self).install_of(id))
            }),
    {
        proof {
            use_type_invariant(&*self);
        }
        if let Some(_) = self.find_pair(user_id, listing_id) {
            return Err(InstallationError::AlreadyInstalled { user_id, listing_id });
        }
        let active_count = self.count_live_for(user_id);
        if active_count >= self.max_per_user {
            return Err(InstallationError::TooManyInstallations { max: self.max_per_user });
        }
        let now = now_millis();
        let installation = Installation {
            id: EntityId::new(),
            listing_id,
            user_id,
            installed_version: version.to_owned(),
            status: InstallationStatus::Active,
            auto_update: true,
            installed_at_ms: now,
            updated_at_ms: now,
        };
        let result = copy_installation(&installation);
        let id = installation.id;
        let ghost k0 = self.user_installs@;
        let mut keys: Vec<(EntityId, EntityId, EntityId)> = Vec::new();
        std::mem::swap(&mut keys, &mut self.user_installs);
        keys.push((user_id, listing_id, id));
        proof {
            let pk = pair_keys(keys@);
            let p0 = pair_keys(k0);
            assert(pk =~= p0.push((user_id, listing_id)));
            assert forall|a: int, b: int|
                0 <= a < pk.len() && 0 <= b < pk.len() && a != b implies pk[a] != pk[b] by {
                if a == pk.len() - 1 {
                    assert(pk[b] == p0[b]);
                } else if b == pk.len() - 1 {
                    assert(pk[a] == p0[a]);
                }
            }
        }
        self.user_installs = keys;
        self.put_installation(installation);
        Ok(result)
    }

    /// Store an installation under its id, replacing a record with the same id.
    fn put_installation(&mut self, inst: Installation)
        ensures
            final(self).has_install(inst.id),
            final(self).install_of(inst.id) == inst,
            forall|id: EntityId| id != inst.id ==> (final(self).has_install(id) == old(self).has_install(id))
                && (old(self).has_install(id) ==> final(self).install_of(id) == old(self).install_of(id)),
            final(self).spec_keys() == old(self).spec_keys(),
            final(self).spec_max() == old(self).spec_max(),
    {
        proof {
            use_type_invariant(&*self);
        }
        let ghost s0 = self.installations@;
        let ghost n0 = install_ids(s0);
        let found = self.find(inst.id);
        let mut all: Vec<Installation> = Vec::new();
        std::mem::swap(&mut all, &mut self.installations);
        let ghost id = inst.id;
        match found {
            Some(i) => {
                all.set(i, inst);
                proof {
                    let s1 = all@;
                    assert(install_ids(s1) =~= n0);
                    assert(id_pos(install_ids(s1), id) == i);
                    assert forall|x: EntityId| x != id implies (install_ids(s1).contains(x)
                        == n0.contains(x)) && (n0.contains(x) ==> s1[id_pos(install_ids(s1), x)]
                        == s0[id_pos(n0, x)]) by {
                        if n0.contains(x) {
                            let p = id_pos(n0, x);
                            assert(p != i);
                            assert(s1[p] == s0[p]);
                        }
                    }
                }
            },
            None => {
                all.push(inst);
                proof {
                    let s1 = all@;
                    let n1 = install_ids(s1);
                    assert(n1 =~= n0.push(id));
                    assert forall|a: int, b: int|
                        0 <= a < n1.len() && 0 <= b < n1.len() && a != b implies n1[a] != n1[b] by {
                        if a == n1.len() - 1 {
                            assert(n1[b] == n0[b]);
                        } else if b == n1.len() - 1 {
                            assert(n1[a] == n0[a]);
                        }
                    }
                    assert(n1[n0.len() as int] == id);
                    assert(id_pos(n1, id) == n0.len());
                    assert forall|x: EntityId| x != id implies (n1.contains(x) == n0.contains(x))
                        && (n0.contains(x) ==> s1[id_pos(n1, x)] == s0[id_pos(n0, x)]) by {
                        if n0.contains(x) {
                            let p = id_pos(n0, x);
                            assert(n1[p] == x);
                            assert(id_pos(n1, x) == p);
                            assert(s1[p] == s0[p]);
                        }
                        if n1.contains(x) {
                            let q = choose|q: int| 0 <= q < n1.len() && n1[q] == x;
                            assert(q < n0.len());
                            assert(n0[q] == x);
                        }
                    }
                }
            },
        }
        self.installations = all;
    }

    /// Replace the installation at position `i`, keeping its id.
    fn set_installation(&mut self, i: usize, inst: Installation)
        requires
            i < old(self).spec_installs().len(),
            inst.id == old(self).spec_installs()[i as int].id,
        ensures
            final(self).spec_installs() == old(self).spec_installs().update(i as int, inst),
            final(self).spec_keys() == old(self).spec_keys(),
            final(self).spec_max() == old(self).spec_max(),
    {
        proof {
            use_type_invariant(&*self);
        }
        let ghost s0 = self.installations@;
        let mut all: Vec<Installation> = Vec::new();
        std::mem::swap(&mut all, &mut self.installations);
        all.set(i, inst);
        assert(install_ids(all@) =~= install_ids(s0));
        self.installations = all;
    }

    /// Uninstall: the installation is kept, marked uninstalled, and the user may install
    /// the listing again.
    pub fn uninstall(&mut self, install_id: &EntityId) -> (r: Result<(), InstallationError>)
        ensures
            final(self).spec_max() == old(self).spec_max(),
            !old(self).has_install(*install_id) ==> r == Err::<(), InstallationError>(
                InstallationError::NotFound(*install_id),
            ) && final(self).spec_installs() == old(self).spec_installs() && final(self).spec_keys()
                == old(self).spec_keys(),
            old(self).has_install(*install_id) && old(self).install_of(*install_id).status
                == InstallationStatus::Uninstalled ==> r == Err::<(), InstallationError>(
                InstallationError::AlreadyUninstalled,
            ) && final(self).spec_installs() == old(self).spec_installs() && final(self).spec_keys()
                == old(self).spec_keys(),
            old(self).has_install(*install_id) && old(self).install_of(*install_id).status
                != InstallationStatus::Uninstalled ==> ({
                let o = old(self).install_of(*install_id);
                let n = final(self).install_of(*install_id);
                &&& r is Ok
                &&& final(self).spec_installs() == old(self).spec_installs().update(
                    old(self).pos_of(*install_id),
                    n,
                )
                &&& n == Installation {
                    status: InstallationStatus::Uninstalled,
                    updated_at_ms: n.updated_at_ms,
                    ..o
                }
                &&& !final(self).has_pair(o.user_id, o.listing_id)
                &&& forall|u: EntityId, l: EntityId|
                    (u, l) != (o.user_id, o.listing_id) ==> final(self).has_pair(u, l) == old(
                        self,
                    ).has_pair(u, l)
            }),
    {
        proof {
            use_type_invariant(&*self);
        }
        let i = match self.find(*install_id) {
            Some(i) => i,
            None => {
                return Err(InstallationError::NotFound(*install_id));
            },
        };
        if self.installations[i].status == InstallationStatus::Uninstalled {
            return Err(InstallationError::AlreadyUninstalled);
        }
        let mut inst = copy_installation(&self.installations[i]);
        inst.status = InstallationStatus::Uninstalled;
        inst.updated_at_ms = now_millis();
        let user = inst.user_id;
        let listing = inst.listing_id;
        self.set_installation(i, inst);
        proof {
            assert(self.pos_of(*install_id) == i) by {
                assert(install_ids(self.spec_installs()) =~= install_ids(old(self).spec_installs()));
            }
        }
        self.remove_pair(user, listing);
        Ok(())
    }

    /// Forget the (user, listing) pair.
    fn remove_pair(&mut self, user: EntityId, listing: EntityId)
        ensures
            !final(self).has_pair(user, listing),
            forall|u: EntityId, l: EntityId|
                (u, l) != (user, listing) ==> final(self).has_pair(u, l) == old(self).has_pair(u, l),
            final(self).spec_installs() == old(self).spec_installs(),
            final(self).spec_max() == old(self).spec_max(),
    {
        proof {
            use_type_invariant(&*self);
        }
        match self.find_pair(user, listing) {
            Some(i) => {
                let ghost k0 = self.user_installs@;
                let ghost p0 = pair_keys(k0);
                let mut keys: Vec<(EntityId, EntityId, EntityId)> = Vec::new();
                std::mem::swap(&mut keys, &mut self.user_installs);
                keys.remove(i);
                proof {
                    let pk = pair_keys(keys@);
                    assert(pk =~= p0.remove(i as int));
                    assert forall|a: int, b: int|
                        0 <= a < pk.len() && 0 <= b < pk.len() && a != b implies pk[a] != pk[b] by {
                        assert(pk[a] == p0[if a < i { a } else { a + 1 }]);
                        assert(pk[b] == p0[if b < i { b } else { b + 1 }]);
                    }
                    assert(p0[i as int] == (user, listing));
                    if pk.contains((user, listing)) {
                        let a = choose|a: int| 0 <= a < pk.len() && pk[a] == (user, listing);
                        assert(pk[a] == p0[if a < i { a } else { a + 1 }]);
                    }
                    assert forall|u: EntityId, l: EntityId| (u, l) != (user, listing) implies pk.contains(
                        (u, l),
                    ) == p0.contains((u, l)) by {
                        if p0.contains((u, l)) {
                            let a = choose|a: int| 0 <= a < p0.len() && p0[a] == (u, l);
                            assert(a != i);
                            assert(pk[if a < i { a } else { a - 1 }] == p0[a]);
                        }
                        if pk.contains((u, l)) {
                            let a = choose|a: int| 0 <= a < pk.len() && pk[a] == (u, l);
                            assert(pk[a] == p0[if a < i { a } else { a + 1 }]);
                        }
                    }
                }
                self.user_installs = keys;
            },
            None => {},
        }
    }

    /// Enable a disabled installation.
    pub fn enable(&mut self, install_id: &EntityId) -> (r: Result<(), InstallationError>)
        ensures
            final(self).spec_max() == old(self).spec_max(),
            final(self).spec_keys() == old(self).spec_keys(),
            !old(self).has_install(*install_id) ==> r == Err::<(), InstallationError>(
                InstallationError::NotFound(*install_id),
            ) && final(self).spec_installs() == old(self).spec_installs(),
            old(self).has_install(*install_id) && old(self).install_of(*install_id).status
                != InstallationStatus::Disabled ==> r == Err::<(), InstallationError>(
                InstallationError::InvalidTransition {
                    from: old(self).install_of(*install_id).status,
                    to: InstallationStatus::Active,
                },
            ) && final(self).spec_installs() == old(self).spec_installs(),
            old(self).has_install(*install_id) && old(self).install_of(*install_id).status
                == InstallationStatus::Disabled ==> ({
                let o = old(self).install_of(*install_id);
                let n = final(self).spec_installs()[old(self).pos_of(*install_id)];
                &&& r is Ok
                &&& final(self).spec_installs() == old(self).spec_installs().update(
                    old(self).pos_of(*install_id),
                    n,
                )
                &&& n == Installation {
                    status: InstallationStatus::Active,
                    updated_at_ms: n.updated_at_ms,
                    ..o
                }
            }),
    {
        let i = match self.find(*install_id) {
            Some(i) => i,
            None => {
                return Err(InstallationError::NotFound(*install_id));
            },
        };
        let from = self.installations[i].status;
        if from != InstallationStatus::Disabled {
            return Err(
                InstallationError::InvalidTransition { from, to: InstallationStatus::Active },
            );
        }
        let mut inst = copy_installation(&self.installations[i]);
        inst.status = InstallationStatus::Active;
        inst.updated_at_ms = now_millis();
        self.set_installation(i, inst);
        Ok(())
    }

    /// Disable an active installation (or one with an update available).
    pub fn disable(&mut self, install_id: &EntityId) -> (r: Result<(), InstallationError>)
        ensures
            final(self).spec_max() == old(self).spec_max(),
            final(self).spec_keys() == old(self).spec_keys(),
            !old(self).has_install(*install_id) ==> r == Err::<(), InstallationError>(
                InstallationError::NotFound(*install_id),
            ) && final(self).spec_installs() == old(self).spec_installs(),
            old(self).has_install(*install_id) && old(self).install_of(*install_id).status
                != InstallationStatus::Active && old(self).install_of(*install_id).status
                != InstallationStatus::UpdateAvailable ==> r == Err::<(), InstallationError>(
                InstallationError::InvalidTransition {
                    from: old(self).install_of(*install_id).status,
                    to: InstallationStatus::Disabled,
                },
            ) && final(self).spec_installs() == old(self).spec_installs(),
            old(self).has_install(*install_id) && (old(self).install_of(*install_id).status
                == InstallationStatus::Active || old(self).install_of(*install_id).status
                == InstallationStatus::UpdateAvailable) ==> ({
                let o = old(self).install_of(*install_id);
                let n = final(self).spec_installs()[old(self).pos_of(*install_id)];
                &&& r is Ok
                &&& final(self).spec_installs() == old(self).spec_installs().update(
                    old(self).pos_of(*install_id),
                    n,
                )
                &&& n == Installation {
                    status: InstallationStatus::Disabled,
                    updated_at_ms: n.updated_at_ms,
                    ..o
                }
            }),
    {
        let i = match self.find(*install_id) {
            Some(i) => i,
            None => {
                return Err(InstallationError::NotFound(*install_id));
            },
        };
        let from = self.installations[i].status;
        if from != InstallationStatus::Active && from != InstallationStatus::UpdateAvailable {
            return Err(
                InstallationError::InvalidTransition { from, to: InstallationStatus::Disabled },
            );
        }
        let mut inst = copy_installation(&self.installations[i]);
        inst.status = InstallationStatus::Disabled;
        inst.updated_at_ms = now_millis();
        self.set_installation(i, inst);
        Ok(())
    }

    /// Mark an update as available (refused for an uninstalled installation).
    pub fn mark_update_available(&mut self, install_id: &EntityId) -> (r: Result<(), InstallationError>)
        ensures
            final(self).spec_max() == old(self).spec_max(),
            final(self).spec_keys() == old(self).spec_keys(),
            !old(self).has_install(*install_id) ==> r == Err::<(), InstallationError>(
                InstallationError::NotFound(*install_id),
            ) && final(self).spec_installs() == old(self).spec_installs(),
            old(self).has_install(*install_id) && old(self).install_of(*install_id).status
                == InstallationStatus::Uninstalled ==> r == Err::<(), InstallationError>(
                InstallationError::AlreadyUninstalled,
            ) && final(self).spec_installs() == old(self).spec_installs(),
            old(self).has_install(*install_id) && old(self).install_of(*install_id).status
                != InstallationStatus::Uninstalled ==> ({
                let o = old(self).install_of(*install_id);
                let n = final(self).spec_installs()[old(self).pos_of(*install_id)];
                &&& r is Ok
                &&& final(self).spec_installs() == old(self).spec_installs().update(
                    old(self).pos_of(*install_id),
                    n,
                )
                &&& n == Installation {
                    status: InstallationStatus::UpdateAvailable,
                    updated_at_ms: n.updated_at_ms,
                    ..o
                }
            }),
    {
        let i = match self.find(*install_id) {
            Some(i) => i,
            None => {
                return Err(InstallationError::NotFound(*install_id));
            },
        };
        if self.installations[i].status == InstallationStatus::Uninstalled {
            return Err(InstallationError::AlreadyUninstalled);
        }
        let mut inst = copy_installation(&self.installations[i]);
        inst.status = InstallationStatus::UpdateAvailable;
        inst.updated_at_ms = now_millis();
        self.set_installation(i, inst);
        Ok(())
    }

    /// Apply an update: the installation runs the new version and becomes active.
    pub fn apply_update(&mut self, install_id: &EntityId, new_version: &str) -> (r: Result<(), InstallationError>)
        ensures
            final(self).spec_max() == old(self).spec_max(),
            final(self).spec_keys() == old(self).spec_keys(),
            !old(self).has_install(*install_id) ==> r == Err::<(), InstallationError>(
                InstallationError::NotFound(*install_id),
            ) && final(self).spec_installs() == old(self).spec_installs(),
            old(self).has_install(*install_id) ==> ({
                let o = old(self).install_of(*install_id);
                let n = final(self).spec_installs()[old(self).pos_of(*install_id)];
                &&& r is Ok
                &&& final(self).spec_installs() == old(self).spec_installs().update(
                    old(self).pos_of(*install_id),
                    n,
                )
                &&& n.installed_version@ == new_version@
                &&& n.status == InstallationStatus::Active
                &&& n.id == o.id && n.listing_id == o.listing_id && n.user_id == o.user_id
                &&& n.auto_update == o.auto_update && n.installed_at_ms == o.installed_at_ms
            }),
    {
        let i = match self.find(*install_id) {
            Some(i) => i,
            None => {
                return Err(InstallationError::NotFound(*install_id));
            },
        };
        let mut inst = copy_installation(&self.installations[i]);
        inst.installed_version = new_version.to_owned();
        inst.status = InstallationStatus::Active;
        inst.updated_at_ms = now_millis();
        self.set_installation(i, inst);
        Ok(())
    }

    /// Turn automatic updates on or off.
    pub fn set_auto_update(&mut self, install_id: &EntityId, enabled: bool) -> (r: Result<(), InstallationError>)
        ensures
            final(self).spec_max() == old(self).spec_max(),
            final(self).spec_keys() == old(self).spec_keys(),
            !old(self).has_install(*install_id) ==> r == Err::<(), InstallationError>(
                InstallationError::NotFound(*install_id),
            ) && final(self).spec_installs() == old(self).spec_installs(),
            old(self).has_install(*install_id) ==> r is Ok && final(self).spec_installs() == old(
                self,
            ).spec_installs().update(
                old(self).pos_of(*install_id),
                Installation { auto_update: enabled, ..old(self).install_of(*install_id) },
            ),
    {
        let i = match self.find(*install_id) {
            Some(i) => i,
            None => {
                return Err(InstallationError::NotFound(*install_id));
            },
        };
        let mut inst = copy_installation(&self.installations[i]);
        inst.auto_update = enabled;
        self.set_installation(i, inst);
        Ok(())
    }

    /// Mode 0: the installations of `user` that are not uninstalled; mode 1: those
    /// awaiting an automatic update.
    fn installs_where(&self, user: EntityId, mode: u8) -> (r: Vec<&Installation>)
        requires
            mode <= 1,
        ensures
            mode == 0 ==> install_refs(r@, self.spec_installs().filter(live_for(user))),
            mode == 1 ==> install_refs(r@, self.spec_installs().filter(awaiting_update())),
    {
        let ghost f = if mode == 0 {
            live_for(user)
        } else {
            awaiting_update()
        };
        let ghost s = self.installations@;
        let mut out: Vec<&Installation> = Vec::new();
        let mut i: usize = 0;
        proof {
            reveal(Seq::filter);
            assert(s.take(0) =~= Seq::<Installation>::empty());
        }
        while i < self.installations.len()
            invariant
                s == self.installations@,
                mode == 0 ==> f == live_for(user),
                mode == 1 ==> f == awaiting_update(),
                mode <= 1,
                i <= s.len(),
                install_refs(out@, s.take(i as int).filter(f)),
            decreases s.len() - i,
        {
            proof {
                assert(s.take(i + 1) =~= s.take(i as int).push(s[i as int]));
                s.take(i as int).lemma_filter_push(s[i as int], f);
            }
            let inst = &self.installations[i];
            let keep = if mode == 0 {
                inst.user_id == user && inst.status != InstallationStatus::Uninstalled
            } else {
                inst.status == InstallationStatus::UpdateAvailable && inst.auto_update
            };
            if keep {
                out.push(inst);
            }
            i = i + 1;
        }
        proof {
            assert(s.take(i as int) =~= s);
        }
        out
    }

    /// The installations of a user that are not uninstalled.
    pub fn for_user(&self, user_id: &EntityId) -> (r: Vec<&Installation>)
        ensures
            install_refs(r@, self.spec_installs().filter(live_for(*user_id))),
    {
        self.installs_where(*user_id, 0)
    }

    /// An installation by id.
    pub fn get(&self, install_id: &EntityId) -> (r: Option<&Installation>)
        ensures
            self.has_install(*install_id) ==> r is Some && *r->0 == self.install_of(*install_id),
            !self.has_install(*install_id) ==> r is None,
    {
        match self.find(*install_id) {
            Some(i) => Some(&self.installations[i]),
            None => None,
        }
    }

    /// Number of active installations over all users.
    pub fn total_active(&self) -> (n: usize)
        ensures
            n == self.spec_installs().filter(is_active_install()).len(),
    {
        let ghost s = self.installations@;
        let ghost f = is_active_install();
        let mut count: usize = 0;
        let mut i: usize = 0;
        proof {
            reveal(Seq::filter);
            assert(s.take(0) =~= Seq::<Installation>::empty());
        }
        while i < self.installations.len()
            invariant
                s == self.installations@,
                f == is_active_install(),
                i <= s.len(),
                count == s.take(i as int).filter(f).len(),
                count <= i,
            decreases s.len() - i,
        {
            proof {
                assert(s.take(i + 1) =~= s.take(i as int).push(s[i as int]));
                s.take(i as int).lemma_filter_push(s[i as int], f);
            }
            if self.installations[i].status == InstallationStatus::Active {
                count = count + 1;
            }
            i = i + 1;
        }
        proof {
            assert(s.take(i as int) =~= s);
        }
        count
    }

    /// Installations with an update available and automatic updates on.
    pub fn pending_updates(&self) -> (r: Vec<&Installation>)
        ensures
            install_refs(r@, self.spec_installs().filter(awaiting_update())),
    {
        self.installs_where(EntityId::from_u128(0), 1)
    }
}

/// A field-by-field copy.
fn copy_installation(i: &Installation) -> (c: Installation)
    ensures
        c == *i,
{
    Installation {
        id: i.id,
        listing_id: i.listing_id,
        user_id: i.user_id,
        installed_version: i.installed_version.clone(),
        status: i.status,
        auto_update: i.auto_update,
        installed_at_ms: i.installed_at_ms,
        updated_at_ms: i.updated_at_ms,
    }
}

/// Uninstalling frees a slot: an uninstalled installation no longer counts towards its
/// user's limit, so the count of the user's installations that are not uninstalled
/// drops by one.
pub proof fn law_uninstall_frees_slot(s: Seq<Installation>, p: int, n: Installation)
    requires
        0 <= p < s.len(),
        s[p].status != InstallationStatus::Uninstalled,
        n.user_id == s[p].user_id,
        n.status == InstallationStatus::Uninstalled,
    ensures
        s.update(p, n).filter(live_for(s[p].user_id)).len() + 1 == s.filter(live_for(s[p].user_id)).len(),
    decreases s.len(),
{
    reveal(Seq::filter);
    let f = live_for(s[p].user_id);
    let t = s.update(p, n);
    if p == s.len() - 1 {
        assert(t.drop_last() =~= s.drop_last());
    } else {
        law_uninstall_frees_slot(s.drop_last(), p, n);
        assert(t.drop_last() =~= s.drop_last().update(p, n));
        assert(t.last() == s.last());
    }
}

} // verus!
