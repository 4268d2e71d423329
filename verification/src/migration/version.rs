//! Schema versions and the history of versions a system has moved through.
use vstd::prelude::*;
use crate::text::{decimal, push_decimal};

verus! {

/// A semantic schema version `major.minor.patch`.
#[derive(Debug, Clone, Copy, PartialEq, Eq, Structural)]
pub struct SchemaVersion {
    /// Major component.
    pub major: u32,
    /// Minor component.
    pub minor: u32,
    /// Patch component.
    pub patch: u32,
}

/// The text `major.minor.patch` of a version.
pub open spec fn version_text(v: SchemaVersion) -> Seq<char> {
    decimal(v.major as nat) + seq!['.'] + decimal(v.minor as nat) + seq!['.'] + decimal(
        v.patch as nat,
    )
}

impl SchemaVersion {
    /// Create a version.
    pub fn new(major: u32, minor: u32, patch: u32) -> (v: Self)
        ensures
            v == (SchemaVersion { major, minor, patch }),
    {
        SchemaVersion { major, minor, patch }
    }

    /// The text `major.minor.patch`.
    pub fn to_string(&self) -> (s: String)
        ensures
            s@ == version_text(*self),
    {
        let mut s = String::new();
        push_decimal(&mut s, self.major as u64);
        proof {
            reveal_strlit(".");
        }
        s.append(".");
        push_decimal(&mut s, self.minor as u64);
        s.append(".");
        push_decimal(&mut s, self.patch as u64);
        s
    }
}

/// The history of schema versions, from the initial version to the current one.
pub struct VersionTracker {
    history: Vec<SchemaVersion>,
}

impl VersionTracker {
    #[verifier::type_invariant]
    spec fn inv(self) -> bool {
        self.history@.len() >= 1
    }

    /// The versions the system has been at, oldest first; the last one is current.
    pub closed spec fn spec_history(&self) -> Seq<SchemaVersion> {
        self.history@
    }

    /// Start tracking at `initial`.
    pub fn new(initial: SchemaVersion) -> (t: Self)
        ensures
            t.spec_history() == seq![initial],
    {
        let mut history = Vec::new();
        history.push(initial);
        VersionTracker { history }
    }

    /// The current version.
    pub fn current(&self) -> (v: &SchemaVersion)
        ensures
            self.spec_history().len() >= 1,
            *v == self.spec_history().last(),
    {
        proof {
            use_type_invariant(self);
        }
        &self.history[self.history.len() - 1]
    }

    /// Move to a new version.
    pub fn advance(&mut self, version: SchemaVersion)
        ensures
            final(self).spec_history() == old(self).spec_history().push(version),
    {
        let mut h: Vec<SchemaVersion> = Vec::new();
        h.push(version);
        std::mem::swap(&mut h, &mut self.history);
        h.push(version);
        self.history = h;
    }

    /// Roll back to the version at position `index` of the history, dropping the
    /// later ones; an index past the end keeps the history as it is.
    pub fn rollback_to(&mut self, index: usize)
        ensures
            old(self).spec_history().len() >= 1,
            index < old(self).spec_history().len() ==> final(self).spec_history()
                == old(self).spec_history().take(index + 1),
            index >= old(self).spec_history().len() ==> final(self).spec_history()
                == old(self).spec_history(),
    {
        proof {
            use_type_invariant(&*self);
        }
        if index < self.history.len() {
            let mut h: Vec<SchemaVersion> = Vec::new();
            h.push(self.history[0]);
            std::mem::swap(&mut h, &mut self.history);
            h.truncate(index + 1);
            self.history = h;
        }
    }

    /// Number of versions in the history.
    pub fn history_len(&self) -> (n: usize)
        ensures
            n == self.spec_history().len(),
            n >= 1,
    {
        proof {
            use_type_invariant(self);
        }
        self.history.len()
    }
}

} // verus!
