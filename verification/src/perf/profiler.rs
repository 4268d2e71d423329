//! Profiling spans: named, categorised time measurements with metadata.
use vstd::prelude::*;
use std::time::{Duration, Instant};
use crate::pipeline::fields::Fields;

verus! {

#[verifier::external_type_specification]
#[verifier::external_body]
pub struct ExInstant(Instant);

/// The current instant, from `Instant::now`. What it returns depends on the clock, so
/// nothing is stated of it.
#[verifier::external_body]
fn instant_now() -> (t: Instant) {
    Instant::now()
}

/// The time from `earlier` to `later`, from `Instant::duration_since` (zero when
/// `later` is the earlier one). Instants are opaque here, so nothing is stated of it.
#[verifier::external_body]
fn instant_duration_since(later: &Instant, earlier: &Instant) -> (d: Duration) {
    later.duration_since(*earlier)
}

/// The time since `t`, from `Instant::elapsed`; it depends on the clock, so nothing is
/// stated of it.
#[verifier::external_body]
fn instant_elapsed(t: &Instant) -> (d: Duration) {
    t.elapsed()
}

/// A profiling span: measures the time an operation takes.
#[derive(Debug)]
pub struct Span {
    pub name: String,
    pub category: String,
    start: Instant,
    end: Option<Instant>,
    pub metadata: Fields,
}

impl Span {
    /// Whether the span has been ended.
    pub closed spec fn spec_ended(&self) -> bool {
        self.end is Some
    }

    /// The span's name.
    pub closed spec fn spec_name(&self) -> Seq<char> {
        self.name@
    }

    /// The span's category.
    pub closed spec fn spec_category(&self) -> Seq<char> {
        self.category@
    }

    /// The span's metadata.
    pub closed spec fn spec_metadata(&self) -> Map<Seq<char>, Seq<char>> {
        self.metadata@
    }

    /// Start a new profiling span, without metadata.
    pub fn start(name: &str, category: &str) -> (s: Self)
        ensures
            s.spec_name() == name@,
            s.spec_category() == category@,
            !s.spec_ended(),
            s.spec_metadata() == Map::<Seq<char>, Seq<char>>::empty(),
    {
        Span {
            name: name.to_owned(),
            category: category.to_owned(),
            start: instant_now(),
            end: None,
            metadata: Fields::new(),
        }
    }

    /// End the span.
    pub fn end(&mut self)
        ensures
            final(self).spec_ended(),
            final(self).spec_name() == old(self).spec_name(),
            final(self).spec_category() == old(self).spec_category(),
            final(self).spec_metadata() == old(self).spec_metadata(),
    {
        self.end = Some(instant_now());
    }

    /// The elapsed time: up to the end when ended, else up to now.
    pub fn elapsed(&self) -> Duration {
        match &self.end {
            Some(end) => instant_duration_since(end, &self.start),
            None => instant_elapsed(&self.start),
        }
    }

    /// Whether the span is still running.
    pub fn is_running(&self) -> (b: bool)
        ensures
            b == !self.spec_ended(),
    {
        self.end.is_none()
    }

    /// Add (or replace) a metadata entry.
    pub fn with_metadata(self, key: &str, value: &str) -> (s: Self)
        ensures
            s.spec_name() == self.spec_name(),
            s.spec_category() == self.spec_category(),
            s.spec_ended() == self.spec_ended(),
            s.spec_metadata() == self.spec_metadata().insert(key@, value@),
    {
        let mut s = self;
        s.metadata.insert(key.to_owned(), value.to_owned());
        s
    }
}

} // verus!
