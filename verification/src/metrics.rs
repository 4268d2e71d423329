//! Metric primitives: monotonically increasing counters and gauges.
//!
//! Updates take `&mut self`; sharing a metric between threads is left to the caller
//! (for example behind a lock).
use vstd::prelude::*;

verus! {

/// A monotonically increasing counter (wrapping at `u64::MAX`, as an atomic add does).
#[derive(Debug)]
pub struct Counter {
    name: String,
    help: String,
    value: u64,
}

impl Counter {
    /// The counter's value.
    pub closed spec fn spec_value(&self) -> u64 {
        self.value
    }

    /// The counter's name.
    pub closed spec fn spec_name(&self) -> Seq<char> {
        self.name@
    }

    /// The counter's help text.
    pub closed spec fn spec_help(&self) -> Seq<char> {
        self.help@
    }

    /// Create a counter at zero.
    pub fn new(name: &str, help: &str) -> (c: Self)
        ensures
            c.spec_value() == 0,
            c.spec_name() == name@,
            c.spec_help() == help@,
    {
        Counter { name: name.to_owned(), help: help.to_owned(), value: 0 }
    }

    /// Add one.
    pub fn inc(&mut self)
        ensures
            final(self).spec_value() == old(self).spec_value().wrapping_add(1),
            final(self).spec_name() == old(self).spec_name(),
            final(self).spec_help() == old(self).spec_help(),
    {
        self.value = self.value.wrapping_add(1);
    }

    /// Add `n`.
    pub fn inc_by(&mut self, n: u64)
        ensures
            final(self).spec_value() == old(self).spec_value().wrapping_add(n),
            final(self).spec_name() == old(self).spec_name(),
            final(self).spec_help() == old(self).spec_help(),
    {
        self.value = self.value.wrapping_add(n);
    }

    /// The current value.
    pub fn get(&self) -> (v: u64)
        ensures
            v == self.spec_value(),
    {
        self.value
    }

    /// The name.
    pub fn name(&self) -> (n: &str)
        ensures
            n@ == self.spec_name(),
    {
        self.name.as_str()
    }

    /// The help text.
    pub fn help(&self) -> (h: &str)
        ensures
            h@ == self.spec_help(),
    {
        self.help.as_str()
    }
}

/// A gauge that can go up and down (wrapping at the `i64` bounds, as an atomic add does).
#[derive(Debug)]
pub struct Gauge {
    name: String,
    help: String,
    value: i64,
}

impl Gauge {
    /// The gauge's value.
    pub closed spec fn spec_value(&self) -> i64 {
        self.value
    }

    /// The gauge's name.
    pub closed spec fn spec_name(&self) -> Seq<char> {
        self.name@
    }

    /// The gauge's help text.
    pub closed spec fn spec_help(&self) -> Seq<char> {
        self.help@
    }

    /// Create a gauge at zero.
    pub fn new(name: &str, help: &str) -> (g: Self)
        ensures
            g.spec_value() == 0,
            g.spec_name() == name@,
            g.spec_help() == help@,
    {
        Gauge { name: name.to_owned(), help: help.to_owned(), value: 0 }
    }

    /// Set the value.
    pub fn set(&mut self, v: i64)
        ensures
            final(self).spec_value() == v,
            final(self).spec_name() == old(self).spec_name(),
            final(self).spec_help() == old(self).spec_help(),
    {
        self.value = v;
    }

    /// Add one.
    pub fn inc(&mut self)
        ensures
            final(self).spec_value() == old(self).spec_value().wrapping_add(1),
            final(self).spec_name() == old(self).spec_name(),
            final(self).spec_help() == old(self).spec_help(),
    {
        self.value = self.value.wrapping_add(1);
    }

    /// Subtract one.
    pub fn dec(&mut self)
        ensures
            final(self).spec_value() == old(self).spec_value().wrapping_sub(1),
            final(self).spec_name() == old(self).spec_name(),
            final(self).spec_help() == old(self).spec_help(),
    {
        self.value = self.value.wrapping_sub(1);
    }

    /// The current value.
    pub fn get(&self) -> (v: i64)
        ensures
            v == self.spec_value(),
    {
        self.value
    }

    /// The name.
    pub fn name(&self) -> (n: &str)
        ensures
            n@ == self.spec_name(),
    {
        self.name.as_str()
    }

    /// The help text.
    pub fn help(&self) -> (h: &str)
        ensures
            h@ == self.spec_help(),
    {
        self.help.as_str()
    }
}

} // verus!
