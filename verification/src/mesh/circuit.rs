//! Circuit breaker — prevents cascading failures by cutting off unhealthy services.
use vstd::prelude::*;

verus! {

/// Circuit breaker state.
#[derive(Debug, Clone, Copy, PartialEq, Eq, Structural)]
pub enum CircuitState {
    /// Normal operation — requests flow through.
    Closed,
    /// Tripped — all requests are rejected immediately.
    Open,
    /// Testing — allows a limited number of requests through to check recovery.
    HalfOpen,
}

/// Circuit breaker configuration.
#[derive(Debug, Clone, Copy)]
pub struct CircuitConfig {
    /// Number of failures before tripping open.
    pub failure_threshold: u32,
    /// Duration in millis to stay open before transitioning to half-open.
    pub open_duration_ms: u64,
    /// Number of test requests allowed in half-open state.
    pub half_open_max_requests: u32,
    /// Success threshold in half-open to close the circuit.
    pub recovery_threshold: u32,
}

impl Default for CircuitConfig {
    fn default() -> (c: Self)
        ensures
            c.failure_threshold == 5,
            c.open_duration_ms == 30_000,
            c.half_open_max_requests == 3,
            c.recovery_threshold == 2,
    {
        CircuitConfig {
            failure_threshold: 5,
            open_duration_ms: 30_000,
            half_open_max_requests: 3,
            recovery_threshold: 2,
        }
    }
}

/// Circuit breaker instance.
pub struct CircuitBreaker {
    name: String,
    state: CircuitState,
    config: CircuitConfig,
    failure_count: u32,
    half_open_successes: u32,
    half_open_requests: u32,
    opened_at_ms: Option<u64>,
    trip_count: u64,
    blocked_count: u64,
    total_successes: u64,
    total_failures: u64,
}

/// The abstract state of a circuit breaker.
pub struct BreakerView {
    pub state: CircuitState,
    pub failure_count: u32,
    pub half_open_successes: u32,
    pub half_open_requests: u32,
    pub opened_at_ms: Option<u64>,
    pub trip_count: u64,
    pub blocked_count: u64,
    pub total_successes: u64,
    pub total_failures: u64,
}

impl CircuitBreaker {
    /// Well-formedness: an open breaker knows when it opened, and the consecutive
    /// counters stay below their thresholds (so incrementing them cannot overflow).
    pub open spec fn wf(&self) -> bool {
        let v = self@;
        let c = self.spec_config();
        &&& v.state == CircuitState::Open ==> v.opened_at_ms is Some
        &&& v.state == CircuitState::Closed ==> (v.failure_count == 0 || v.failure_count
            < c.failure_threshold)
        &&& v.state == CircuitState::HalfOpen ==> (v.half_open_successes == 0
            || v.half_open_successes < c.recovery_threshold)
    }

    #[verifier::type_invariant]
    spec fn inv(self) -> bool {
        self.wf()
    }

    /// The breaker's counters and state.
    pub closed spec fn view(&self) -> BreakerView {
        BreakerView {
            state: self.state,
            failure_count: self.failure_count,
            half_open_successes: self.half_open_successes,
            half_open_requests: self.half_open_requests,
            opened_at_ms: self.opened_at_ms,
            trip_count: self.trip_count,
            blocked_count: self.blocked_count,
            total_successes: self.total_successes,
            total_failures: self.total_failures,
        }
    }

    /// The configuration.
    pub closed spec fn spec_config(&self) -> CircuitConfig {
        self.config
    }

    /// The name.
    pub closed spec fn spec_name(&self) -> Seq<char> {
        self.name@
    }

    /// Create a new, closed circuit breaker with all counters at zero.
    pub fn new(name: &str, config: CircuitConfig) -> (cb: Self)
        ensures
            cb@ == (BreakerView {
                state: CircuitState::Closed,
                failure_count: 0,
                half_open_successes: 0,
                half_open_requests: 0,
                opened_at_ms: None,
                trip_count: 0,
                blocked_count: 0,
                total_successes: 0,
                total_failures: 0,
            }),
            cb.spec_config() == config,
            cb.wf(),
            cb.spec_name() == name@,
    {
        CircuitBreaker {
            name: name.to_owned(),
            state: CircuitState::Closed,
            config,
            failure_count: 0,
            half_open_successes: 0,
            half_open_requests: 0,
            opened_at_ms: None,
            trip_count: 0,
            blocked_count: 0,
            total_successes: 0,
            total_failures: 0,
        }
    }

    /// Check if a request should be allowed through.
    ///
    /// Closed: always allowed. Open: blocked until `open_duration_ms` has passed since
    /// the trip, then the breaker turns half-open with fresh counters. Half-open: at most
    /// `half_open_max_requests` requests pass; the rest are blocked.
    pub fn allow_request(&mut self, now_ms: u64) -> (allowed: bool)
        requires
            old(self)@.blocked_count < u64::MAX,
        ensures
            final(self).wf(),
            final(self).spec_config() == old(self).spec_config(),
            final(self).spec_name() == old(self).spec_name(),
            ({
                let o = old(self)@;
                let n = final(self)@;
                let cfg = old(self).spec_config();
                let elapsed = o.state == CircuitState::Open && now_ms.saturating_sub(
                    o.opened_at_ms->0,
                ) >= cfg.open_duration_ms;
                let half = o.state == CircuitState::HalfOpen || elapsed;
                let reqs: u32 = if elapsed { 0 } else { o.half_open_requests };
                &&& n.failure_count == o.failure_count
                &&& n.opened_at_ms == o.opened_at_ms
                &&& n.trip_count == o.trip_count
                &&& n.total_successes == o.total_successes
                &&& n.total_failures == o.total_failures
                &&& if o.state == CircuitState::Closed {
                    allowed && n == o
                } else if !half {
                    &&& !allowed
                    &&& n == (BreakerView { blocked_count: (o.blocked_count + 1) as u64, ..o })
                } else {
                    &&& n.state == CircuitState::HalfOpen
                    &&& n.half_open_successes == (if elapsed { 0 } else { o.half_open_successes })
                    &&& allowed == (reqs < cfg.half_open_max_requests)
                    &&& n.half_open_requests == (if allowed { (reqs + 1) as u32 } else { reqs })
                    &&& n.blocked_count == (if allowed { o.blocked_count } else {
                        (o.blocked_count + 1) as u64
                    })
                }
            }),
    {
        proof {
            use_type_invariant(&*self);
        }
        match self.state {
            CircuitState::Closed => true,
            CircuitState::Open => {
                if let Some(opened_at) = self.opened_at_ms {
                    if now_ms.saturating_sub(opened_at) >= self.config.open_duration_ms {
                        self.half_open_successes = 0;
                        self.half_open_requests = 0;
                        self.state = CircuitState::HalfOpen;
                        return self.allow_half_open();
                    }
                }
                self.blocked_count = self.blocked_count + 1;
                proof {
                    use_type_invariant(&*self);
                }
                false
            },
            CircuitState::HalfOpen => self.allow_half_open(),
        }
    }

    fn allow_half_open(&mut self) -> (allowed: bool)
        requires
            old(self)@.state == CircuitState::HalfOpen,
            old(self)@.blocked_count < u64::MAX,
        ensures
            allowed == (old(self)@.half_open_requests < old(self).spec_config().half_open_max_requests),
            final(self)@ == (if allowed {
                BreakerView { half_open_requests: (old(self)@.half_open_requests + 1) as u32, ..old(self)@ }
            } else {
                BreakerView { blocked_count: (old(self)@.blocked_count + 1) as u64, ..old(self)@ }
            }),
            final(self).spec_config() == old(self).spec_config(),
            final(self).spec_name() == old(self).spec_name(),
            final(self).wf(),
    {
        proof {
            use_type_invariant(&*self);
        }
        if self.half_open_requests < self.config.half_open_max_requests {
            self.half_open_requests = self.half_open_requests + 1;
            proof {
                use_type_invariant(&*self);
            }
            true
        } else {
            self.blocked_count = self.blocked_count + 1;
            proof {
                use_type_invariant(&*self);
            }
            false
        }
    }

    /// Record a successful request.
    ///
    /// Closed: the consecutive-failure count resets. Half-open: once the successes reach
    /// `recovery_threshold` the breaker closes. Open: only the total is counted.
    pub fn record_success(&mut self)
        requires
            old(self)@.total_successes < u64::MAX,
        ensures
            final(self).wf(),
            final(self).spec_config() == old(self).spec_config(),
            final(self).spec_name() == old(self).spec_name(),
            final(self)@ == success_step(old(self)@, old(self).spec_config()),
    {
        proof {
            use_type_invariant(&*self);
        }
        self.total_successes = self.total_successes + 1;
        match self.state {
            CircuitState::Closed => {
                self.failure_count = 0;
            },
            CircuitState::HalfOpen => {
                let successes = self.half_open_successes + 1;
                if successes >= self.config.recovery_threshold {
                    self.failure_count = 0;
                    self.state = CircuitState::Closed;
                }
                self.half_open_successes = successes;
            },
            CircuitState::Open => {},
        }
        proof {
            use_type_invariant(&*self);
        }
    }

    /// Record a failed request at `now_ms`.
    ///
    /// Closed: the failure count grows and the breaker trips once it reaches
    /// `failure_threshold`. Half-open: any failure trips the breaker again.
    pub fn record_failure(&mut self, now_ms: u64)
        requires
            old(self)@.total_failures < u64::MAX,
            old(self)@.trip_count < u64::MAX,
        ensures
            final(self).wf(),
            final(self).spec_config() == old(self).spec_config(),
            final(self).spec_name() == old(self).spec_name(),
            final(self)@ == failure_step(old(self)@, old(self).spec_config(), now_ms),
    {
        proof {
            use_type_invariant(&*self);
        }
        self.total_failures = self.total_failures + 1;
        match self.state {
            CircuitState::Closed => {
                let failures = self.failure_count + 1;
                if failures >= self.config.failure_threshold {
                    self.trip(now_ms);
                }
                self.failure_count = failures;
            },
            CircuitState::HalfOpen => {
                self.trip(now_ms);
            },
            CircuitState::Open => {},
        }
        proof {
            use_type_invariant(&*self);
        }
    }

    fn trip(&mut self, now_ms: u64)
        requires
            old(self)@.trip_count < u64::MAX,
        ensures
            final(self)@ == (BreakerView {
                state: CircuitState::Open,
                opened_at_ms: Some(now_ms),
                trip_count: (old(self)@.trip_count + 1) as u64,
                ..old(self)@
            }),
            final(self).spec_config() == old(self).spec_config(),
            final(self).spec_name() == old(self).spec_name(),
    {
        proof {
            use_type_invariant(&*self);
        }
        self.opened_at_ms = Some(now_ms);
        self.trip_count = self.trip_count + 1;
        self.state = CircuitState::Open;
    }

    /// Manually reset the circuit breaker to closed; the totals are kept.
    pub fn reset(&mut self)
        ensures
            final(self).wf(),
            final(self)@ == (BreakerView {
                state: CircuitState::Closed,
                failure_count: 0,
                half_open_successes: 0,
                half_open_requests: 0,
                opened_at_ms: None,
                ..old(self)@
            }),
            final(self).spec_config() == old(self).spec_config(),
            final(self).spec_name() == old(self).spec_name(),
    {
        proof {
            use_type_invariant(&*self);
        }
        self.failure_count = 0;
        self.state = CircuitState::Closed;
        self.half_open_successes = 0;
        self.half_open_requests = 0;
        self.opened_at_ms = None;
        proof {
            use_type_invariant(&*self);
        }
    }

    /// Get current state.
    pub fn state(&self) -> (s: CircuitState)
        ensures
            s == self@.state,
    {
        self.state
    }

    /// Get name.
    pub fn name(&self) -> (n: &str)
        ensures
            n@ == self.spec_name(),
    {
        self.name.as_str()
    }

    /// Get trip count.
    pub fn trip_count(&self) -> (c: u64)
        ensures
            c == self@.trip_count,
    {
        self.trip_count
    }

    /// Get blocked count.
    pub fn blocked_count(&self) -> (c: u64)
        ensures
            c == self@.blocked_count,
    {
        self.blocked_count
    }

    /// Get failure count (consecutive, in Closed state).
    pub fn failure_count(&self) -> (c: u32)
        ensures
            c == self@.failure_count,
    {
        self.failure_count
    }

    /// Get total successes.
    pub fn total_successes(&self) -> (c: u64)
        ensures
            c == self@.total_successes,
    {
        self.total_successes
    }

    /// Get total failures.
    pub fn total_failures(&self) -> (c: u64)
        ensures
            c == self@.total_failures,
    {
        self.total_failures
    }
}

/// The breaker after a failure at `now_ms`: a closed breaker counts it and trips once
/// the count reaches the threshold; a half-open breaker trips again; an open one only
/// counts the total.
pub open spec fn failure_step(o: BreakerView, cfg: CircuitConfig, now_ms: u64) -> BreakerView {
    let o2 = BreakerView { total_failures: (o.total_failures + 1) as u64, ..o };
    let f = (o.failure_count + 1) as u32;
    let tripped = BreakerView {
        state: CircuitState::Open,
        opened_at_ms: Some(now_ms),
        trip_count: (o.trip_count + 1) as u64,
        ..o2
    };
    if o.state == CircuitState::Closed {
        if f >= cfg.failure_threshold {
            BreakerView { failure_count: f, ..tripped }
        } else {
            BreakerView { failure_count: f, ..o2 }
        }
    } else if o.state == CircuitState::HalfOpen {
        tripped
    } else {
        o2
    }
}

/// The breaker after `k` consecutive failures at `now_ms`.
pub open spec fn failures(v: BreakerView, cfg: CircuitConfig, now_ms: u64, k: nat) -> BreakerView
    decreases k,
{
    if k == 0 {
        v
    } else {
        failure_step(failures(v, cfg, now_ms, (k - 1) as nat), cfg, now_ms)
    }
}

/// A closed breaker with no recorded failures stays closed through fewer than
/// `failure_threshold` consecutive failures, counting each, and is open right after the
/// `failure_threshold`-th.
pub proof fn law_trips_at_threshold(v: BreakerView, cfg: CircuitConfig, now_ms: u64, k: nat)
    requires
        v.state == CircuitState::Closed,
        v.failure_count == 0,
        cfg.failure_threshold > 0,
        k <= cfg.failure_threshold,
    ensures
        k < cfg.failure_threshold ==> failures(v, cfg, now_ms, k).state == CircuitState::Closed
            && failures(v, cfg, now_ms, k).failure_count == k,
        k == cfg.failure_threshold ==> failures(v, cfg, now_ms, k).state == CircuitState::Open
            && failures(v, cfg, now_ms, k).opened_at_ms == Some(now_ms),
    decreases k,
{
    if k > 0 {
        law_trips_at_threshold(v, cfg, now_ms, (k - 1) as nat);
    }
}

/// The breaker after a success: a closed breaker clears its consecutive failures; a
/// half-open breaker counts it and closes once the count reaches the recovery threshold;
/// an open one only counts the total.
pub open spec fn success_step(o: BreakerView, cfg: CircuitConfig) -> BreakerView {
    let o2 = BreakerView { total_successes: (o.total_successes + 1) as u64, ..o };
    let s = (o.half_open_successes + 1) as u32;
    if o.state == CircuitState::Closed {
        BreakerView { failure_count: 0, ..o2 }
    } else if o.state == CircuitState::HalfOpen {
        if s >= cfg.recovery_threshold {
            BreakerView {
                state: CircuitState::Closed,
                failure_count: 0,
                half_open_successes: s,
                ..o2
            }
        } else {
            BreakerView { half_open_successes: s, ..o2 }
        }
    } else {
        o2
    }
}

/// The breaker after `k` consecutive successes.
pub open spec fn successes(v: BreakerView, cfg: CircuitConfig, k: nat) -> BreakerView
    decreases k,
{
    if k == 0 {
        v
    } else {
        success_step(successes(v, cfg, (k - 1) as nat), cfg)
    }
}

/// A half-open breaker with no recorded successes stays half-open through fewer than
/// `recovery_threshold` successes, counting each, and is closed, with no failures counted,
/// right after the `recovery_threshold`-th.
pub proof fn law_recovers_at_threshold(v: BreakerView, cfg: CircuitConfig, k: nat)
    requires
        v.state == CircuitState::HalfOpen,
        v.half_open_successes == 0,
        cfg.recovery_threshold > 0,
        k <= cfg.recovery_threshold,
    ensures
        k < cfg.recovery_threshold ==> successes(v, cfg, k).state == CircuitState::HalfOpen
            && successes(v, cfg, k).half_open_successes == k,
        k == cfg.recovery_threshold ==> successes(v, cfg, k).state == CircuitState::Closed
            && successes(v, cfg, k).failure_count == 0,
    decreases k,
{
    if k > 0 {
        law_recovers_at_threshold(v, cfg, (k - 1) as nat);
    }
}

} // verus!
