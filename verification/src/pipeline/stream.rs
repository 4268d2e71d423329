//! Stream processing: window admission and event-time watermarks.
use vstd::prelude::*;

verus! {

/// Window type for stream processing.
#[derive(Debug, Clone, Copy, PartialEq, Eq, Structural)]
pub enum WindowType {
    /// Tumbling window — fixed, non-overlapping.
    Tumbling,
    /// Sliding window — overlapping with a slide interval.
    Sliding,
    /// Session window — gap-based.
    Session,
}

/// Aggregation function.
#[derive(Debug, Clone, Copy, PartialEq, Eq, Structural)]
pub enum AggregateFunc {
    Sum,
    Count,
    Min,
    Max,
    Avg,
}

/// Whether a window admits an event: never one before the window's start; a tumbling or
/// sliding window takes events before its end (start + duration); a session window takes
/// an event no later than `duration` after the last event it holds (any, when it is empty).
pub open spec fn spec_admits(
    window_type: WindowType,
    start_ms: u64,
    duration_ms: u64,
    last_ms: Option<u64>,
    ts: u64,
) -> bool {
    if ts < start_ms {
        false
    } else {
        match window_type {
            WindowType::Session => match last_ms {
                Some(last) => ts <= last + duration_ms,
                None => true,
            },
            _ => ts < start_ms + duration_ms,
        }
    }
}

/// A tumbling or sliding window admits exactly the events in `[start, start + duration)`,
/// whatever it already holds; the two kinds admit the same events.
pub proof fn law_fixed_window_span(
    window_type: WindowType,
    start_ms: u64,
    duration_ms: u64,
    last_ms: Option<u64>,
    other_last_ms: Option<u64>,
    ts: u64,
)
    requires
        !(window_type is Session),
    ensures
        spec_admits(window_type, start_ms, duration_ms, last_ms, ts) <==> (start_ms <= ts && ts
            < start_ms + duration_ms),
        spec_admits(window_type, start_ms, duration_ms, last_ms, ts) == spec_admits(
            window_type,
            start_ms,
            duration_ms,
            other_last_ms,
            ts,
        ),
        spec_admits(WindowType::Tumbling, start_ms, duration_ms, last_ms, ts) == spec_admits(
            WindowType::Sliding,
            start_ms,
            duration_ms,
            last_ms,
            ts,
        ),
{
}

/// A session window admits no event before its start; from its start on it admits any
/// event while it is empty, and otherwise an event at most `duration` after the last one
/// it holds.
pub proof fn law_session_window_gap(start_ms: u64, duration_ms: u64, last_ms: Option<u64>, ts: u64)
    ensures
        spec_admits(WindowType::Session, start_ms, duration_ms, last_ms, ts) <==> (start_ms <= ts
            && match last_ms {
            Some(last) => ts - last <= duration_ms,
            None => true,
        }),
{
}

/// Whether a window of the given type, start and duration, whose last held event (if any)
/// has timestamp `last_ms`, admits an event with timestamp `ts`.
pub fn window_admits(
    window_type: WindowType,
    start_ms: u64,
    duration_ms: u64,
    last_ms: Option<u64>,
    ts: u64,
) -> (b: bool)
    requires
        ts >= start_ms && !(window_type is Session) ==> start_ms + duration_ms <= u64::MAX,
        ts >= start_ms && window_type is Session && last_ms is Some ==> last_ms->0 + duration_ms
            <= u64::MAX,
    ensures
        b == spec_admits(window_type, start_ms, duration_ms, last_ms, ts),
{
    if ts < start_ms {
        return false;
    }
    match window_type {
        WindowType::Tumbling | WindowType::Sliding => ts < start_ms + duration_ms,
        WindowType::Session => match last_ms {
            Some(last) => ts <= last + duration_ms,
            None => true,
        },
    }
}

/// Watermark tracker: tracks event-time progress to drop events that arrive too late.
pub struct WatermarkTracker {
    watermark_ms: u64,
    max_lateness_ms: u64,
    late_events_dropped: u64,
    events_accepted: u64,
}

impl WatermarkTracker {
    /// The current watermark: the latest accepted event time.
    pub closed spec fn spec_watermark(&self) -> u64 {
        self.watermark_ms
    }

    /// The allowed lateness.
    pub closed spec fn spec_max_lateness(&self) -> u64 {
        self.max_lateness_ms
    }

    /// Events dropped as too late.
    pub closed spec fn spec_dropped(&self) -> u64 {
        self.late_events_dropped
    }

    /// Events accepted.
    pub closed spec fn spec_accepted(&self) -> u64 {
        self.events_accepted
    }

    /// Create a new watermark tracker.
    pub fn new(max_lateness_ms: u64) -> (w: Self)
        ensures
            w.spec_watermark() == 0,
            w.spec_max_lateness() == max_lateness_ms,
            w.spec_dropped() == 0,
            w.spec_accepted() == 0,
    {
        WatermarkTracker { watermark_ms: 0, max_lateness_ms, late_events_dropped: 0, events_accepted: 0 }
    }

    /// Process an event: it is dropped when its time plus the allowed lateness is still
    /// before the watermark; otherwise it is accepted and the watermark moves up to it.
    pub fn process(&mut self, event_timestamp_ms: u64) -> (accepted: bool)
        requires
            event_timestamp_ms + old(self).spec_max_lateness() <= u64::MAX,
            event_timestamp_ms + old(self).spec_max_lateness() < old(self).spec_watermark() ==> old(
                self,
            ).spec_dropped() < u64::MAX,
            event_timestamp_ms + old(self).spec_max_lateness() >= old(self).spec_watermark() ==> old(
                self,
            ).spec_accepted() < u64::MAX,
        ensures
            accepted == (event_timestamp_ms + old(self).spec_max_lateness() >= old(self).spec_watermark()),
            final(self).spec_max_lateness() == old(self).spec_max_lateness(),
            final(self).spec_watermark() >= old(self).spec_watermark(),
            !accepted ==> final(self).spec_watermark() == old(self).spec_watermark()
                && final(self).spec_dropped() == old(self).spec_dropped() + 1
                && final(self).spec_accepted() == old(self).spec_accepted(),
            accepted ==> final(self).spec_accepted() == old(self).spec_accepted() + 1
                && final(self).spec_dropped() == old(self).spec_dropped()
                && final(self).spec_watermark() == (if event_timestamp_ms > old(self).spec_watermark() {
                    event_timestamp_ms
                } else {
                    old(self).spec_watermark()
                }),
    {
        if event_timestamp_ms + self.max_lateness_ms < self.watermark_ms {
            self.late_events_dropped = self.late_events_dropped + 1;
            return false;
        }
        self.events_accepted = self.events_accepted + 1;
        if event_timestamp_ms > self.watermark_ms {
            self.watermark_ms = event_timestamp_ms;
        }
        true
    }

    /// Current watermark.
    pub fn watermark(&self) -> (w: u64)
        ensures
            w == self.spec_watermark(),
    {
        self.watermark_ms
    }

    /// Count of late events dropped.
    pub fn late_events_dropped(&self) -> (n: u64)
        ensures
            n == self.spec_dropped(),
    {
        self.late_events_dropped
    }

    /// Count of accepted events.
    pub fn events_accepted(&self) -> (n: u64)
        ensures
            n == self.spec_accepted(),
    {
        self.events_accepted
    }
}

} // verus!
