//! Spans of time and points in time, to the nanosecond.
use vstd::prelude::*;

verus! {

/// The nanoseconds in a second.
pub const NANOS_PER_SEC: u128 = 1_000_000_000;

/// A span of time.
#[derive(Debug, Clone, Copy, PartialEq, Eq, Structural)]
pub struct Duration {
    /// The length of the span in nanoseconds.
    pub nanos: u128,
}

impl View for Duration {
    type V = nat;

    /// The length of the span in nanoseconds.
    open spec fn view(&self) -> nat {
        self.nanos as nat
    }
}

impl Duration {
    /// The span of `secs` seconds and `nanos` nanoseconds.
    pub fn new(secs: u64, nanos: u32) -> (d: Duration)
        ensures
            d@ == secs * NANOS_PER_SEC + nanos,
            d.nanos == secs * 1_000_000_000 + nanos,
    {
        Duration { nanos: secs as u128 * NANOS_PER_SEC + nanos as u128 }
    }

    /// The span of `secs` seconds.
    pub fn from_secs(secs: u64) -> (d: Duration)
        ensures
            d@ == secs * NANOS_PER_SEC,
            d.nanos == secs * 1_000_000_000,
    {
        Duration::new(secs, 0)
    }

    /// The length of the span in nanoseconds.
    pub fn as_nanos(&self) -> (nanos: u128)
        ensures
            nanos == self@,
            nanos == self.nanos,
    {
        self.nanos
    }

    /// Whether this span is at least as long as `other`.
    pub fn at_least(&self, other: &Duration) -> (b: bool)
        ensures
            b == (self@ >= other@),
            b == (self.nanos >= other.nanos),
    {
        self.nanos >= other.nanos
    }
}

/// A point in time, measured from an origin that all the points a pool sees
/// have in common.
#[derive(Debug, Clone, Copy, PartialEq, Eq, Structural)]
pub struct Instant {
    /// How far this point lies after the origin.
    pub since_origin: Duration,
}

impl View for Instant {
    type V = nat;

    /// The nanoseconds from the origin to this point.
    open spec fn view(&self) -> nat {
        self.since_origin@
    }
}

/// How long after `earlier` the point `later` is; nothing if it is before.
pub open spec fn elapsed(earlier: nat, later: nat) -> nat {
    if later >= earlier {
        (later - earlier) as nat
    } else {
        0
    }
}

impl Instant {
    /// The point that lies `since_origin` after the origin.
    pub fn after_origin(since_origin: Duration) -> (t: Instant)
        ensures
            t@ == since_origin@,
            t.since_origin == since_origin,
    {
        Instant { since_origin }
    }

    /// The time from `earlier` to this point, or no time at all if `earlier` is
    /// the later of the two.
    pub fn duration_since(&self, earlier: &Instant) -> (d: Duration)
        ensures
            d@ == elapsed(earlier@, self@),
            earlier.since_origin.nanos <= self.since_origin.nanos ==> earlier.since_origin.nanos
                + d.nanos == self.since_origin.nanos,
            earlier.since_origin.nanos >= self.since_origin.nanos ==> d.nanos == 0,
    {
        if self.since_origin.nanos >= earlier.since_origin.nanos {
            Duration { nanos: self.since_origin.nanos - earlier.since_origin.nanos }
        } else {
            Duration { nanos: 0 }
        }
    }
}

/// The time by which something that began at `begun` must be over: `limit` later.
#[derive(Debug, Clone, Copy, PartialEq, Eq, Structural)]
pub struct Deadline {
    /// When it began.
    pub begun: Instant,
    /// How long it may take in all.
    pub limit: Duration,
}

impl View for Deadline {
    type V = nat;

    /// The nanoseconds from the origin to the deadline.
    open spec fn view(&self) -> nat {
        self.begun@ + self.limit@
    }
}

impl Deadline {
    /// What is left at `now` of the time that was given; nothing once it is used up.
    pub open spec fn time_left(self, now: Instant) -> Option<Duration> {
        let used = elapsed(self.begun@, now@);
        if used >= self.limit@ {
            None
        } else {
            Some(Duration { nanos: (self.limit@ - used) as u128 })
        }
    }

    /// What is left at `now` of the time that was given; nothing once it is used up.
    pub fn left(&self, now: Instant) -> (left: Option<Duration>)
        ensures
            left == self.time_left(now),
            now@ >= self@ ==> left is None,
            left is None <==> self.limit@ == 0 || now@ >= self.begun@ + self.limit@,
            now@ < self.begun@ && self.limit@ > 0 ==> left == Some(self.limit),
            left matches Some(d) ==> 0 < d@ && now@ + d@ <= self@,
            now@ >= self.begun@ ==> match left {
                Some(d) => now@ + d@ == self@,
                None => now@ >= self@,
            },
    {
        let used = now.duration_since(&self.begun);
        if used.nanos >= self.limit.nanos {
            None
        } else {
            Some(Duration { nanos: self.limit.nanos - used.nanos })
        }
    }
}

} // verus!
