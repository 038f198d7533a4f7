use vstd::prelude::*;

verus! {

/// Nanoseconds in one second.
pub const NANOS_PER_SEC: u32 = 1_000_000_000;

/// A span of time as whole seconds plus a sub-second nanosecond part.
///
/// Well-formed values keep `nanos` strictly below one second, so each
/// span has exactly one representation.
#[derive(Clone, Copy, Debug, PartialEq, Eq, Structural)]
pub struct Duration {
    pub secs: u64,
    pub nanos: u32,
}

/// The largest total nanosecond count a well-formed `Duration` can hold.
pub open spec fn max_duration_nanos() -> int {
    u64::MAX * (NANOS_PER_SEC as int) + (NANOS_PER_SEC - 1)
}

impl Duration {
    /// The nanosecond part stays below one second.
    pub open spec fn wf(&self) -> bool {
        self.nanos < NANOS_PER_SEC
    }

    /// The whole span in nanoseconds.
    pub open spec fn as_nanos(&self) -> int {
        self.secs * (NANOS_PER_SEC as int) + self.nanos
    }

    pub fn new(secs: u64, nanos: u32) -> (r: Duration)
        requires
            nanos < NANOS_PER_SEC,
        ensures
            r.wf(),
            r.secs == secs,
            r.nanos == nanos,
    {
        Duration { secs, nanos }
    }

    pub fn from_secs(secs: u64) -> (r: Duration)
        ensures
            r.wf(),
            r.secs == secs,
            r.nanos == 0,
            r.as_nanos() == secs * (NANOS_PER_SEC as int),
    {
        Duration { secs, nanos: 0 }
    }

    pub fn zero() -> (r: Duration)
        ensures
            r.wf(),
            r.as_nanos() == 0,
            r == (Duration { secs: 0u64, nanos: 0u32 }),
    {
        Duration { secs: 0, nanos: 0 }
    }

    /// The exact sum of two spans, or `None` where the sum does not fit.
    pub fn checked_add(&self, other: &Duration) -> (r: Option<Duration>)
        requires
            self.wf(),
            other.wf(),
        ensures
            match r {
                Some(d) => d.wf() && d.as_nanos() == self.as_nanos() + other.as_nanos(),
                None => self.as_nanos() + other.as_nanos() > max_duration_nanos(),
            },
    {
        let nsum: u32 = self.nanos + other.nanos;
        let carry: bool = nsum >= NANOS_PER_SEC;
        let nanos: u32 = if carry {
            nsum - NANOS_PER_SEC
        } else {
            nsum
        };
        if self.secs <= u64::MAX - other.secs {
            let ssum: u64 = self.secs + other.secs;
            if carry {
                if ssum < u64::MAX {
                    Some(Duration { secs: ssum + 1, nanos })
                } else {
                    None
                }
            } else {
                Some(Duration { secs: ssum, nanos })
            }
        } else {
            None
        }
    }

    /// Strict comparison of total spans.
    pub fn gt(&self, other: &Duration) -> (r: bool)
        requires
            self.wf(),
            other.wf(),
        ensures
            r == (self.as_nanos() > other.as_nanos()),
    {
        self.secs > other.secs || (self.secs == other.secs && self.nanos > other.nanos)
    }
}

} // verus!
