//! A span of time in whole seconds and nanoseconds, the plain-value form of
//! `std::time::Duration` that the library reasons about.

use vstd::prelude::*;

verus! {

pub const NANOS_PER_SEC: u32 = 1_000_000_000;

/// A span of time: `secs` seconds plus `nanos` nanoseconds (`nanos` < 10^9).
#[derive(Debug, Clone, Copy, PartialEq, Eq, Structural)]
pub struct TimeSpan {
    pub secs: u64,
    pub nanos: u32,
}

impl TimeSpan {
    /// The span is in normal form.
    pub open spec fn wf(self) -> bool {
        self.nanos < 1_000_000_000
    }

    /// The span in nanoseconds.
    pub open spec fn total(self) -> int {
        self.secs * 1_000_000_000 + self.nanos
    }

    /// The greatest total a span can have.
    pub open spec fn max_total() -> int {
        u64::MAX * 1_000_000_000 + 999_999_999
    }

    /// The span with the given nanosecond total.
    pub open spec fn of_total(t: int) -> TimeSpan {
        TimeSpan { secs: (t / 1_000_000_000) as u64, nanos: (t % 1_000_000_000) as u32 }
    }

    /// The empty span.
    pub fn zero() -> (r: TimeSpan)
        ensures
            r.wf(),
            r.total() == 0,
    {
        TimeSpan { secs: 0, nanos: 0 }
    }

    /// The span of `secs` whole seconds.
    pub open spec fn from_secs_spec(secs: u64) -> TimeSpan {
        TimeSpan { secs, nanos: 0 }
    }

    /// A span of whole seconds.
    pub fn from_secs(secs: u64) -> (r: TimeSpan)
        ensures
            r == TimeSpan::from_secs_spec(secs),
            r.wf(),
            r.secs == secs,
            r.nanos == 0,
            r.total() == secs * 1_000_000_000,
    {
        TimeSpan { secs, nanos: 0 }
    }

    /// A span of whole milliseconds.
    pub fn from_millis(ms: u64) -> (r: TimeSpan)
        ensures
            r.wf(),
            r.total() == ms * 1_000_000,
    {
        let secs = ms / 1000;
        let rem = ms % 1000;
        let nanos = (rem as u32) * 1_000_000;
        proof {
            assert(ms == secs * 1000 + rem);
            assert(ms * 1_000_000 == secs * 1_000_000_000 + rem * 1_000_000) by (nonlinear_arith)
                requires ms == secs * 1000 + rem;
        }
        TimeSpan { secs, nanos }
    }

    /// A span of whole microseconds.
    pub fn from_micros(us: u64) -> (r: TimeSpan)
        ensures
            r.wf(),
            r.total() == us * 1_000,
    {
        let secs = us / 1_000_000;
        let rem = us % 1_000_000;
        let nanos = (rem as u32) * 1000;
        proof {
            assert(us == secs * 1_000_000 + rem);
            assert(us * 1000 == secs * 1_000_000_000 + rem * 1000) by (nonlinear_arith)
                requires us == secs * 1_000_000 + rem;
        }
        TimeSpan { secs, nanos }
    }

    /// Whether the span is empty.
    pub fn is_zero(&self) -> (r: bool)
        requires
            self.wf(),
        ensures
            r == (self.total() == 0),
    {
        self.secs == 0 && self.nanos == 0
    }

    /// `self < other`.
    pub fn lt(&self, other: &TimeSpan) -> (r: bool)
        requires
            self.wf(),
            other.wf(),
        ensures
            r == (self.total() < other.total()),
    {
        self.secs < other.secs || (self.secs == other.secs && self.nanos < other.nanos)
    }

    /// The longer of two spans.
    pub fn max(self, other: TimeSpan) -> (r: TimeSpan)
        requires
            self.wf(),
            other.wf(),
        ensures
            r.wf(),
            r.total() == if self.total() >= other.total() {
                self.total()
            } else {
                other.total()
            },
            r == self || r == other,
    {
        if self.lt(&other) {
            other
        } else {
            self
        }
    }

    /// The sum of two spans; the sum must fit.
    pub fn add(self, other: TimeSpan) -> (r: TimeSpan)
        requires
            self.wf(),
            other.wf(),
            self.total() + other.total() <= TimeSpan::max_total(),
        ensures
            r.wf(),
            r.total() == self.total() + other.total(),
    {
        let n = self.nanos + other.nanos;
        if n >= NANOS_PER_SEC {
            TimeSpan { secs: self.secs + other.secs + 1, nanos: n - NANOS_PER_SEC }
        } else {
            TimeSpan { secs: self.secs + other.secs, nanos: n }
        }
    }

    /// The difference `self - other`, or zero when `other` is the longer.
    pub fn saturating_sub(self, other: TimeSpan) -> (r: TimeSpan)
        requires
            self.wf(),
            other.wf(),
        ensures
            r.wf(),
            r.total() == if self.total() >= other.total() {
                self.total() - other.total()
            } else {
                0
            },
    {
        if self.lt(&other) {
            TimeSpan::zero()
        } else if self.nanos >= other.nanos {
            TimeSpan { secs: self.secs - other.secs, nanos: self.nanos - other.nanos }
        } else {
            TimeSpan { secs: self.secs - other.secs - 1, nanos: self.nanos + NANOS_PER_SEC - other.nanos }
        }
    }

    /// The smaller of `2 * self` and `cap`.
    pub fn double_capped(self, cap: TimeSpan) -> (r: TimeSpan)
        requires
            self.wf(),
            cap.wf(),
        ensures
            r.wf(),
            r.total() == if 2 * self.total() <= cap.total() {
                2 * self.total()
            } else {
                cap.total()
            },
    {
        let rest = cap.saturating_sub(self);
        if !rest.lt(&self) {
            self.add(self)
        } else {
            cap
        }
    }
}

} // verus!
