//! Time spans and points in time on a nanosecond scale.
//!
//! The notification logic only reads time through these two types: a
//! [`Duration`] is a span, an [`Instant`] is a point on a monotonic clock
//! whose origin is chosen by the caller (the host reads its clock and
//! hands the library the elapsed nanoseconds).

use vstd::prelude::*;

verus! {

/// Nanoseconds in one millisecond.
pub const NANOS_PER_MILLI: u128 = 1_000_000;

/// Nanoseconds in one second.
pub const NANOS_PER_SEC: u128 = 1_000_000_000;

/// The longest span reported as "never": `u64::MAX` seconds and 999_999_999 nanoseconds.
pub const MAX_DURATION_NANOS: u128 = 18_446_744_073_709_551_615_999_999_999;

/// A span of time, in nanoseconds.
#[derive(Clone, Copy, Debug, PartialEq, Eq, Structural, PartialOrd, Ord, Hash)]
pub struct Duration {
    pub nanos: u128,
}

/// A point in time, in nanoseconds since the caller's clock origin.
#[derive(Clone, Copy, Debug, PartialEq, Eq, Structural, PartialOrd, Ord, Hash)]
pub struct Instant {
    pub nanos: u128,
}

impl View for Duration {
    type V = nat;

    open spec fn view(&self) -> nat {
        self.nanos as nat
    }
}

impl View for Instant {
    type V = nat;

    open spec fn view(&self) -> nat {
        self.nanos as nat
    }
}

impl Duration {
    /// A span of `millis` milliseconds.
    pub fn from_millis(millis: u64) -> (d: Duration)
        ensures
            d@ == millis * NANOS_PER_MILLI,
    {
        Duration { nanos: millis as u128 * NANOS_PER_MILLI }
    }

    /// A span of `secs` seconds.
    pub fn from_secs(secs: u64) -> (d: Duration)
        ensures
            d@ == secs * NANOS_PER_SEC,
    {
        Duration { nanos: secs as u128 * NANOS_PER_SEC }
    }

    /// A span of `nanos` nanoseconds.
    pub fn from_nanos(nanos: u128) -> (d: Duration)
        ensures
            d@ == nanos,
    {
        Duration { nanos }
    }

    /// The longest span, used for "never expires".
    pub fn maximum() -> (d: Duration)
        ensures
            d@ == MAX_DURATION_NANOS,
    {
        Duration { nanos: MAX_DURATION_NANOS }
    }

    /// The span in nanoseconds.
    pub fn as_nanos(&self) -> (n: u128)
        ensures
            n == self@,
    {
        self.nanos
    }
}

/// Whether `later` can be computed as `at + span` without leaving the clock's range.
pub open spec fn fits_after(at: Instant, span: Duration) -> bool {
    at@ + span@ <= u128::MAX
}

/// The point `span` after `at` (only meaningful where [`fits_after`] holds).
pub open spec fn point_after(at: Instant, span: Duration) -> Instant {
    Instant { nanos: (at@ + span@) as u128 }
}

/// The span from `earlier` to `later`, or zero when `earlier` is not before `later`.
pub open spec fn span_since(later: Instant, earlier: Instant) -> Duration {
    if later@ >= earlier@ {
        Duration { nanos: (later@ - earlier@) as u128 }
    } else {
        Duration { nanos: 0 }
    }
}

impl Instant {
    /// The point `nanos` nanoseconds after the clock origin.
    pub fn from_nanos(nanos: u128) -> (t: Instant)
        ensures
            t@ == nanos,
    {
        Instant { nanos }
    }

    /// Nanoseconds since the clock origin.
    pub fn as_nanos(&self) -> (n: u128)
        ensures
            n == self@,
    {
        self.nanos
    }

    /// The span from `earlier` to `self`, or zero if `earlier` is later than `self`.
    pub fn saturating_duration_since(&self, earlier: Instant) -> (d: Duration)
        ensures
            d == span_since(*self, earlier),
    {
        if self.nanos >= earlier.nanos {
            Duration { nanos: self.nanos - earlier.nanos }
        } else {
            Duration { nanos: 0 }
        }
    }
}

impl core::ops::Add<Duration> for Instant {
    type Output = Instant;

    /// The point `rhs` after `self`.
    fn add(self, rhs: Duration) -> (t: Instant)
        ensures
            t == point_after(self, rhs),
    {
        Instant { nanos: self.nanos + rhs.nanos }
    }
}

impl vstd::std_specs::ops::AddSpecImpl<Duration> for Instant {
    open spec fn obeys_add_spec() -> bool {
        true
    }

    open spec fn add_req(self, rhs: Duration) -> bool {
        fits_after(self, rhs)
    }

    open spec fn add_spec(self, rhs: Duration) -> Instant {
        point_after(self, rhs)
    }
}

} // verus!
