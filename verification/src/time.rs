//! Spans of time, held in nanoseconds. Points in time are `u64` nanoseconds
//! since an origin that the caller picks and keeps (a monotonic clock read
//! once at start-up).
use vstd::prelude::*;

verus! {

/// Nanoseconds in a second.
pub const NANOS_PER_SEC: u128 = 1_000_000_000;

/// Nanoseconds in a millisecond.
pub const NANOS_PER_MILLI: u128 = 1_000_000;

/// The longest span in nanoseconds: `u64::MAX` seconds and just under one
/// more second, as for `std::time::Duration`.
pub const MAX_SPAN_NANOS: u128 = 18_446_744_073_709_551_615_999_999_999u128;

/// The longest span, in nanoseconds.
pub open spec fn max_span_nanos() -> nat {
    MAX_SPAN_NANOS as nat
}

/// A length of time, in nanoseconds.
#[derive(Clone, Copy, Debug)]
pub struct TimeSpan {
    nanos: u128,
}

impl View for TimeSpan {
    type V = nat;

    /// The span in nanoseconds.
    closed spec fn view(&self) -> nat {
        self.nanos as nat
    }
}

impl TimeSpan {
    #[verifier::type_invariant]
    spec fn bounded(self) -> bool {
        self.nanos <= max_span_nanos()
    }

    /// A span of `secs` seconds.
    pub fn from_secs(secs: u64) -> (t: TimeSpan)
        ensures
            t@ == secs * 1_000_000_000,
    {
        assert(secs * 1_000_000_000 <= u64::MAX as nat * 1_000_000_000) by (nonlinear_arith)
            requires secs <= u64::MAX;
        TimeSpan { nanos: secs as u128 * NANOS_PER_SEC }
    }

    /// A span of `nanos` nanoseconds, no longer than the longest span.
    pub fn from_nanos(nanos: u128) -> (t: TimeSpan)
        requires
            nanos <= max_span_nanos(),
        ensures
            t@ == nanos,
    {
        TimeSpan { nanos }
    }

    /// A span of `millis` milliseconds.
    pub fn from_millis(millis: u64) -> (t: TimeSpan)
        ensures
            t@ == millis * 1_000_000,
    {
        assert(millis * 1_000_000 <= u64::MAX as nat * 1_000_000) by (nonlinear_arith)
            requires millis <= u64::MAX;
        TimeSpan { nanos: millis as u128 * NANOS_PER_MILLI }
    }

    /// The span in nanoseconds.
    pub fn as_nanos(&self) -> (n: u128)
        ensures
            n == self@,
            n <= max_span_nanos(),
    {
        proof {
            use_type_invariant(self);
        }
        self.nanos
    }

    /// The whole seconds in the span.
    pub fn as_secs(&self) -> (s: u64)
        ensures
            s == self@ / 1_000_000_000,
    {
        proof {
            use_type_invariant(self);
        }
        (self.nanos / NANOS_PER_SEC) as u64
    }

    /// The whole milliseconds in the span.
    pub fn as_millis(&self) -> (m: u128)
        ensures
            m == self@ / 1_000_000,
    {
        self.nanos / NANOS_PER_MILLI
    }

    /// Twice the span, where that is no longer than the longest span.
    pub fn doubled(self) -> (t: TimeSpan)
        requires
            2 * self@ <= max_span_nanos(),
        ensures
            t@ == 2 * self@,
    {
        TimeSpan { nanos: self.nanos * 2 }
    }

    /// The shorter of two spans.
    pub fn min(self, other: TimeSpan) -> (t: TimeSpan)
        ensures
            t@ == if self@ <= other@ { self@ } else { other@ },
    {
        if self.nanos <= other.nanos {
            self
        } else {
            other
        }
    }
}

} // verus!
