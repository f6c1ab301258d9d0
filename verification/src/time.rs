//! Durations and instants as plain numbers.

use vstd::prelude::*;

verus! {

/// Nanoseconds in a second.
pub const NANOS_PER_SEC: u32 = 1_000_000_000;

/// A length of time: whole seconds and the nanoseconds past them, as
/// `std::time::Duration` holds it.
#[derive(Debug, Clone, Copy, PartialEq, Eq, Structural)]
pub struct TimeSpan {
    secs: u64,
    nanos: u32,
}

/// The length of a span in nanoseconds.
pub closed spec fn span_nanos(t: TimeSpan) -> nat {
    (t.secs as nat) * (NANOS_PER_SEC as nat) + (t.nanos as nat)
}

/// The whole seconds of a span.
pub closed spec fn span_secs(t: TimeSpan) -> u64 {
    t.secs
}

/// The nanoseconds of a span past its whole seconds.
pub closed spec fn span_subsec_nanos(t: TimeSpan) -> u32 {
    t.nanos
}

/// The time that passed from `then` to `now` on a monotonic clock counted in
/// nanoseconds; none when `then` is later, as `Instant::elapsed` saturates.
pub open spec fn elapsed_nanos(now: u128, then: u128) -> nat {
    if now >= then {
        (now - then) as nat
    } else {
        0
    }
}

impl TimeSpan {
    #[verifier::type_invariant]
    spec fn nanos_below_a_second(self) -> bool {
        self.nanos < NANOS_PER_SEC
    }

    /// A span of `secs` seconds and `nanos` nanoseconds.
    pub fn new(secs: u64, nanos: u32) -> (r: Self)
        requires
            nanos < NANOS_PER_SEC,
        ensures
            span_secs(r) == secs,
            span_subsec_nanos(r) == nanos,
            span_nanos(r) == secs * 1_000_000_000 + nanos,
    {
        TimeSpan { secs, nanos }
    }

    /// A span of whole seconds.
    pub fn from_secs(secs: u64) -> (r: Self)
        ensures
            span_nanos(r) == secs * 1_000_000_000,
            span_secs(r) == secs,
            span_subsec_nanos(r) == 0,
    {
        TimeSpan { secs, nanos: 0 }
    }

    /// A span of whole milliseconds.
    pub fn from_millis(millis: u64) -> (r: Self)
        ensures
            span_nanos(r) == millis * 1_000_000,
    {
        let secs = millis / 1000;
        let rest = millis % 1000;
        proof {
            assert(rest * 1_000_000 < 1_000_000_000) by (nonlinear_arith)
                requires
                    rest < 1000,
            ;
            assert(secs * 1_000_000_000 + rest * 1_000_000 == millis * 1_000_000) by (
            nonlinear_arith)
                requires
                    secs == millis / 1000,
                    rest == millis % 1000,
            ;
        }
        TimeSpan { secs, nanos: (rest * 1_000_000) as u32 }
    }

    /// The whole seconds.
    pub fn secs(&self) -> (r: u64)
        ensures
            r == span_secs(*self),
    {
        self.secs
    }

    /// The nanoseconds past the whole seconds, below one second.
    pub fn subsec_nanos(&self) -> (r: u32)
        ensures
            r == span_subsec_nanos(*self),
            r < NANOS_PER_SEC,
    {
        proof {
            use_type_invariant(self);
        }
        self.nanos
    }

    /// The length in nanoseconds.
    pub fn as_nanos(&self) -> (r: u128)
        ensures
            r == span_nanos(*self),
    {
        (self.secs as u128) * 1_000_000_000 + (self.nanos as u128)
    }
}

/// The time from `then` to `now`, in nanoseconds.
pub fn elapsed(now: u128, then: u128) -> (r: u128)
    ensures
        r == elapsed_nanos(now, then),
{
    if now >= then {
        now - then
    } else {
        0
    }
}

} // verus!
