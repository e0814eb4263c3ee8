//! Spans of time.
use vstd::prelude::*;

verus! {

/// A span of time in whole seconds and the nanoseconds beyond them.
#[derive(Debug, Clone, Copy, PartialEq, Eq, Structural)]
pub struct Duration {
    pub secs: u64,
    pub nanos: u32,
}

impl Duration {
    /// The nanoseconds beyond the whole seconds are less than a second.
    pub open spec fn is_normal(self) -> bool {
        self.nanos < 1_000_000_000
    }

    /// The length of the span in nanoseconds.
    pub open spec fn length(self) -> nat {
        (self.secs * 1_000_000_000 + self.nanos) as nat
    }

    /// No time at all.
    pub fn zero() -> (span: Duration)
        ensures
            span.is_normal(),
            span.length() == 0,
    {
        Duration { secs: 0, nanos: 0 }
    }

    /// Whether this span is at least as long as `limit`.
    pub fn reaches(&self, limit: &Duration) -> (reached: bool)
        ensures
            reached == (self.length() >= limit.length()),
    {
        let mine: u128 = self.secs as u128 * 1_000_000_000 + self.nanos as u128;
        let other: u128 = limit.secs as u128 * 1_000_000_000 + limit.nanos as u128;
        mine >= other
    }

    /// The span of `millis` milliseconds.
    pub fn from_millis(millis: u64) -> (span: Duration)
        ensures
            span.is_normal(),
            span.length() == millis * 1_000_000,
    {
        Duration { secs: millis / 1000, nanos: ((millis % 1000) as u32) * 1_000_000 }
    }
}

/// A normal span is told by its length.
pub proof fn law_length_tells_spans_apart(a: Duration, b: Duration)
    requires
        a.is_normal(),
        b.is_normal(),
        a.length() == b.length(),
    ensures
        a == b,
{
}

/// Spans are compared by their seconds, and by their nanoseconds where the seconds agree.
pub proof fn law_spans_compare_by_seconds_first(a: Duration, b: Duration)
    requires
        a.is_normal(),
        b.is_normal(),
    ensures
        a.length() >= b.length() <==> a.secs > b.secs || (a.secs == b.secs && a.nanos >= b.nanos),
        a.is_normal() <==> a.nanos < 1_000_000_000,
{
}

} // verus!
