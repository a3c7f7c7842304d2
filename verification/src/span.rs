//! Lengths of time.
use vstd::prelude::*;

verus! {

/// A length of time.
#[derive(Debug, Clone, Copy, PartialEq, Eq, Structural)]
pub struct Span {
    pub nanos: u128,
}

impl Span {
    /// Some seconds.
    pub open spec fn secs(n: u64) -> Span {
        Span { nanos: (n * 1_000_000_000) as u128 }
    }

    /// Some milliseconds.
    pub open spec fn millis(n: u64) -> Span {
        Span { nanos: (n * 1_000_000) as u128 }
    }

    /// No time.
    pub fn zero() -> (span: Span)
        ensures
            span == (Span { nanos: 0 }),
    {
        Span { nanos: 0 }
    }

    /// Some seconds.
    pub fn from_secs(n: u64) -> (span: Span)
        ensures
            span == Span::secs(n),
    {
        Span { nanos: n as u128 * 1_000_000_000 }
    }

    /// Some milliseconds.
    pub fn from_millis(n: u64) -> (span: Span)
        ensures
            span == Span::millis(n),
    {
        Span { nanos: n as u128 * 1_000_000 }
    }

    /// What is left of this time once `other` has passed.
    pub fn saturating_sub(&self, other: Span) -> (left: Span)
        ensures
            left.nanos == if self.nanos > other.nanos {
                self.nanos - other.nanos
            } else {
                0
            },
    {
        Span { nanos: self.nanos.saturating_sub(other.nanos) }
    }
}

/// A second has a thousand milliseconds and a thousand million nanoseconds.
pub proof fn law_units(n: u64)
    ensures
        Span::secs(n).nanos == n * 1_000_000_000,
        Span::millis(n).nanos == n * 1_000_000,
{
}

} // verus!
