//! Spans of time, in whole milliseconds.

use vstd::prelude::*;

verus! {

/// The longest span: `u64::MAX` seconds and 999 milliseconds.
pub const MAX_MILLIS: u128 = 18446744073709551615999;

/// A span of time with the range of `std::time::Duration` and a resolution of
/// one millisecond.
#[derive(Debug, Clone, Copy, PartialEq, Eq, Structural)]
pub struct Duration {
    millis: u128,
}

impl View for Duration {
    type V = nat;

    /// The length in milliseconds.
    closed spec fn view(&self) -> nat {
        self.millis as nat
    }
}

impl Duration {
    #[verifier::type_invariant]
    spec fn in_range(self) -> bool {
        self.millis <= MAX_MILLIS
    }

    /// A span of `secs` seconds.
    pub fn from_secs(secs: u64) -> (span: Duration)
        ensures
            span@ == secs * 1000,
    {
        Duration { millis: secs as u128 * 1000 }
    }

    /// A span of `millis` milliseconds.
    pub fn from_millis(millis: u64) -> (span: Duration)
        ensures
            span@ == millis,
    {
        Duration { millis: millis as u128 }
    }

    /// The number of whole seconds.
    pub fn as_secs(&self) -> (secs: u64)
        ensures
            secs == self@ / 1000,
    {
        proof {
            use_type_invariant(self);
        }
        (self.millis / 1000) as u64
    }

    /// The number of milliseconds.
    pub fn as_millis(&self) -> (millis: u128)
        ensures
            millis == self@,
    {
        self.millis
    }

    /// Whether the span has no length.
    pub fn is_zero(&self) -> (zero: bool)
        ensures
            zero == (self@ == 0),
    {
        self.millis == 0
    }

    /// Whether this span is shorter than `other`.
    pub fn shorter_than(&self, other: &Duration) -> (shorter: bool)
        ensures
            shorter == (self@ < other@),
    {
        self.millis < other.millis
    }

    /// What is left of this span when `other` has passed.
    pub fn saturating_sub(self, other: Duration) -> (rest: Duration)
        ensures
            rest@ == if self@ >= other@ {
                (self@ - other@) as nat
            } else {
                0
            },
    {
        proof {
            use_type_invariant(self);
        }
        if self.millis >= other.millis {
            Duration { millis: self.millis - other.millis }
        } else {
            Duration { millis: 0 }
        }
    }
}

} // verus!
