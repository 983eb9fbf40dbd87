//! Spans of time and moments, held as whole nanoseconds.

use vstd::prelude::*;

verus! {

pub const NANOS_PER_SEC: u128 = 1_000_000_000;

pub const NANOS_PER_MILLI: u128 = 1_000_000;

/// The longest span: the largest number of whole seconds that fits in 64 bits,
/// and one nanosecond less than a second.
pub const MAX_NANOS: u128 = 18_446_744_073_709_551_615_999_999_999;

/// A span of time, in nanoseconds.
#[derive(Clone, Copy, Debug, PartialEq, Eq, PartialOrd, Ord, Hash, Structural)]
pub struct Duration {
    pub nanos: u128,
}

impl View for Duration {
    type V = nat;

    open spec fn view(&self) -> nat {
        self.nanos as nat
    }
}

/// The smaller of two numbers.
pub open spec fn min_nat(a: nat, b: nat) -> nat {
    if a <= b {
        a
    } else {
        b
    }
}

impl Duration {
    pub fn zero() -> (d: Duration)
        ensures
            d@ == 0,
    {
        Duration { nanos: 0 }
    }

    pub fn from_nanos(nanos: u128) -> (d: Duration)
        ensures
            d@ == min_nat(nanos as nat, MAX_NANOS as nat),
    {
        if nanos <= MAX_NANOS {
            Duration { nanos }
        } else {
            Duration { nanos: MAX_NANOS }
        }
    }

    pub fn from_millis(millis: u64) -> (d: Duration)
        ensures
            d@ == millis * NANOS_PER_MILLI,
    {
        Duration { nanos: (millis as u128) * NANOS_PER_MILLI }
    }

    pub fn from_secs(secs: u64) -> (d: Duration)
        ensures
            d@ == secs * NANOS_PER_SEC,
    {
        Duration { nanos: (secs as u128) * NANOS_PER_SEC }
    }

    pub fn as_nanos(&self) -> (nanos: u128)
        ensures
            nanos == self@,
    {
        self.nanos
    }

    /// Whole milliseconds, rounded down.
    pub fn as_millis(&self) -> (millis: u128)
        ensures
            millis == self@ / NANOS_PER_MILLI as nat,
    {
        self.nanos / NANOS_PER_MILLI
    }

    /// Whole seconds, rounded down; no more than 64 bits hold.
    pub open spec fn whole_secs(self) -> nat {
        min_nat(self@ / NANOS_PER_SEC as nat, u64::MAX as nat)
    }

    pub fn as_secs(&self) -> (secs: u64)
        ensures
            secs == self.whole_secs(),
    {
        let secs: u128 = self.nanos / NANOS_PER_SEC;
        if secs <= u64::MAX as u128 {
            secs as u64
        } else {
            u64::MAX
        }
    }

    pub fn is_zero(&self) -> (zero: bool)
        ensures
            zero == (self@ == 0),
    {
        self.nanos == 0
    }

    pub fn saturating_sub(&self, other: Duration) -> (d: Duration)
        ensures
            d@ == if self@ >= other@ {
                (self@ - other@) as nat
            } else {
                0
            },
    {
        if self.nanos >= other.nanos {
            Duration { nanos: self.nanos - other.nanos }
        } else {
            Duration { nanos: 0 }
        }
    }

    pub fn at_most(&self, other: Duration) -> (d: Duration)
        ensures
            d@ == min_nat(self@, other@),
    {
        if self.nanos <= other.nanos {
            *self
        } else {
            other
        }
    }
}

/// A moment, in nanoseconds since some fixed beginning.
#[derive(Clone, Copy, Debug, PartialEq, Eq, PartialOrd, Ord, Hash, Structural)]
pub struct Moment {
    pub nanos: u128,
}

impl View for Moment {
    type V = nat;

    open spec fn view(&self) -> nat {
        self.nanos as nat
    }
}

impl Moment {
    /// The moment `span` later; moments end where 128 bits do.
    pub open spec fn after(self, span: Duration) -> Moment {
        Moment { nanos: min_nat(self@ + span@, u128::MAX as nat) as u128 }
    }

    pub fn plus(&self, span: Duration) -> (later: Moment)
        ensures
            later == self.after(span),
    {
        if span.nanos <= u128::MAX - self.nanos {
            Moment { nanos: self.nanos + span.nanos }
        } else {
            Moment { nanos: u128::MAX }
        }
    }

    /// How much later than `earlier`, or nothing.
    pub fn saturating_since(&self, earlier: Moment) -> (span: Duration)
        ensures
            span@ == if self@ >= earlier@ {
                (self@ - earlier@) as nat
            } else {
                0
            },
    {
        if self.nanos >= earlier.nanos {
            Duration { nanos: self.nanos - earlier.nanos }
        } else {
            Duration { nanos: 0 }
        }
    }
}

/// A second has a thousand milliseconds of a million nanoseconds each; a moment lies as
/// far behind another as the span between them says.
pub proof fn law_spans_are_counted_in_nanoseconds(span: Duration, start: Moment)
    ensures
        NANOS_PER_SEC == 1_000_000_000,
        NANOS_PER_MILLI == 1_000_000,
        start@ + span@ <= u128::MAX ==> start.after(span)@ == start@ + span@,
        start@ + span@ > u128::MAX ==> start.after(span)@ == u128::MAX,
        span@ <= MAX_NANOS ==> span.whole_secs() * 1_000_000_000 <= span@ < (span.whole_secs() + 1)
            * 1_000_000_000,
{
}

} // verus!
