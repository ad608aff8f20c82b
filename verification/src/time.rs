//! Spans of time with nanosecond resolution.

use vstd::prelude::*;

verus! {

/// A span of time: whole seconds and the nanoseconds beyond them. Also serves
/// as a point in time, counted from a fixed start.
#[derive(Copy, Clone, Debug, PartialEq, Eq, PartialOrd, Ord, Structural)]
pub struct Duration {
    secs: u64,
    nanos: u32,
}

/// The nanoseconds in a number of seconds.
pub open spec fn secs_as_nanos(secs: nat) -> nat {
    secs * 1_000_000_000
}

/// The nanoseconds in a number of milliseconds.
pub open spec fn millis_as_nanos(millis: nat) -> nat {
    millis * 1_000_000
}

impl View for Duration {
    type V = nat;

    /// The length of the span in nanoseconds.
    closed spec fn view(&self) -> nat {
        self.secs as nat * 1_000_000_000 + self.nanos as nat
    }
}

impl Duration {
    #[verifier::type_invariant]
    spec fn well_formed(self) -> bool {
        self.nanos < 1_000_000_000
    }

    /// A span of whole seconds and the nanoseconds beyond them.
    pub fn new(secs: u64, nanos: u32) -> (span: Duration)
        requires
            nanos < 1_000_000_000,
        ensures
            span@ == secs_as_nanos(secs as nat) + nanos,
            span@ == secs * 1_000_000_000 + nanos,
    {
        Duration { secs, nanos }
    }

    /// A span of whole seconds.
    pub fn from_secs(secs: u64) -> (span: Duration)
        ensures
            span@ == secs_as_nanos(secs as nat),
            span@ == secs * 1_000_000_000,
    {
        Duration { secs, nanos: 0 }
    }

    /// A span of whole milliseconds.
    pub fn from_millis(millis: u64) -> (span: Duration)
        ensures
            span@ == millis_as_nanos(millis as nat),
            span@ == millis * 1_000_000,
    {
        Duration { secs: millis / 1000, nanos: (millis % 1000) as u32 * 1_000_000 }
    }

    /// The whole seconds in this span.
    pub fn as_secs(&self) -> (secs: u64)
        ensures
            secs == self@ / 1_000_000_000,
    {
        proof {
            use_type_invariant(self);
        }
        self.secs
    }

    /// The nanoseconds beyond the whole seconds in this span.
    pub fn subsec_nanos(&self) -> (nanos: u32)
        ensures
            nanos == self@ % 1_000_000_000,
            nanos < 1_000_000_000,
    {
        proof {
            use_type_invariant(self);
        }
        self.nanos
    }

    /// The whole milliseconds in this span.
    pub fn as_millis(&self) -> (millis: u128)
        ensures
            millis == self@ / 1_000_000,
    {
        proof {
            use_type_invariant(self);
        }
        self.secs as u128 * 1000 + (self.nanos / 1_000_000) as u128
    }

    /// Whether this span has no length.
    pub fn is_zero(&self) -> (zero: bool)
        ensures
            zero == (self@ == 0),
    {
        self.secs == 0 && self.nanos == 0
    }

    /// Whether this span is as long as another, or longer.
    pub fn at_least(&self, other: Duration) -> (longer: bool)
        ensures
            longer == (self@ >= other@),
    {
        proof {
            use_type_invariant(self);
            use_type_invariant(&other);
        }
        self.secs > other.secs || (self.secs == other.secs && self.nanos >= other.nanos)
    }

    /// The shorter of two spans.
    pub fn min(self, other: Duration) -> (shorter: Duration)
        ensures
            shorter == if self@ <= other@ {
                self
            } else {
                other
            },
    {
        if other.at_least(self) {
            self
        } else {
            other
        }
    }

    /// This span shortened by another, down to nothing.
    pub fn saturating_sub(self, other: Duration) -> (rest: Duration)
        ensures
            rest@ == if self@ >= other@ {
                (self@ - other@) as nat
            } else {
                0
            },
    {
        proof {
            use_type_invariant(&self);
            use_type_invariant(&other);
        }
        if !self.at_least(other) {
            Duration { secs: 0, nanos: 0 }
        } else if self.nanos >= other.nanos {
            Duration { secs: self.secs - other.secs, nanos: self.nanos - other.nanos }
        } else {
            Duration {
                secs: self.secs - other.secs - 1,
                nanos: (1_000_000_000 - other.nanos) + self.nanos,
            }
        }
    }

    /// This span lengthened by another, where the whole seconds still fit.
    pub fn checked_add(self, other: Duration) -> (sum: Option<Duration>)
        ensures
            match sum {
                Some(span) => span@ == self@ + other@,
                None => self@ + other@ >= secs_as_nanos(0x1_0000_0000_0000_0000),
            },
    {
        proof {
            use_type_invariant(&self);
            use_type_invariant(&other);
        }
        let nanos: u32 = self.nanos + other.nanos;
        let (carry, rest): (u64, u32) = if nanos >= 1_000_000_000 {
            (1, (nanos - 1_000_000_000) as u32)
        } else {
            (0, nanos)
        };
        match self.secs.checked_add(other.secs) {
            Some(secs) => {
                match secs.checked_add(carry) {
                    Some(secs) => Some(Duration { secs, nanos: rest }),
                    None => None,
                }
            },
            None => None,
        }
    }

    /// This span lengthened by another, up to a limit.
    pub fn capped_add(self, other: Duration, limit: Duration) -> (sum: Duration)
        ensures
            sum@ == if self@ + other@ < limit@ {
                self@ + other@
            } else {
                limit@
            },
    {
        match self.checked_add(other) {
            Some(sum) => limit.min(sum),
            None => {
                proof {
                    use_type_invariant(&limit);
                }
                limit
            },
        }
    }
}

} // verus!
