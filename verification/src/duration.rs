use vstd::prelude::*;

verus! {

/// A span of time, counted in whole seconds.
///
/// The configuration and the retry schedule only ever deal in whole
/// seconds, so a single unsigned count is the entire representation.
#[derive(Clone, Copy, Debug, PartialEq, Eq, Structural, Hash)]
pub struct Duration {
    pub secs: u64,
}

impl Duration {
    pub fn from_secs(secs: u64) -> (r: Duration)
        ensures
            r.secs == secs,
    {
        Duration { secs }
    }

    pub fn as_secs(&self) -> (r: u64)
        ensures
            r == self.secs,
    {
        self.secs
    }

    /// Sum of two spans, clamped to the largest representable span.
    pub fn saturating_add(self, other: Duration) -> (r: Duration)
        ensures
            r.secs == if self.secs + other.secs <= u64::MAX {
                self.secs + other.secs
            } else {
                u64::MAX as int
            },
    {
        if self.secs <= u64::MAX - other.secs {
            Duration { secs: self.secs + other.secs }
        } else {
            Duration { secs: u64::MAX }
        }
    }
}

} // verus!
