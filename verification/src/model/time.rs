//! Injected time.
use vstd::prelude::*;

verus! {

/// Milliseconds on the clock the application is handed.
#[derive(Debug, Clone, Copy, PartialEq, Eq, PartialOrd, Ord, Structural)]
pub struct Millis(pub u64);

impl Millis {
    pub open spec fn plus(self, ms: u64) -> Millis {
        if self.0 + ms > u64::MAX {
            Millis(u64::MAX)
        } else {
            Millis((self.0 + ms) as u64)
        }
    }

    pub fn saturating_add(self, ms: u64) -> (r: Millis)
        ensures
            r == self.plus(ms),
    {
        Millis(self.0.saturating_add(ms))
    }
}

} // verus!
