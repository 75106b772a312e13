use vstd::prelude::*;

verus! {

/// Largest number of consecutive failures after which frames are still acknowledged.
pub const DEFAULT_STOP_THRESHOLD: u64 = 1000;

/// The failure count after one more outcome: a success resets it, a failure
/// raises it by one (it stays put at `u64::MAX`).
pub open spec fn next_count(count: u64, ok: bool) -> u64 {
    if ok {
        0
    } else if count < u64::MAX {
        (count + 1) as u64
    } else {
        count
    }
}

/// Whether a failure count is past the threshold.
pub open spec fn tripped(count: u64, threshold: u64) -> bool {
    count > threshold
}

/// Counts consecutive failures and tells when they exceed a threshold.
pub struct FailureGate {
    consecutive_failures: u64,
    threshold: u64,
}

impl FailureGate {
    /// The current number of consecutive failures.
    pub closed spec fn failures(&self) -> u64 {
        self.consecutive_failures
    }

    /// The number of consecutive failures that is still tolerated.
    pub closed spec fn limit(&self) -> u64 {
        self.threshold
    }

    /// A gate with no failures recorded.
    pub fn new(threshold: u64) -> (g: FailureGate)
        ensures
            g.failures() == 0,
            g.limit() == threshold,
    {
        FailureGate { consecutive_failures: 0, threshold }
    }

    /// Forgets all failures recorded so far.
    pub fn record_success(&mut self)
        ensures
            final(self).failures() == 0,
            final(self).limit() == old(self).limit(),
    {
        self.consecutive_failures = 0;
    }

    /// Records one more failure and returns the new count.
    pub fn record_failure(&mut self) -> (count: u64)
        ensures
            count == next_count(old(self).failures(), false),
            final(self).failures() == count,
            final(self).limit() == old(self).limit(),
    {
        if self.consecutive_failures < u64::MAX {
            self.consecutive_failures = self.consecutive_failures + 1;
        }
        self.consecutive_failures
    }

    /// Whether `count` exceeds this gate's threshold.
    pub fn is_tripped(&self, count: u64) -> (r: bool)
        ensures
            r == tripped(count, self.limit()),
    {
        count > self.threshold
    }

    /// The current number of consecutive failures.
    pub fn consecutive_failures(&self) -> (r: u64)
        ensures
            r == self.failures(),
    {
        self.consecutive_failures
    }

    /// The number of consecutive failures that is still tolerated.
    pub fn threshold(&self) -> (r: u64)
        ensures
            r == self.limit(),
    {
        self.threshold
    }
}

} // verus!
