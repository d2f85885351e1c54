//! Numbering of the periodic telemetry summaries.

use vstd::prelude::*;

verus! {

/// The sequence number of the last summary published.
pub struct SummarySequence {
    pub last: u64,
}

impl SummarySequence {
    /// No summary published yet.
    pub fn new() -> (s: Self)
        ensures
            s.last == 0,
    {
        SummarySequence { last: 0 }
    }

    /// Numbers the next summary (wrapping, like an atomic counter).
    pub fn next(&mut self) -> (seq: u64)
        ensures
            seq == vstd::wrapping::u64_specs::wrapping_add(old(self).last, 1),
            final(self).last == seq,
    {
        self.last = self.last.wrapping_add(1);
        self.last
    }
}

/// The number of summaries published so far.
pub fn last_count(s: &SummarySequence) -> (n: u64)
    ensures
        n == s.last,
{
    s.last
}

} // verus!
