//! Timers of consensus phases.  A timer holds the time (in microseconds of
//! a monotonic clock that the caller reads) at which its phase began.

use vstd::prelude::*;

verus! {

/// Microseconds from `start` to `now`; 0 if the clock reads earlier.
pub open spec fn spec_elapsed(start: u64, now: u64) -> u64 {
    if now >= start {
        (now - start) as u64
    } else {
        0
    }
}

/// Measures the block proposal time.
#[derive(Clone, Copy, Debug)]
pub struct BlockProposalTimer {
    pub start_micros: u64,
}

impl BlockProposalTimer {
    /// Starts timing at `start_micros`.
    pub fn new(start_micros: u64) -> (t: Self)
        ensures
            t.start_micros == start_micros,
    {
        BlockProposalTimer { start_micros }
    }

    /// Microseconds elapsed at `now_micros`.
    pub fn elapsed_micros(&self, now_micros: u64) -> (e: u64)
        ensures
            e == spec_elapsed(self.start_micros, now_micros),
    {
        if now_micros >= self.start_micros {
            now_micros - self.start_micros
        } else {
            0
        }
    }
}

/// Measures the block validation time.
#[derive(Clone, Copy, Debug)]
pub struct BlockValidationTimer {
    pub start_micros: u64,
}

impl BlockValidationTimer {
    /// Starts timing at `start_micros`.
    pub fn new(start_micros: u64) -> (t: Self)
        ensures
            t.start_micros == start_micros,
    {
        BlockValidationTimer { start_micros }
    }

    /// Microseconds elapsed at `now_micros`.
    pub fn elapsed_micros(&self, now_micros: u64) -> (e: u64)
        ensures
            e == spec_elapsed(self.start_micros, now_micros),
    {
        if now_micros >= self.start_micros {
            now_micros - self.start_micros
        } else {
            0
        }
    }
}

/// Measures the transaction processing time.
#[derive(Clone, Copy, Debug)]
pub struct TransactionProcessingTimer {
    pub start_micros: u64,
}

impl TransactionProcessingTimer {
    /// Starts timing at `start_micros`.
    pub fn new(start_micros: u64) -> (t: Self)
        ensures
            t.start_micros == start_micros,
    {
        TransactionProcessingTimer { start_micros }
    }

    /// Microseconds elapsed at `now_micros`.
    pub fn elapsed_micros(&self, now_micros: u64) -> (e: u64)
        ensures
            e == spec_elapsed(self.start_micros, now_micros),
    {
        if now_micros >= self.start_micros {
            now_micros - self.start_micros
        } else {
            0
        }
    }
}

/// Measures the receipt validation time.
#[derive(Clone, Copy, Debug)]
pub struct ReceiptValidationTimer {
    pub start_micros: u64,
}

impl ReceiptValidationTimer {
    /// Starts timing at `start_micros`.
    pub fn new(start_micros: u64) -> (t: Self)
        ensures
            t.start_micros == start_micros,
    {
        ReceiptValidationTimer { start_micros }
    }

    /// Microseconds elapsed at `now_micros`.
    pub fn elapsed_micros(&self, now_micros: u64) -> (e: u64)
        ensures
            e == spec_elapsed(self.start_micros, now_micros),
    {
        if now_micros >= self.start_micros {
            now_micros - self.start_micros
        } else {
            0
        }
    }
}

/// Measures the storage proof validation time.
#[derive(Clone, Copy, Debug)]
pub struct StorageProofValidationTimer {
    pub start_micros: u64,
}

impl StorageProofValidationTimer {
    /// Starts timing at `start_micros`.
    pub fn new(start_micros: u64) -> (t: Self)
        ensures
            t.start_micros == start_micros,
    {
        StorageProofValidationTimer { start_micros }
    }

    /// Microseconds elapsed at `now_micros`.
    pub fn elapsed_micros(&self, now_micros: u64) -> (e: u64)
        ensures
            e == spec_elapsed(self.start_micros, now_micros),
    {
        if now_micros >= self.start_micros {
            now_micros - self.start_micros
        } else {
            0
        }
    }
}

} // verus!
