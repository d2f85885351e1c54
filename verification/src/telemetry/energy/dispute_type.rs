//! Energy dispute type labels.

use vstd::prelude::*;

verus! {

pub const LOW_READING: &'static str = "low_reading";
pub const OUTLIER_DETECTED: &'static str = "outlier_detected";
pub const CONSENSUS_GAP: &'static str = "consensus_gap";

} // verus!
