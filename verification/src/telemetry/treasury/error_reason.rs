//! Execution error reason labels.

use vstd::prelude::*;

verus! {

pub const INSUFFICIENT_FUNDS: &'static str = "insufficient_funds";
pub const INVALID_TARGET: &'static str = "invalid_target";
pub const STALE_DEPENDENCY: &'static str = "stale_dependency";
pub const CIRCULAR_DEPENDENCY: &'static str = "circular_dependency";
pub const EXECUTION_FAILED: &'static str = "execution_failed";
pub const QUORUM_NOT_REACHED: &'static str = "quorum_not_reached";
pub const EPOCH_EXPIRED: &'static str = "epoch_expired";

} // verus!
