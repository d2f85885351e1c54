//! Disbursement status labels.

use vstd::prelude::*;

verus! {

pub const DRAFT: &'static str = "draft";
pub const VOTING: &'static str = "voting";
pub const QUEUED: &'static str = "queued";
pub const TIMELOCKED: &'static str = "timelocked";
pub const EXECUTED: &'static str = "executed";
pub const FINALIZED: &'static str = "finalized";
pub const ROLLED_BACK: &'static str = "rolled_back";

} // verus!
