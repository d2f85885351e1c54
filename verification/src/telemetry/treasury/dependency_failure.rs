//! Dependency failure type labels.

use vstd::prelude::*;

verus! {

pub const CIRCULAR: &'static str = "circular";
pub const MISSING: &'static str = "missing";
pub const STALE: &'static str = "stale";
pub const ROLLED_BACK: &'static str = "rolled_back_dependency";

} // verus!
