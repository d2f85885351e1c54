//! Energy dispute outcome labels.

use vstd::prelude::*;

verus! {

pub const RESOLVED: &'static str = "resolved";
pub const ESCALATED: &'static str = "escalated";
pub const SLASHED: &'static str = "slashed";

} // verus!
