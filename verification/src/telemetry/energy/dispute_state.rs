//! Energy dispute state labels.

use vstd::prelude::*;

verus! {

pub const OPEN: &'static str = "open";
pub const RESOLVED: &'static str = "resolved";
pub const SLASHED: &'static str = "slashed";

} // verus!
