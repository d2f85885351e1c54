//! Energy slash reason labels.

use vstd::prelude::*;

verus! {

pub const QUORUM: &'static str = "quorum";
pub const EXPIRY: &'static str = "expiry";
pub const CONFLICT: &'static str = "conflict";
pub const OTHER: &'static str = "other";

} // verus!
