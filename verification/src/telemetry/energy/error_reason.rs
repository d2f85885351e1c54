//! Energy error reason labels.

use vstd::prelude::*;

verus! {

pub const INVALID_READING: &'static str = "invalid_reading";
pub const STALE_TIMESTAMP: &'static str = "stale_timestamp";
pub const AUTHORIZATION_FAILED: &'static str = "authorization_failed";
pub const BAD_SIGNATURE: &'static str = "bad_signature";

} // verus!
