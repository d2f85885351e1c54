//! Label matching shared by the metric sanitizers.

use vstd::prelude::*;
use vstd::utf8::encode_utf8;
use crate::text::{occurs, str_contains};

verus! {

/// Whether `pat` occurs in `s` (by their UTF-8 bytes, as `str::contains`).
pub open spec fn contains(s: Seq<char>, pat: Seq<char>) -> bool {
    occurs(encode_utf8(s), encode_utf8(pat))
}

/// `str::contains` on labels.
pub fn label_contains(s: &str, pat: &str) -> (c: bool)
    ensures
        c == contains(s@, pat@),
{
    str_contains(s, pat)
}

} // verus!
