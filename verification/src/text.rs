//! String comparisons used by labels and algorithm names, over the UTF-8
//! encoding of the strings.

use vstd::prelude::*;
use vstd::string::StringSliceAdditionalSpecFns;
use crate::le::bytes_eq;
use vstd::string::StringExecFns;

verus! {

/// Whether `pat` occurs in `s` at byte offset `i`.
pub open spec fn occurs_at(s: Seq<u8>, pat: Seq<u8>, i: int) -> bool {
    0 <= i && i + pat.len() <= s.len() && s.subrange(i, i + pat.len()) == pat
}

/// Whether `pat` occurs anywhere in `s`.
pub open spec fn occurs(s: Seq<u8>, pat: Seq<u8>) -> bool {
    exists|i: int| #[trigger] occurs_at(s, pat, i)
}

/// Whether two strings are equal.
pub fn str_eq(a: &str, b: &str) -> (eq: bool)
    ensures
        eq == (a@ == b@),
{
    let r = bytes_eq(a.as_bytes(), b.as_bytes());
    proof {
        vstd::utf8::encode_utf8_decode_utf8(a@);
        vstd::utf8::encode_utf8_decode_utf8(b@);
    }
    r
}

/// Whether the bytes of `pat` occur in `s` starting at `i`.
fn matches_at(s: &[u8], pat: &[u8], i: usize) -> (m: bool)
    requires
        i + pat@.len() <= s@.len(),
    ensures
        m == occurs_at(s@, pat@, i as int),
{
    let _n = s.len();
    let mut j: usize = 0;
    while j < pat.len()
        invariant
            j <= pat@.len(),
            s@.len() <= usize::MAX,
            i + pat@.len() <= s@.len(),
            forall|k: int| 0 <= k < j ==> s@[i + k] == pat@[k],
        decreases pat@.len() - j,
    {
        if s[i + j] != pat[j] {
            assert(s@.subrange(i as int, i + pat@.len())[j as int] != pat@[j as int]);
            return false;
        }
        j = j + 1;
    }
    assert(s@.subrange(i as int, i + pat@.len()) =~= pat@);
    true
}

/// Whether the UTF-8 encoding of `pat` occurs in that of `s` (the way
/// `str::contains` searches).
pub fn str_contains(s: &str, pat: &str) -> (c: bool)
    ensures
        c == occurs(s.spec_bytes(), pat.spec_bytes()),
{
    let sb = s.as_bytes();
    let pb = pat.as_bytes();
    if pb.len() > sb.len() {
        assert(!occurs(sb@, pb@)) by {
            assert forall|i: int| !occurs_at(sb@, pb@, i) by {}
        }
        return false;
    }
    if pb.len() == 0 {
        assert(sb@.subrange(0, 0) =~= pb@);
        assert(occurs_at(sb@, pb@, 0));
        return true;
    }
    let last = sb.len() - pb.len();
    let mut i: usize = 0;
    while i <= last
        invariant
            last == sb@.len() - pb@.len(),
            pb@.len() > 0,
            sb@.len() <= usize::MAX,
            sb@ == s.spec_bytes(),
            pb@ == pat.spec_bytes(),
            i <= last + 1,
            forall|k: int| 0 <= k < i ==> !occurs_at(sb@, pb@, k),
        decreases last + 1 - i,
    {
        if matches_at(sb, pb, i) {
            assert(occurs_at(sb@, pb@, i as int));
            return true;
        }
        i = i + 1;
    }
    assert(!occurs(sb@, pb@)) by {
        assert forall|k: int| !occurs_at(sb@, pb@, k) by {
            if 0 <= k < i {
            }
        }
    }
    false
}

/// ASCII lower-casing of one byte.
pub open spec fn ascii_lower(b: u8) -> u8 {
    if 0x41 <= b <= 0x5a {
        (b + 0x20) as u8
    } else {
        b
    }
}

/// Whether two strings are equal ignoring ASCII case.
pub fn eq_ignore_ascii_case(a: &str, b: &str) -> (eq: bool)
    ensures
        eq == (a.spec_bytes().len() == b.spec_bytes().len() && forall|i: int|
            0 <= i < a.spec_bytes().len() ==> ascii_lower(#[trigger] a.spec_bytes()[i]) == ascii_lower(
                b.spec_bytes()[i],
            )),
{
    let x = a.as_bytes();
    let y = b.as_bytes();
    if x.len() != y.len() {
        return false;
    }
    let mut i: usize = 0;
    while i < x.len()
        invariant
            x@.len() == y@.len(),
            x@ == a.spec_bytes(),
            y@ == b.spec_bytes(),
            i <= x@.len(),
            forall|k: int| 0 <= k < i ==> ascii_lower(#[trigger] x@[k]) == ascii_lower(y@[k]),
        decreases x@.len() - i,
    {
        let p = if 0x41 <= x[i] && x[i] <= 0x5a { x[i] + 0x20 } else { x[i] };
        let q = if 0x41 <= y[i] && y[i] <= 0x5a { y[i] + 0x20 } else { y[i] };
        if p != q {
            assert(ascii_lower(x@[i as int]) != ascii_lower(y@[i as int]));
            assert(a.spec_bytes()[i as int] == x@[i as int]);
            assert(!(forall|k: int|
                0 <= k < a.spec_bytes().len() ==> ascii_lower(#[trigger] a.spec_bytes()[k]) == ascii_lower(
                    b.spec_bytes()[k],
                )));
            return false;
        }
        i = i + 1;
    }
    true
}


/// `a` followed by `b`.
pub fn concat(a: &str, b: &str) -> (s: String)
    ensures
        s@ == a@ + b@,
{
    let mut s = a.to_owned();
    s.append(b);
    s
}

} // verus!
