//! Lower-case hexadecimal text of bytes.

use vstd::prelude::*;
use crate::util::decimal::ascii_chars;

verus! {

/// The lower-case hex digit of a nibble, as an ASCII byte.
pub open spec fn hex_digit(n: u8) -> u8 {
    if n < 10 {
        (48 + n) as u8
    } else {
        (87 + n) as u8
    }
}

/// Two lower-case hex digits per byte, high nibble first.
pub open spec fn spec_hex(b: Seq<u8>) -> Seq<u8>
    decreases b.len(),
{
    if b.len() == 0 {
        Seq::empty()
    } else {
        spec_hex(b.drop_last()) + seq![hex_digit(b.last() / 16), hex_digit(b.last() % 16)]
    }
}

fn digit(n: u8) -> (d: u8)
    requires
        n < 16,
    ensures
        d == hex_digit(n),
        d < 128,
{
    if n < 10 {
        48 + n
    } else {
        87 + n
    }
}

/// The lower-case hex text of `bytes`.
pub fn encode(bytes: &[u8]) -> (s: String)
    ensures
        s@ == ascii_chars(spec_hex(bytes@)),
{
    let mut out: Vec<u8> = Vec::new();
    let mut i: usize = 0;
    while i < bytes.len()
        invariant
            i <= bytes@.len(),
            out@ == spec_hex(bytes@.take(i as int)),
            forall|k: int| 0 <= k < out@.len() ==> #[trigger] out@[k] < 128,
        decreases bytes@.len() - i,
    {
        let b = bytes[i];
        let hi = digit(b / 16);
        let lo = digit(b % 16);
        out.push(hi);
        out.push(lo);
        proof {
            let t = bytes@.take(i + 1);
            assert(t.drop_last() =~= bytes@.take(i as int));
            assert(t.last() == b);
            assert(out@ =~= spec_hex(t));
        }
        i = i + 1;
    }
    assert(bytes@.take(bytes@.len() as int) =~= bytes@);
    crate::util::decimal::ascii_string(out)
}

} // verus!
