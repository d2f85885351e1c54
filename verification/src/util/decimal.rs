//! Decimal text of integers.

use vstd::prelude::*;
use vstd::utf8::{decode_utf8, encode_utf8, is_ascii_chars};
use crate::util::binary_cursor::string_from_utf8;
use vstd::string::StrSliceExecFns;

verus! {

/// The ASCII decimal digits of `v`, most significant first, without
/// leading zeros.
pub open spec fn spec_decimal(v: nat) -> Seq<u8>
    decreases v,
{
    if v < 10 {
        seq![(48 + v) as u8]
    } else {
        spec_decimal(v / 10).push((48 + v % 10) as u8)
    }
}

/// ASCII bytes as characters.
pub open spec fn ascii_chars(b: Seq<u8>) -> Seq<char> {
    b.map_values(|x: u8| x as char)
}

/// The decimal text of a signed value: a minus sign before the digits of a
/// negative one.
pub open spec fn spec_signed_decimal(v: int) -> Seq<u8> {
    if v < 0 {
        seq![45u8] + spec_decimal((-v) as nat)
    } else {
        spec_decimal(v as nat)
    }
}

proof fn lemma_decimal_ascii(v: nat)
    ensures
        forall|i: int| 0 <= i < spec_decimal(v).len() ==> 48 <= #[trigger] spec_decimal(v)[i] < 58,
        spec_decimal(v).len() >= 1,
    decreases v,
{
    if v >= 10 {
        lemma_decimal_ascii(v / 10);
    }
}

/// Appends the decimal digits of `v`.
pub(crate) fn push_decimal(out: &mut Vec<u8>, v: u64)
    ensures
        final(out)@ == old(out)@ + spec_decimal(v as nat),
    decreases v,
{
    if v >= 10 {
        push_decimal(out, v / 10);
    }
    out.push(48 + (v % 10) as u8);
    assert(final(out)@ =~= old(out)@ + spec_decimal(v as nat));
}

/// Appends the bytes of an ASCII text.
pub(crate) fn push_ascii(out: &mut Vec<u8>, text: &str)
    requires
        is_ascii_chars(text@),
    ensures
        ascii_chars(final(out)@) == ascii_chars(old(out)@) + text@,
{
    let n = text.unicode_len();
    let mut i: usize = 0;
    while i < n
        invariant
            n == text@.len(),
            i <= n,
            is_ascii_chars(text@),
            ascii_chars(out@) == ascii_chars(old(out)@) + text@.take(i as int),
        decreases n - i,
    {
        let c = text.get_char(i);
        let ghost before = out@;
        out.push(c as u8);
        proof {
            assert('\0' <= c <= '\u{7f}');
            assert((c as u8) as char == c);
            assert(ascii_chars(out@) =~= ascii_chars(before).push(c));
            assert(text@.take(i + 1) =~= text@.take(i as int).push(c));
        }
        i = i + 1;
    }
    assert(text@.take(n as int) =~= text@);
}

proof fn lemma_ascii_byte(x: u8)
    requires
        x < 128,
    ensures
        (x as char) as u8 == x,
        '\0' <= (x as char) <= '\u{7f}',
{
}

/// ASCII bytes as a string.
pub(crate) fn ascii_string(b: Vec<u8>) -> (s: String)
    requires
        forall|i: int| 0 <= i < b@.len() ==> #[trigger] b@[i] < 128,
    ensures
        s@ == ascii_chars(b@),
{
    let ghost chars = ascii_chars(b@);
    proof {
        assert(is_ascii_chars(chars));
        vstd::utf8::is_ascii_chars_encode_utf8(chars);
        assert forall|i: int| 0 <= i < b@.len() implies encode_utf8(chars)[i] == b@[i] by {
            assert(chars[i] as u8 == encode_utf8(chars)[i]);
            lemma_ascii_byte(b@[i]);
        }
        assert(encode_utf8(chars) =~= b@);
        vstd::utf8::encode_utf8_valid_utf8(chars);
        vstd::utf8::encode_utf8_decode_utf8(chars);
    }
    match string_from_utf8(b) {
        Some(s) => s,
        None => String::new(),
    }
}

/// The decimal text of an unsigned value.
pub fn decimal_u64(v: u64) -> (s: String)
    ensures
        s@ == ascii_chars(spec_decimal(v as nat)),
{
    let mut out: Vec<u8> = Vec::new();
    push_decimal(&mut out, v);
    proof {
        lemma_decimal_ascii(v as nat);
        assert(out@ =~= spec_decimal(v as nat));
    }
    ascii_string(out)
}

/// The decimal text of a signed value.
pub fn decimal_i64(v: i64) -> (s: String)
    ensures
        s@ == ascii_chars(spec_signed_decimal(v as int)),
{
    let mut out: Vec<u8> = Vec::new();
    if v < 0 {
        out.push(45u8);
        let mag: u64 = if v == i64::MIN {
            9223372036854775808u64
        } else {
            (-v) as u64
        };
        push_decimal(&mut out, mag);
        proof {
            lemma_decimal_ascii(mag as nat);
            assert(out@ =~= spec_signed_decimal(v as int));
        }
    } else {
        push_decimal(&mut out, v as u64);
        proof {
            lemma_decimal_ascii(v as nat);
            assert(out@ =~= spec_signed_decimal(v as int));
        }
    }
    ascii_string(out)
}

} // verus!
