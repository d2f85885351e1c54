//! The cursor layout shared by the node's binary codecs: little-endian
//! integers, byte strings and UTF-8 strings prefixed by a `u64` length,
//! option tags as one byte.

use vstd::prelude::*;
use vstd::utf8::{decode_utf8, encode_utf8, valid_utf8};
use crate::le::{le_u16, le_u32, le_u64, lemma_u16_roundtrip, lemma_u32_roundtrip,
    lemma_u64_roundtrip, push_all, push_u16_le, push_u32_le, push_u64_le, read_u16_le,
    read_u32_le, read_u64_le, u16_le, u32_le, u64_le, copy_range};

verus! {

/// Why the cursor could not read a value.
#[derive(Clone, Copy, Debug, PartialEq, Eq, Structural)]
pub enum CursorError {
    /// Fewer bytes remain than the value needs.
    UnexpectedEof,
    /// A string's bytes are not UTF-8.
    InvalidUtf8,
    /// An option tag other than 0 or 1.
    InvalidOptionTag(u8),
    /// A length that does not fit the platform.
    LengthOverflow(u64),
}

// ---------------------------------------------------------------------------
// Encodings
// ---------------------------------------------------------------------------

/// A one-byte value.
pub open spec fn enc_u8(v: u8) -> Seq<u8> {
    seq![v]
}

/// A boolean as one byte.
pub open spec fn enc_bool(b: bool) -> Seq<u8> {
    seq![if b { 1u8 } else { 0u8 }]
}

/// A signed 64-bit value, by its two's complement bits.
pub open spec fn enc_i64(v: i64) -> Seq<u8> {
    u64_le(v as u64)
}

/// A byte string: its length as `u64`, then the bytes.
pub open spec fn enc_bytes(b: Seq<u8>) -> Seq<u8> {
    u64_le(b.len() as u64) + b
}

/// A string: its UTF-8 encoding as a byte string.
pub open spec fn enc_string(s: Seq<char>) -> Seq<u8> {
    enc_bytes(encode_utf8(s))
}

/// An optional value: tag 0, or tag 1 followed by the value's encoding.
pub open spec fn enc_option(e: Option<Seq<u8>>) -> Seq<u8> {
    match e {
        None => seq![0u8],
        Some(x) => seq![1u8] + x,
    }
}

/// `enc` stands in `data` at `pos`.
pub open spec fn is_at(data: Seq<u8>, pos: int, enc: Seq<u8>) -> bool {
    0 <= pos && pos + enc.len() <= data.len() && data.subrange(pos, pos + enc.len()) == enc
}

// ---------------------------------------------------------------------------
// What reading gives
// ---------------------------------------------------------------------------

/// Reads `n` raw bytes.
pub open spec fn spec_read_exact(data: Seq<u8>, pos: int, n: int) -> Result<(Seq<u8>, int), CursorError> {
    if 0 <= pos && 0 <= n && pos + n <= data.len() {
        Ok((data.subrange(pos, pos + n), pos + n))
    } else {
        Err(CursorError::UnexpectedEof)
    }
}

pub open spec fn spec_read_u8(data: Seq<u8>, pos: int) -> Result<(u8, int), CursorError> {
    if 0 <= pos && pos + 1 <= data.len() {
        Ok((data[pos], pos + 1))
    } else {
        Err(CursorError::UnexpectedEof)
    }
}

pub open spec fn spec_read_u16(data: Seq<u8>, pos: int) -> Result<(u16, int), CursorError> {
    if 0 <= pos && pos + 2 <= data.len() {
        Ok((le_u16(data.subrange(pos, pos + 2)), pos + 2))
    } else {
        Err(CursorError::UnexpectedEof)
    }
}

pub open spec fn spec_read_u32(data: Seq<u8>, pos: int) -> Result<(u32, int), CursorError> {
    if 0 <= pos && pos + 4 <= data.len() {
        Ok((le_u32(data.subrange(pos, pos + 4)), pos + 4))
    } else {
        Err(CursorError::UnexpectedEof)
    }
}

pub open spec fn spec_read_u64(data: Seq<u8>, pos: int) -> Result<(u64, int), CursorError> {
    if 0 <= pos && pos + 8 <= data.len() {
        Ok((le_u64(data.subrange(pos, pos + 8)), pos + 8))
    } else {
        Err(CursorError::UnexpectedEof)
    }
}

pub open spec fn spec_read_i64(data: Seq<u8>, pos: int) -> Result<(i64, int), CursorError> {
    match spec_read_u64(data, pos) {
        Ok((v, p)) => Ok((v as i64, p)),
        Err(e) => Err(e),
    }
}

/// Reads a byte string; a length beyond the remaining bytes is `UnexpectedEof`.
pub open spec fn spec_read_bytes(data: Seq<u8>, pos: int) -> Result<(Seq<u8>, int), CursorError> {
    match spec_read_u64(data, pos) {
        Ok((len, p)) => spec_read_exact(data, p, len as int),
        Err(e) => Err(e),
    }
}

/// Reads a string; bytes that are not UTF-8 are `InvalidUtf8`.
pub open spec fn spec_read_string(data: Seq<u8>, pos: int) -> Result<(Seq<char>, int), CursorError> {
    match spec_read_bytes(data, pos) {
        Ok((b, p)) => if valid_utf8(b) {
            Ok((decode_utf8(b), p))
        } else {
            Err(CursorError::InvalidUtf8)
        },
        Err(e) => Err(e),
    }
}

/// Reads an option tag: `Ok(false)` for none, `Ok(true)` for some.
pub open spec fn spec_read_option_tag(data: Seq<u8>, pos: int) -> Result<(bool, int), CursorError> {
    match spec_read_u8(data, pos) {
        Ok((v, p)) => if v == 0 {
            Ok((false, p))
        } else if v == 1 {
            Ok((true, p))
        } else {
            Err(CursorError::InvalidOptionTag(v))
        },
        Err(e) => Err(e),
    }
}

// ---------------------------------------------------------------------------
// Reading what was written
// ---------------------------------------------------------------------------

/// The parts of a concatenation stand one after the other.
pub proof fn lemma_is_at_split(data: Seq<u8>, pos: int, a: Seq<u8>, b: Seq<u8>)
    requires
        is_at(data, pos, a + b),
    ensures
        is_at(data, pos, a),
        is_at(data, pos + a.len(), b),
{
    let whole = data.subrange(pos, pos + (a + b).len());
    assert(whole == a + b);
    assert(data.subrange(pos, pos + a.len()) =~= whole.subrange(0, a.len() as int));
    assert(whole.subrange(0, a.len() as int) =~= a);
    assert(data.subrange(pos + a.len(), pos + a.len() + b.len()) =~= whole.subrange(
        a.len() as int,
        (a.len() + b.len()) as int,
    ));
    assert(whole.subrange(a.len() as int, (a.len() + b.len()) as int) =~= b);
}

pub proof fn lemma_read_u8(data: Seq<u8>, pos: int, v: u8)
    requires
        is_at(data, pos, enc_u8(v)),
    ensures
        spec_read_u8(data, pos) == Ok::<(u8, int), CursorError>((v, pos + 1)),
{
    assert(data[pos] == data.subrange(pos, pos + 1)[0]);
}

pub proof fn lemma_read_u16(data: Seq<u8>, pos: int, v: u16)
    requires
        is_at(data, pos, u16_le(v)),
    ensures
        spec_read_u16(data, pos) == Ok::<(u16, int), CursorError>((v, pos + 2)),
{
    lemma_u16_roundtrip(v);
}

pub proof fn lemma_read_u32(data: Seq<u8>, pos: int, v: u32)
    requires
        is_at(data, pos, u32_le(v)),
    ensures
        spec_read_u32(data, pos) == Ok::<(u32, int), CursorError>((v, pos + 4)),
{
    lemma_u32_roundtrip(v);
}

pub proof fn lemma_read_u64(data: Seq<u8>, pos: int, v: u64)
    requires
        is_at(data, pos, u64_le(v)),
    ensures
        spec_read_u64(data, pos) == Ok::<(u64, int), CursorError>((v, pos + 8)),
{
    lemma_u64_roundtrip(v);
}

pub proof fn lemma_read_i64(data: Seq<u8>, pos: int, v: i64)
    requires
        is_at(data, pos, enc_i64(v)),
    ensures
        spec_read_i64(data, pos) == Ok::<(i64, int), CursorError>((v, pos + 8)),
{
    let u: u64 = #[verifier::truncate] (v as u64);
    lemma_u64_roundtrip(u);
    assert((#[verifier::truncate] (u as i64)) == v) by (bit_vector)
        requires
            u == #[verifier::truncate] (v as u64),
    ;
}

pub proof fn lemma_read_bytes(data: Seq<u8>, pos: int, b: Seq<u8>)
    requires
        is_at(data, pos, enc_bytes(b)),
        b.len() <= u64::MAX,
    ensures
        spec_read_bytes(data, pos) == Ok::<(Seq<u8>, int), CursorError>((b, pos + 8 + b.len())),
{
    lemma_is_at_split(data, pos, u64_le(b.len() as u64), b);
    lemma_u64_roundtrip(b.len() as u64);
}

pub proof fn lemma_read_string(data: Seq<u8>, pos: int, s: Seq<char>)
    requires
        is_at(data, pos, enc_string(s)),
        encode_utf8(s).len() <= u64::MAX,
    ensures
        spec_read_string(data, pos) == Ok::<(Seq<char>, int), CursorError>(
            (s, pos + 8 + encode_utf8(s).len()),
        ),
{
    lemma_read_bytes(data, pos, encode_utf8(s));
    vstd::utf8::encode_utf8_valid_utf8(s);
    vstd::utf8::encode_utf8_decode_utf8(s);
}

pub proof fn lemma_read_option_tag(data: Seq<u8>, pos: int, e: Option<Seq<u8>>)
    requires
        is_at(data, pos, enc_option(e)),
    ensures
        spec_read_option_tag(data, pos) == Ok::<(bool, int), CursorError>((e is Some, pos + 1)),
        e matches Some(x) ==> is_at(data, pos + 1, x),
{
    match e {
        None => {
            assert(data[pos] == data.subrange(pos, pos + 1)[0]);
        },
        Some(x) => {
            lemma_is_at_split(data, pos, seq![1u8], x);
            assert(data[pos] == data.subrange(pos, pos + 1)[0]);
        },
    }
}

// ---------------------------------------------------------------------------
// Readers
// ---------------------------------------------------------------------------

/// Reads `n` raw bytes at `pos`.
pub fn read_exact(data: &[u8], pos: usize, n: u64) -> (r: Result<(Vec<u8>, usize), CursorError>)
    ensures
        match r {
            Ok((v, p)) => spec_read_exact(data@, pos as int, n as int) == Ok::<(Seq<u8>, int), CursorError>((v@, p as int)),
            Err(e) => spec_read_exact(data@, pos as int, n as int) == Err::<(Seq<u8>, int), CursorError>(e),
        },
{
    if pos > data.len() || n > (data.len() - pos) as u64 {
        return Err(CursorError::UnexpectedEof);
    }
    let end = pos + n as usize;
    let v = copy_range(data, pos, end);
    Ok((v, end))
}

pub fn read_u8(data: &[u8], pos: usize) -> (r: Result<(u8, usize), CursorError>)
    ensures
        match r {
            Ok((v, p)) => spec_read_u8(data@, pos as int) == Ok::<(u8, int), CursorError>((v, p as int)),
            Err(e) => spec_read_u8(data@, pos as int) == Err::<(u8, int), CursorError>(e),
        },
{
    if pos >= data.len() {
        return Err(CursorError::UnexpectedEof);
    }
    Ok((data[pos], pos + 1))
}

pub fn read_option_tag(data: &[u8], pos: usize) -> (r: Result<(bool, usize), CursorError>)
    ensures
        match r {
            Ok((v, p)) => spec_read_option_tag(data@, pos as int) == Ok::<(bool, int), CursorError>((v, p as int)),
            Err(e) => spec_read_option_tag(data@, pos as int) == Err::<(bool, int), CursorError>(e),
        },
{
    let (v, p) = read_u8(data, pos)?;
    if v == 0 {
        Ok((false, p))
    } else if v == 1 {
        Ok((true, p))
    } else {
        Err(CursorError::InvalidOptionTag(v))
    }
}

pub fn read_u16(data: &[u8], pos: usize) -> (r: Result<(u16, usize), CursorError>)
    ensures
        match r {
            Ok((v, p)) => spec_read_u16(data@, pos as int) == Ok::<(u16, int), CursorError>((v, p as int)),
            Err(e) => spec_read_u16(data@, pos as int) == Err::<(u16, int), CursorError>(e),
        },
{
    if pos > data.len() || data.len() - pos < 2 {
        return Err(CursorError::UnexpectedEof);
    }
    Ok((read_u16_le(data, pos), pos + 2))
}

pub fn read_u32(data: &[u8], pos: usize) -> (r: Result<(u32, usize), CursorError>)
    ensures
        match r {
            Ok((v, p)) => spec_read_u32(data@, pos as int) == Ok::<(u32, int), CursorError>((v, p as int)),
            Err(e) => spec_read_u32(data@, pos as int) == Err::<(u32, int), CursorError>(e),
        },
{
    if pos > data.len() || data.len() - pos < 4 {
        return Err(CursorError::UnexpectedEof);
    }
    Ok((read_u32_le(data, pos), pos + 4))
}

pub fn read_u64(data: &[u8], pos: usize) -> (r: Result<(u64, usize), CursorError>)
    ensures
        match r {
            Ok((v, p)) => spec_read_u64(data@, pos as int) == Ok::<(u64, int), CursorError>((v, p as int)),
            Err(e) => spec_read_u64(data@, pos as int) == Err::<(u64, int), CursorError>(e),
        },
{
    if pos > data.len() || data.len() - pos < 8 {
        return Err(CursorError::UnexpectedEof);
    }
    Ok((read_u64_le(data, pos), pos + 8))
}

pub fn read_i64(data: &[u8], pos: usize) -> (r: Result<(i64, usize), CursorError>)
    ensures
        match r {
            Ok((v, p)) => spec_read_i64(data@, pos as int) == Ok::<(i64, int), CursorError>((v, p as int)),
            Err(e) => spec_read_i64(data@, pos as int) == Err::<(i64, int), CursorError>(e),
        },
{
    let (v, p) = read_u64(data, pos)?;
    Ok((v as i64, p))
}

pub fn read_bytes(data: &[u8], pos: usize) -> (r: Result<(Vec<u8>, usize), CursorError>)
    ensures
        match r {
            Ok((v, p)) => spec_read_bytes(data@, pos as int) == Ok::<(Seq<u8>, int), CursorError>((v@, p as int)),
            Err(e) => spec_read_bytes(data@, pos as int) == Err::<(Seq<u8>, int), CursorError>(e),
        },
{
    let (len, p) = read_u64(data, pos)?;
    read_exact(data, p, len)
}

/// `String::from_utf8`: `Ok` exactly when the bytes are UTF-8, with the
/// decoded characters.
#[verifier::external_body]
pub(crate) fn string_from_utf8(bytes: Vec<u8>) -> (r: Option<String>)
    ensures
        r is Some <==> valid_utf8(bytes@),
        r matches Some(s) ==> s@ == decode_utf8(bytes@),
{
    String::from_utf8(bytes).ok()
}

pub fn read_string(data: &[u8], pos: usize) -> (r: Result<(String, usize), CursorError>)
    ensures
        match r {
            Ok((v, p)) => spec_read_string(data@, pos as int) == Ok::<(Seq<char>, int), CursorError>((v@, p as int)),
            Err(e) => spec_read_string(data@, pos as int) == Err::<(Seq<char>, int), CursorError>(e),
        },
{
    let (b, p) = read_bytes(data, pos)?;
    match string_from_utf8(b) {
        Some(s) => Ok((s, p)),
        None => Err(CursorError::InvalidUtf8),
    }
}

// ---------------------------------------------------------------------------
// Writers
// ---------------------------------------------------------------------------

pub fn write_u8(out: &mut Vec<u8>, v: u8)
    ensures
        final(out)@ == old(out)@ + enc_u8(v),
{
    out.push(v);
    assert(final(out)@ =~= old(out)@ + enc_u8(v));
}

pub fn write_bool(out: &mut Vec<u8>, v: bool)
    ensures
        final(out)@ == old(out)@ + enc_bool(v),
{
    out.push(if v { 1u8 } else { 0u8 });
    assert(final(out)@ =~= old(out)@ + enc_bool(v));
}

pub fn write_u16(out: &mut Vec<u8>, v: u16)
    ensures
        final(out)@ == old(out)@ + u16_le(v),
{
    push_u16_le(out, v);
}

pub fn write_u32(out: &mut Vec<u8>, v: u32)
    ensures
        final(out)@ == old(out)@ + u32_le(v),
{
    push_u32_le(out, v);
}

pub fn write_u64(out: &mut Vec<u8>, v: u64)
    ensures
        final(out)@ == old(out)@ + u64_le(v),
{
    push_u64_le(out, v);
}

pub fn write_i64(out: &mut Vec<u8>, v: i64)
    ensures
        final(out)@ == old(out)@ + enc_i64(v),
{
    push_u64_le(out, v as u64);
}

pub fn write_bytes(out: &mut Vec<u8>, b: &[u8])
    ensures
        final(out)@ == old(out)@ + enc_bytes(b@),
{
    push_u64_le(out, b.len() as u64);
    push_all(out, b);
    assert(final(out)@ =~= old(out)@ + enc_bytes(b@));
}

pub fn write_string(out: &mut Vec<u8>, s: &str)
    ensures
        final(out)@ == old(out)@ + enc_string(s@),
{
    write_bytes(out, s.as_bytes());
}

} // verus!

verus! {

/// An optional `u64`: tag, then the value if present.
pub open spec fn enc_option_u64(v: Option<u64>) -> Seq<u8> {
    match v {
        None => enc_option(None),
        Some(x) => enc_option(Some(u64_le(x))),
    }
}

pub open spec fn spec_read_option_u64(data: Seq<u8>, pos: int) -> Result<(Option<u64>, int), CursorError> {
    match spec_read_option_tag(data, pos) {
        Err(e) => Err(e),
        Ok((false, p)) => Ok((None, p)),
        Ok((true, p)) => match spec_read_u64(data, p) {
            Err(e) => Err(e),
            Ok((v, q)) => Ok((Some(v), q)),
        },
    }
}

pub proof fn lemma_read_option_u64(data: Seq<u8>, pos: int, v: Option<u64>)
    requires
        is_at(data, pos, enc_option_u64(v)),
    ensures
        spec_read_option_u64(data, pos) == Ok::<(Option<u64>, int), CursorError>(
            (v, pos + enc_option_u64(v).len()),
        ),
{
    match v {
        None => {
            lemma_read_option_tag(data, pos, None);
        },
        Some(x) => {
            lemma_read_option_tag(data, pos, Some(u64_le(x)));
            lemma_read_u64(data, pos + 1, x);
        },
    }
}

pub fn read_option_u64(data: &[u8], pos: usize) -> (r: Result<(Option<u64>, usize), CursorError>)
    ensures
        match r {
            Ok((v, p)) => spec_read_option_u64(data@, pos as int) == Ok::<(Option<u64>, int), CursorError>((v, p as int)),
            Err(e) => spec_read_option_u64(data@, pos as int) == Err::<(Option<u64>, int), CursorError>(e),
        },
{
    let (some, p) = read_option_tag(data, pos)?;
    if !some {
        return Ok((None, p));
    }
    let (v, q) = read_u64(data, p)?;
    Ok((Some(v), q))
}

pub fn write_option_u64(out: &mut Vec<u8>, v: Option<u64>)
    ensures
        final(out)@ == old(out)@ + enc_option_u64(v),
{
    match v {
        None => {
            out.push(0u8);
            assert(final(out)@ =~= old(out)@ + enc_option_u64(v));
        },
        Some(x) => {
            out.push(1u8);
            push_u64_le(out, x);
            assert(final(out)@ =~= old(out)@ + enc_option_u64(v));
        },
    }
}

/// Reads 32 raw bytes into an array.
pub fn read_array32(data: &[u8], pos: usize) -> (r: Result<([u8; 32], usize), CursorError>)
    ensures
        match r {
            Ok((v, p)) => spec_read_exact(data@, pos as int, 32) == Ok::<(Seq<u8>, int), CursorError>((v@, p as int)),
            Err(e) => spec_read_exact(data@, pos as int, 32) == Err::<(Seq<u8>, int), CursorError>(e),
        },
{
    if pos > data.len() || data.len() - pos < 32 {
        return Err(CursorError::UnexpectedEof);
    }
    let mut a = [0u8; 32];
    let mut i: usize = 0;
    while i < 32
        invariant
            i <= 32,
            pos + 32 <= data@.len(),
            data@.len() <= usize::MAX,
            forall|k: int| 0 <= k < i ==> a@[k] == data@[pos + k],
        decreases 32 - i,
    {
        a[i] = data[pos + i];
        i = i + 1;
    }
    assert(a@ =~= data@.subrange(pos as int, pos + 32));
    Ok((a, pos + 32))
}

} // verus!

verus! {

/// A prefix of what stands at `pos` stands there too.
pub proof fn lemma_is_at_prefix(data: Seq<u8>, pos: int, a: Seq<u8>, m: int)
    requires
        is_at(data, pos, a),
        0 <= m <= a.len(),
    ensures
        is_at(data, pos, a.subrange(0, m)),
{
    assert(data.subrange(pos, pos + m) =~= data.subrange(pos, pos + a.len()).subrange(0, m));
}

} // verus!
