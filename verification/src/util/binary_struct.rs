//! Decoding of structs laid out as a field count followed by named fields.

use vstd::prelude::*;
use vstd::utf8::encode_utf8;
use crate::util::binary_cursor::{enc_bytes, enc_string, is_at, lemma_is_at_split, lemma_read_bytes,
    lemma_read_string, read_array32, read_u64, spec_read_exact, spec_read_string, spec_read_u64,
    CursorError};

verus! {

/// Why a struct could not be decoded.
#[derive(Debug)]
pub enum DecodeError {
    /// Cursor-level failure while reading the payload.
    Cursor(CursorError),
    /// The struct holds another number of fields than its type has.
    InvalidFieldCount { expected: u64, actual: u64 },
    /// A field name that the type does not have.
    UnknownField(String),
    /// A field seen twice.
    DuplicateField(&'static str),
    /// A required field that is absent.
    MissingField(&'static str),
    /// Bytes left over after the value.
    TrailingBytes(usize),
    /// An enum index that names no variant.
    InvalidEnumDiscriminant { ty: &'static str, value: u32 },
    /// A field whose value is out of its type's range.
    InvalidFieldValue { field: &'static str, reason: String },
}

/// A decoding error as a mathematical value.
pub enum DecodeErrorView {
    Cursor(CursorError),
    InvalidFieldCount { expected: u64, actual: u64 },
    UnknownField(Seq<char>),
    DuplicateField(Seq<char>),
    MissingField(Seq<char>),
    TrailingBytes(int),
    InvalidEnumDiscriminant { ty: Seq<char>, value: u32 },
    InvalidFieldValue { field: Seq<char>, reason: Seq<char> },
}

impl View for DecodeError {
    type V = DecodeErrorView;

    open spec fn view(&self) -> DecodeErrorView {
        match self {
            DecodeError::Cursor(e) => DecodeErrorView::Cursor(*e),
            DecodeError::InvalidFieldCount { expected, actual } => DecodeErrorView::InvalidFieldCount {
                expected: *expected,
                actual: *actual,
            },
            DecodeError::UnknownField(s) => DecodeErrorView::UnknownField(s@),
            DecodeError::DuplicateField(s) => DecodeErrorView::DuplicateField(s@),
            DecodeError::MissingField(s) => DecodeErrorView::MissingField(s@),
            DecodeError::TrailingBytes(n) => DecodeErrorView::TrailingBytes(*n as int),
            DecodeError::InvalidEnumDiscriminant { ty, value } => DecodeErrorView::InvalidEnumDiscriminant {
                ty: ty@,
                value: *value,
            },
            DecodeError::InvalidFieldValue { field, reason } => DecodeErrorView::InvalidFieldValue {
                field: field@,
                reason: reason@,
            },
        }
    }
}

/// Stores `value` in `slot` unless the field was already seen.
pub fn assign_once<T>(slot: &mut Option<T>, value: T, name: &'static str) -> (r: Result<(), DecodeError>)
    ensures
        old(slot).is_some() ==> r is Err && r->Err_0@ == DecodeErrorView::DuplicateField(name@)
            && *final(slot) == *old(slot),
        old(slot).is_none() ==> r is Ok && *final(slot) == Some(value),
{
    if slot.is_some() {
        return Err(DecodeError::DuplicateField(name));
    }
    *slot = Some(value);
    Ok(())
}

/// `Ok` when decoding stopped at the end of the data, else the number of
/// trailing bytes.
pub fn ensure_exhausted(data: &[u8], pos: usize) -> (r: Result<(), DecodeError>)
    requires
        pos <= data@.len(),
    ensures
        pos == data@.len() ==> r is Ok,
        pos < data@.len() ==> r is Err && r->Err_0@ == DecodeErrorView::TrailingBytes(data@.len() - pos),
{
    let remaining = data.len() - pos;
    if remaining == 0 {
        Ok(())
    } else {
        Err(DecodeError::TrailingBytes(remaining))
    }
}

} // verus!

verus! {

/// A decoding result as a mathematical value: the value's view and the
/// position after it, or the error's view.
pub open spec fn decoded<T: View>(r: Result<(T, usize), DecodeError>) -> Result<(T::V, int), DecodeErrorView> {
    match r {
        Ok((v, p)) => Ok((v@, p as int)),
        Err(e) => Err(e@),
    }
}

/// One named field: the name as a string, then the value's encoding.
pub open spec fn enc_field(name: Seq<char>, value: Seq<u8>) -> Seq<u8> {
    crate::util::binary_cursor::enc_string(name) + value
}

/// Reading a field's value into a slot: a cursor error, a duplicate if the
/// slot is already filled, else the value and the position after it.
pub open spec fn take_field<T>(seen: bool, r: Result<(T, int), CursorError>, name: Seq<char>) -> Result<(T, int), DecodeErrorView> {
    match r {
        Err(e) => Err(DecodeErrorView::Cursor(e)),
        Ok((v, q)) => if seen {
            Err(DecodeErrorView::DuplicateField(name))
        } else {
            Ok((v, q))
        },
    }
}

} // verus!

verus! {

/// The UTF-8 encoding takes at most four bytes per character.
pub proof fn lemma_encode_utf8_len(chars: Seq<char>)
    ensures
        encode_utf8(chars).len() <= 4 * chars.len(),
    decreases chars.len(),
{
    if chars.len() > 0 {
        lemma_encode_utf8_len(chars.drop_first());
    }
}

/// Reading a field name at `pos` where `enc_field(name, value)` stands gives
/// the name, and the value starts right after it.
pub proof fn lemma_field_at(data: Seq<u8>, pos: int, name: Seq<char>, value: Seq<u8>)
    requires
        is_at(data, pos, enc_field(name, value)),
        name.len() <= 64,
    ensures
        spec_read_string(data, pos) == Ok::<(Seq<char>, int), CursorError>(
            (name, pos + enc_string(name).len()),
        ),
        is_at(data, pos + enc_string(name).len(), value),
{
    lemma_encode_utf8_len(name);
    lemma_is_at_split(data, pos, enc_string(name), value);
    lemma_read_string(data, pos, name);
}

} // verus!

verus! {

/// As `take_field`, for a value whose reading can fail with any decoding
/// error.
pub open spec fn take_field_d<T>(seen: bool, r: Result<(T, int), DecodeErrorView>, name: Seq<char>) -> Result<(T, int), DecodeErrorView> {
    match r {
        Err(e) => Err(e),
        Ok((v, q)) => if seen {
            Err(DecodeErrorView::DuplicateField(name))
        } else {
            Ok((v, q))
        },
    }
}

/// A 32-byte array: a `u64` length that must be 32, then the bytes.
pub open spec fn spec_read_fixed_array(data: Seq<u8>, pos: int) -> Result<(Seq<u8>, int), DecodeErrorView> {
    match spec_read_u64(data, pos) {
        Err(e) => Err(DecodeErrorView::Cursor(e)),
        Ok((len, p)) => if len != 32 {
            Err(DecodeErrorView::InvalidFieldValue { field: "fixed_array"@, reason: spec_length_reason(len) })
        } else {
            match spec_read_exact(data, p, 32) {
                Err(e) => Err(DecodeErrorView::Cursor(e)),
                Ok((b, q)) => Ok((b, q)),
            }
        },
    }
}

pub proof fn lemma_read_fixed_array(data: Seq<u8>, pos: int, b: Seq<u8>)
    requires
        is_at(data, pos, enc_bytes(b)),
        b.len() == 32,
    ensures
        spec_read_fixed_array(data, pos) == Ok::<(Seq<u8>, int), DecodeErrorView>((b, pos + 40)),
{
    lemma_read_bytes(data, pos, b);
}

/// The reason text of a length mismatch.
pub open spec fn spec_length_reason(len: u64) -> Seq<char> {
    "expected length 32 got "@ + crate::util::decimal::ascii_chars(crate::util::decimal::spec_decimal(len as nat))
}

/// The reason text of a length mismatch.
pub(crate) fn length_reason(len: u64) -> (s: String)
    ensures
        s@ == spec_length_reason(len),
{
    let d = crate::util::decimal::decimal_u64(len);
    crate::text::concat("expected length 32 got ", d.as_str())
}

/// Reads a 32-byte array written as a byte string.
pub fn read_fixed_array(data: &[u8], pos: usize) -> (r: Result<([u8; 32], usize), DecodeError>)
    ensures
        match r {
            Ok((v, p)) => spec_read_fixed_array(data@, pos as int) == Ok::<(Seq<u8>, int), DecodeErrorView>((v@, p as int)),
            Err(e) => spec_read_fixed_array(data@, pos as int) == Err::<(Seq<u8>, int), DecodeErrorView>(e@),
        },
{
    let (len, p) = match read_u64(data, pos) {
        Ok(x) => x,
        Err(e) => return Err(DecodeError::Cursor(e)),
    };
    if len != 32 {
        return Err(DecodeError::InvalidFieldValue { field: "fixed_array", reason: length_reason(len) });
    }
    match read_array32(data, p) {
        Ok(x) => Ok(x),
        Err(e) => Err(DecodeError::Cursor(e)),
    }
}

} // verus!
