//! Binary layout of object manifests and store receipts: structs are a field
//! count followed by named fields; decoding takes the fields in any order,
//! each at most once.

use vstd::prelude::*;
use vstd::utf8::encode_utf8;
use crate::le::{push_all, u16_le, u32_le, u64_le};
use crate::storage::types::{
    chunks_view, entries_view, opt_string_view, strings_view, ChunkRef, ChunkRefView, ObjectManifest,
    ObjectManifestView, ProviderChunkEntry, ProviderChunkEntryView, Redundancy, StoreReceipt,
    StoreReceiptView,
};
use crate::text::str_eq;
use crate::util::binary_cursor::{
    enc_bytes, enc_i64, enc_string, enc_u8, read_array32, read_bytes, read_i64, read_option_tag,
    read_string, read_u16, read_u32, read_u64, read_u8, spec_read_bytes, spec_read_exact, spec_read_i64,
    spec_read_option_tag, spec_read_string, spec_read_u16, spec_read_u32, spec_read_u64, spec_read_u8,
    write_bool, write_bytes, write_i64, write_string, write_u16, write_u32, write_u64, write_u8, CursorError,
};
use crate::util::binary_struct::{
    assign_once, decoded, enc_field, ensure_exhausted, take_field, take_field_d, DecodeError, DecodeErrorView,
};

verus! {

/// Error returned when encoding fails.
#[derive(Debug)]
pub enum EncodeError {
    /// Collection length exceeded the representable range.
    LengthOverflow(&'static str),
}

// ---------------------------------------------------------------------------
// Lists of u32 and of strings
// ---------------------------------------------------------------------------

pub open spec fn enc_u32_items(v: Seq<u32>) -> Seq<u8>
    decreases v.len(),
{
    if v.len() == 0 {
        Seq::empty()
    } else {
        enc_u32_items(v.drop_last()) + u32_le(v.last())
    }
}

/// A list of `u32`: its length as `u64`, then each value.
pub open spec fn enc_u32_vec(v: Seq<u32>) -> Seq<u8> {
    u64_le(v.len() as u64) + enc_u32_items(v)
}

pub open spec fn u32_items(data: Seq<u8>, pos: int, n: nat, acc: Seq<u32>) -> Result<(Seq<u32>, int), DecodeErrorView>
    decreases n,
{
    if n == 0 {
        Ok((acc, pos))
    } else {
        match spec_read_u32(data, pos) {
            Err(e) => Err(DecodeErrorView::Cursor(e)),
            Ok((x, p)) => u32_items(data, p, (n - 1) as nat, acc.push(x)),
        }
    }
}

/// Reading a list of `u32`; a count beyond `usize` is a length overflow.
pub open spec fn spec_read_u32_vec(data: Seq<u8>, pos: int) -> Result<(Seq<u32>, int), DecodeErrorView> {
    match spec_read_u64(data, pos) {
        Err(e) => Err(DecodeErrorView::Cursor(e)),
        Ok((n, p)) => if n > usize::MAX {
            Err(DecodeErrorView::Cursor(CursorError::LengthOverflow(n)))
        } else {
            u32_items(data, p, n as nat, Seq::empty())
        },
    }
}

fn write_u32_vec(out: &mut Vec<u8>, v: &Vec<u32>)
    ensures
        final(out)@ == old(out)@ + enc_u32_vec(v@),
{
    let ghost before = out@;
    write_u64(out, v.len() as u64);
    let mut i: usize = 0;
    while i < v.len()
        invariant
            i <= v@.len(),
            out@ == before + u64_le(v@.len() as u64) + enc_u32_items(v@.take(i as int)),
        decreases v@.len() - i,
    {
        write_u32(out, v[i]);
        assert(v@.take(i + 1).drop_last() =~= v@.take(i as int));
        i = i + 1;
    }
    assert(v@.take(v@.len() as int) =~= v@);
}

fn read_u32_vec(data: &[u8], pos: usize) -> (r: Result<(Vec<u32>, usize), DecodeError>)
    ensures
        match r {
            Ok((v, p)) => spec_read_u32_vec(data@, pos as int) == Ok::<(Seq<u32>, int), DecodeErrorView>((v@, p as int))
                && p <= data@.len(),
            Err(e) => spec_read_u32_vec(data@, pos as int) == Err::<(Seq<u32>, int), DecodeErrorView>(e@),
        },
{
    let (n, p0) = match read_u64(data, pos) {
        Ok(x) => x,
        Err(e) => return Err(DecodeError::Cursor(e)),
    };
    if n > usize::MAX as u64 {
        return Err(DecodeError::Cursor(CursorError::LengthOverflow(n)));
    }
    let mut out: Vec<u32> = Vec::new();
    let mut p = p0;
    let mut i: u64 = 0;
    while i < n
        invariant
            i <= n,
            p <= data@.len(),
            n <= usize::MAX,
            spec_read_u64(data@, pos as int) == Ok::<(u64, int), CursorError>((n, p0 as int)),
            u32_items(data@, p0 as int, n as nat, Seq::empty()) == u32_items(data@, p as int, (n - i) as nat, out@),
        decreases n - i,
    {
        let (x, q) = match read_u32(data, p) {
            Ok(x) => x,
            Err(e) => return Err(DecodeError::Cursor(e)),
        };
        out.push(x);
        p = q;
        i = i + 1;
    }
    Ok((out, p))
}

pub open spec fn enc_string_items(v: Seq<Seq<char>>) -> Seq<u8>
    decreases v.len(),
{
    if v.len() == 0 {
        Seq::empty()
    } else {
        enc_string_items(v.drop_last()) + enc_string(v.last())
    }
}

/// A list of strings: its length as `u64`, then each string.
pub open spec fn enc_string_vec(v: Seq<Seq<char>>) -> Seq<u8> {
    u64_le(v.len() as u64) + enc_string_items(v)
}

pub open spec fn string_items(data: Seq<u8>, pos: int, n: nat, acc: Seq<Seq<char>>) -> Result<(Seq<Seq<char>>, int), DecodeErrorView>
    decreases n,
{
    if n == 0 {
        Ok((acc, pos))
    } else {
        match spec_read_string(data, pos) {
            Err(e) => Err(DecodeErrorView::Cursor(e)),
            Ok((x, p)) => string_items(data, p, (n - 1) as nat, acc.push(x)),
        }
    }
}

/// Reading a list of strings; a count beyond `usize` is a length overflow.
pub open spec fn spec_read_string_vec(data: Seq<u8>, pos: int) -> Result<(Seq<Seq<char>>, int), DecodeErrorView> {
    match spec_read_u64(data, pos) {
        Err(e) => Err(DecodeErrorView::Cursor(e)),
        Ok((n, p)) => if n > usize::MAX {
            Err(DecodeErrorView::Cursor(CursorError::LengthOverflow(n)))
        } else {
            string_items(data, p, n as nat, Seq::empty())
        },
    }
}

fn write_string_vec(out: &mut Vec<u8>, v: &Vec<String>)
    ensures
        final(out)@ == old(out)@ + enc_string_vec(strings_view(v@)),
{
    let ghost before = out@;
    write_u64(out, v.len() as u64);
    let mut i: usize = 0;
    while i < v.len()
        invariant
            i <= v@.len(),
            out@ == before + u64_le(v@.len() as u64) + enc_string_items(strings_view(v@).take(i as int)),
        decreases v@.len() - i,
    {
        write_string(out, v[i].as_str());
        proof {
            let sv = strings_view(v@);
            assert(sv.take(i + 1).drop_last() =~= sv.take(i as int));
            assert(sv.take(i + 1).last() == v@[i as int]@);
        }
        i = i + 1;
    }
    assert(strings_view(v@).take(v@.len() as int) =~= strings_view(v@));
}

fn read_string_vec(data: &[u8], pos: usize) -> (r: Result<(Vec<String>, usize), DecodeError>)
    ensures
        match r {
            Ok((v, p)) => spec_read_string_vec(data@, pos as int) == Ok::<(Seq<Seq<char>>, int), DecodeErrorView>(
                (strings_view(v@), p as int),
            ) && p <= data@.len(),
            Err(e) => spec_read_string_vec(data@, pos as int) == Err::<(Seq<Seq<char>>, int), DecodeErrorView>(e@),
        },
{
    let (n, p0) = match read_u64(data, pos) {
        Ok(x) => x,
        Err(e) => return Err(DecodeError::Cursor(e)),
    };
    if n > usize::MAX as u64 {
        return Err(DecodeError::Cursor(CursorError::LengthOverflow(n)));
    }
    let mut out: Vec<String> = Vec::new();
    assert(strings_view(out@) =~= Seq::<Seq<char>>::empty());
    let mut p = p0;
    let mut i: u64 = 0;
    while i < n
        invariant
            i <= n,
            p <= data@.len(),
            n <= usize::MAX,
            spec_read_u64(data@, pos as int) == Ok::<(u64, int), CursorError>((n, p0 as int)),
            string_items(data@, p0 as int, n as nat, Seq::empty()) == string_items(
                data@,
                p as int,
                (n - i) as nat,
                strings_view(out@),
            ),
        decreases n - i,
    {
        let (x, q) = match read_string(data, p) {
            Ok(x) => x,
            Err(e) => return Err(DecodeError::Cursor(e)),
        };
        let ghost before = strings_view(out@);
        let ghost xv = x@;
        out.push(x);
        assert(strings_view(out@) =~= before.push(xv));
        p = q;
        i = i + 1;
    }
    Ok((out, p))
}

// ---------------------------------------------------------------------------
// Options and fixed arrays
// ---------------------------------------------------------------------------

/// An optional string: a boolean tag, then the string if present.
pub open spec fn enc_option_string(v: Option<Seq<char>>) -> Seq<u8> {
    match v {
        None => seq![0u8],
        Some(s) => seq![1u8] + enc_string(s),
    }
}

pub open spec fn spec_read_option_string(data: Seq<u8>, pos: int) -> Result<(Option<Seq<char>>, int), DecodeErrorView> {
    match spec_read_option_tag(data, pos) {
        Err(e) => Err(DecodeErrorView::Cursor(e)),
        Ok((false, p)) => Ok((None, p)),
        Ok((true, p)) => match spec_read_string(data, p) {
            Err(e) => Err(DecodeErrorView::Cursor(e)),
            Ok((s, q)) => Ok((Some(s), q)),
        },
    }
}

fn write_option_string(out: &mut Vec<u8>, v: &Option<String>)
    ensures
        final(out)@ == old(out)@ + enc_option_string(opt_string_view(*v)),
{
    let ghost before = out@;
    match v {
        Some(s) => {
            write_bool(out, true);
            write_string(out, s.as_str());
        },
        None => {
            write_bool(out, false);
        },
    }
    assert(final(out)@ =~= before + enc_option_string(opt_string_view(*v)));
}

fn read_option_string(data: &[u8], pos: usize) -> (r: Result<(Option<String>, usize), DecodeError>)
    ensures
        match r {
            Ok((v, p)) => spec_read_option_string(data@, pos as int) == Ok::<(Option<Seq<char>>, int), DecodeErrorView>(
                (opt_string_view(v), p as int),
            ) && p <= data@.len(),
            Err(e) => spec_read_option_string(data@, pos as int) == Err::<(Option<Seq<char>>, int), DecodeErrorView>(e@),
        },
{
    let (some, p) = match read_option_tag(data, pos) {
        Ok(x) => x,
        Err(e) => return Err(DecodeError::Cursor(e)),
    };
    if !some {
        return Ok((None, p));
    }
    match read_string(data, p) {
        Ok((s, q)) => Ok((Some(s), q)),
        Err(e) => Err(DecodeError::Cursor(e)),
    }
}

/// An optional `i32`: a boolean tag, then the value widened to `i64`.
pub open spec fn enc_option_i32(v: Option<i32>) -> Seq<u8> {
    match v {
        None => seq![0u8],
        Some(x) => seq![1u8] + enc_i64(x as i64),
    }
}

/// Reading an optional `i32`; a stored value outside `i32` is an invalid
/// `compression_level`.
pub open spec fn spec_read_option_i32(data: Seq<u8>, pos: int) -> Result<(Option<i32>, int), DecodeErrorView> {
    match spec_read_option_tag(data, pos) {
        Err(e) => Err(DecodeErrorView::Cursor(e)),
        Ok((false, p)) => Ok((None, p)),
        Ok((true, p)) => match spec_read_i64(data, p) {
            Err(e) => Err(DecodeErrorView::Cursor(e)),
            Ok((x, q)) => if i32::MIN <= x <= i32::MAX {
                Ok((Some(x as i32), q))
            } else {
                Err(DecodeErrorView::InvalidFieldValue { field: "compression_level"@, reason: spec_i32_range_reason(x) })
            },
        },
    }
}

fn write_option_i32(out: &mut Vec<u8>, v: Option<i32>)
    ensures
        final(out)@ == old(out)@ + enc_option_i32(v),
{
    let ghost before = out@;
    match v {
        Some(x) => {
            write_bool(out, true);
            write_i64(out, x as i64);
        },
        None => {
            write_bool(out, false);
        },
    }
    assert(final(out)@ =~= before + enc_option_i32(v));
}

/// The reason text of a value outside `i32`.
pub open spec fn spec_i32_range_reason(raw: i64) -> Seq<char> {
    "value "@ + crate::util::decimal::ascii_chars(crate::util::decimal::spec_signed_decimal(raw as int))
        + " exceeds i32 range"@
}

/// The reason text of a value outside `i32`.
fn i32_range_reason(raw: i64) -> (s: String)
    ensures
        s@ == spec_i32_range_reason(raw),
{
    let d = crate::util::decimal::decimal_i64(raw);
    let head = crate::text::concat("value ", d.as_str());
    crate::text::concat(head.as_str(), " exceeds i32 range")
}

fn read_option_i32(data: &[u8], pos: usize) -> (r: Result<(Option<i32>, usize), DecodeError>)
    ensures
        match r {
            Ok((v, p)) => spec_read_option_i32(data@, pos as int) == Ok::<(Option<i32>, int), DecodeErrorView>((v, p as int))
                && p <= data@.len(),
            Err(e) => spec_read_option_i32(data@, pos as int) == Err::<(Option<i32>, int), DecodeErrorView>(e@),
        },
{
    let (some, p) = match read_option_tag(data, pos) {
        Ok(x) => x,
        Err(e) => return Err(DecodeError::Cursor(e)),
    };
    if !some {
        return Ok((None, p));
    }
    let (x, q) = match read_i64(data, p) {
        Ok(x) => x,
        Err(e) => return Err(DecodeError::Cursor(e)),
    };
    if i32::MIN as i64 <= x && x <= i32::MAX as i64 {
        Ok((Some(x as i32), q))
    } else {
        Err(DecodeError::InvalidFieldValue { field: "compression_level", reason: i32_range_reason(x) })
    }
}

/// A 32-byte array: a `u64` length (beyond `usize` a length overflow, else
/// it must be 32), then the bytes.
pub open spec fn spec_read_fixed_u8_array(data: Seq<u8>, pos: int) -> Result<(Seq<u8>, int), DecodeErrorView> {
    match spec_read_u64(data, pos) {
        Err(e) => Err(DecodeErrorView::Cursor(e)),
        Ok((len, p)) => if len > usize::MAX {
            Err(DecodeErrorView::Cursor(CursorError::LengthOverflow(len)))
        } else if len != 32 {
            Err(DecodeErrorView::InvalidFieldValue {
                field: "fixed_array"@,
                reason: crate::util::binary_struct::spec_length_reason(len),
            })
        } else {
            match spec_read_exact(data, p, 32) {
                Err(e) => Err(DecodeErrorView::Cursor(e)),
                Ok((b, q)) => Ok((b, q)),
            }
        },
    }
}

fn read_fixed_u8_array(data: &[u8], pos: usize) -> (r: Result<([u8; 32], usize), DecodeError>)
    ensures
        match r {
            Ok((v, p)) => spec_read_fixed_u8_array(data@, pos as int) == Ok::<(Seq<u8>, int), DecodeErrorView>((v@, p as int))
                && p <= data@.len(),
            Err(e) => spec_read_fixed_u8_array(data@, pos as int) == Err::<(Seq<u8>, int), DecodeErrorView>(e@),
        },
{
    let (len, p) = match read_u64(data, pos) {
        Ok(x) => x,
        Err(e) => return Err(DecodeError::Cursor(e)),
    };
    if len > usize::MAX as u64 {
        return Err(DecodeError::Cursor(CursorError::LengthOverflow(len)));
    }
    if len != 32 {
        return Err(DecodeError::InvalidFieldValue { field: "fixed_array", reason: crate::util::binary_struct::length_reason(len) });
    }
    match read_array32(data, p) {
        Ok(x) => Ok(x),
        Err(e) => Err(DecodeError::Cursor(e)),
    }
}

// ---------------------------------------------------------------------------
// Redundancy
// ---------------------------------------------------------------------------

/// Redundancy: variant index 0 for none; 1 for Reed–Solomon, followed by a
/// two-field struct of the data and parity counts.
pub open spec fn enc_redundancy(r: Redundancy) -> Seq<u8> {
    match r {
        Redundancy::Disabled => u32_le(0),
        Redundancy::ReedSolomon { data, parity } => u32_le(1) + u64_le(2) + enc_field("data"@, enc_u8(data))
            + enc_field("parity"@, enc_u8(parity)),
    }
}

pub open spec fn rs_field(data: Seq<u8>, pos: int, s: (Option<u8>, Option<u8>)) -> Result<((Option<u8>, Option<u8>), int), DecodeErrorView> {
    match spec_read_string(data, pos) {
        Err(e) => Err(DecodeErrorView::Cursor(e)),
        Ok((key, p)) => if key == "data"@ {
            match take_field(s.0 is Some, spec_read_u8(data, p), "data"@) {
                Ok((v, q)) => Ok(((Some(v), s.1), q)),
                Err(e) => Err(e),
            }
        } else if key == "parity"@ {
            match take_field(s.1 is Some, spec_read_u8(data, p), "parity"@) {
                Ok((v, q)) => Ok(((s.0, Some(v)), q)),
                Err(e) => Err(e),
            }
        } else {
            Err(DecodeErrorView::UnknownField(key))
        },
    }
}

pub open spec fn rs_fields(data: Seq<u8>, pos: int, n: nat, s: (Option<u8>, Option<u8>)) -> Result<((Option<u8>, Option<u8>), int), DecodeErrorView>
    decreases n,
{
    if n == 0 {
        Ok((s, pos))
    } else {
        match rs_field(data, pos, s) {
            Ok((s2, p2)) => rs_fields(data, p2, (n - 1) as nat, s2),
            Err(e) => Err(e),
        }
    }
}

pub open spec fn spec_read_redundancy(data: Seq<u8>, pos: int) -> Result<(Redundancy, int), DecodeErrorView> {
    match spec_read_u32(data, pos) {
        Err(e) => Err(DecodeErrorView::Cursor(e)),
        Ok((variant, p)) => if variant == 0 {
            Ok((Redundancy::Disabled, p))
        } else if variant == 1 {
            match spec_read_u64(data, p) {
                Err(e) => Err(DecodeErrorView::Cursor(e)),
                Ok((n, p2)) => match rs_fields(data, p2, n as nat, (None, None)) {
                    Err(e) => Err(e),
                    Ok((s, q)) => if n != 2 {
                        Err(DecodeErrorView::InvalidFieldCount { expected: 2, actual: n })
                    } else if s.0 is None {
                        Err(DecodeErrorView::MissingField("data"@))
                    } else if s.1 is None {
                        Err(DecodeErrorView::MissingField("parity"@))
                    } else {
                        Ok((Redundancy::ReedSolomon { data: s.0->Some_0, parity: s.1->Some_0 }, q))
                    },
                },
            }
        } else {
            Err(DecodeErrorView::InvalidEnumDiscriminant { ty: "Redundancy"@, value: variant })
        },
    }
}

fn write_u8_field(out: &mut Vec<u8>, name: &str, v: u8)
    ensures
        final(out)@ == old(out)@ + enc_field(name@, enc_u8(v)),
{
    write_string(out, name);
    write_u8(out, v);
    assert(final(out)@ =~= old(out)@ + enc_field(name@, enc_u8(v)));
}

pub fn write_redundancy(out: &mut Vec<u8>, r: Redundancy)
    ensures
        final(out)@ == old(out)@ + enc_redundancy(r),
{
    let ghost before = out@;
    match r {
        Redundancy::Disabled => {
            write_u32(out, 0);
        },
        Redundancy::ReedSolomon { data, parity } => {
            write_u32(out, 1);
            write_u64(out, 2);
            write_u8_field(out, "data", data);
            write_u8_field(out, "parity", parity);
        },
    }
    assert(final(out)@ =~= before + enc_redundancy(r));
}

fn read_redundancy(data: &[u8], pos: usize) -> (r: Result<(Redundancy, usize), DecodeError>)
    ensures
        match r {
            Ok((v, p)) => spec_read_redundancy(data@, pos as int) == Ok::<(Redundancy, int), DecodeErrorView>((v, p as int))
                && p <= data@.len(),
            Err(e) => spec_read_redundancy(data@, pos as int) == Err::<(Redundancy, int), DecodeErrorView>(e@),
        },
{
    let (variant, p) = match read_u32(data, pos) {
        Ok(x) => x,
        Err(e) => return Err(DecodeError::Cursor(e)),
    };
    if variant == 0 {
        return Ok((Redundancy::Disabled, p));
    }
    if variant != 1 {
        return Err(DecodeError::InvalidEnumDiscriminant { ty: "Redundancy", value: variant });
    }
    let (n, p0) = match read_u64(data, p) {
        Ok(x) => x,
        Err(e) => return Err(DecodeError::Cursor(e)),
    };
    let mut q = p0;
    let mut d: Option<u8> = None;
    let mut par: Option<u8> = None;
    let mut i: u64 = 0;
    while i < n
        invariant
            i <= n,
            q <= data@.len(),
            spec_read_u32(data@, pos as int) == Ok::<(u32, int), CursorError>((1u32, p as int)),
            spec_read_u64(data@, p as int) == Ok::<(u64, int), CursorError>((n, p0 as int)),
            rs_fields(data@, p0 as int, n as nat, (None, None)) == rs_fields(data@, q as int, (n - i) as nat, (d, par)),
        decreases n - i,
    {
        let ghost sb = (d, par);
        let ghost qb = q as int;
        let (key, k) = match read_string(data, q) {
            Ok(x) => x,
            Err(e) => return Err(DecodeError::Cursor(e)),
        };
        if str_eq(key.as_str(), "data") {
            let (v, k2) = match read_u8(data, k) {
                Ok(x) => x,
                Err(e) => return Err(DecodeError::Cursor(e)),
            };
            if let Err(e) = assign_once(&mut d, v, "data") {
                assert(rs_fields(data@, qb, (n - i) as nat, sb) == Err::<((Option<u8>, Option<u8>), int), DecodeErrorView>(e@));
                return Err(e);
            }
            q = k2;
        } else if str_eq(key.as_str(), "parity") {
            let (v, k2) = match read_u8(data, k) {
                Ok(x) => x,
                Err(e) => return Err(DecodeError::Cursor(e)),
            };
            if let Err(e) = assign_once(&mut par, v, "parity") {
                assert(rs_fields(data@, qb, (n - i) as nat, sb) == Err::<((Option<u8>, Option<u8>), int), DecodeErrorView>(e@));
                return Err(e);
            }
            q = k2;
        } else {
            return Err(DecodeError::UnknownField(key));
        }
        i = i + 1;
    }
    if n != 2 {
        return Err(DecodeError::InvalidFieldCount { expected: 2, actual: n });
    }
    let dv = match d {
        Some(v) => v,
        None => return Err(DecodeError::MissingField("data")),
    };
    let pv = match par {
        Some(v) => v,
        None => return Err(DecodeError::MissingField("parity")),
    };
    Ok((Redundancy::ReedSolomon { data: dv, parity: pv }, q))
}

} // verus!

verus! {

// ---------------------------------------------------------------------------
// Provider entries
// ---------------------------------------------------------------------------

/// A provider entry: four fields.
pub open spec fn enc_entry(e: ProviderChunkEntryView) -> Seq<u8> {
    u64_le(4) + enc_field("provider"@, enc_string(e.provider)) + enc_field(
        "chunk_indices"@,
        enc_u32_vec(e.chunk_indices),
    ) + enc_field("chunk_lens"@, enc_u32_vec(e.chunk_lens)) + enc_field(
        "encryption_key"@,
        enc_bytes(e.encryption_key),
    )
}

pub struct EntrySlots {
    pub provider: Option<Seq<char>>,
    pub chunk_indices: Option<Seq<u32>>,
    pub chunk_lens: Option<Seq<u32>>,
    pub encryption_key: Option<Seq<u8>>,
}

pub open spec fn entry_slots_empty() -> EntrySlots {
    EntrySlots { provider: None, chunk_indices: None, chunk_lens: None, encryption_key: None }
}

#[verifier::opaque]
pub open spec fn entry_field(data: Seq<u8>, pos: int, s: EntrySlots) -> Result<(EntrySlots, int), DecodeErrorView> {
    match spec_read_string(data, pos) {
        Err(e) => Err(DecodeErrorView::Cursor(e)),
        Ok((key, p)) => if key == "provider"@ {
            match take_field(s.provider is Some, spec_read_string(data, p), "provider"@) {
                Ok((v, q)) => Ok((EntrySlots { provider: Some(v), ..s }, q)),
                Err(e) => Err(e),
            }
        } else if key == "chunk_indices"@ {
            match take_field_d(s.chunk_indices is Some, spec_read_u32_vec(data, p), "chunk_indices"@) {
                Ok((v, q)) => Ok((EntrySlots { chunk_indices: Some(v), ..s }, q)),
                Err(e) => Err(e),
            }
        } else if key == "chunk_lens"@ {
            match take_field_d(s.chunk_lens is Some, spec_read_u32_vec(data, p), "chunk_lens"@) {
                Ok((v, q)) => Ok((EntrySlots { chunk_lens: Some(v), ..s }, q)),
                Err(e) => Err(e),
            }
        } else if key == "encryption_key"@ {
            match take_field(s.encryption_key is Some, spec_read_bytes(data, p), "encryption_key"@) {
                Ok((v, q)) => Ok((EntrySlots { encryption_key: Some(v), ..s }, q)),
                Err(e) => Err(e),
            }
        } else {
            Err(DecodeErrorView::UnknownField(key))
        },
    }
}

pub open spec fn entry_fields(data: Seq<u8>, pos: int, n: nat, s: EntrySlots) -> Result<(EntrySlots, int), DecodeErrorView>
    decreases n,
{
    if n == 0 {
        Ok((s, pos))
    } else {
        match entry_field(data, pos, s) {
            Ok((s2, p2)) => entry_fields(data, p2, (n - 1) as nat, s2),
            Err(e) => Err(e),
        }
    }
}

/// Reading a provider entry: any number of fields; the provider is
/// required, the lists and key default to empty.
pub open spec fn spec_read_entry(data: Seq<u8>, pos: int) -> Result<(ProviderChunkEntryView, int), DecodeErrorView> {
    match spec_read_u64(data, pos) {
        Err(e) => Err(DecodeErrorView::Cursor(e)),
        Ok((n, p)) => match entry_fields(data, p, n as nat, entry_slots_empty()) {
            Err(e) => Err(e),
            Ok((s, q)) => if s.provider is None {
                Err(DecodeErrorView::MissingField("provider"@))
            } else {
                Ok(
                    (
                        ProviderChunkEntryView {
                            provider: s.provider->Some_0,
                            chunk_indices: match s.chunk_indices {
                                Some(v) => v,
                                None => Seq::empty(),
                            },
                            chunk_lens: match s.chunk_lens {
                                Some(v) => v,
                                None => Seq::empty(),
                            },
                            encryption_key: match s.encryption_key {
                                Some(v) => v,
                                None => Seq::empty(),
                            },
                        },
                        q,
                    ),
                )
            },
        },
    }
}

struct EntryExecSlots {
    provider: Option<String>,
    chunk_indices: Option<Vec<u32>>,
    chunk_lens: Option<Vec<u32>>,
    encryption_key: Option<Vec<u8>>,
}

impl View for EntryExecSlots {
    type V = EntrySlots;

    closed spec fn view(&self) -> EntrySlots {
        EntrySlots {
            provider: opt_string_view(self.provider),
            chunk_indices: match self.chunk_indices {
                Some(v) => Some(v@),
                None => None,
            },
            chunk_lens: match self.chunk_lens {
                Some(v) => Some(v@),
                None => None,
            },
            encryption_key: match self.encryption_key {
                Some(v) => Some(v@),
                None => None,
            },
        }
    }
}

fn write_entry(out: &mut Vec<u8>, e: &ProviderChunkEntry)
    ensures
        final(out)@ == old(out)@ + enc_entry(e@),
{
    let ghost b0 = out@;
    write_u64(out, 4);
    let ghost b1 = out@;
    write_string(out, "provider");
    write_string(out, e.provider.as_str());
    assert(out@ =~= b1 + enc_field("provider"@, enc_string(e.provider@)));
    let ghost b2 = out@;
    write_string(out, "chunk_indices");
    write_u32_vec(out, &e.chunk_indices);
    assert(out@ =~= b2 + enc_field("chunk_indices"@, enc_u32_vec(e.chunk_indices@)));
    let ghost b3 = out@;
    write_string(out, "chunk_lens");
    write_u32_vec(out, &e.chunk_lens);
    assert(out@ =~= b3 + enc_field("chunk_lens"@, enc_u32_vec(e.chunk_lens@)));
    let ghost b4 = out@;
    write_string(out, "encryption_key");
    write_bytes(out, e.encryption_key.as_slice());
    assert(out@ =~= b4 + enc_field("encryption_key"@, enc_bytes(e.encryption_key@)));
    assert(out@ =~= b0 + enc_entry(e@));
}

fn read_entry_field(data: &[u8], p: usize, s: &mut EntryExecSlots) -> (r: Result<usize, DecodeError>)
    ensures
        match r {
            Ok(q) => entry_field(data@, p as int, old(s)@) == Ok::<(EntrySlots, int), DecodeErrorView>((final(s)@, q as int))
                && q <= data@.len(),
            Err(e) => entry_field(data@, p as int, old(s)@) == Err::<(EntrySlots, int), DecodeErrorView>(e@),
        },
{
    reveal(entry_field);
    let (key, q) = match read_string(data, p) {
        Ok(x) => x,
        Err(e) => return Err(DecodeError::Cursor(e)),
    };
    if str_eq(key.as_str(), "provider") {
        let (v, q2) = match read_string(data, q) {
            Ok(x) => x,
            Err(e) => return Err(DecodeError::Cursor(e)),
        };
        assign_once(&mut s.provider, v, "provider")?;
        Ok(q2)
    } else if str_eq(key.as_str(), "chunk_indices") {
        let (v, q2) = read_u32_vec(data, q)?;
        assign_once(&mut s.chunk_indices, v, "chunk_indices")?;
        Ok(q2)
    } else if str_eq(key.as_str(), "chunk_lens") {
        let (v, q2) = read_u32_vec(data, q)?;
        assign_once(&mut s.chunk_lens, v, "chunk_lens")?;
        Ok(q2)
    } else if str_eq(key.as_str(), "encryption_key") {
        let (v, q2) = match read_bytes(data, q) {
            Ok(x) => x,
            Err(e) => return Err(DecodeError::Cursor(e)),
        };
        assign_once(&mut s.encryption_key, v, "encryption_key")?;
        Ok(q2)
    } else {
        Err(DecodeError::UnknownField(key))
    }
}

fn read_entry(data: &[u8], pos: usize) -> (r: Result<(ProviderChunkEntry, usize), DecodeError>)
    ensures
        decoded(r) == spec_read_entry(data@, pos as int),
        r matches Ok((_, q)) ==> q <= data@.len(),
{
    let (n, p0) = match read_u64(data, pos) {
        Ok(x) => x,
        Err(e) => return Err(DecodeError::Cursor(e)),
    };
    let mut p = p0;
    let mut s = EntryExecSlots { provider: None, chunk_indices: None, chunk_lens: None, encryption_key: None };
    assert(s@ == entry_slots_empty());
    let mut i: u64 = 0;
    while i < n
        invariant
            i <= n,
            p <= data@.len(),
            spec_read_u64(data@, pos as int) == Ok::<(u64, int), CursorError>((n, p0 as int)),
            entry_fields(data@, p0 as int, n as nat, entry_slots_empty()) == entry_fields(
                data@,
                p as int,
                (n - i) as nat,
                s@,
            ),
        decreases n - i,
    {
        let ghost sb = s@;
        let ghost pb = p as int;
        match read_entry_field(data, p, &mut s) {
            Ok(q) => {
                p = q;
            },
            Err(e) => {
                assert(entry_fields(data@, pb, (n - i) as nat, sb) == Err::<(EntrySlots, int), DecodeErrorView>(e@));
                return Err(e);
            },
        }
        i = i + 1;
    }
    let provider = match s.provider {
        Some(v) => v,
        None => return Err(DecodeError::MissingField("provider")),
    };
    let chunk_indices = match s.chunk_indices {
        Some(v) => v,
        None => Vec::new(),
    };
    let chunk_lens = match s.chunk_lens {
        Some(v) => v,
        None => Vec::new(),
    };
    let encryption_key = match s.encryption_key {
        Some(v) => v,
        None => Vec::new(),
    };
    Ok((ProviderChunkEntry { provider, chunk_indices, chunk_lens, encryption_key }, p))
}

pub open spec fn enc_entry_items(v: Seq<ProviderChunkEntryView>) -> Seq<u8>
    decreases v.len(),
{
    if v.len() == 0 {
        Seq::empty()
    } else {
        enc_entry_items(v.drop_last()) + enc_entry(v.last())
    }
}

/// A list of provider entries: its length as `u64`, then each entry.
pub open spec fn enc_entry_vec(v: Seq<ProviderChunkEntryView>) -> Seq<u8> {
    u64_le(v.len() as u64) + enc_entry_items(v)
}

pub open spec fn entry_items(data: Seq<u8>, pos: int, n: nat, acc: Seq<ProviderChunkEntryView>) -> Result<(Seq<ProviderChunkEntryView>, int), DecodeErrorView>
    decreases n,
{
    if n == 0 {
        Ok((acc, pos))
    } else {
        match spec_read_entry(data, pos) {
            Err(e) => Err(e),
            Ok((x, p)) => entry_items(data, p, (n - 1) as nat, acc.push(x)),
        }
    }
}

pub open spec fn spec_read_entry_vec(data: Seq<u8>, pos: int) -> Result<(Seq<ProviderChunkEntryView>, int), DecodeErrorView> {
    match spec_read_u64(data, pos) {
        Err(e) => Err(DecodeErrorView::Cursor(e)),
        Ok((n, p)) => if n > usize::MAX {
            Err(DecodeErrorView::Cursor(CursorError::LengthOverflow(n)))
        } else {
            entry_items(data, p, n as nat, Seq::empty())
        },
    }
}

fn write_entry_vec(out: &mut Vec<u8>, v: &Vec<ProviderChunkEntry>)
    ensures
        final(out)@ == old(out)@ + enc_entry_vec(entries_view(v@)),
{
    let ghost before = out@;
    write_u64(out, v.len() as u64);
    let mut i: usize = 0;
    while i < v.len()
        invariant
            i <= v@.len(),
            out@ == before + u64_le(v@.len() as u64) + enc_entry_items(entries_view(v@).take(i as int)),
        decreases v@.len() - i,
    {
        write_entry(out, &v[i]);
        proof {
            let ev = entries_view(v@);
            assert(ev.take(i + 1).drop_last() =~= ev.take(i as int));
            assert(ev.take(i + 1).last() == v@[i as int]@);
        }
        i = i + 1;
    }
    assert(entries_view(v@).take(v@.len() as int) =~= entries_view(v@));
}

fn read_entry_vec(data: &[u8], pos: usize) -> (r: Result<(Vec<ProviderChunkEntry>, usize), DecodeError>)
    ensures
        match r {
            Ok((v, p)) => spec_read_entry_vec(data@, pos as int) == Ok::<(Seq<ProviderChunkEntryView>, int), DecodeErrorView>(
                (entries_view(v@), p as int),
            ) && p <= data@.len(),
            Err(e) => spec_read_entry_vec(data@, pos as int) == Err::<(Seq<ProviderChunkEntryView>, int), DecodeErrorView>(e@),
        },
{
    let (n, p0) = match read_u64(data, pos) {
        Ok(x) => x,
        Err(e) => return Err(DecodeError::Cursor(e)),
    };
    if n > usize::MAX as u64 {
        return Err(DecodeError::Cursor(CursorError::LengthOverflow(n)));
    }
    let mut out: Vec<ProviderChunkEntry> = Vec::new();
    assert(entries_view(out@) =~= Seq::<ProviderChunkEntryView>::empty());
    let mut p = p0;
    let mut i: u64 = 0;
    while i < n
        invariant
            i <= n,
            p <= data@.len(),
            n <= usize::MAX,
            spec_read_u64(data@, pos as int) == Ok::<(u64, int), CursorError>((n, p0 as int)),
            entry_items(data@, p0 as int, n as nat, Seq::empty()) == entry_items(
                data@,
                p as int,
                (n - i) as nat,
                entries_view(out@),
            ),
        decreases n - i,
    {
        let (x, q) = read_entry(data, p)?;
        let ghost before = entries_view(out@);
        let ghost xv = x@;
        out.push(x);
        assert(entries_view(out@) =~= before.push(xv));
        p = q;
        i = i + 1;
    }
    Ok((out, p))
}

} // verus!

verus! {

// ---------------------------------------------------------------------------
// Chunk references
// ---------------------------------------------------------------------------

/// A chunk reference: three fields.
pub open spec fn enc_chunk(c: ChunkRefView) -> Seq<u8> {
    u64_le(3) + enc_field("id"@, enc_bytes(c.id)) + enc_field("nodes"@, enc_string_vec(c.nodes)) + enc_field(
        "provider_chunks"@,
        enc_entry_vec(c.provider_chunks),
    )
}

pub struct ChunkSlots {
    pub id: Option<Seq<u8>>,
    pub nodes: Option<Seq<Seq<char>>>,
    pub provider_chunks: Option<Seq<ProviderChunkEntryView>>,
}

pub open spec fn chunk_slots_empty() -> ChunkSlots {
    ChunkSlots { id: None, nodes: None, provider_chunks: None }
}

#[verifier::opaque]
pub open spec fn chunk_field(data: Seq<u8>, pos: int, s: ChunkSlots) -> Result<(ChunkSlots, int), DecodeErrorView> {
    match spec_read_string(data, pos) {
        Err(e) => Err(DecodeErrorView::Cursor(e)),
        Ok((key, p)) => if key == "id"@ {
            match take_field_d(s.id is Some, spec_read_fixed_u8_array(data, p), "id"@) {
                Ok((v, q)) => Ok((ChunkSlots { id: Some(v), ..s }, q)),
                Err(e) => Err(e),
            }
        } else if key == "nodes"@ {
            match take_field_d(s.nodes is Some, spec_read_string_vec(data, p), "nodes"@) {
                Ok((v, q)) => Ok((ChunkSlots { nodes: Some(v), ..s }, q)),
                Err(e) => Err(e),
            }
        } else if key == "provider_chunks"@ {
            match take_field_d(s.provider_chunks is Some, spec_read_entry_vec(data, p), "provider_chunks"@) {
                Ok((v, q)) => Ok((ChunkSlots { provider_chunks: Some(v), ..s }, q)),
                Err(e) => Err(e),
            }
        } else {
            Err(DecodeErrorView::UnknownField(key))
        },
    }
}

pub open spec fn chunk_fields(data: Seq<u8>, pos: int, n: nat, s: ChunkSlots) -> Result<(ChunkSlots, int), DecodeErrorView>
    decreases n,
{
    if n == 0 {
        Ok((s, pos))
    } else {
        match chunk_field(data, pos, s) {
            Ok((s2, p2)) => chunk_fields(data, p2, (n - 1) as nat, s2),
            Err(e) => Err(e),
        }
    }
}

/// Reading a chunk reference: any number of fields; the id is required,
/// the lists default to empty.
pub open spec fn spec_read_chunk(data: Seq<u8>, pos: int) -> Result<(ChunkRefView, int), DecodeErrorView> {
    match spec_read_u64(data, pos) {
        Err(e) => Err(DecodeErrorView::Cursor(e)),
        Ok((n, p)) => match chunk_fields(data, p, n as nat, chunk_slots_empty()) {
            Err(e) => Err(e),
            Ok((s, q)) => if s.id is None {
                Err(DecodeErrorView::MissingField("id"@))
            } else {
                Ok(
                    (
                        ChunkRefView {
                            id: s.id->Some_0,
                            nodes: match s.nodes {
                                Some(v) => v,
                                None => Seq::empty(),
                            },
                            provider_chunks: match s.provider_chunks {
                                Some(v) => v,
                                None => Seq::empty(),
                            },
                        },
                        q,
                    ),
                )
            },
        },
    }
}

struct ChunkExecSlots {
    id: Option<[u8; 32]>,
    nodes: Option<Vec<String>>,
    provider_chunks: Option<Vec<ProviderChunkEntry>>,
}

impl View for ChunkExecSlots {
    type V = ChunkSlots;

    closed spec fn view(&self) -> ChunkSlots {
        ChunkSlots {
            id: match self.id {
                Some(a) => Some(a@),
                None => None,
            },
            nodes: match self.nodes {
                Some(v) => Some(strings_view(v@)),
                None => None,
            },
            provider_chunks: match self.provider_chunks {
                Some(v) => Some(entries_view(v@)),
                None => None,
            },
        }
    }
}

pub fn write_fixed_u8_array(out: &mut Vec<u8>, a: &[u8; 32])
    ensures
        final(out)@ == old(out)@ + enc_bytes(a@),
{
    write_bytes(out, a);
}

fn write_chunk(out: &mut Vec<u8>, c: &ChunkRef)
    ensures
        final(out)@ == old(out)@ + enc_chunk(c@),
{
    let ghost b0 = out@;
    write_u64(out, 3);
    let ghost b1 = out@;
    write_string(out, "id");
    write_fixed_u8_array(out, &c.id);
    assert(out@ =~= b1 + enc_field("id"@, enc_bytes(c.id@)));
    let ghost b2 = out@;
    write_string(out, "nodes");
    write_string_vec(out, &c.nodes);
    assert(out@ =~= b2 + enc_field("nodes"@, enc_string_vec(strings_view(c.nodes@))));
    let ghost b3 = out@;
    write_string(out, "provider_chunks");
    write_entry_vec(out, &c.provider_chunks);
    assert(out@ =~= b3 + enc_field("provider_chunks"@, enc_entry_vec(entries_view(c.provider_chunks@))));
    assert(out@ =~= b0 + enc_chunk(c@));
}

fn read_chunk_field(data: &[u8], p: usize, s: &mut ChunkExecSlots) -> (r: Result<usize, DecodeError>)
    ensures
        match r {
            Ok(q) => chunk_field(data@, p as int, old(s)@) == Ok::<(ChunkSlots, int), DecodeErrorView>((final(s)@, q as int))
                && q <= data@.len(),
            Err(e) => chunk_field(data@, p as int, old(s)@) == Err::<(ChunkSlots, int), DecodeErrorView>(e@),
        },
{
    reveal(chunk_field);
    let (key, q) = match read_string(data, p) {
        Ok(x) => x,
        Err(e) => return Err(DecodeError::Cursor(e)),
    };
    if str_eq(key.as_str(), "id") {
        let (v, q2) = read_fixed_u8_array(data, q)?;
        assign_once(&mut s.id, v, "id")?;
        Ok(q2)
    } else if str_eq(key.as_str(), "nodes") {
        let (v, q2) = read_string_vec(data, q)?;
        assign_once(&mut s.nodes, v, "nodes")?;
        Ok(q2)
    } else if str_eq(key.as_str(), "provider_chunks") {
        let (v, q2) = read_entry_vec(data, q)?;
        assign_once(&mut s.provider_chunks, v, "provider_chunks")?;
        Ok(q2)
    } else {
        Err(DecodeError::UnknownField(key))
    }
}

fn read_chunk(data: &[u8], pos: usize) -> (r: Result<(ChunkRef, usize), DecodeError>)
    ensures
        decoded(r) == spec_read_chunk(data@, pos as int),
        r matches Ok((_, q)) ==> q <= data@.len(),
{
    let (n, p0) = match read_u64(data, pos) {
        Ok(x) => x,
        Err(e) => return Err(DecodeError::Cursor(e)),
    };
    let mut p = p0;
    let mut s = ChunkExecSlots { id: None, nodes: None, provider_chunks: None };
    assert(s@ == chunk_slots_empty());
    let mut i: u64 = 0;
    while i < n
        invariant
            i <= n,
            p <= data@.len(),
            spec_read_u64(data@, pos as int) == Ok::<(u64, int), CursorError>((n, p0 as int)),
            chunk_fields(data@, p0 as int, n as nat, chunk_slots_empty()) == chunk_fields(
                data@,
                p as int,
                (n - i) as nat,
                s@,
            ),
        decreases n - i,
    {
        let ghost sb = s@;
        let ghost pb = p as int;
        match read_chunk_field(data, p, &mut s) {
            Ok(q) => {
                p = q;
            },
            Err(e) => {
                assert(chunk_fields(data@, pb, (n - i) as nat, sb) == Err::<(ChunkSlots, int), DecodeErrorView>(e@));
                return Err(e);
            },
        }
        i = i + 1;
    }
    let id = match s.id {
        Some(v) => v,
        None => return Err(DecodeError::MissingField("id")),
    };
    let nodes = match s.nodes {
        Some(v) => v,
        None => Vec::new(),
    };
    let provider_chunks = match s.provider_chunks {
        Some(v) => v,
        None => Vec::new(),
    };
    let c = ChunkRef { id, nodes, provider_chunks };
    assert(strings_view(c.nodes@) =~= match s@.nodes {
        Some(v) => v,
        None => Seq::<Seq<char>>::empty(),
    });
    assert(entries_view(c.provider_chunks@) =~= match s@.provider_chunks {
        Some(v) => v,
        None => Seq::<ProviderChunkEntryView>::empty(),
    });
    Ok((c, p))
}

pub open spec fn enc_chunk_items(v: Seq<ChunkRefView>) -> Seq<u8>
    decreases v.len(),
{
    if v.len() == 0 {
        Seq::empty()
    } else {
        enc_chunk_items(v.drop_last()) + enc_chunk(v.last())
    }
}

/// A list of chunk references: its length as `u64`, then each reference.
pub open spec fn enc_chunk_vec(v: Seq<ChunkRefView>) -> Seq<u8> {
    u64_le(v.len() as u64) + enc_chunk_items(v)
}

pub open spec fn chunk_items(data: Seq<u8>, pos: int, n: nat, acc: Seq<ChunkRefView>) -> Result<(Seq<ChunkRefView>, int), DecodeErrorView>
    decreases n,
{
    if n == 0 {
        Ok((acc, pos))
    } else {
        match spec_read_chunk(data, pos) {
            Err(e) => Err(e),
            Ok((x, p)) => chunk_items(data, p, (n - 1) as nat, acc.push(x)),
        }
    }
}

pub open spec fn spec_read_chunk_vec(data: Seq<u8>, pos: int) -> Result<(Seq<ChunkRefView>, int), DecodeErrorView> {
    match spec_read_u64(data, pos) {
        Err(e) => Err(DecodeErrorView::Cursor(e)),
        Ok((n, p)) => if n > usize::MAX {
            Err(DecodeErrorView::Cursor(CursorError::LengthOverflow(n)))
        } else {
            chunk_items(data, p, n as nat, Seq::empty())
        },
    }
}

pub fn write_chunk_refs(out: &mut Vec<u8>, v: &Vec<ChunkRef>)
    ensures
        final(out)@ == old(out)@ + enc_chunk_vec(chunks_view(v@)),
{
    let ghost before = out@;
    write_u64(out, v.len() as u64);
    let mut i: usize = 0;
    while i < v.len()
        invariant
            i <= v@.len(),
            out@ == before + u64_le(v@.len() as u64) + enc_chunk_items(chunks_view(v@).take(i as int)),
        decreases v@.len() - i,
    {
        write_chunk(out, &v[i]);
        proof {
            let cv = chunks_view(v@);
            assert(cv.take(i + 1).drop_last() =~= cv.take(i as int));
            assert(cv.take(i + 1).last() == v@[i as int]@);
        }
        i = i + 1;
    }
    assert(chunks_view(v@).take(v@.len() as int) =~= chunks_view(v@));
}

fn read_chunk_vec(data: &[u8], pos: usize) -> (r: Result<(Vec<ChunkRef>, usize), DecodeError>)
    ensures
        match r {
            Ok((v, p)) => spec_read_chunk_vec(data@, pos as int) == Ok::<(Seq<ChunkRefView>, int), DecodeErrorView>(
                (chunks_view(v@), p as int),
            ) && p <= data@.len(),
            Err(e) => spec_read_chunk_vec(data@, pos as int) == Err::<(Seq<ChunkRefView>, int), DecodeErrorView>(e@),
        },
{
    let (n, p0) = match read_u64(data, pos) {
        Ok(x) => x,
        Err(e) => return Err(DecodeError::Cursor(e)),
    };
    if n > usize::MAX as u64 {
        return Err(DecodeError::Cursor(CursorError::LengthOverflow(n)));
    }
    let mut out: Vec<ChunkRef> = Vec::new();
    assert(chunks_view(out@) =~= Seq::<ChunkRefView>::empty());
    let mut p = p0;
    let mut i: u64 = 0;
    while i < n
        invariant
            i <= n,
            p <= data@.len(),
            n <= usize::MAX,
            spec_read_u64(data@, pos as int) == Ok::<(u64, int), CursorError>((n, p0 as int)),
            chunk_items(data@, p0 as int, n as nat, Seq::empty()) == chunk_items(
                data@,
                p as int,
                (n - i) as nat,
                chunks_view(out@),
            ),
        decreases n - i,
    {
        let (x, q) = read_chunk(data, p)?;
        let ghost before = chunks_view(out@);
        let ghost xv = x@;
        out.push(x);
        assert(chunks_view(out@) =~= before.push(xv));
        p = q;
        i = i + 1;
    }
    Ok((out, p))
}

} // verus!

verus! {

// ---------------------------------------------------------------------------
// Object manifests
// ---------------------------------------------------------------------------
/// A manifest: fifteen fields.
#[verifier::opaque]
pub open spec fn enc_manifest(m: ObjectManifestView) -> Seq<u8> {
    u64_le(15)
        + enc_field("version"@, u16_le(m.version))
        + enc_field("total_len"@, u64_le(m.total_len))
        + enc_field("chunk_len"@, u32_le(m.chunk_len))
        + enc_field("chunks"@, enc_chunk_vec(m.chunks))
        + enc_field("redundancy"@, enc_redundancy(m.redundancy))
        + enc_field("content_key_enc"@, enc_bytes(m.content_key_enc))
        + enc_field("blake3"@, enc_bytes(m.blake3))
        + enc_field("chunk_lens"@, enc_u32_vec(m.chunk_lens))
        + enc_field("chunk_compressed_lens"@, enc_u32_vec(m.chunk_compressed_lens))
        + enc_field("chunk_cipher_lens"@, enc_u32_vec(m.chunk_cipher_lens))
        + enc_field("compression_alg"@, enc_option_string(m.compression_alg))
        + enc_field("compression_level"@, enc_option_i32(m.compression_level))
        + enc_field("encryption_alg"@, enc_option_string(m.encryption_alg))
        + enc_field("erasure_alg"@, enc_option_string(m.erasure_alg))
        + enc_field("provider_chunks"@, enc_entry_vec(m.provider_chunks))
}

pub struct ManifestSlots {
    pub version: Option<u16>,
    pub total_len: Option<u64>,
    pub chunk_len: Option<u32>,
    pub chunks: Option<Seq<ChunkRefView>>,
    pub redundancy: Option<Redundancy>,
    pub content_key_enc: Option<Seq<u8>>,
    pub blake3: Option<Seq<u8>>,
    pub chunk_lens: Option<Seq<u32>>,
    pub chunk_compressed_lens: Option<Seq<u32>>,
    pub chunk_cipher_lens: Option<Seq<u32>>,
    pub compression_alg: Option<Option<Seq<char>>>,
    pub compression_level: Option<Option<i32>>,
    pub encryption_alg: Option<Option<Seq<char>>>,
    pub erasure_alg: Option<Option<Seq<char>>>,
    pub provider_chunks: Option<Seq<ProviderChunkEntryView>>,
}

pub open spec fn manifest_slots_empty() -> ManifestSlots {
    ManifestSlots { version: None, total_len: None, chunk_len: None, chunks: None, redundancy: None, content_key_enc: None, blake3: None, chunk_lens: None, chunk_compressed_lens: None, chunk_cipher_lens: None, compression_alg: None, compression_level: None, encryption_alg: None, erasure_alg: None, provider_chunks: None }
}

#[verifier::opaque]
pub open spec fn manifest_field(data: Seq<u8>, pos: int, s: ManifestSlots) -> Result<(ManifestSlots, int), DecodeErrorView> {
    match spec_read_string(data, pos) {
        Err(e) => Err(DecodeErrorView::Cursor(e)),
        Ok((key, p)) => if key == "version"@ {
            match take_field(s.version is Some, spec_read_u16(data, p), "version"@) {
                Ok((v, q)) => Ok((ManifestSlots { version: Some(v), ..s }, q)),
                Err(e) => Err(e),
            }
        } else if key == "total_len"@ {
            match take_field(s.total_len is Some, spec_read_u64(data, p), "total_len"@) {
                Ok((v, q)) => Ok((ManifestSlots { total_len: Some(v), ..s }, q)),
                Err(e) => Err(e),
            }
        } else if key == "chunk_len"@ {
            match take_field(s.chunk_len is Some, spec_read_u32(data, p), "chunk_len"@) {
                Ok((v, q)) => Ok((ManifestSlots { chunk_len: Some(v), ..s }, q)),
                Err(e) => Err(e),
            }
        } else if key == "chunks"@ {
            match take_field_d(s.chunks is Some, spec_read_chunk_vec(data, p), "chunks"@) {
                Ok((v, q)) => Ok((ManifestSlots { chunks: Some(v), ..s }, q)),
                Err(e) => Err(e),
            }
        } else if key == "redundancy"@ {
            match take_field_d(s.redundancy is Some, spec_read_redundancy(data, p), "redundancy"@) {
                Ok((v, q)) => Ok((ManifestSlots { redundancy: Some(v), ..s }, q)),
                Err(e) => Err(e),
            }
        } else if key == "content_key_enc"@ {
            match take_field(s.content_key_enc is Some, spec_read_bytes(data, p), "content_key_enc"@) {
                Ok((v, q)) => Ok((ManifestSlots { content_key_enc: Some(v), ..s }, q)),
                Err(e) => Err(e),
            }
        } else if key == "blake3"@ {
            match take_field_d(s.blake3 is Some, spec_read_fixed_u8_array(data, p), "blake3"@) {
                Ok((v, q)) => Ok((ManifestSlots { blake3: Some(v), ..s }, q)),
                Err(e) => Err(e),
            }
        } else if key == "chunk_lens"@ {
            match take_field_d(s.chunk_lens is Some, spec_read_u32_vec(data, p), "chunk_lens"@) {
                Ok((v, q)) => Ok((ManifestSlots { chunk_lens: Some(v), ..s }, q)),
                Err(e) => Err(e),
            }
        } else if key == "chunk_compressed_lens"@ {
            match take_field_d(s.chunk_compressed_lens is Some, spec_read_u32_vec(data, p), "chunk_compressed_lens"@) {
                Ok((v, q)) => Ok((ManifestSlots { chunk_compressed_lens: Some(v), ..s }, q)),
                Err(e) => Err(e),
            }
        } else if key == "chunk_cipher_lens"@ {
            match take_field_d(s.chunk_cipher_lens is Some, spec_read_u32_vec(data, p), "chunk_cipher_lens"@) {
                Ok((v, q)) => Ok((ManifestSlots { chunk_cipher_lens: Some(v), ..s }, q)),
                Err(e) => Err(e),
            }
        } else if key == "compression_alg"@ {
            match take_field_d(s.compression_alg is Some, spec_read_option_string(data, p), "compression_alg"@) {
                Ok((v, q)) => Ok((ManifestSlots { compression_alg: Some(v), ..s }, q)),
                Err(e) => Err(e),
            }
        } else if key == "compression_level"@ {
            match take_field_d(s.compression_level is Some, spec_read_option_i32(data, p), "compression_level"@) {
                Ok((v, q)) => Ok((ManifestSlots { compression_level: Some(v), ..s }, q)),
                Err(e) => Err(e),
            }
        } else if key == "encryption_alg"@ {
            match take_field_d(s.encryption_alg is Some, spec_read_option_string(data, p), "encryption_alg"@) {
                Ok((v, q)) => Ok((ManifestSlots { encryption_alg: Some(v), ..s }, q)),
                Err(e) => Err(e),
            }
        } else if key == "erasure_alg"@ {
            match take_field_d(s.erasure_alg is Some, spec_read_option_string(data, p), "erasure_alg"@) {
                Ok((v, q)) => Ok((ManifestSlots { erasure_alg: Some(v), ..s }, q)),
                Err(e) => Err(e),
            }
        } else if key == "provider_chunks"@ {
            match take_field_d(s.provider_chunks is Some, spec_read_entry_vec(data, p), "provider_chunks"@) {
                Ok((v, q)) => Ok((ManifestSlots { provider_chunks: Some(v), ..s }, q)),
                Err(e) => Err(e),
            }
        } else {
            Err(DecodeErrorView::UnknownField(key))
        },
    }
}

pub open spec fn manifest_fields(data: Seq<u8>, pos: int, n: nat, s: ManifestSlots) -> Result<(ManifestSlots, int), DecodeErrorView>
    decreases n,
{
    if n == 0 {
        Ok((s, pos))
    } else {
        match manifest_field(data, pos, s) {
            Ok((s2, p2)) => manifest_fields(data, p2, (n - 1) as nat, s2),
            Err(e) => Err(e),
        }
    }
}

/// The manifest once all fields are read: the first seven fields are
/// required, the length tables, algorithms and provider entries default to
/// empty or none.
pub open spec fn manifest_finish(s: ManifestSlots) -> Result<ObjectManifestView, DecodeErrorView> {
    if s.version is None {
        Err(DecodeErrorView::MissingField("version"@))
    } else if s.total_len is None {
        Err(DecodeErrorView::MissingField("total_len"@))
    } else if s.chunk_len is None {
        Err(DecodeErrorView::MissingField("chunk_len"@))
    } else if s.chunks is None {
        Err(DecodeErrorView::MissingField("chunks"@))
    } else if s.redundancy is None {
        Err(DecodeErrorView::MissingField("redundancy"@))
    } else if s.content_key_enc is None {
        Err(DecodeErrorView::MissingField("content_key_enc"@))
    } else if s.blake3 is None {
        Err(DecodeErrorView::MissingField("blake3"@))
    } else {
        Ok(ObjectManifestView {
            version: s.version->Some_0,
            total_len: s.total_len->Some_0,
            chunk_len: s.chunk_len->Some_0,
            chunks: s.chunks->Some_0,
            redundancy: s.redundancy->Some_0,
            content_key_enc: s.content_key_enc->Some_0,
            blake3: s.blake3->Some_0,
            chunk_lens: match s.chunk_lens {
                Some(v) => v,
                None => Seq::empty(),
            },
            chunk_compressed_lens: match s.chunk_compressed_lens {
                Some(v) => v,
                None => Seq::empty(),
            },
            chunk_cipher_lens: match s.chunk_cipher_lens {
                Some(v) => v,
                None => Seq::empty(),
            },
            compression_alg: match s.compression_alg {
                Some(v) => v,
                None => None,
            },
            compression_level: match s.compression_level {
                Some(v) => v,
                None => None,
            },
            encryption_alg: match s.encryption_alg {
                Some(v) => v,
                None => None,
            },
            erasure_alg: match s.erasure_alg {
                Some(v) => v,
                None => None,
            },
            provider_chunks: match s.provider_chunks {
                Some(v) => v,
                None => Seq::empty(),
            },
        })
    }
}

/// Reading a manifest at `pos`: any number of fields.
pub open spec fn spec_read_manifest(data: Seq<u8>, pos: int) -> Result<(ObjectManifestView, int), DecodeErrorView> {
    match spec_read_u64(data, pos) {
        Err(e) => Err(DecodeErrorView::Cursor(e)),
        Ok((n, p)) => match manifest_fields(data, p, n as nat, manifest_slots_empty()) {
            Err(e) => Err(e),
            Ok((s, q)) => match manifest_finish(s) {
                Ok(v) => Ok((v, q)),
                Err(e) => Err(e),
            },
        },
    }
}

/// Decoding a whole buffer as one manifest; trailing bytes are an error.
pub open spec fn spec_decode_manifest(data: Seq<u8>) -> Result<ObjectManifestView, DecodeErrorView> {
    match spec_read_manifest(data, 0) {
        Err(e) => Err(e),
        Ok((v, p)) => if p == data.len() {
            Ok(v)
        } else {
            Err(DecodeErrorView::TrailingBytes(data.len() - p))
        },
    }
}

struct ManifestExecSlots {
    version: Option<u16>,
    total_len: Option<u64>,
    chunk_len: Option<u32>,
    chunks: Option<Vec<ChunkRef>>,
    redundancy: Option<Redundancy>,
    content_key_enc: Option<Vec<u8>>,
    blake3: Option<[u8; 32]>,
    chunk_lens: Option<Vec<u32>>,
    chunk_compressed_lens: Option<Vec<u32>>,
    chunk_cipher_lens: Option<Vec<u32>>,
    compression_alg: Option<Option<String>>,
    compression_level: Option<Option<i32>>,
    encryption_alg: Option<Option<String>>,
    erasure_alg: Option<Option<String>>,
    provider_chunks: Option<Vec<ProviderChunkEntry>>,
}

impl View for ManifestExecSlots {
    type V = ManifestSlots;

    closed spec fn view(&self) -> ManifestSlots {
        ManifestSlots {
            version: self.version,
            total_len: self.total_len,
            chunk_len: self.chunk_len,
            chunks: match self.chunks { Some(v) => Some(chunks_view(v@)), None => None },
            redundancy: self.redundancy,
            content_key_enc: match self.content_key_enc { Some(v) => Some(v@), None => None },
            blake3: match self.blake3 { Some(a) => Some(a@), None => None },
            chunk_lens: match self.chunk_lens { Some(v) => Some(v@), None => None },
            chunk_compressed_lens: match self.chunk_compressed_lens { Some(v) => Some(v@), None => None },
            chunk_cipher_lens: match self.chunk_cipher_lens { Some(v) => Some(v@), None => None },
            compression_alg: match self.compression_alg { Some(v) => Some(opt_string_view(v)), None => None },
            compression_level: self.compression_level,
            encryption_alg: match self.encryption_alg { Some(v) => Some(opt_string_view(v)), None => None },
            erasure_alg: match self.erasure_alg { Some(v) => Some(opt_string_view(v)), None => None },
            provider_chunks: match self.provider_chunks { Some(v) => Some(entries_view(v@)), None => None },
        }
    }
}

fn write_u16_field(out: &mut Vec<u8>, name: &str, v: u16)
    ensures
        final(out)@ == old(out)@ + enc_field(name@, u16_le(v)),
{
    let ghost b = out@;
    write_string(out, name);
    write_u16(out, v);
    assert(final(out)@ =~= b + enc_field(name@, u16_le(v)));
}

fn write_u64_field(out: &mut Vec<u8>, name: &str, v: u64)
    ensures
        final(out)@ == old(out)@ + enc_field(name@, u64_le(v)),
{
    let ghost b = out@;
    write_string(out, name);
    write_u64(out, v);
    assert(final(out)@ =~= b + enc_field(name@, u64_le(v)));
}

fn write_u32_field(out: &mut Vec<u8>, name: &str, v: u32)
    ensures
        final(out)@ == old(out)@ + enc_field(name@, u32_le(v)),
{
    let ghost b = out@;
    write_string(out, name);
    write_u32(out, v);
    assert(final(out)@ =~= b + enc_field(name@, u32_le(v)));
}

fn write_chunk_vec_field(out: &mut Vec<u8>, name: &str, v: &Vec<ChunkRef>)
    ensures
        final(out)@ == old(out)@ + enc_field(name@, enc_chunk_vec(chunks_view(v@))),
{
    let ghost b = out@;
    write_string(out, name);
    write_chunk_refs(out, v);
    assert(final(out)@ =~= b + enc_field(name@, enc_chunk_vec(chunks_view(v@))));
}

fn write_redundancy_field(out: &mut Vec<u8>, name: &str, v: Redundancy)
    ensures
        final(out)@ == old(out)@ + enc_field(name@, enc_redundancy(v)),
{
    let ghost b = out@;
    write_string(out, name);
    write_redundancy(out, v);
    assert(final(out)@ =~= b + enc_field(name@, enc_redundancy(v)));
}

fn write_bytes_field(out: &mut Vec<u8>, name: &str, v: &[u8])
    ensures
        final(out)@ == old(out)@ + enc_field(name@, enc_bytes(v@)),
{
    let ghost b = out@;
    write_string(out, name);
    write_bytes(out, v);
    assert(final(out)@ =~= b + enc_field(name@, enc_bytes(v@)));
}

fn write_u32_vec_field(out: &mut Vec<u8>, name: &str, v: &Vec<u32>)
    ensures
        final(out)@ == old(out)@ + enc_field(name@, enc_u32_vec(v@)),
{
    let ghost b = out@;
    write_string(out, name);
    write_u32_vec(out, v);
    assert(final(out)@ =~= b + enc_field(name@, enc_u32_vec(v@)));
}

fn write_option_string_field(out: &mut Vec<u8>, name: &str, v: &Option<String>)
    ensures
        final(out)@ == old(out)@ + enc_field(name@, enc_option_string(opt_string_view(*v))),
{
    let ghost b = out@;
    write_string(out, name);
    write_option_string(out, v);
    assert(final(out)@ =~= b + enc_field(name@, enc_option_string(opt_string_view(*v))));
}

fn write_option_i32_field(out: &mut Vec<u8>, name: &str, v: Option<i32>)
    ensures
        final(out)@ == old(out)@ + enc_field(name@, enc_option_i32(v)),
{
    let ghost b = out@;
    write_string(out, name);
    write_option_i32(out, v);
    assert(final(out)@ =~= b + enc_field(name@, enc_option_i32(v)));
}

fn write_entry_vec_field(out: &mut Vec<u8>, name: &str, v: &Vec<ProviderChunkEntry>)
    ensures
        final(out)@ == old(out)@ + enc_field(name@, enc_entry_vec(entries_view(v@))),
{
    let ghost b = out@;
    write_string(out, name);
    write_entry_vec(out, v);
    assert(final(out)@ =~= b + enc_field(name@, enc_entry_vec(entries_view(v@))));
}

fn manifest_bytes(m: &ObjectManifest) -> (b: Vec<u8>)
    ensures
        b@ == enc_manifest(m@),
{
    reveal(enc_manifest);
    let mut out: Vec<u8> = Vec::new();
    write_u64(&mut out, 15);
    assert(out@ =~= u64_le(15));
    write_u16_field(&mut out, "version", m.version);
    write_u64_field(&mut out, "total_len", m.total_len);
    write_u32_field(&mut out, "chunk_len", m.chunk_len);
    write_chunk_vec_field(&mut out, "chunks", &m.chunks);
    write_redundancy_field(&mut out, "redundancy", m.redundancy);
    write_bytes_field(&mut out, "content_key_enc", m.content_key_enc.as_slice());
    write_bytes_field(&mut out, "blake3", &m.blake3);
    write_u32_vec_field(&mut out, "chunk_lens", &m.chunk_lens);
    write_u32_vec_field(&mut out, "chunk_compressed_lens", &m.chunk_compressed_lens);
    write_u32_vec_field(&mut out, "chunk_cipher_lens", &m.chunk_cipher_lens);
    write_option_string_field(&mut out, "compression_alg", &m.compression_alg);
    write_option_i32_field(&mut out, "compression_level", m.compression_level);
    write_option_string_field(&mut out, "encryption_alg", &m.encryption_alg);
    write_option_string_field(&mut out, "erasure_alg", &m.erasure_alg);
    write_entry_vec_field(&mut out, "provider_chunks", &m.provider_chunks);
    out
}

fn read_manifest_field(data: &[u8], p: usize, s: &mut ManifestExecSlots) -> (r: Result<usize, DecodeError>)
    ensures
        match r {
            Ok(q) => manifest_field(data@, p as int, old(s)@) == Ok::<(ManifestSlots, int), DecodeErrorView>((final(s)@, q as int))
                && q <= data@.len(),
            Err(e) => manifest_field(data@, p as int, old(s)@) == Err::<(ManifestSlots, int), DecodeErrorView>(e@),
        },
{
    reveal(manifest_field);
    let (key, q) = match read_string(data, p) {
        Ok(x) => x,
        Err(e) => return Err(DecodeError::Cursor(e)),
    };
    if str_eq(key.as_str(), "version") {
        let (v, q2) = match read_u16(data, q) {
            Ok(x) => x,
            Err(e) => return Err(DecodeError::Cursor(e)),
        };
        assign_once(&mut s.version, v, "version")?;
        Ok(q2)
    } else if str_eq(key.as_str(), "total_len") {
        let (v, q2) = match read_u64(data, q) {
            Ok(x) => x,
            Err(e) => return Err(DecodeError::Cursor(e)),
        };
        assign_once(&mut s.total_len, v, "total_len")?;
        Ok(q2)
    } else if str_eq(key.as_str(), "chunk_len") {
        let (v, q2) = match read_u32(data, q) {
            Ok(x) => x,
            Err(e) => return Err(DecodeError::Cursor(e)),
        };
        assign_once(&mut s.chunk_len, v, "chunk_len")?;
        Ok(q2)
    } else if str_eq(key.as_str(), "chunks") {
        let (v, q2) = read_chunk_vec(data, q)?;
        assign_once(&mut s.chunks, v, "chunks")?;
        Ok(q2)
    } else if str_eq(key.as_str(), "redundancy") {
        let (v, q2) = read_redundancy(data, q)?;
        assign_once(&mut s.redundancy, v, "redundancy")?;
        Ok(q2)
    } else if str_eq(key.as_str(), "content_key_enc") {
        let (v, q2) = match read_bytes(data, q) {
            Ok(x) => x,
            Err(e) => return Err(DecodeError::Cursor(e)),
        };
        assign_once(&mut s.content_key_enc, v, "content_key_enc")?;
        Ok(q2)
    } else if str_eq(key.as_str(), "blake3") {
        let (v, q2) = read_fixed_u8_array(data, q)?;
        assign_once(&mut s.blake3, v, "blake3")?;
        Ok(q2)
    } else if str_eq(key.as_str(), "chunk_lens") {
        let (v, q2) = read_u32_vec(data, q)?;
        assign_once(&mut s.chunk_lens, v, "chunk_lens")?;
        Ok(q2)
    } else if str_eq(key.as_str(), "chunk_compressed_lens") {
        let (v, q2) = read_u32_vec(data, q)?;
        assign_once(&mut s.chunk_compressed_lens, v, "chunk_compressed_lens")?;
        Ok(q2)
    } else if str_eq(key.as_str(), "chunk_cipher_lens") {
        let (v, q2) = read_u32_vec(data, q)?;
        assign_once(&mut s.chunk_cipher_lens, v, "chunk_cipher_lens")?;
        Ok(q2)
    } else if str_eq(key.as_str(), "compression_alg") {
        let (v, q2) = read_option_string(data, q)?;
        assign_once(&mut s.compression_alg, v, "compression_alg")?;
        Ok(q2)
    } else if str_eq(key.as_str(), "compression_level") {
        let (v, q2) = read_option_i32(data, q)?;
        assign_once(&mut s.compression_level, v, "compression_level")?;
        Ok(q2)
    } else if str_eq(key.as_str(), "encryption_alg") {
        let (v, q2) = read_option_string(data, q)?;
        assign_once(&mut s.encryption_alg, v, "encryption_alg")?;
        Ok(q2)
    } else if str_eq(key.as_str(), "erasure_alg") {
        let (v, q2) = read_option_string(data, q)?;
        assign_once(&mut s.erasure_alg, v, "erasure_alg")?;
        Ok(q2)
    } else if str_eq(key.as_str(), "provider_chunks") {
        let (v, q2) = read_entry_vec(data, q)?;
        assign_once(&mut s.provider_chunks, v, "provider_chunks")?;
        Ok(q2)
    } else {
        Err(DecodeError::UnknownField(key))
    }
}

fn read_manifest(data: &[u8], pos: usize) -> (r: Result<(ObjectManifest, usize), DecodeError>)
    ensures
        decoded(r) == spec_read_manifest(data@, pos as int),
        r matches Ok((_, q)) ==> q <= data@.len(),
{
    let (n, p0) = match read_u64(data, pos) {
        Ok(x) => x,
        Err(e) => return Err(DecodeError::Cursor(e)),
    };
    let mut p = p0;
    let mut s = ManifestExecSlots { version: None, total_len: None, chunk_len: None, chunks: None, redundancy: None, content_key_enc: None, blake3: None, chunk_lens: None, chunk_compressed_lens: None, chunk_cipher_lens: None, compression_alg: None, compression_level: None, encryption_alg: None, erasure_alg: None, provider_chunks: None };
    assert(s@ == manifest_slots_empty());
    let mut i: u64 = 0;
    while i < n
        invariant
            i <= n,
            p <= data@.len(),
            spec_read_u64(data@, pos as int) == Ok::<(u64, int), CursorError>((n, p0 as int)),
            manifest_fields(data@, p0 as int, n as nat, manifest_slots_empty()) == manifest_fields(
                data@,
                p as int,
                (n - i) as nat,
                s@,
            ),
        decreases n - i,
    {
        let ghost sb = s@;
        let ghost pb = p as int;
        match read_manifest_field(data, p, &mut s) {
            Ok(q) => {
                p = q;
            },
            Err(e) => {
                assert(manifest_fields(data@, pb, (n - i) as nat, sb) == Err::<(ManifestSlots, int), DecodeErrorView>(e@));
                return Err(e);
            },
        }
        i = i + 1;
    }
    let ghost sv = s@;
    let version = match s.version {
        Some(v) => v,
        None => return Err(DecodeError::MissingField("version")),
    };
    let total_len = match s.total_len {
        Some(v) => v,
        None => return Err(DecodeError::MissingField("total_len")),
    };
    let chunk_len = match s.chunk_len {
        Some(v) => v,
        None => return Err(DecodeError::MissingField("chunk_len")),
    };
    let chunks = match s.chunks {
        Some(v) => v,
        None => return Err(DecodeError::MissingField("chunks")),
    };
    let redundancy = match s.redundancy {
        Some(v) => v,
        None => return Err(DecodeError::MissingField("redundancy")),
    };
    let content_key_enc = match s.content_key_enc {
        Some(v) => v,
        None => return Err(DecodeError::MissingField("content_key_enc")),
    };
    let blake3 = match s.blake3 {
        Some(v) => v,
        None => return Err(DecodeError::MissingField("blake3")),
    };
    let chunk_lens = match s.chunk_lens {
        Some(v) => v,
        None => Vec::new(),
    };
    let chunk_compressed_lens = match s.chunk_compressed_lens {
        Some(v) => v,
        None => Vec::new(),
    };
    let chunk_cipher_lens = match s.chunk_cipher_lens {
        Some(v) => v,
        None => Vec::new(),
    };
    let compression_alg = match s.compression_alg {
        Some(v) => v,
        None => None,
    };
    let compression_level = match s.compression_level {
        Some(v) => v,
        None => None,
    };
    let encryption_alg = match s.encryption_alg {
        Some(v) => v,
        None => None,
    };
    let erasure_alg = match s.erasure_alg {
        Some(v) => v,
        None => None,
    };
    let provider_chunks = match s.provider_chunks {
        Some(v) => v,
        None => Vec::new(),
    };
    let m = ObjectManifest { version, total_len, chunk_len, chunks, redundancy, content_key_enc, blake3, chunk_lens, chunk_compressed_lens, chunk_cipher_lens, compression_alg, compression_level, encryption_alg, erasure_alg, provider_chunks };
    assert(chunks_view(m.chunks@) == sv.chunks->Some_0);
    assert(entries_view(m.provider_chunks@) =~= match sv.provider_chunks {
        Some(v) => v,
        None => Seq::<ProviderChunkEntryView>::empty(),
    });
    assert(m@ == manifest_finish(sv)->Ok_0);
    Ok((m, p))
}

/// Encodes a manifest in the binary layout.
pub fn encode_manifest(manifest: &ObjectManifest) -> (r: Result<Vec<u8>, EncodeError>)
    ensures
        r matches Ok(b) && b@ == enc_manifest(manifest@),
{
    Ok(manifest_bytes(manifest))
}

/// Decodes a manifest; trailing bytes are an error.
pub fn decode_manifest(bytes: &[u8]) -> (r: Result<ObjectManifest, DecodeError>)
    ensures
        match r {
            Ok(v) => spec_decode_manifest(bytes@) == Ok::<ObjectManifestView, DecodeErrorView>(v@),
            Err(e) => spec_decode_manifest(bytes@) == Err::<ObjectManifestView, DecodeErrorView>(e@),
        },
{
    let (v, p) = read_manifest(bytes, 0)?;
    ensure_exhausted(bytes, p)?;
    Ok(v)
}

} // verus!

verus! {

// ---------------------------------------------------------------------------
// Store receipts
// ---------------------------------------------------------------------------

/// A store receipt: four fields.
pub open spec fn enc_store_receipt(r: StoreReceiptView) -> Seq<u8> {
    u64_le(4) + enc_field("manifest_hash"@, enc_bytes(r.manifest_hash)) + enc_field(
        "chunk_count"@,
        u32_le(r.chunk_count),
    ) + enc_field("redundancy"@, enc_redundancy(r.redundancy)) + enc_field("lane"@, enc_string(r.lane))
}

pub struct ReceiptSlots {
    pub manifest_hash: Option<Seq<u8>>,
    pub chunk_count: Option<u32>,
    pub redundancy: Option<Redundancy>,
    pub lane: Option<Seq<char>>,
}

pub open spec fn receipt_slots_empty() -> ReceiptSlots {
    ReceiptSlots { manifest_hash: None, chunk_count: None, redundancy: None, lane: None }
}

#[verifier::opaque]
pub open spec fn receipt_field(data: Seq<u8>, pos: int, s: ReceiptSlots) -> Result<(ReceiptSlots, int), DecodeErrorView> {
    match spec_read_string(data, pos) {
        Err(e) => Err(DecodeErrorView::Cursor(e)),
        Ok((key, p)) => if key == "manifest_hash"@ {
            match take_field_d(s.manifest_hash is Some, spec_read_fixed_u8_array(data, p), "manifest_hash"@) {
                Ok((v, q)) => Ok((ReceiptSlots { manifest_hash: Some(v), ..s }, q)),
                Err(e) => Err(e),
            }
        } else if key == "chunk_count"@ {
            match take_field(s.chunk_count is Some, spec_read_u32(data, p), "chunk_count"@) {
                Ok((v, q)) => Ok((ReceiptSlots { chunk_count: Some(v), ..s }, q)),
                Err(e) => Err(e),
            }
        } else if key == "redundancy"@ {
            match take_field_d(s.redundancy is Some, spec_read_redundancy(data, p), "redundancy"@) {
                Ok((v, q)) => Ok((ReceiptSlots { redundancy: Some(v), ..s }, q)),
                Err(e) => Err(e),
            }
        } else if key == "lane"@ {
            match take_field(s.lane is Some, spec_read_string(data, p), "lane"@) {
                Ok((v, q)) => Ok((ReceiptSlots { lane: Some(v), ..s }, q)),
                Err(e) => Err(e),
            }
        } else {
            Err(DecodeErrorView::UnknownField(key))
        },
    }
}

pub open spec fn receipt_fields(data: Seq<u8>, pos: int, n: nat, s: ReceiptSlots) -> Result<(ReceiptSlots, int), DecodeErrorView>
    decreases n,
{
    if n == 0 {
        Ok((s, pos))
    } else {
        match receipt_field(data, pos, s) {
            Ok((s2, p2)) => receipt_fields(data, p2, (n - 1) as nat, s2),
            Err(e) => Err(e),
        }
    }
}

/// Decoding a whole buffer as a store receipt: exactly four fields, all
/// required, and no trailing bytes.
pub open spec fn spec_decode_store_receipt(data: Seq<u8>) -> Result<StoreReceiptView, DecodeErrorView> {
    match spec_read_u64(data, 0) {
        Err(e) => Err(DecodeErrorView::Cursor(e)),
        Ok((n, p)) => match receipt_fields(data, p, n as nat, receipt_slots_empty()) {
            Err(e) => Err(e),
            Ok((s, q)) => if n != 4 {
                Err(DecodeErrorView::InvalidFieldCount { expected: 4, actual: n })
            } else if q != data.len() {
                Err(DecodeErrorView::TrailingBytes(data.len() - q))
            } else if s.manifest_hash is None {
                Err(DecodeErrorView::MissingField("manifest_hash"@))
            } else if s.chunk_count is None {
                Err(DecodeErrorView::MissingField("chunk_count"@))
            } else if s.redundancy is None {
                Err(DecodeErrorView::MissingField("redundancy"@))
            } else if s.lane is None {
                Err(DecodeErrorView::MissingField("lane"@))
            } else {
                Ok(
                    StoreReceiptView {
                        manifest_hash: s.manifest_hash->Some_0,
                        chunk_count: s.chunk_count->Some_0,
                        redundancy: s.redundancy->Some_0,
                        lane: s.lane->Some_0,
                    },
                )
            },
        },
    }
}

struct ReceiptExecSlots {
    manifest_hash: Option<[u8; 32]>,
    chunk_count: Option<u32>,
    redundancy: Option<Redundancy>,
    lane: Option<String>,
}

impl View for ReceiptExecSlots {
    type V = ReceiptSlots;

    closed spec fn view(&self) -> ReceiptSlots {
        ReceiptSlots {
            manifest_hash: match self.manifest_hash {
                Some(a) => Some(a@),
                None => None,
            },
            chunk_count: self.chunk_count,
            redundancy: self.redundancy,
            lane: opt_string_view(self.lane),
        }
    }
}

/// Encodes a store receipt in the binary layout.
pub fn encode_store_receipt(receipt: &StoreReceipt) -> (r: Result<Vec<u8>, EncodeError>)
    ensures
        r matches Ok(b) && b@ == enc_store_receipt(receipt@),
{
    let mut out: Vec<u8> = Vec::new();
    write_u64(&mut out, 4);
    assert(out@ =~= u64_le(4));
    write_bytes_field(&mut out, "manifest_hash", &receipt.manifest_hash);
    write_u32_field(&mut out, "chunk_count", receipt.chunk_count);
    write_redundancy_field(&mut out, "redundancy", receipt.redundancy);
    let ghost b = out@;
    write_string(&mut out, "lane");
    write_string(&mut out, receipt.lane.as_str());
    assert(out@ =~= b + enc_field("lane"@, enc_string(receipt.lane@)));
    Ok(out)
}

fn read_receipt_field(data: &[u8], p: usize, s: &mut ReceiptExecSlots) -> (r: Result<usize, DecodeError>)
    ensures
        match r {
            Ok(q) => receipt_field(data@, p as int, old(s)@) == Ok::<(ReceiptSlots, int), DecodeErrorView>((final(s)@, q as int))
                && q <= data@.len(),
            Err(e) => receipt_field(data@, p as int, old(s)@) == Err::<(ReceiptSlots, int), DecodeErrorView>(e@),
        },
{
    reveal(receipt_field);
    let (key, q) = match read_string(data, p) {
        Ok(x) => x,
        Err(e) => return Err(DecodeError::Cursor(e)),
    };
    if str_eq(key.as_str(), "manifest_hash") {
        let (v, q2) = read_fixed_u8_array(data, q)?;
        assign_once(&mut s.manifest_hash, v, "manifest_hash")?;
        Ok(q2)
    } else if str_eq(key.as_str(), "chunk_count") {
        let (v, q2) = match read_u32(data, q) {
            Ok(x) => x,
            Err(e) => return Err(DecodeError::Cursor(e)),
        };
        assign_once(&mut s.chunk_count, v, "chunk_count")?;
        Ok(q2)
    } else if str_eq(key.as_str(), "redundancy") {
        let (v, q2) = read_redundancy(data, q)?;
        assign_once(&mut s.redundancy, v, "redundancy")?;
        Ok(q2)
    } else if str_eq(key.as_str(), "lane") {
        let (v, q2) = match read_string(data, q) {
            Ok(x) => x,
            Err(e) => return Err(DecodeError::Cursor(e)),
        };
        assign_once(&mut s.lane, v, "lane")?;
        Ok(q2)
    } else {
        Err(DecodeError::UnknownField(key))
    }
}

/// Decodes a store receipt: exactly four fields, all required; trailing
/// bytes are an error.
pub fn decode_store_receipt(bytes: &[u8]) -> (r: Result<StoreReceipt, DecodeError>)
    ensures
        match r {
            Ok(v) => spec_decode_store_receipt(bytes@) == Ok::<StoreReceiptView, DecodeErrorView>(v@),
            Err(e) => spec_decode_store_receipt(bytes@) == Err::<StoreReceiptView, DecodeErrorView>(e@),
        },
{
    let (n, p0) = match read_u64(bytes, 0) {
        Ok(x) => x,
        Err(e) => return Err(DecodeError::Cursor(e)),
    };
    let mut p = p0;
    let mut s = ReceiptExecSlots { manifest_hash: None, chunk_count: None, redundancy: None, lane: None };
    assert(s@ == receipt_slots_empty());
    let mut i: u64 = 0;
    while i < n
        invariant
            i <= n,
            p <= bytes@.len(),
            spec_read_u64(bytes@, 0) == Ok::<(u64, int), CursorError>((n, p0 as int)),
            receipt_fields(bytes@, p0 as int, n as nat, receipt_slots_empty()) == receipt_fields(
                bytes@,
                p as int,
                (n - i) as nat,
                s@,
            ),
        decreases n - i,
    {
        let ghost sb = s@;
        let ghost pb = p as int;
        match read_receipt_field(bytes, p, &mut s) {
            Ok(q) => {
                p = q;
            },
            Err(e) => {
                assert(receipt_fields(bytes@, pb, (n - i) as nat, sb) == Err::<(ReceiptSlots, int), DecodeErrorView>(e@));
                return Err(e);
            },
        }
        i = i + 1;
    }
    if n != 4 {
        return Err(DecodeError::InvalidFieldCount { expected: 4, actual: n });
    }
    ensure_exhausted(bytes, p)?;
    let manifest_hash = match s.manifest_hash {
        Some(v) => v,
        None => return Err(DecodeError::MissingField("manifest_hash")),
    };
    let chunk_count = match s.chunk_count {
        Some(v) => v,
        None => return Err(DecodeError::MissingField("chunk_count")),
    };
    let redundancy = match s.redundancy {
        Some(v) => v,
        None => return Err(DecodeError::MissingField("redundancy")),
    };
    let lane = match s.lane {
        Some(v) => v,
        None => return Err(DecodeError::MissingField("lane")),
    };
    Ok(StoreReceipt { manifest_hash, chunk_count, redundancy, lane })
}

} // verus!
