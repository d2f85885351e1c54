//! Minimal ABI: fixed-width little-endian words.

use vstd::prelude::*;
use crate::le::{le_u64, lemma_u64_roundtrip, push_u64_le, read_u64_le, u64_le};

verus! {

/// Encodes a `u64` as 8 little-endian bytes.
pub fn encode_u64(v: u64) -> (out: Vec<u8>)
    ensures
        out@ == u64_le(v),
{
    let mut out: Vec<u8> = Vec::new();
    push_u64_le(&mut out, v);
    assert(out@ =~= u64_le(v));
    out
}

/// Decodes the first 8 bytes as a little-endian `u64`; `None` when fewer than
/// 8 bytes are given.
pub fn decode_u64(buf: &[u8]) -> (r: Option<u64>)
    ensures
        buf@.len() >= 8 ==> r == Some(le_u64(buf@)),
        buf@.len() < 8 ==> r is None,
{
    if buf.len() >= 8 {
        let v = read_u64_le(buf, 0);
        assert(le_u64(buf@.subrange(0, 8)) == le_u64(buf@));
        Some(v)
    } else {
        None
    }
}

/// Encodes gas limit and price as 16 bytes (little endian).
pub fn encode_gas(limit: u64, price: u64) -> (out: Vec<u8>)
    ensures
        out@ == u64_le(limit) + u64_le(price),
{
    let mut out: Vec<u8> = Vec::new();
    push_u64_le(&mut out, limit);
    push_u64_le(&mut out, price);
    assert(out@ =~= u64_le(limit) + u64_le(price));
    out
}

/// Decodes gas limit and price from the first 16 bytes.
pub fn decode_gas(buf: &[u8]) -> (r: Option<(u64, u64)>)
    ensures
        buf@.len() >= 16 ==> r == Some((le_u64(buf@), le_u64(buf@.subrange(8, 16)))),
        buf@.len() < 16 ==> r is None,
{
    if buf.len() >= 16 {
        let l = read_u64_le(buf, 0);
        let p = read_u64_le(buf, 8);
        assert(le_u64(buf@.subrange(0, 8)) == le_u64(buf@));
        Some((l, p))
    } else {
        None
    }
}

/// Decoding an encoded word gives it back.
pub proof fn lemma_u64_abi_roundtrip(v: u64)
    ensures
        u64_le(v).len() >= 8,
        le_u64(u64_le(v)) == v,
{
    lemma_u64_roundtrip(v);
}

/// Decoding encoded gas parameters gives them back.
pub proof fn lemma_gas_abi_roundtrip(limit: u64, price: u64)
    ensures
        (u64_le(limit) + u64_le(price)).len() >= 16,
        le_u64(u64_le(limit) + u64_le(price)) == limit,
        le_u64((u64_le(limit) + u64_le(price)).subrange(8, 16)) == price,
{
    lemma_u64_roundtrip(limit);
    lemma_u64_roundtrip(price);
    let s = u64_le(limit) + u64_le(price);
    assert(s.subrange(8, 16) =~= u64_le(price));
    assert(le_u64(s) == le_u64(u64_le(limit)));
}

} // verus!
