//! Digests and checksums.
//!
//! BLAKE3, SHA3-256 and RIPEMD-160 come from outside crates: each digest is
//! named by an uninterpreted spec function that the library's contracts
//! speak of, and the wrappers below tie the outside implementation to it.
//! The CRC-32 checksum is short enough to state outright, and is computed
//! and proved here.

use vstd::prelude::*;
use sha3::Digest;

verus! {

/// The BLAKE3 digest (32 bytes, default hash mode) of `data`.
pub uninterp spec fn spec_blake3(data: Seq<u8>) -> Seq<u8>;

/// Calls `blake3::hash`, which returns the 32-byte BLAKE3 digest of its input.
/// Claimed: the result is `spec_blake3` of the input bytes (a function of the
/// input alone).
#[verifier::external_body]
pub(crate) fn blake3_hash(data: &[u8]) -> (digest: [u8; 32])
    ensures
        digest@ == spec_blake3(data@),
{
    *blake3::hash(data).as_bytes()
}

/// The keyed BLAKE3 digest (32 bytes, keyed hash mode) of `data` under `key`.
pub uninterp spec fn spec_blake3_keyed(key: Seq<u8>, data: Seq<u8>) -> Seq<u8>;

/// Calls `blake3::keyed_hash`, BLAKE3 in keyed mode with a 32-byte key.
/// Claimed: the result is `spec_blake3_keyed` of the key and the input (a
/// function of those two alone).
#[verifier::external_body]
pub(crate) fn blake3_keyed_hash(key: &[u8; 32], data: &[u8]) -> (digest: [u8; 32])
    ensures
        digest@ == spec_blake3_keyed(key@, data@),
{
    *blake3::keyed_hash(key, data).as_bytes()
}

} // verus!

verus! {

/// The SHA3-256 digest of `data`.
pub uninterp spec fn spec_sha3_256(data: Seq<u8>) -> Seq<u8>;

/// The RIPEMD-160 digest of `data`.
pub uninterp spec fn spec_ripemd160(data: Seq<u8>) -> Seq<u8>;

/// Calls `Digest::digest` of `sha3::Sha3_256`, the standard SHA3-256 hash.
/// Claimed: the 32-byte result is `spec_sha3_256` of the input.
#[verifier::external_body]
pub(crate) fn sha3_256(data: &[u8]) -> (digest: [u8; 32])
    ensures
        digest@ == spec_sha3_256(data@),
{
    sha3::Sha3_256::digest(data).into()
}

/// Calls `Digest::digest` of `ripemd::Ripemd160`.  Claimed: the 20-byte
/// result is `spec_ripemd160` of the input.
#[verifier::external_body]
pub(crate) fn ripemd160(data: &[u8]) -> (digest: [u8; 20])
    ensures
        digest@ == spec_ripemd160(data@),
{
    ripemd::Ripemd160::digest(data).into()
}

} // verus!

verus! {

/// `n` shift steps of the reflected CRC-32 register (polynomial
/// 0xEDB88320).
pub open spec fn crc32_shift(c: u32, n: nat) -> u32
    decreases n,
{
    if n == 0 {
        c
    } else {
        let s = crc32_shift(c, (n - 1) as nat);
        if s & 1u32 == 1u32 {
            (s >> 1u32) ^ 0xEDB88320u32
        } else {
            s >> 1u32
        }
    }
}

/// The CRC-32 register after `data`, starting from all ones.
pub open spec fn crc32_register(data: Seq<u8>) -> u32
    decreases data.len(),
{
    if data.len() == 0 {
        0xFFFFFFFFu32
    } else {
        crc32_shift(crc32_register(data.drop_last()) ^ (data.last() as u32), 8)
    }
}

/// The CRC-32 (IEEE) checksum of `data`: the register, inverted.
pub open spec fn spec_crc32(data: Seq<u8>) -> u32 {
    crc32_register(data) ^ 0xFFFFFFFFu32
}

/// The CRC-32 (IEEE) checksum of `data`, computed bit by bit.
pub fn crc32(data: &[u8]) -> (sum: u32)
    ensures
        sum == spec_crc32(data@),
{
    let mut reg: u32 = 0xFFFFFFFFu32;
    let mut i: usize = 0;
    while i < data.len()
        invariant
            i <= data@.len(),
            reg == crc32_register(data@.take(i as int)),
        decreases data@.len() - i,
    {
        let start: u32 = reg ^ (data[i] as u32);
        let mut c: u32 = start;
        let mut k: usize = 0;
        while k < 8
            invariant
                k <= 8,
                c == crc32_shift(start, k as nat),
            decreases 8 - k,
        {
            c = if c & 1u32 == 1u32 {
                (c >> 1u32) ^ 0xEDB88320u32
            } else {
                c >> 1u32
            };
            k = k + 1;
        }
        proof {
            let t = data@.take(i + 1);
            assert(t.drop_last() =~= data@.take(i as int));
            assert(t.last() == data@[i as int]);
        }
        reg = c;
        i = i + 1;
    }
    assert(data@.take(data@.len() as int) =~= data@);
    reg ^ 0xFFFFFFFFu32
}

} // verus!
