//! Self-describing blobs: magic, version, length-prefixed payload and a
//! CRC-32 trailer.

use vstd::prelude::*;
use crate::hashing::{crc32, spec_crc32};
use crate::le::{le_u16, le_u32, lemma_u16_roundtrip, lemma_u32_roundtrip, push_all, push_u16_le,
    push_u32_le, read_u16_le, read_u32_le, u16_le, u32_le};

verus! {

/// Magic of price-board snapshots.
pub const MAGIC_PRICE_BOARD: [u8; 4] = [0x50, 0x42, 0x52, 0x44];

/// Why a blob could not be encoded.
#[derive(Debug, Clone, PartialEq, Eq)]
pub enum EncodeErr {
    Unimplemented(&'static str),
}

/// Why a blob could not be decoded.
#[derive(Debug, Clone, PartialEq, Eq)]
pub enum DecodeErr {
    BadMagic,
    BadCrc,
    UnsupportedVersion { found: u16 },
    Unimplemented(&'static str),
}

/// Header and payload of a blob: magic, version, payload length (as `u32`)
/// and payload.
pub open spec fn spec_blob_body(magic: Seq<u8>, version: u16, payload: Seq<u8>) -> Seq<u8> {
    magic + u16_le(version) + u32_le(payload.len() as u32) + payload
}

/// The encoding of a blob: its body followed by the CRC-32 of the body.
pub open spec fn spec_blob(magic: Seq<u8>, version: u16, payload: Seq<u8>) -> Seq<u8> {
    spec_blob_body(magic, version, payload) + u32_le(spec_crc32(spec_blob_body(magic, version, payload)))
}

/// Decoding a blob that must carry `magic`: too short or inconsistent lengths
/// and a checksum mismatch are `BadCrc`, a different magic is `BadMagic`.
pub open spec fn spec_decode_blob(bytes: Seq<u8>, magic: Seq<u8>) -> Result<(u16, Seq<u8>), DecodeErr> {
    if bytes.len() < 14 {
        Err(DecodeErr::BadCrc)
    } else if bytes.subrange(0, 4) != magic {
        Err(DecodeErr::BadMagic)
    } else {
        let len = le_u32(bytes.subrange(6, 10)) as int;
        if bytes.len() != 10 + len + 4 {
            Err(DecodeErr::BadCrc)
        } else if le_u32(bytes.subrange(10 + len, 14 + len)) != spec_crc32(bytes.subrange(0, 10 + len)) {
            Err(DecodeErr::BadCrc)
        } else {
            Ok((le_u16(bytes.subrange(4, 6)), bytes.subrange(10, 10 + len)))
        }
    }
}

/// Encodes a blob.
pub fn encode_blob(magic: [u8; 4], version: u16, payload: &[u8]) -> (r: Result<Vec<u8>, EncodeErr>)
    ensures
        r matches Ok(b) && b@ == spec_blob(magic@, version, payload@),
{
    let mut buf: Vec<u8> = Vec::new();
    push_all(&mut buf, &magic);
    push_u16_le(&mut buf, version);
    push_u32_le(&mut buf, payload.len() as u32);
    push_all(&mut buf, payload);
    assert(buf@ =~= spec_blob_body(magic@, version, payload@));
    let crc = crc32(buf.as_slice());
    push_u32_le(&mut buf, crc);
    Ok(buf)
}

/// Decodes a blob that must carry `expect_magic`, giving its version and
/// payload.
pub fn decode_blob<'a>(bytes: &'a [u8], expect_magic: [u8; 4]) -> (r: Result<(u16, &'a [u8]), DecodeErr>)
    ensures
        match r {
            Ok((v, p)) => spec_decode_blob(bytes@, expect_magic@) == Ok::<(u16, Seq<u8>), DecodeErr>(
                (v, p@),
            ),
            Err(e) => spec_decode_blob(bytes@, expect_magic@) == Err::<(u16, Seq<u8>), DecodeErr>(e),
        },
{
    if bytes.len() < 14 {
        return Err(DecodeErr::BadCrc);
    }
    if !(bytes[0] == expect_magic[0] && bytes[1] == expect_magic[1] && bytes[2] == expect_magic[2]
        && bytes[3] == expect_magic[3]) {
        assert(bytes@.subrange(0, 4) != expect_magic@) by {
            if bytes@.subrange(0, 4) == expect_magic@ {
                assert(bytes@.subrange(0, 4)[0] == bytes@[0]);
                assert(bytes@.subrange(0, 4)[1] == bytes@[1]);
                assert(bytes@.subrange(0, 4)[2] == bytes@[2]);
                assert(bytes@.subrange(0, 4)[3] == bytes@[3]);
            }
        }
        return Err(DecodeErr::BadMagic);
    }
    assert(bytes@.subrange(0, 4) =~= expect_magic@);
    let version = read_u16_le(bytes, 4);
    let len = read_u32_le(bytes, 6) as usize;
    if bytes.len() - 14 != len {
        return Err(DecodeErr::BadCrc);
    }
    let payload_end = 10 + len;
    let stored_crc = read_u32_le(bytes, payload_end);
    let crc = crc32(&bytes[0..payload_end]);
    if crc != stored_crc {
        return Err(DecodeErr::BadCrc);
    }
    Ok((version, &bytes[10..payload_end]))
}

/// Decoding an encoded blob with its own magic gives back its version and
/// payload.
pub proof fn lemma_blob_roundtrip(magic: Seq<u8>, version: u16, payload: Seq<u8>)
    requires
        magic.len() == 4,
        payload.len() <= u32::MAX,
    ensures
        spec_decode_blob(spec_blob(magic, version, payload), magic) == Ok::<(u16, Seq<u8>), DecodeErr>(
            (version, payload),
        ),
{
    let body = spec_blob_body(magic, version, payload);
    let b = spec_blob(magic, version, payload);
    let n = payload.len() as int;
    lemma_u16_roundtrip(version);
    lemma_u32_roundtrip(payload.len() as u32);
    lemma_u32_roundtrip(spec_crc32(body));
    assert(b.subrange(0, 4) =~= magic);
    assert(b.subrange(4, 6) =~= u16_le(version));
    assert(b.subrange(6, 10) =~= u32_le(payload.len() as u32));
    assert(b.subrange(0, 10 + n) =~= body);
    assert(b.subrange(10 + n, 14 + n) =~= u32_le(spec_crc32(body)));
    assert(b.subrange(10, 10 + n) =~= payload);
}

/// A type with a versioned blob encoding.
pub trait Versioned: Sized {
    /// The version this type encodes.
    fn version() -> u16;

    /// Encodes the value's payload.
    fn encode(&self) -> Result<Vec<u8>, EncodeErr>;

    /// Decodes a payload of the given version.
    fn decode_v(version: u16, bytes: &[u8]) -> Result<Self, DecodeErr>;
}

} // verus!
