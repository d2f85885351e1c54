//! Database schema versions and the migrations between them.

use vstd::prelude::*;
use crate::le::{le_u32, read_u32_le};

verus! {

/// Key under which the schema version is stored.
pub const SCHEMA_VERSION_KEY: [u8; 14] = [
    0x73, 0x63, 0x68, 0x65, 0x6d, 0x61, 0x5f, 0x76, 0x65, 0x72, 0x73, 0x69, 0x6f, 0x6e,
];

/// The newest schema version.
pub const LATEST: u32 = 1;

/// The stored schema version: four little-endian bytes; anything else (or
/// nothing) is version 0.
pub open spec fn spec_schema_version(raw: Option<Seq<u8>>) -> u32 {
    match raw {
        Some(b) => if b.len() == 4 {
            le_u32(b)
        } else {
            0
        },
        None => 0,
    }
}

/// Reads the schema version from the stored value.
pub fn current_version(raw: Option<&[u8]>) -> (v: u32)
    ensures
        v == spec_schema_version(
            match raw {
                Some(b) => Some(b@),
                None => None,
            },
        ),
{
    match raw {
        Some(b) => if b.len() == 4 {
            let v = read_u32_le(b, 0);
            assert(b@.subrange(0, 4) =~= b@);
            v
        } else {
            0
        },
        None => 0,
    }
}

/// The migration to run from version `v`: the version it leads to, or none
/// when `v` is current (or newer, or has no migration).
pub open spec fn spec_next_migration(v: u32) -> Option<u32> {
    if v < LATEST && v == 0 {
        Some(1)
    } else {
        None
    }
}

/// The migration to run from version `v`.
pub fn next_migration(v: u32) -> (r: Option<u32>)
    ensures
        r == spec_next_migration(v),
{
    if v < LATEST && v == 0 {
        Some(1)
    } else {
        None
    }
}

} // verus!
