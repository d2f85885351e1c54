//! Field count of the provider profile layout.

use vstd::prelude::*;
use crate::le::u64_le;
use crate::util::binary_cursor::write_u64;

verus! {

/// Error raised when encoding fails.
#[derive(Debug)]
pub enum EncodeError {
    /// Collection length exceeded the representable range.
    LengthOverflow(&'static str),
}

/// Fields in an encoded provider profile.
pub const PROFILE_FIELD_COUNT: usize = 13;

/// A field count as the `u64` the layout stores; counts beyond `u64` are a
/// length overflow of the profile fields.
pub fn convert_field_count(count: u128) -> (r: Result<u64, EncodeError>)
    ensures
        count <= u64::MAX ==> (r matches Ok(v) && v == count),
        count > u64::MAX ==> (r matches Err(EncodeError::LengthOverflow(f)) && f@ == "profile_fields"@),
{
    if count > u64::MAX as u128 {
        Err(EncodeError::LengthOverflow("profile_fields"))
    } else {
        Ok(count as u64)
    }
}

/// Writes a field count.
pub fn write_field_count(out: &mut Vec<u8>, count: usize) -> (r: Result<(), EncodeError>)
    ensures
        r is Ok,
        final(out)@ == old(out)@ + u64_le(count as u64),
{
    let len = convert_field_count(count as u128)?;
    write_u64(out, len);
    Ok(())
}

} // verus!
