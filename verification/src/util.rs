//! Small shared codecs.

pub mod binary_cursor;
pub mod binary_struct;
pub mod decimal;
pub mod hex;
pub mod versioned_blob;
