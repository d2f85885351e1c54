//! Built-in contract primitives.

pub mod htlc;
