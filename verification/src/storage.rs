//! Storage bookkeeping: object manifests, erasure layout, rent escrow and
//! marketplace queries.

pub mod types;
pub mod erasure;
pub mod fs;
pub mod escrow_binary;
pub mod settings;
pub mod marketplace;
pub mod pipeline;
pub mod placement_index;
pub mod manifest_binary;
pub mod manifest_laws;
pub mod repair;
pub mod migrate;
