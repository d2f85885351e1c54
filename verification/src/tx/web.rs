//! Transactions that publish sites and dynamic endpoints.

use vstd::prelude::*;
use crate::transaction::FeeLane;

verus! {

/// Manifest transaction mapping a domain to blob identifiers.
#[derive(Debug)]
pub struct SiteManifestTx {
    /// Account that controls the domain.
    pub owner: String,
    /// Fully qualified domain name being published.
    pub domain: String,
    /// BLAKE3 or KZG root of the manifest blob.
    pub root_blob: [u8; 32],
    /// Dynamic entry point referencing a [`FuncTx`].
    pub dyn_entry: Option<[u8; 32]>,
    /// Whether the site is public or requires client auth.
    pub public: bool,
}

impl SiteManifestTx {
    /// Site manifests travel in the consumer lane.
    pub fn lane(&self) -> (l: FeeLane)
        ensures
            l == FeeLane::Consumer,
    {
        FeeLane::Consumer
    }
}

/// WebAssembly function transaction used for dynamic endpoints.
#[derive(Debug)]
pub struct FuncTx {
    /// Owner account identifier.
    pub owner: String,
    /// Unique function identifier.
    pub func_id: [u8; 32],
    /// Commitment to the WASM bytecode blob.
    pub wasm_root: [u8; 32],
    /// Maximum fuel units the function may consume per call.
    pub gas_limit: u32,
    /// HTTP paths served by this function.
    pub http_paths: Vec<String>,
}

impl FuncTx {
    /// Function transactions travel in the consumer lane.
    pub fn lane(&self) -> (l: FeeLane)
        ensures
            l == FeeLane::Consumer,
    {
        FeeLane::Consumer
    }
}

} // verus!
