//! Verified core of a blockchain node: a metered contract VM, a tiny
//! first-party WASM-style interpreter, UTXO scripts, transaction and blob
//! codecs, storage bookkeeping and telemetry state machines.

pub mod le;
pub mod hashing;
pub mod text;
pub mod vm;
pub mod utxo;
pub mod util;
pub mod storage;
pub mod telemetry;
pub mod transaction;
pub mod tx;
pub mod treasury_executor;
