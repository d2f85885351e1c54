//! A minimal UTXO ledger with stack scripts.

pub mod script;
pub mod ledger;

pub use ledger::{Ledger, OutPoint, Transaction, TxIn, TxOut};
pub use script::{execute, Op, Script};
