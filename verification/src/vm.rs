//! The contract virtual machine: opcodes, gas metering, the bytecode
//! interpreter, contract state and the VM front end.

pub mod opcodes;
pub mod gas;
pub mod exec;
pub mod bytecode;
pub mod abi;
pub mod abi_wasm;
pub mod wasm;
pub mod state;
pub mod runtime;
pub mod tx;
pub mod debugger;
pub mod contracts;
