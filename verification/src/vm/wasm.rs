//! The first-party WASM-style module format and its interpreter.

pub mod opcodes;
pub mod interpreter;
pub mod gas;

pub use interpreter::{analyze, disassemble, execute, Instruction, ModuleMetadata, WasmError, MAGIC, VERSION_V1};
