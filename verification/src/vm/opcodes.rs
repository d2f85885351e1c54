//! Opcodes of the bytecode VM.

use vstd::prelude::*;

verus! {

/// Core VM opcodes, in the order of their byte values (`Halt` is 0x00,
/// `Hash` is 0x0c).
#[derive(Clone, Copy, Debug, PartialEq, Eq, Structural)]
pub enum OpCode {
    Halt,
    /// Push a 64-bit immediate onto the stack.
    Push,
    /// Pop two values, push their sum.
    Add,
    /// Pop two values, push first minus second.
    Sub,
    /// Pop two values, push their product.
    Mul,
    /// Pop two values, push first divided by second (truncating).
    Div,
    /// Pop two values, push bitwise AND.
    And,
    /// Pop two values, push bitwise OR.
    Or,
    /// Pop two values, push first modulo second.
    Mod,
    /// Pop two values, push bitwise XOR.
    Xor,
    /// Load value from contract storage and push onto stack.
    Load,
    /// Pop value and store to contract storage.
    Store,
    /// Pop value, push first 8 bytes of BLAKE3 hash.
    Hash,
}

/// The byte that encodes `op`.
pub open spec fn spec_op_byte(op: OpCode) -> u8 {
    match op {
        OpCode::Halt => 0x00,
        OpCode::Push => 0x01,
        OpCode::Add => 0x02,
        OpCode::Sub => 0x03,
        OpCode::Mul => 0x04,
        OpCode::Div => 0x05,
        OpCode::And => 0x06,
        OpCode::Or => 0x07,
        OpCode::Mod => 0x08,
        OpCode::Xor => 0x09,
        OpCode::Load => 0x0a,
        OpCode::Store => 0x0b,
        OpCode::Hash => 0x0c,
    }
}

/// The opcode a byte decodes to, if any.
pub open spec fn spec_op_from_byte(b: u8) -> Option<OpCode> {
    if b == 0x00 {
        Some(OpCode::Halt)
    } else if b == 0x01 {
        Some(OpCode::Push)
    } else if b == 0x02 {
        Some(OpCode::Add)
    } else if b == 0x03 {
        Some(OpCode::Sub)
    } else if b == 0x04 {
        Some(OpCode::Mul)
    } else if b == 0x05 {
        Some(OpCode::Div)
    } else if b == 0x06 {
        Some(OpCode::And)
    } else if b == 0x07 {
        Some(OpCode::Or)
    } else if b == 0x08 {
        Some(OpCode::Mod)
    } else if b == 0x09 {
        Some(OpCode::Xor)
    } else if b == 0x0a {
        Some(OpCode::Load)
    } else if b == 0x0b {
        Some(OpCode::Store)
    } else if b == 0x0c {
        Some(OpCode::Hash)
    } else {
        None
    }
}

/// Every opcode is decoded from its own byte, and a decoded byte is the byte
/// of the opcode it decodes to.
pub proof fn lemma_opcode_byte_roundtrip(op: OpCode, b: u8)
    ensures
        spec_op_from_byte(spec_op_byte(op)) == Some(op),
        spec_op_from_byte(b) matches Some(o) ==> spec_op_byte(o) == b,
{
}

impl OpCode {
    /// Decodes an opcode byte.
    pub fn from_byte(b: u8) -> (op: Option<OpCode>)
        ensures
            op == spec_op_from_byte(b),
    {
        match b {
            0x00 => Some(OpCode::Halt),
            0x01 => Some(OpCode::Push),
            0x02 => Some(OpCode::Add),
            0x03 => Some(OpCode::Sub),
            0x04 => Some(OpCode::Mul),
            0x05 => Some(OpCode::Div),
            0x06 => Some(OpCode::And),
            0x07 => Some(OpCode::Or),
            0x08 => Some(OpCode::Mod),
            0x09 => Some(OpCode::Xor),
            0x0a => Some(OpCode::Load),
            0x0b => Some(OpCode::Store),
            0x0c => Some(OpCode::Hash),
            _ => None,
        }
    }

    /// The byte that encodes this opcode.
    pub fn to_byte(&self) -> (b: u8)
        ensures
            b == spec_op_byte(*self),
    {
        match self {
            OpCode::Halt => 0x00,
            OpCode::Push => 0x01,
            OpCode::Add => 0x02,
            OpCode::Sub => 0x03,
            OpCode::Mul => 0x04,
            OpCode::Div => 0x05,
            OpCode::And => 0x06,
            OpCode::Or => 0x07,
            OpCode::Mod => 0x08,
            OpCode::Xor => 0x09,
            OpCode::Load => 0x0a,
            OpCode::Store => 0x0b,
            OpCode::Hash => 0x0c,
        }
    }

    /// The opcode's name as printed in traces and the ABI (`Debug` form).
    pub fn name(&self) -> (s: &'static str)
        ensures
            s == spec_op_name(*self),
    {
        match self {
            OpCode::Halt => "Halt",
            OpCode::Push => "Push",
            OpCode::Add => "Add",
            OpCode::Sub => "Sub",
            OpCode::Mul => "Mul",
            OpCode::Div => "Div",
            OpCode::And => "And",
            OpCode::Or => "Or",
            OpCode::Mod => "Mod",
            OpCode::Xor => "Xor",
            OpCode::Load => "Load",
            OpCode::Store => "Store",
            OpCode::Hash => "Hash",
        }
    }

    /// All opcodes, in byte order.
    pub fn all() -> (ops: Vec<OpCode>)
        ensures
            ops@.len() == 13,
            forall|i: int| 0 <= i < 13 ==> spec_op_byte(#[trigger] ops@[i]) == i,
    {
        let ops = vec![
            OpCode::Halt,
            OpCode::Push,
            OpCode::Add,
            OpCode::Sub,
            OpCode::Mul,
            OpCode::Div,
            OpCode::And,
            OpCode::Or,
            OpCode::Mod,
            OpCode::Xor,
            OpCode::Load,
            OpCode::Store,
            OpCode::Hash,
        ];
        ops
    }
}

/// The printed name of an opcode.
pub open spec fn spec_op_name(op: OpCode) -> &'static str {
    match op {
        OpCode::Halt => "Halt",
        OpCode::Push => "Push",
        OpCode::Add => "Add",
        OpCode::Sub => "Sub",
        OpCode::Mul => "Mul",
        OpCode::Div => "Div",
        OpCode::And => "And",
        OpCode::Or => "Or",
        OpCode::Mod => "Mod",
        OpCode::Xor => "Xor",
        OpCode::Load => "Load",
        OpCode::Store => "Store",
        OpCode::Hash => "Hash",
    }
}

} // verus!
