//! Opcode bytes of the first-party interpreter.

use vstd::prelude::*;

verus! {

pub const NOP: u8 = 0x00;

pub const PUSH_I64: u8 = 0x01;

pub const PUSH_INPUT: u8 = 0x02;

pub const ADD_I64: u8 = 0x03;

pub const SUB_I64: u8 = 0x04;

pub const MUL_I64: u8 = 0x05;

pub const DIV_I64: u8 = 0x06;

pub const EQ_I64: u8 = 0x07;

pub const RETURN: u8 = 0x10;

} // verus!
