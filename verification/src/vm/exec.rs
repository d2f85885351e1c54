//! The bytecode interpreter and its reference semantics.
//!
//! `spec_run` is the meaning of a program: it steps through the code byte by
//! byte and says, for every input, which stack, gas consumption and storage
//! write the interpreter ends with, or which error stops it.  `execute`
//! is proved to compute exactly `spec_run`.

use vstd::prelude::*;
use crate::hashing::{blake3_hash, spec_blake3};
use crate::le::{le_u64, push_u64_le, read_u64_le, u64_le};
use crate::vm::gas::{self, GasMeter, spec_cost, GAS_HASH, GAS_IMMEDIATE, GAS_STORAGE_READ, GAS_STORAGE_WRITE};
use crate::vm::opcodes::{OpCode, spec_op_from_byte};

verus! {

/// Errors raised by the bytecode interpreter and the VM front end.
#[derive(Clone, Copy, Debug, PartialEq, Eq, Structural)]
pub enum VmError {
    BadOpcode,
    OutOfGas,
    TruncatedPush,
    StackUnderflow,
    DivByZero,
    ModByZero,
    UnknownContract,
    FeeOverflow,
    InsufficientBalance,
    WasmError,
}

/// The message that reports an error.
pub open spec fn spec_error_message(e: VmError) -> &'static str {
    match e {
        VmError::BadOpcode => "bad opcode",
        VmError::OutOfGas => "out of gas",
        VmError::TruncatedPush => "truncated push",
        VmError::StackUnderflow => "stack underflow",
        VmError::DivByZero => "div by zero",
        VmError::ModByZero => "mod by zero",
        VmError::UnknownContract => "unknown contract",
        VmError::FeeOverflow => "fee overflow",
        VmError::InsufficientBalance => "insufficient balance",
        VmError::WasmError => "wasm error",
    }
}

impl VmError {
    /// The message that reports this error.
    pub fn message(&self) -> (s: &'static str)
        ensures
            s == spec_error_message(*self),
    {
        match self {
            VmError::BadOpcode => "bad opcode",
            VmError::OutOfGas => "out of gas",
            VmError::TruncatedPush => "truncated push",
            VmError::StackUnderflow => "stack underflow",
            VmError::DivByZero => "div by zero",
            VmError::ModByZero => "mod by zero",
            VmError::UnknownContract => "unknown contract",
            VmError::FeeOverflow => "fee overflow",
            VmError::InsufficientBalance => "insufficient balance",
            VmError::WasmError => "wasm error",
        }
    }
}

/// What a run of the interpreter ends with: its result, the gas consumed in
/// total and the last value written to storage, if any.
pub struct RunOutcome {
    pub result: Result<Seq<u64>, VmError>,
    pub used: u64,
    pub stored: Option<u64>,
}

/// The word the `Hash` opcode pushes for `v`: the first 8 bytes,
/// little-endian, of the BLAKE3 digest of `v`'s 8-byte encoding.
pub open spec fn spec_hash_word(v: u64) -> u64 {
    le_u64(spec_blake3(u64_le(v)))
}

/// The result of a two-operand arithmetic or bitwise opcode.
pub open spec fn spec_binop(op: OpCode, a: u64, b: u64) -> u64 {
    match op {
        OpCode::Add => vstd::wrapping::u64_specs::wrapping_add(a, b),
        OpCode::Sub => vstd::wrapping::u64_specs::wrapping_sub(a, b),
        OpCode::Mul => vstd::wrapping::u64_specs::wrapping_mul(a, b),
        OpCode::And => a & b,
        OpCode::Or => a | b,
        OpCode::Xor => a ^ b,
        OpCode::Div => if b == 0 { 0 } else { a / b },
        _ => if b == 0 { 0 } else { a % b },
    }
}

/// The value a `Load` reads: the last value stored, else the initial value.
pub open spec fn spec_load(initial: u64, stored: Option<u64>) -> u64 {
    match stored {
        Some(v) => v,
        None => initial,
    }
}

/// A run that stops with `e`.
pub open spec fn stop(e: VmError, used: u64, stored: Option<u64>) -> RunOutcome {
    RunOutcome { result: Err(e), used, stored }
}

/// A run that ends with `stack`.
pub open spec fn finish(stack: Seq<u64>, used: u64, stored: Option<u64>) -> RunOutcome {
    RunOutcome { result: Ok(stack), used, stored }
}

/// Reference semantics of the bytecode interpreter from program counter `pc`
/// with the given stack, gas consumption `used` against `limit`, initial
/// storage value and last stored value.
pub open spec fn spec_run(
    code: Seq<u8>,
    pc: int,
    stack: Seq<u64>,
    used: u64,
    limit: u64,
    initial: u64,
    stored: Option<u64>,
) -> RunOutcome
    decreases code.len() - pc,
{
    if pc < 0 || pc >= code.len() {
        finish(stack, used, stored)
    } else {
        match spec_op_from_byte(code[pc]) {
            None => stop(VmError::BadOpcode, used, stored),
            Some(op) => {
                if used + spec_cost(op) > limit {
                    stop(VmError::OutOfGas, used, stored)
                } else {
                    let u1 = (used + spec_cost(op)) as u64;
                    let n = stack.len();
                    match op {
                        OpCode::Halt => finish(stack, u1, stored),
                        OpCode::Push => {
                            if pc + 9 > code.len() {
                                stop(VmError::TruncatedPush, u1, stored)
                            } else if u1 + GAS_IMMEDIATE > limit {
                                stop(VmError::OutOfGas, u1, stored)
                            } else {
                                spec_run(
                                    code,
                                    pc + 9,
                                    stack.push(le_u64(code.subrange(pc + 1, pc + 9))),
                                    (u1 + GAS_IMMEDIATE) as u64,
                                    limit,
                                    initial,
                                    stored,
                                )
                            }
                        },
                        OpCode::Load => {
                            if u1 + GAS_STORAGE_READ > limit {
                                stop(VmError::OutOfGas, u1, stored)
                            } else {
                                spec_run(
                                    code,
                                    pc + 1,
                                    stack.push(spec_load(initial, stored)),
                                    (u1 + GAS_STORAGE_READ) as u64,
                                    limit,
                                    initial,
                                    stored,
                                )
                            }
                        },
                        OpCode::Store => {
                            if n < 1 {
                                stop(VmError::StackUnderflow, u1, stored)
                            } else if u1 + GAS_STORAGE_WRITE > limit {
                                stop(VmError::OutOfGas, u1, stored)
                            } else {
                                spec_run(
                                    code,
                                    pc + 1,
                                    stack.drop_last(),
                                    (u1 + GAS_STORAGE_WRITE) as u64,
                                    limit,
                                    initial,
                                    Some(stack.last()),
                                )
                            }
                        },
                        OpCode::Hash => {
                            if n < 1 {
                                stop(VmError::StackUnderflow, u1, stored)
                            } else if u1 + GAS_HASH > limit {
                                stop(VmError::OutOfGas, u1, stored)
                            } else {
                                spec_run(
                                    code,
                                    pc + 1,
                                    stack.drop_last().push(spec_hash_word(stack.last())),
                                    (u1 + GAS_HASH) as u64,
                                    limit,
                                    initial,
                                    stored,
                                )
                            }
                        },
                        OpCode::Div => {
                            if n < 1 {
                                stop(VmError::StackUnderflow, u1, stored)
                            } else if stack.last() == 0 {
                                stop(VmError::DivByZero, u1, stored)
                            } else if n < 2 {
                                stop(VmError::StackUnderflow, u1, stored)
                            } else {
                                spec_run(
                                    code,
                                    pc + 1,
                                    stack.subrange(0, n - 2).push(
                                        spec_binop(op, stack[n - 2], stack[n - 1]),
                                    ),
                                    u1,
                                    limit,
                                    initial,
                                    stored,
                                )
                            }
                        },
                        OpCode::Mod => {
                            if n < 1 {
                                stop(VmError::StackUnderflow, u1, stored)
                            } else if stack.last() == 0 {
                                stop(VmError::ModByZero, u1, stored)
                            } else if n < 2 {
                                stop(VmError::StackUnderflow, u1, stored)
                            } else {
                                spec_run(
                                    code,
                                    pc + 1,
                                    stack.subrange(0, n - 2).push(
                                        spec_binop(op, stack[n - 2], stack[n - 1]),
                                    ),
                                    u1,
                                    limit,
                                    initial,
                                    stored,
                                )
                            }
                        },
                        _ => {
                            if n < 2 {
                                stop(VmError::StackUnderflow, u1, stored)
                            } else {
                                spec_run(
                                    code,
                                    pc + 1,
                                    stack.subrange(0, n - 2).push(
                                        spec_binop(op, stack[n - 2], stack[n - 1]),
                                    ),
                                    u1,
                                    limit,
                                    initial,
                                    stored,
                                )
                            }
                        },
                    }
                }
            },
        }
    }
}

/// The run of a whole program from an empty stack.
pub open spec fn spec_run_from_start(
    code: Seq<u8>,
    used: u64,
    limit: u64,
    initial: u64,
    stored: Option<u64>,
) -> RunOutcome {
    spec_run(code, 0, Seq::empty(), used, limit, initial, stored)
}

/// An executable result agrees with a reference result.
pub open spec fn spec_result_matches(
    expected: Result<Seq<u64>, VmError>,
    r: Result<Vec<u64>, VmError>,
) -> bool {
    match r {
        Ok(s) => expected == Ok::<Seq<u64>, VmError>(s@),
        Err(e) => expected == Err::<Seq<u64>, VmError>(e),
    }
}

/// Pops the two operands of a binary opcode (`a` below `b`).
fn pop_two(stack: &mut Vec<u64>) -> (r: Option<(u64, u64)>)
    ensures
        old(stack)@.len() >= 2 ==> r == Some((old(stack)@[old(stack)@.len() - 2], old(stack)@.last()))
            && final(stack)@ == old(stack)@.subrange(0, old(stack)@.len() - 2),
        old(stack)@.len() < 2 ==> r is None,
{
    if stack.len() < 2 {
        return None;
    }
    let b = stack.pop().unwrap();
    let a = stack.pop().unwrap();
    assert(stack@ =~= old(stack)@.subrange(0, old(stack)@.len() - 2));
    Some((a, b))
}

/// Executes raw bytecode against one storage slot.  `initial` is the value a
/// `Load` reads before any `Store`; `stored` receives every `Store`.
/// The result, the meter and the slot follow `spec_run` from the start of
/// the code with an empty stack.
pub fn execute_with_storage(
    code: &[u8],
    meter: &mut GasMeter,
    initial: u64,
    stored: &mut Option<u64>,
) -> (r: Result<Vec<u64>, VmError>)
    requires
        old(meter).wf(),
    ensures
        final(meter).spec_used() == spec_run_from_start(code@, old(meter).spec_used(), old(meter).spec_limit(), initial, *old(stored)).used,
        final(meter).spec_limit() == old(meter).spec_limit(),
        final(meter).wf(),
        *final(stored) == spec_run_from_start(code@, old(meter).spec_used(), old(meter).spec_limit(), initial, *old(stored)).stored,
        spec_result_matches(spec_run_from_start(code@, old(meter).spec_used(), old(meter).spec_limit(), initial, *old(stored)).result, r),
{
    let ghost target = spec_run(
        code@,
        0,
        Seq::empty(),
        meter.spec_used(),
        meter.spec_limit(),
        initial,
        *stored,
    );
    let mut stack: Vec<u64> = Vec::new();
    let mut pc: usize = 0;
    while pc < code.len()
        invariant
            pc <= code@.len(),
            meter.wf(),
            meter.spec_limit() == old(meter).spec_limit(),
            target == spec_run_from_start(code@, old(meter).spec_used(), old(meter).spec_limit(), initial, *old(stored)),
            spec_run(code@, pc as int, stack@, meter.spec_used(), meter.spec_limit(), initial, *stored)
                == target,
        decreases code@.len() - pc,
    {
        let op = match OpCode::from_byte(code[pc]) {
            Some(op) => op,
            None => {
                assert(spec_op_from_byte(code@[pc as int]) is None);
                return Err(VmError::BadOpcode);
            },
        };
        assert(spec_op_from_byte(code@[pc as int]) == Some(op));
        pc = pc + 1;
        if meter.charge(gas::cost(op)).is_err() {
            return Err(VmError::OutOfGas);
        }
        match op {
            OpCode::Halt => {
                assert(spec_op_from_byte(code@[pc - 1]) == Some(OpCode::Halt));
                return Ok(stack);
            },
            OpCode::Push => {
                if code.len() < 8 || pc > code.len() - 8 {
                    return Err(VmError::TruncatedPush);
                }
                let v = read_u64_le(code, pc);
                pc = pc + 8;
                if meter.charge(GAS_IMMEDIATE).is_err() {
                    return Err(VmError::OutOfGas);
                }
                stack.push(v);
            },
            OpCode::Load => {
                if meter.charge(GAS_STORAGE_READ).is_err() {
                    return Err(VmError::OutOfGas);
                }
                let v = match *stored {
                    Some(v) => v,
                    None => initial,
                };
                stack.push(v);
            },
            OpCode::Store => {
                let v = match stack.pop() {
                    Some(v) => v,
                    None => return Err(VmError::StackUnderflow),
                };
                if meter.charge(GAS_STORAGE_WRITE).is_err() {
                    return Err(VmError::OutOfGas);
                }
                *stored = Some(v);
            },
            OpCode::Hash => {
                let v = match stack.pop() {
                    Some(v) => v,
                    None => return Err(VmError::StackUnderflow),
                };
                if meter.charge(GAS_HASH).is_err() {
                    return Err(VmError::OutOfGas);
                }
                let mut buf: Vec<u8> = Vec::new();
                push_u64_le(&mut buf, v);
                assert(buf@ =~= u64_le(v));
                let digest = blake3_hash(buf.as_slice());
                let w = read_u64_le(&digest, 0);
                assert(digest@.subrange(0, 8) =~= spec_blake3(u64_le(v)).subrange(0, 8));
                stack.push(w);
            },
            OpCode::Div | OpCode::Mod => {
                let n = stack.len();
                if n < 1 {
                    return Err(VmError::StackUnderflow);
                }
                if stack[n - 1] == 0 {
                    if op == OpCode::Div {
                        return Err(VmError::DivByZero);
                    } else {
                        return Err(VmError::ModByZero);
                    }
                }
                let (a, b) = match pop_two(&mut stack) {
                    Some(p) => p,
                    None => return Err(VmError::StackUnderflow),
                };
                if op == OpCode::Div {
                    stack.push(a / b);
                } else {
                    stack.push(a % b);
                }
            },
            _ => {
                let (a, b) = match pop_two(&mut stack) {
                    Some(p) => p,
                    None => return Err(VmError::StackUnderflow),
                };
                let v = match op {
                    OpCode::Add => a.wrapping_add(b),
                    OpCode::Sub => a.wrapping_sub(b),
                    OpCode::Mul => a.wrapping_mul(b),
                    OpCode::And => a & b,
                    OpCode::Or => a | b,
                    _ => a ^ b,
                };
                stack.push(v);
            },
        }
    }
    Ok(stack)
}

/// Executes raw bytecode with a storage slot that reads 0 until written,
/// returning the final stack.
pub fn execute(code: &[u8], meter: &mut GasMeter) -> (r: Result<Vec<u64>, VmError>)
    requires
        old(meter).wf(),
    ensures
        ({
            let o = spec_run(
                code@,
                0,
                Seq::empty(),
                old(meter).spec_used(),
                old(meter).spec_limit(),
                0,
                None,
            );
            &&& final(meter).spec_used() == o.used
            &&& final(meter).spec_limit() == old(meter).spec_limit()
            &&& final(meter).wf()
            &&& match r {
                Ok(s) => o.result == Ok::<Seq<u64>, VmError>(s@),
                Err(e) => o.result == Err::<Seq<u64>, VmError>(e),
            }
        }),
{
    let mut stored: Option<u64> = None;
    execute_with_storage(code, meter, 0, &mut stored)
}

} // verus!

verus! {

/// The program `Push a; Push b; <op>; Halt`, with `op` given by its byte.
pub open spec fn two_operand_program(a: u64, b: u64, op: u8) -> Seq<u8> {
    seq![0x01u8] + u64_le(a) + seq![0x01u8] + u64_le(b) + seq![op, 0x00u8]
}

/// Running `Push a; Push b; <op>; Halt` for an operator that cannot fail on
/// its operands ends with the one word the operator computes from `a`
/// (below) and `b` (on top).
proof fn lemma_two_operand_run(a: u64, b: u64, op_byte: u8, used: u64, limit: u64, initial: u64, stored: Option<u64>)
    requires
        spec_op_from_byte(op_byte) matches Some(op) && (op == OpCode::Add || op == OpCode::Sub || op == OpCode::Mul
            || op == OpCode::And || op == OpCode::Or || op == OpCode::Xor || ((op == OpCode::Div || op
            == OpCode::Mod) && b != 0)),
        used + 7 <= limit,
    ensures
        ({
            let op = spec_op_from_byte(op_byte)->Some_0;
            let o = spec_run_from_start(two_operand_program(a, b, op_byte), used, limit, initial, stored);
            &&& o.result == Ok::<Seq<u64>, VmError>(seq![spec_binop(op, a, b)])
            &&& o.used == used + 4 + spec_cost(op)
            &&& o.stored == stored
        }),
{
    let code = two_operand_program(a, b, op_byte);
    let op = spec_op_from_byte(op_byte)->Some_0;
    crate::le::lemma_u64_roundtrip(a);
    crate::le::lemma_u64_roundtrip(b);
    assert(code.len() == 20);
    assert(code[0] == 0x01u8);
    assert(code.subrange(1, 9) =~= u64_le(a));
    assert(code[9] == 0x01u8);
    assert(code.subrange(10, 18) =~= u64_le(b));
    assert(code[18] == op_byte);
    assert(code[19] == 0x00u8);
    assert(spec_op_from_byte(0x01u8) == Some(OpCode::Push));
    assert(spec_op_from_byte(0x00u8) == Some(OpCode::Halt));
    let s1 = seq![a];
    let s2 = seq![a, b];
    let s3 = seq![spec_binop(op, a, b)];
    assert(s1 =~= Seq::<u64>::empty().push(a));
    assert(s2 =~= s1.push(b));
    assert(s3 =~= s2.subrange(0, 0).push(spec_binop(op, s2[0], s2[1])));
    let u2 = (used + 2) as u64;
    let u4 = (used + 4) as u64;
    let u5 = (used + 4 + spec_cost(op)) as u64;
    assert(spec_run(code, 19, s3, u5, limit, initial, stored) == finish(s3, u5, stored));
    assert(spec_run(code, 18, s2, u4, limit, initial, stored) == spec_run(code, 19, s3, u5, limit, initial, stored));
    assert(spec_run(code, 9, s1, u2, limit, initial, stored) == spec_run(code, 18, s2, u4, limit, initial, stored));
    assert(spec_run(code, 0, Seq::empty(), used, limit, initial, stored) == spec_run(code, 9, s1, u2, limit, initial, stored));
}

/// Subtraction takes the word pushed second from the word pushed first,
/// wrapping: `Push a; Push b; Sub; Halt` ends with the single word
/// `(a - b) mod 2^64`, for every `a` and `b` (given gas for the five units
/// it costs).
pub proof fn law_sub_takes_top_from_below(a: u64, b: u64, used: u64, limit: u64, initial: u64, stored: Option<u64>)
    requires
        used + 7 <= limit,
    ensures
        spec_run_from_start(two_operand_program(a, b, 0x03u8), used, limit, initial, stored).result
            == Ok::<Seq<u64>, VmError>(seq![((a as int - b as int) % 0x1_0000_0000_0000_0000int) as u64]),
{
    lemma_two_operand_run(a, b, 0x03u8, used, limit, initial, stored);
    if a >= b {
        assert((a as int - b as int) % 0x1_0000_0000_0000_0000int == a as int - b as int);
    } else {
        assert((a as int - b as int) % 0x1_0000_0000_0000_0000int == a as int - b as int + 0x1_0000_0000_0000_0000int);
    }
}

/// Addition wraps: `Push a; Push b; Add; Halt` ends with `(a + b) mod 2^64`.
pub proof fn law_add_wraps(a: u64, b: u64, used: u64, limit: u64, initial: u64, stored: Option<u64>)
    requires
        used + 7 <= limit,
    ensures
        spec_run_from_start(two_operand_program(a, b, 0x02u8), used, limit, initial, stored).result
            == Ok::<Seq<u64>, VmError>(seq![((a as int + b as int) % 0x1_0000_0000_0000_0000int) as u64]),
{
    lemma_two_operand_run(a, b, 0x02u8, used, limit, initial, stored);
    if a as int + b as int > u64::MAX {
        assert((a as int + b as int) % 0x1_0000_0000_0000_0000int == a as int + b as int - 0x1_0000_0000_0000_0000int);
    } else {
        assert((a as int + b as int) % 0x1_0000_0000_0000_0000int == a as int + b as int);
    }
}

/// Multiplication wraps: `Push a; Push b; Mul; Halt` ends with
/// `(a * b) mod 2^64`.
pub proof fn law_mul_wraps(a: u64, b: u64, used: u64, limit: u64, initial: u64, stored: Option<u64>)
    requires
        used + 7 <= limit,
    ensures
        spec_run_from_start(two_operand_program(a, b, 0x04u8), used, limit, initial, stored).result
            == Ok::<Seq<u64>, VmError>(seq![((a as int * b as int) % 0x1_0000_0000_0000_0000int) as u64]),
{
    lemma_two_operand_run(a, b, 0x04u8, used, limit, initial, stored);
}

/// Division and remainder divide the word pushed first by the word pushed
/// second: with `b != 0`, `Push a; Push b; Div; Halt` ends with `a / b` and
/// `... Mod ...` with `a % b`; they satisfy `a == (a / b) * b + a % b` with
/// the remainder below `b`.
pub proof fn law_div_mod_divide_below_by_top(a: u64, b: u64, used: u64, limit: u64, initial: u64, stored: Option<u64>)
    requires
        used + 7 <= limit,
        b != 0,
    ensures
        ({
            let d = spec_run_from_start(two_operand_program(a, b, 0x05u8), used, limit, initial, stored).result;
            let m = spec_run_from_start(two_operand_program(a, b, 0x08u8), used, limit, initial, stored).result;
            &&& d matches Ok(ds) && m matches Ok(ms) && ds.len() == 1 && ms.len() == 1 && a as int == ds[0] as int
                * b as int + ms[0] as int && ms[0] < b
        }),
{
    lemma_two_operand_run(a, b, 0x05u8, used, limit, initial, stored);
    lemma_two_operand_run(a, b, 0x08u8, used, limit, initial, stored);
    assert(a as int == (a / b) as int * b as int + (a % b) as int) by (nonlinear_arith)
        requires
            b != 0,
    ;
}

/// The bitwise opcodes combine the two words bit by bit:
/// `Push a; Push b; And|Or|Xor; Halt` ends with `a & b`, `a | b` and
/// `a ^ b` respectively.
pub proof fn law_bitwise_ops(a: u64, b: u64, used: u64, limit: u64, initial: u64, stored: Option<u64>)
    requires
        used + 7 <= limit,
    ensures
        spec_run_from_start(two_operand_program(a, b, 0x06u8), used, limit, initial, stored).result
            == Ok::<Seq<u64>, VmError>(seq![a & b]),
        spec_run_from_start(two_operand_program(a, b, 0x07u8), used, limit, initial, stored).result
            == Ok::<Seq<u64>, VmError>(seq![a | b]),
        spec_run_from_start(two_operand_program(a, b, 0x09u8), used, limit, initial, stored).result
            == Ok::<Seq<u64>, VmError>(seq![a ^ b]),
{
    lemma_two_operand_run(a, b, 0x06u8, used, limit, initial, stored);
    lemma_two_operand_run(a, b, 0x07u8, used, limit, initial, stored);
    lemma_two_operand_run(a, b, 0x09u8, used, limit, initial, stored);
}

/// Gas: two pushes cost two units each (opcode and immediate), `Add` and
/// `Sub` one, `Mul` two, and `Halt` nothing; such a program leaves the
/// storage slot as it was.
pub proof fn law_arith_gas(a: u64, b: u64, used: u64, limit: u64, initial: u64, stored: Option<u64>)
    requires
        used + 7 <= limit,
    ensures
        spec_run_from_start(two_operand_program(a, b, 0x02u8), used, limit, initial, stored).used == used + 5,
        spec_run_from_start(two_operand_program(a, b, 0x03u8), used, limit, initial, stored).used == used + 5,
        spec_run_from_start(two_operand_program(a, b, 0x04u8), used, limit, initial, stored).used == used + 6,
        spec_run_from_start(two_operand_program(a, b, 0x03u8), used, limit, initial, stored).stored == stored,
{
    lemma_two_operand_run(a, b, 0x02u8, used, limit, initial, stored);
    lemma_two_operand_run(a, b, 0x03u8, used, limit, initial, stored);
    lemma_two_operand_run(a, b, 0x04u8, used, limit, initial, stored);
}

} // verus!
