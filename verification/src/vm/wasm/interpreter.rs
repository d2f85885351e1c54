//! A minimal stack interpreter for first-party modules.
//!
//! A module is the 4-byte magic `TBW1`, one version byte, then a sequence of
//! instructions.  `spec_parse_program` is the grammar of modules and
//! `spec_wasm_execute` the meaning of running one; the executable functions
//! are proved to follow them exactly.

use vstd::prelude::*;
use crate::le::{le_u64, push_u64_le, read_u64_le, u64_le};
use crate::vm::gas::GasMeter;
use crate::vm::wasm::opcodes;
use crate::util::decimal::{ascii_chars, push_ascii, push_decimal, spec_decimal};

verus! {

/// Four byte module identifier (`b"TBW1"`).
pub const MAGIC: [u8; 4] = [0x54, 0x42, 0x57, 0x31];

/// Currently supported module format version.
pub const VERSION_V1: u8 = 1;

/// Length of the header: magic (4) and version (1).
pub const HEADER_LEN: usize = 5;

/// The magic bytes as a sequence.
pub open spec fn spec_magic() -> Seq<u8> {
    seq![0x54u8, 0x42u8, 0x57u8, 0x31u8]
}

/// Disassembled instruction used for metadata and tooling.
#[derive(Debug, Clone, Copy, PartialEq, Eq, Structural)]
pub enum Instruction {
    Nop,
    PushConst(i64),
    PushInput(u8),
    Add,
    Sub,
    Mul,
    Div,
    Eq,
    Return(usize),
}

/// Why parsing or running a module failed.
#[derive(Debug, Clone, Copy, PartialEq, Eq, Structural)]
pub enum WasmError {
    /// Fewer than 5 bytes: no room for magic and version.
    MissingHeader,
    /// The first 4 bytes are not `TBW1`.
    InvalidMagic,
    /// An opcode byte outside the instruction set.
    UnknownOpcode(u8),
    /// The code ends inside an 8-byte immediate.
    EofInImmediate,
    /// The code ends where an operand byte was expected.
    EofInByte,
    /// The version byte is not `VERSION_V1`.
    UnsupportedVersion(u8),
    /// The input length is not a multiple of 8.
    MisalignedInputs,
    /// An input index past the end of the inputs.
    MissingInput(usize),
    /// Too few operands on the stack.
    StackUnderflow,
    /// Division by zero.
    DivisionByZero,
    /// `i64::MIN / -1`, which has no `i64` result.
    DivisionOverflow,
    /// A return asked for more values than the stack holds.
    ReturnTooLarge,
    /// The instructions ended without a return.
    MissingReturn,
    /// The gas meter refused a charge.
    OutOfGas,
}

/// Decodes the instruction at `pc` (which must be inside the code), giving the
/// instruction and the position after it.
pub open spec fn spec_decode_instr(code: Seq<u8>, pc: int) -> Result<(Instruction, int), WasmError> {
    let op = code[pc];
    let p = pc + 1;
    if op == opcodes::NOP {
        Ok((Instruction::Nop, p))
    } else if op == opcodes::PUSH_I64 {
        if p + 8 > code.len() {
            Err(WasmError::EofInImmediate)
        } else {
            Ok((Instruction::PushConst(le_u64(code.subrange(p, p + 8)) as i64), p + 8))
        }
    } else if op == opcodes::PUSH_INPUT {
        if p >= code.len() {
            Err(WasmError::EofInByte)
        } else {
            Ok((Instruction::PushInput(code[p]), p + 1))
        }
    } else if op == opcodes::ADD_I64 {
        Ok((Instruction::Add, p))
    } else if op == opcodes::SUB_I64 {
        Ok((Instruction::Sub, p))
    } else if op == opcodes::MUL_I64 {
        Ok((Instruction::Mul, p))
    } else if op == opcodes::DIV_I64 {
        Ok((Instruction::Div, p))
    } else if op == opcodes::EQ_I64 {
        Ok((Instruction::Eq, p))
    } else if op == opcodes::RETURN {
        if p >= code.len() {
            Err(WasmError::EofInByte)
        } else {
            Ok((Instruction::Return(code[p] as usize), p + 1))
        }
    } else {
        Err(WasmError::UnknownOpcode(op))
    }
}

/// Parses instructions from `pc` to the end, after those already in `acc`.
pub open spec fn spec_parse_from(code: Seq<u8>, pc: int, acc: Seq<Instruction>) -> Result<
    Seq<Instruction>,
    WasmError,
>
    decreases code.len() - pc,
{
    if pc < 0 || pc >= code.len() {
        Ok(acc)
    } else {
        match spec_decode_instr(code, pc) {
            Err(e) => Err(e),
            Ok((ins, next)) => if pc < next {
                spec_parse_from(code, next, acc.push(ins))
            } else {
                Ok(acc)
            },
        }
    }
}

/// The module grammar: header check, then the instruction sequence; gives the
/// version byte and the instructions.
pub open spec fn spec_parse_program(code: Seq<u8>) -> Result<(u8, Seq<Instruction>), WasmError> {
    if code.len() < 5 {
        Err(WasmError::MissingHeader)
    } else if code.subrange(0, 4) != spec_magic() {
        Err(WasmError::InvalidMagic)
    } else {
        match spec_parse_from(code, 5, Seq::empty()) {
            Ok(is) => Ok((code[4], is)),
            Err(e) => Err(e),
        }
    }
}

/// Reads an 8-byte little-endian immediate at `*pc`, advancing `*pc`.
fn read_i64(code: &[u8], pc: &mut usize) -> (r: Result<i64, WasmError>)
    requires
        *old(pc) <= code@.len(),
    ensures
        *old(pc) + 8 > code@.len() ==> r == Err::<i64, WasmError>(WasmError::EofInImmediate)
            && *final(pc) == *old(pc),
        *old(pc) + 8 <= code@.len() ==> r == Ok::<i64, WasmError>(
            le_u64(code@.subrange(*old(pc) as int, *old(pc) + 8)) as i64,
        ) && *final(pc) == *old(pc) + 8,
{
    if code.len() - *pc < 8 {
        return Err(WasmError::EofInImmediate);
    }
    let v = read_u64_le(code, *pc);
    *pc = *pc + 8;
    Ok(v as i64)
}

/// Reads one operand byte at `*pc`, advancing `*pc`.
fn read_byte(code: &[u8], pc: &mut usize) -> (r: Result<u8, WasmError>)
    requires
        *old(pc) <= code@.len(),
    ensures
        *old(pc) >= code@.len() ==> r == Err::<u8, WasmError>(WasmError::EofInByte) && *final(pc)
            == *old(pc),
        *old(pc) < code@.len() ==> r == Ok::<u8, WasmError>(code@[*old(pc) as int]) && *final(pc)
            == *old(pc) + 1,
{
    if *pc >= code.len() {
        return Err(WasmError::EofInByte);
    }
    let b = code[*pc];
    *pc = *pc + 1;
    Ok(b)
}

/// Parses a module into its version byte and instructions.
pub fn parse_program(code: &[u8]) -> (r: Result<(u8, Vec<Instruction>), WasmError>)
    ensures
        match r {
            Ok((v, is)) => spec_parse_program(code@) == Ok::<(u8, Seq<Instruction>), WasmError>(
                (v, is@),
            ),
            Err(e) => spec_parse_program(code@) == Err::<(u8, Seq<Instruction>), WasmError>(e),
        },
{
    if code.len() < HEADER_LEN {
        return Err(WasmError::MissingHeader);
    }
    if !(code[0] == MAGIC[0] && code[1] == MAGIC[1] && code[2] == MAGIC[2] && code[3] == MAGIC[3]) {
        assert(code@.subrange(0, 4) != spec_magic()) by {
            if code@.subrange(0, 4) == spec_magic() {
                assert(code@.subrange(0, 4)[0] == code@[0]);
                assert(code@.subrange(0, 4)[1] == code@[1]);
                assert(code@.subrange(0, 4)[2] == code@[2]);
                assert(code@.subrange(0, 4)[3] == code@[3]);
            }
        }
        return Err(WasmError::InvalidMagic);
    }
    assert(code@.subrange(0, 4) =~= spec_magic());
    let version = code[4];
    let mut pc: usize = HEADER_LEN;
    let mut instructions: Vec<Instruction> = Vec::new();
    while pc < code.len()
        invariant
            5 <= pc <= code@.len(),
            code@.subrange(0, 4) == spec_magic(),
            version == code@[4],
            spec_parse_from(code@, pc as int, instructions@) == spec_parse_from(
                code@,
                5,
                Seq::empty(),
            ),
        decreases code@.len() - pc,
    {
        let opcode = code[pc];
        let ghost pc0 = pc as int;
        assert(spec_parse_from(code@, pc0, instructions@) == match spec_decode_instr(code@, pc0) {
            Err(e) => Err(e),
            Ok((ins, next)) => if pc0 < next {
                spec_parse_from(code@, next, instructions@.push(ins))
            } else {
                Ok(instructions@)
            },
        });
        pc = pc + 1;
        let instr = if opcode == opcodes::NOP {
            Instruction::Nop
        } else if opcode == opcodes::PUSH_I64 {
            match read_i64(code, &mut pc) {
                Ok(imm) => Instruction::PushConst(imm),
                Err(e) => {
                    assert(spec_decode_instr(code@, pc0) == Err::<(Instruction, int), WasmError>(e));
                    return Err(e);
                },
            }
        } else if opcode == opcodes::PUSH_INPUT {
            match read_byte(code, &mut pc) {
                Ok(index) => Instruction::PushInput(index),
                Err(e) => return Err(e),
            }
        } else if opcode == opcodes::ADD_I64 {
            Instruction::Add
        } else if opcode == opcodes::SUB_I64 {
            Instruction::Sub
        } else if opcode == opcodes::MUL_I64 {
            Instruction::Mul
        } else if opcode == opcodes::DIV_I64 {
            Instruction::Div
        } else if opcode == opcodes::EQ_I64 {
            Instruction::Eq
        } else if opcode == opcodes::RETURN {
            match read_byte(code, &mut pc) {
                Ok(count) => Instruction::Return(count as usize),
                Err(e) => return Err(e),
            }
        } else {
            assert(spec_decode_instr(code@, pc0) == Err::<(Instruction, int), WasmError>(
                WasmError::UnknownOpcode(opcode),
            ));
            return Err(WasmError::UnknownOpcode(opcode));
        };
        instructions.push(instr);
    }
    Ok((version, instructions))
}

/// The inputs, read as consecutive 8-byte little-endian words.
pub open spec fn spec_inputs(raw: Seq<u8>) -> Seq<i64> {
    Seq::new(raw.len() / 8, |i: int| le_u64(raw.subrange(8 * i, 8 * i + 8)) as i64)
}

/// Decodes the raw input bytes into words; their length must be a multiple
/// of 8.
fn decode_inputs(raw: &[u8]) -> (r: Result<Vec<i64>, WasmError>)
    ensures
        raw@.len() % 8 != 0 ==> r == Err::<Vec<i64>, WasmError>(WasmError::MisalignedInputs),
        raw@.len() % 8 == 0 ==> (r matches Ok(v) && v@ == spec_inputs(raw@)),
{
    if raw.len() % 8 != 0 {
        return Err(WasmError::MisalignedInputs);
    }
    let mut out: Vec<i64> = Vec::new();
    let n = raw.len() / 8;
    let mut i: usize = 0;
    while i < n
        invariant
            n == raw@.len() / 8,
            raw@.len() % 8 == 0,
            raw@.len() <= usize::MAX,
            i <= n,
            out@ =~= spec_inputs(raw@).subrange(0, i as int),
        decreases n - i,
    {
        assert(8 * i + 8 <= raw@.len()) by (nonlinear_arith)
            requires
                i < n,
                n == raw@.len() / 8,
        ;
        let w = read_u64_le(raw, 8 * i);
        out.push(w as i64);
        i = i + 1;
    }
    Ok(out)
}

/// `x` clamped into the `i64` range.
pub open spec fn spec_saturate(x: int) -> i64 {
    if x > i64::MAX {
        i64::MAX
    } else if x < i64::MIN {
        i64::MIN
    } else {
        x as i64
    }
}

/// Division rounding toward zero, as Rust's `/` on integers does.
pub open spec fn spec_trunc_div(a: int, b: int) -> int {
    if (a >= 0) == (b > 0) {
        if a >= 0 {
            a / b
        } else {
            (-a) / (-b)
        }
    } else {
        if a >= 0 {
            -(a / (-b))
        } else {
            -((-a) / b)
        }
    }
}

/// The little-endian encoding of each word in turn.
pub open spec fn spec_words_le(s: Seq<i64>) -> Seq<u8>
    decreases s.len(),
{
    if s.len() == 0 {
        Seq::empty()
    } else {
        spec_words_le(s.drop_last()) + u64_le(s.last() as u64)
    }
}

/// What a run of instructions ends with: the returned bytes or an error, and
/// the total gas consumed.
pub struct WasmOutcome {
    pub result: Result<Seq<u8>, WasmError>,
    pub used: u64,
}

/// Reference semantics of running `instrs` from index `i`: each instruction
/// first charges one unit of gas.
pub open spec fn spec_exec_from(
    instrs: Seq<Instruction>,
    i: int,
    stack: Seq<i64>,
    inputs: Seq<i64>,
    used: u64,
    limit: u64,
) -> WasmOutcome
    decreases instrs.len() - i,
{
    if i < 0 || i >= instrs.len() {
        WasmOutcome { result: Err(WasmError::MissingReturn), used }
    } else if used + 1 > limit {
        WasmOutcome { result: Err(WasmError::OutOfGas), used }
    } else {
        let u1 = (used + 1) as u64;
        let n = stack.len() as int;
        match instrs[i] {
            Instruction::Nop => spec_exec_from(instrs, i + 1, stack, inputs, u1, limit),
            Instruction::PushConst(v) => spec_exec_from(instrs, i + 1, stack.push(v), inputs, u1, limit),
            Instruction::PushInput(idx) => if (idx as int) < inputs.len() {
                spec_exec_from(instrs, i + 1, stack.push(inputs[idx as int]), inputs, u1, limit)
            } else {
                WasmOutcome { result: Err(WasmError::MissingInput(idx as usize)), used: u1 }
            },
            Instruction::Return(count) => {
                let requested = if count == 0 { n } else { count as int };
                if requested > n {
                    WasmOutcome { result: Err(WasmError::ReturnTooLarge), used: u1 }
                } else {
                    WasmOutcome { result: Ok(spec_words_le(stack.subrange(n - requested, n))), used: u1 }
                }
            },
            op => if n < 2 {
                WasmOutcome { result: Err(WasmError::StackUnderflow), used: u1 }
            } else {
                let a = stack[n - 2];
                let b = stack[n - 1];
                let rest = stack.subrange(0, n - 2);
                match op {
                    Instruction::Add => spec_exec_from(instrs, i + 1, rest.push(spec_saturate(a + b)), inputs, u1, limit),
                    Instruction::Sub => spec_exec_from(instrs, i + 1, rest.push(spec_saturate(a - b)), inputs, u1, limit),
                    Instruction::Mul => spec_exec_from(instrs, i + 1, rest.push(spec_saturate(a * b)), inputs, u1, limit),
                    Instruction::Div => if b == 0 {
                        WasmOutcome { result: Err(WasmError::DivisionByZero), used: u1 }
                    } else if a == i64::MIN && b == -1 {
                        WasmOutcome { result: Err(WasmError::DivisionOverflow), used: u1 }
                    } else {
                        spec_exec_from(instrs, i + 1, rest.push(spec_trunc_div(a as int, b as int) as i64), inputs, u1, limit)
                    },
                    _ => spec_exec_from(instrs, i + 1, rest.push(if a == b { 1i64 } else { 0i64 }), inputs, u1, limit),
                }
            },
        }
    }
}

/// Reference semantics of `execute`: parse, check the version, decode the
/// inputs, then run the instructions.
pub open spec fn spec_wasm_execute(code: Seq<u8>, input: Seq<u8>, used: u64, limit: u64) -> WasmOutcome {
    match spec_parse_program(code) {
        Err(e) => WasmOutcome { result: Err(e), used },
        Ok((version, instrs)) => if version != VERSION_V1 {
            WasmOutcome { result: Err(WasmError::UnsupportedVersion(version)), used }
        } else if input.len() % 8 != 0 {
            WasmOutcome { result: Err(WasmError::MisalignedInputs), used }
        } else {
            spec_exec_from(instrs, 0, Seq::empty(), spec_inputs(input), used, limit)
        },
    }
}

/// Pops `b` then `a`.
fn pop_pair(stack: &mut Vec<i64>) -> (r: Result<(i64, i64), WasmError>)
    ensures
        old(stack)@.len() >= 2 ==> r == Ok::<(i64, i64), WasmError>(
            (old(stack)@[old(stack)@.len() - 2], old(stack)@.last()),
        ) && final(stack)@ == old(stack)@.subrange(0, old(stack)@.len() - 2),
        old(stack)@.len() < 2 ==> r == Err::<(i64, i64), WasmError>(WasmError::StackUnderflow),
{
    if stack.len() < 2 {
        return Err(WasmError::StackUnderflow);
    }
    let b = stack.pop().unwrap();
    let a = stack.pop().unwrap();
    assert(stack@ =~= old(stack)@.subrange(0, old(stack)@.len() - 2));
    Ok((a, b))
}

/// Saturating multiplication of two `i64` values.
fn mul_saturating(a: i64, b: i64) -> (r: i64)
    ensures
        r == spec_saturate(a * b),
{
    match a.checked_mul(b) {
        Some(v) => v,
        None => {
            if (a < 0) == (b < 0) {
                assert(a * b >= 0) by (nonlinear_arith)
                    requires
                        (a < 0) == (b < 0),
                ;
                i64::MAX
            } else {
                assert(a * b <= 0) by (nonlinear_arith)
                    requires
                        (a < 0) != (b < 0),
                ;
                i64::MIN
            }
        },
    }
}

/// Saturating addition of two `i64` values.
fn add_saturating(a: i64, b: i64) -> (r: i64)
    ensures
        r == spec_saturate(a + b),
{
    match a.checked_add(b) {
        Some(v) => v,
        None => if b > 0 { i64::MAX } else { i64::MIN },
    }
}

/// Saturating subtraction of two `i64` values.
fn sub_saturating(a: i64, b: i64) -> (r: i64)
    ensures
        r == spec_saturate(a - b),
{
    match a.checked_sub(b) {
        Some(v) => v,
        None => if b < 0 { i64::MAX } else { i64::MIN },
    }
}

/// Division rounding toward zero; `b` is non-zero and the quotient fits.
fn div_trunc(a: i64, b: i64) -> (r: i64)
    requires
        b != 0,
        !(a == i64::MIN && b == -1),
    ensures
        r == spec_trunc_div(a as int, b as int),
{
    let ua: u64 = if a >= 0 { a as u64 } else if a == i64::MIN { 0x8000_0000_0000_0000u64 } else { (-a) as u64 };
    let ub: u64 = if b >= 0 { b as u64 } else if b == i64::MIN { 0x8000_0000_0000_0000u64 } else { (-b) as u64 };
    assert(ua == (if a >= 0 { a as int } else { -a }));
    assert(ub == (if b >= 0 { b as int } else { -b }));
    let q = ua / ub;
    if (a >= 0) == (b > 0) {
        assert(q <= i64::MAX) by (nonlinear_arith)
            requires
                q == ua / ub,
                ub >= 1,
                ua <= 0x8000_0000_0000_0000,
                ub == 1 ==> ua <= 0x7fff_ffff_ffff_ffff,
        ;
        q as i64
    } else {
        assert(q <= 0x8000_0000_0000_0000u64) by (nonlinear_arith)
            requires
                q == ua / ub,
                ub >= 1,
                ua <= 0x8000_0000_0000_0000,
        ;
        if q == 0x8000_0000_0000_0000u64 {
            i64::MIN
        } else {
            -(q as i64)
        }
    }
}

/// Appends the encoding of `stack[start..]`.
fn write_words(stack: &Vec<i64>, start: usize) -> (out: Vec<u8>)
    requires
        start <= stack@.len(),
    ensures
        out@ == spec_words_le(stack@.subrange(start as int, stack@.len() as int)),
{
    let mut out: Vec<u8> = Vec::new();
    let mut j: usize = start;
    while j < stack.len()
        invariant
            start <= j <= stack@.len(),
            out@ == spec_words_le(stack@.subrange(start as int, j as int)),
        decreases stack@.len() - j,
    {
        push_u64_le(&mut out, stack[j] as u64);
        let ghost s = stack@.subrange(start as int, j + 1);
        assert(s.drop_last() =~= stack@.subrange(start as int, j as int));
        j = j + 1;
    }
    out
}

/// Executes a module against the input, returning the bytes written by its
/// `return` instruction.  The result and the gas charged follow
/// `spec_wasm_execute`.  Dividing `i64::MIN` by -1 has no `i64` result;
/// programs that reach it are outside the contract.
pub fn execute(code: &[u8], input: &[u8], meter: &mut GasMeter) -> (r: Result<Vec<u8>, WasmError>)
    requires
        old(meter).wf(),
        spec_wasm_execute(code@, input@, old(meter).spec_used(), old(meter).spec_limit()).result
            != Err::<Seq<u8>, WasmError>(WasmError::DivisionOverflow),
    ensures
        final(meter).wf(),
        final(meter).spec_limit() == old(meter).spec_limit(),
        final(meter).spec_used() == spec_wasm_execute(code@, input@, old(meter).spec_used(), old(meter).spec_limit()).used,
        match r {
            Ok(out) => spec_wasm_execute(code@, input@, old(meter).spec_used(), old(meter).spec_limit()).result
                == Ok::<Seq<u8>, WasmError>(out@),
            Err(e) => spec_wasm_execute(code@, input@, old(meter).spec_used(), old(meter).spec_limit()).result
                == Err::<Seq<u8>, WasmError>(e),
        },
{
    let (version, instructions) = match parse_program(code) {
        Ok(p) => p,
        Err(e) => return Err(e),
    };
    if version != VERSION_V1 {
        return Err(WasmError::UnsupportedVersion(version));
    }
    let inputs = match decode_inputs(input) {
        Ok(v) => v,
        Err(e) => return Err(e),
    };
    let ghost target = spec_wasm_execute(code@, input@, old(meter).spec_used(), old(meter).spec_limit());
    let mut stack: Vec<i64> = Vec::new();
    let mut i: usize = 0;
    while i < instructions.len()
        invariant
            i <= instructions@.len(),
            meter.wf(),
            meter.spec_limit() == old(meter).spec_limit(),
            inputs@ == spec_inputs(input@),
            target == spec_wasm_execute(code@, input@, old(meter).spec_used(), old(meter).spec_limit()),
            target.result != Err::<Seq<u8>, WasmError>(WasmError::DivisionOverflow),
            spec_exec_from(instructions@, i as int, stack@, inputs@, meter.spec_used(), meter.spec_limit())
                == target,
        decreases instructions@.len() - i,
    {
        if meter.charge(1).is_err() {
            return Err(WasmError::OutOfGas);
        }
        let instr = instructions[i];
        i = i + 1;
        match instr {
            Instruction::Nop => {},
            Instruction::PushConst(value) => {
                stack.push(value);
            },
            Instruction::PushInput(index) => {
                let idx = index as usize;
                if idx < inputs.len() {
                    stack.push(inputs[idx]);
                } else {
                    return Err(WasmError::MissingInput(idx));
                }
            },
            Instruction::Return(count) => {
                let requested = if count == 0 { stack.len() } else { count };
                if requested > stack.len() {
                    return Err(WasmError::ReturnTooLarge);
                }
                let start = stack.len() - requested;
                let out = write_words(&stack, start);
                return Ok(out);
            },
            Instruction::Add => {
                let (a, b) = pop_pair(&mut stack)?;
                stack.push(add_saturating(a, b));
            },
            Instruction::Sub => {
                let (a, b) = pop_pair(&mut stack)?;
                stack.push(sub_saturating(a, b));
            },
            Instruction::Mul => {
                let (a, b) = pop_pair(&mut stack)?;
                stack.push(mul_saturating(a, b));
            },
            Instruction::Div => {
                let (a, b) = pop_pair(&mut stack)?;
                if b == 0 {
                    return Err(WasmError::DivisionByZero);
                }
                stack.push(div_trunc(a, b));
            },
            Instruction::Eq => {
                let (a, b) = pop_pair(&mut stack)?;
                stack.push(if a == b { 1 } else { 0 });
            },
        }
    }
    Err(WasmError::MissingReturn)
}

/// Minimal metadata about a module required by tooling.
#[derive(Debug, Clone, PartialEq, Eq)]
pub struct ModuleMetadata {
    pub version: u8,
    pub instruction_count: usize,
    pub required_inputs: usize,
    pub return_values: Option<usize>,
}

/// The text of a module's metadata, as stored beside a deployed contract:
/// `version=..;instructions=..;inputs=..;return_values=..` and a newline,
/// with 0 for no return count.
pub open spec fn spec_metadata_text(m: ModuleMetadata) -> Seq<char> {
    "version="@ + ascii_chars(spec_decimal(m.version as nat)) + ";instructions="@ + ascii_chars(
        spec_decimal(m.instruction_count as nat),
    ) + ";inputs="@ + ascii_chars(spec_decimal(m.required_inputs as nat)) + ";return_values="@ + ascii_chars(
        spec_decimal(
            match m.return_values {
                Some(r) => r as nat,
                None => 0,
            },
        ),
    ) + "\n"@
}

impl ModuleMetadata {
    /// The metadata as readable ASCII bytes.
    pub fn encode(&self) -> (r: Vec<u8>)
        ensures
            ascii_chars(r@) == spec_metadata_text(*self),
    {
        let mut out: Vec<u8> = Vec::new();
        proof {
            reveal_strlit("version=");
            reveal_strlit(";instructions=");
            reveal_strlit(";inputs=");
            reveal_strlit(";return_values=");
            reveal_strlit("\n");
        }
        push_ascii(&mut out, "version=");
        let ghost o1 = out@;
        push_decimal(&mut out, self.version as u64);
        assert(ascii_chars(out@) =~= ascii_chars(o1) + ascii_chars(spec_decimal(self.version as nat)));
        push_ascii(&mut out, ";instructions=");
        let ghost o2 = out@;
        push_decimal(&mut out, self.instruction_count as u64);
        assert(ascii_chars(out@) =~= ascii_chars(o2) + ascii_chars(spec_decimal(self.instruction_count as nat)));
        push_ascii(&mut out, ";inputs=");
        let ghost o3 = out@;
        push_decimal(&mut out, self.required_inputs as u64);
        assert(ascii_chars(out@) =~= ascii_chars(o3) + ascii_chars(spec_decimal(self.required_inputs as nat)));
        push_ascii(&mut out, ";return_values=");
        let rv: usize = match self.return_values {
            Some(r) => r,
            None => 0,
        };
        let ghost o4 = out@;
        push_decimal(&mut out, rv as u64);
        assert(ascii_chars(out@) =~= ascii_chars(o4) + ascii_chars(spec_decimal(rv as nat)));
        push_ascii(&mut out, "\n");
        assert(ascii_chars(Seq::<u8>::empty()) =~= Seq::<char>::empty());
        assert(ascii_chars(out@) =~= spec_metadata_text(*self));
        out
    }
}

/// One more than the largest input index pushed by `instrs[..k]`, or 0.
pub open spec fn spec_required_inputs(instrs: Seq<Instruction>, k: int) -> int
    decreases k,
{
    if k <= 0 {
        0
    } else {
        let prev = spec_required_inputs(instrs, k - 1);
        match instrs[k - 1] {
            Instruction::PushInput(idx) => if idx + 1 > prev { idx + 1 } else { prev },
            _ => prev,
        }
    }
}

/// The count of the last `Return` among `instrs[..k]`, if any.
pub open spec fn spec_last_return(instrs: Seq<Instruction>, k: int) -> Option<usize>
    decreases k,
{
    if k <= 0 {
        None
    } else {
        match instrs[k - 1] {
            Instruction::Return(c) => Some(c),
            _ => spec_last_return(instrs, k - 1),
        }
    }
}

/// Analyzes the module: version, instruction count, number of inputs it
/// reads and the count of its last return instruction.
pub fn analyze(code: &[u8]) -> (r: Result<ModuleMetadata, WasmError>)
    ensures
        match r {
            Ok(m) => spec_parse_program(code@) matches Ok((v, is)) && m.version == v
                && m.instruction_count == is.len() && m.required_inputs == spec_required_inputs(
                is,
                is.len() as int,
            ) && m.return_values == spec_last_return(is, is.len() as int),
            Err(e) => spec_parse_program(code@) == Err::<(u8, Seq<Instruction>), WasmError>(e),
        },
{
    let (version, instructions) = parse_program(code)?;
    let mut required: usize = 0;
    let mut return_values: Option<usize> = None;
    let mut k: usize = 0;
    while k < instructions.len()
        invariant
            k <= instructions@.len(),
            required == spec_required_inputs(instructions@, k as int),
            required <= 256,
            return_values == spec_last_return(instructions@, k as int),
        decreases instructions@.len() - k,
    {
        match instructions[k] {
            Instruction::PushInput(index) => {
                let needed = index as usize + 1;
                if needed > required {
                    required = needed;
                }
            },
            Instruction::Return(values) => {
                return_values = Some(values);
            },
            _ => {},
        }
        k = k + 1;
    }
    Ok(ModuleMetadata {
        version,
        instruction_count: instructions.len(),
        required_inputs: required,
        return_values,
    })
}

/// The instructions of a module, for debugging utilities.
pub fn disassemble(code: &[u8]) -> (r: Result<Vec<Instruction>, WasmError>)
    ensures
        match r {
            Ok(is) => spec_parse_program(code@) matches Ok((_, p)) && p == is@,
            Err(e) => spec_parse_program(code@) == Err::<(u8, Seq<Instruction>), WasmError>(e),
        },
{
    let (_, instructions) = parse_program(code)?;
    Ok(instructions)
}

} // verus!

verus! {

/// The module `PushConst a; PushConst b; <op>; Return 1`, with `op` given
/// by its byte, under the current version.
pub open spec fn two_operand_module(a: i64, b: i64, op: u8) -> Seq<u8> {
    spec_magic() + seq![VERSION_V1] + seq![opcodes::PUSH_I64] + u64_le(a as u64) + seq![opcodes::PUSH_I64] + u64_le(
        b as u64,
    ) + seq![op, opcodes::RETURN, 1u8]
}

/// Reinterpreting an `i64` as a `u64` and back gives it unchanged.
proof fn lemma_i64_u64_roundtrip(a: i64)
    ensures
        ((a as u64) as i64) == a,
{
    assert(((a as u64) as i64) == a) by (bit_vector);
}

proof fn lemma_two_operand_parse(a: i64, b: i64, op: u8, ins: Instruction)
    requires
        spec_decode_instr(seq![op], 0) == Ok::<(Instruction, int), WasmError>((ins, 1)),
    ensures
        spec_parse_program(two_operand_module(a, b, op)) == Ok::<(u8, Seq<Instruction>), WasmError>(
            (VERSION_V1, seq![Instruction::PushConst(a), Instruction::PushConst(b), ins, Instruction::Return(1)]),
        ),
{
    let code = two_operand_module(a, b, op);
    crate::le::lemma_u64_roundtrip(a as u64);
    crate::le::lemma_u64_roundtrip(b as u64);
    assert(code.len() == 26);
    assert(code.subrange(0, 4) =~= spec_magic());
    assert(code[4] == VERSION_V1);
    assert(code[5] == opcodes::PUSH_I64);
    assert(code.subrange(6, 14) =~= u64_le(a as u64));
    assert(code[14] == opcodes::PUSH_I64);
    assert(code.subrange(15, 23) =~= u64_le(b as u64));
    assert(code[23] == op);
    assert(code[24] == opcodes::RETURN);
    assert(code[25] == 1u8);
    lemma_i64_u64_roundtrip(a);
    lemma_i64_u64_roundtrip(b);
    assert(spec_decode_instr(code, 23) == Ok::<(Instruction, int), WasmError>((ins, 24)));
    let e = Seq::<Instruction>::empty();
    let a1 = e.push(Instruction::PushConst(a));
    let a2 = a1.push(Instruction::PushConst(b));
    let a3 = a2.push(ins);
    let a4 = a3.push(Instruction::Return(1));
    assert(spec_parse_from(code, 26, a4) == Ok::<Seq<Instruction>, WasmError>(a4));
    assert(spec_parse_from(code, 24, a3) == spec_parse_from(code, 26, a4));
    assert(spec_parse_from(code, 23, a2) == spec_parse_from(code, 24, a3));
    assert(spec_parse_from(code, 14, a1) == spec_parse_from(code, 23, a2));
    assert(spec_parse_from(code, 5, e) == spec_parse_from(code, 14, a1));
    assert(a4 =~= seq![Instruction::PushConst(a), Instruction::PushConst(b), ins, Instruction::Return(1)]);
}

/// Running `PushConst a; PushConst b; <op>; Return 1` on no input gives the
/// little-endian bytes of the word left by `op`.
proof fn lemma_two_operand_exec(a: i64, b: i64, ins: Instruction, v: i64, used: u64, limit: u64)
    requires
        used + 4 <= limit,
        ins == Instruction::Add || ins == Instruction::Sub || ins == Instruction::Mul || ins == Instruction::Eq,
        v == match ins {
            Instruction::Add => spec_saturate(a + b),
            Instruction::Sub => spec_saturate(a - b),
            Instruction::Mul => spec_saturate(a * b),
            _ => if a == b { 1i64 } else { 0i64 },
        },
    ensures
        spec_exec_from(
            seq![Instruction::PushConst(a), Instruction::PushConst(b), ins, Instruction::Return(1)],
            0,
            Seq::empty(),
            Seq::empty(),
            used,
            limit,
        ).result == Ok::<Seq<u8>, WasmError>(u64_le(v as u64)),
{
    let is = seq![Instruction::PushConst(a), Instruction::PushConst(b), ins, Instruction::Return(1)];
    let e = Seq::<i64>::empty();
    let s1 = e.push(a);
    let s2 = s1.push(b);
    let s3 = e.push(v);
    assert(s2.subrange(0, 0) =~= e);
    assert(s2[0] == a && s2[1] == b);
    assert(s3.subrange(0, 1) =~= s3);
    assert(s3.drop_last() =~= e);
    assert(spec_words_le(e) == Seq::<u8>::empty());
    assert(s3.last() == v);
    assert(spec_words_le(s3) == spec_words_le(e) + u64_le(v as u64));
    assert(spec_words_le(s3) =~= u64_le(v as u64));
    let u1 = (used + 1) as u64;
    let u2 = (used + 2) as u64;
    let u3 = (used + 3) as u64;
    assert(spec_exec_from(is, 3, s3, e, u3, limit).result == Ok::<Seq<u8>, WasmError>(u64_le(v as u64)));
    assert(spec_exec_from(is, 2, s2, e, u2, limit) == spec_exec_from(is, 3, s3, e, u3, limit));
    assert(spec_exec_from(is, 1, s1, e, u1, limit) == spec_exec_from(is, 2, s2, e, u2, limit));
    assert(spec_exec_from(is, 0, e, e, used, limit) == spec_exec_from(is, 1, s1, e, u1, limit));
}

/// The little-endian bytes of 0 and 1.
proof fn lemma_le_bytes_of_bit(x: u64)
    requires
        x <= 1,
    ensures
        u64_le(x) =~= seq![x as u8, 0u8, 0u8, 0u8, 0u8, 0u8, 0u8, 0u8],
{
    assert((x & 0xff) == x && ((x >> 8) & 0xff) == 0 && ((x >> 16) & 0xff) == 0 && ((x >> 24) & 0xff) == 0
        && ((x >> 32) & 0xff) == 0 && ((x >> 40) & 0xff) == 0 && ((x >> 48) & 0xff) == 0 && ((x >> 56) & 0xff)
        == 0) by (bit_vector)
        requires
            x <= 1,
    ;
}

/// `Eq` compares the two words on top: the module
/// `PushConst a; PushConst b; Eq; Return 1` returns the 8-byte
/// little-endian 1 when `a == b` and 0 when they differ, for every `a`, `b`.
pub proof fn law_eq_compares(a: i64, b: i64, used: u64, limit: u64)
    requires
        used + 4 <= limit,
    ensures
        a == b ==> spec_wasm_execute(two_operand_module(a, b, opcodes::EQ_I64), Seq::empty(), used, limit).result
            == Ok::<Seq<u8>, WasmError>(seq![1u8, 0u8, 0u8, 0u8, 0u8, 0u8, 0u8, 0u8]),
        a != b ==> spec_wasm_execute(two_operand_module(a, b, opcodes::EQ_I64), Seq::empty(), used, limit).result
            == Ok::<Seq<u8>, WasmError>(seq![0u8, 0u8, 0u8, 0u8, 0u8, 0u8, 0u8, 0u8]),
{
    lemma_two_operand_parse(a, b, opcodes::EQ_I64, Instruction::Eq);
    assert(spec_inputs(Seq::empty()) =~= Seq::<i64>::empty());
    let v: i64 = if a == b { 1i64 } else { 0i64 };
    lemma_two_operand_exec(a, b, Instruction::Eq, v, used, limit);
    lemma_le_bytes_of_bit(1u64);
    lemma_le_bytes_of_bit(0u64);
}

/// `Sub` takes the word pushed second from the word pushed first, clamped to
/// the `i64` range: `PushConst a; PushConst b; Sub; Return 1` returns the
/// little-endian bytes of `a - b` when it fits, else of the nearest bound.
pub proof fn law_sub_takes_top_from_below(a: i64, b: i64, used: u64, limit: u64)
    requires
        used + 4 <= limit,
    ensures
        ({
            let d = a as int - b as int;
            let expected: i64 = if d > i64::MAX { i64::MAX } else if d < i64::MIN { i64::MIN } else { d as i64 };
            spec_wasm_execute(two_operand_module(a, b, opcodes::SUB_I64), Seq::empty(), used, limit).result
                == Ok::<Seq<u8>, WasmError>(u64_le(expected as u64))
        }),
{
    lemma_two_operand_parse(a, b, opcodes::SUB_I64, Instruction::Sub);
    assert(spec_inputs(Seq::empty()) =~= Seq::<i64>::empty());
    lemma_two_operand_exec(a, b, Instruction::Sub, spec_saturate(a - b), used, limit);
}

/// `Add` clamps its sum to the `i64` range: `PushConst a; PushConst b; Add;
/// Return 1` returns the little-endian bytes of `a + b` when it fits, else
/// of the nearest bound.
pub proof fn law_add_saturates(a: i64, b: i64, used: u64, limit: u64)
    requires
        used + 4 <= limit,
    ensures
        ({
            let s = a as int + b as int;
            let expected: i64 = if s > i64::MAX { i64::MAX } else if s < i64::MIN { i64::MIN } else { s as i64 };
            spec_wasm_execute(two_operand_module(a, b, opcodes::ADD_I64), Seq::empty(), used, limit).result
                == Ok::<Seq<u8>, WasmError>(u64_le(expected as u64))
        }),
{
    lemma_two_operand_parse(a, b, opcodes::ADD_I64, Instruction::Add);
    assert(spec_inputs(Seq::empty()) =~= Seq::<i64>::empty());
    lemma_two_operand_exec(a, b, Instruction::Add, spec_saturate(a + b), used, limit);
}

/// `Mul` clamps its product to the `i64` range: `PushConst a; PushConst b;
/// Mul; Return 1` returns the little-endian bytes of `a * b` when it fits,
/// else of the nearest bound.
pub proof fn law_mul_saturates(a: i64, b: i64, used: u64, limit: u64)
    requires
        used + 4 <= limit,
    ensures
        ({
            let m = a as int * b as int;
            let expected: i64 = if m > i64::MAX { i64::MAX } else if m < i64::MIN { i64::MIN } else { m as i64 };
            spec_wasm_execute(two_operand_module(a, b, opcodes::MUL_I64), Seq::empty(), used, limit).result
                == Ok::<Seq<u8>, WasmError>(u64_le(expected as u64))
        }),
{
    lemma_two_operand_parse(a, b, opcodes::MUL_I64, Instruction::Mul);
    assert(spec_inputs(Seq::empty()) =~= Seq::<i64>::empty());
    lemma_two_operand_exec(a, b, Instruction::Mul, spec_saturate(a * b), used, limit);
}

/// Division rounding toward zero leaves a remainder smaller than the
/// divisor in size and of the dividend's sign, and a quotient no larger in
/// size than the dividend.
proof fn lemma_trunc_div_props(a: int, b: int)
    requires
        b != 0,
    ensures
        ({
            let q = spec_trunc_div(a, b);
            let r = a - q * b;
            &&& (if r >= 0 { r } else { -r }) < (if b >= 0 { b } else { -b })
            &&& (r == 0 || (r > 0) == (a > 0))
            &&& (if q >= 0 { q } else { -q }) <= (if a >= 0 { a } else { -a })
        }),
{
    let q = spec_trunc_div(a, b);
    if a >= 0 && b > 0 {
        vstd::arithmetic::div_mod::lemma_fundamental_div_mod(a, b);
        vstd::arithmetic::div_mod::lemma_mod_pos_bound(a, b);
        vstd::arithmetic::div_mod::lemma_div_pos_is_pos(a, b);
        vstd::arithmetic::div_mod::lemma_div_nonincreasing(a, b);
        assert(a - q * b == a % b);
    } else if a < 0 && b < 0 {
        vstd::arithmetic::div_mod::lemma_fundamental_div_mod(-a, -b);
        vstd::arithmetic::div_mod::lemma_mod_pos_bound(-a, -b);
        vstd::arithmetic::div_mod::lemma_div_pos_is_pos(-a, -b);
        vstd::arithmetic::div_mod::lemma_div_nonincreasing(-a, -b);
        assert(q == (-a) / (-b));
        assert(a - q * b == -((-a) % (-b))) by (nonlinear_arith)
            requires
                -a == (-b) * ((-a) / (-b)) + (-a) % (-b),
                q == (-a) / (-b),
        ;
    } else if a >= 0 {
        vstd::arithmetic::div_mod::lemma_fundamental_div_mod(a, -b);
        vstd::arithmetic::div_mod::lemma_mod_pos_bound(a, -b);
        vstd::arithmetic::div_mod::lemma_div_pos_is_pos(a, -b);
        vstd::arithmetic::div_mod::lemma_div_nonincreasing(a, -b);
        assert(q == -(a / (-b)));
        assert(a - q * b == a % (-b)) by (nonlinear_arith)
            requires
                a == (-b) * (a / (-b)) + a % (-b),
                q == -(a / (-b)),
        ;
    } else {
        vstd::arithmetic::div_mod::lemma_fundamental_div_mod(-a, b);
        vstd::arithmetic::div_mod::lemma_mod_pos_bound(-a, b);
        vstd::arithmetic::div_mod::lemma_div_pos_is_pos(-a, b);
        vstd::arithmetic::div_mod::lemma_div_nonincreasing(-a, b);
        assert(q == -((-a) / b));
        assert(a - q * b == -((-a) % b)) by (nonlinear_arith)
            requires
                -a == b * ((-a) / b) + (-a) % b,
                q == -((-a) / b),
        ;
    }
}

/// `Div` divides the word pushed first by the word pushed second, rounding
/// toward zero: for `b != 0` (and not `i64::MIN / -1`),
/// `PushConst a; PushConst b; Div; Return 1` returns the little-endian bytes
/// of a quotient `q` with `a == q * b + r`, where the remainder `r` is
/// smaller than `b` in size and zero or of `a`'s sign.
pub proof fn law_div_truncates(a: i64, b: i64, used: u64, limit: u64)
    requires
        used + 4 <= limit,
        b != 0,
        !(a == i64::MIN && b == -1),
    ensures
        exists|q: i64|
            spec_wasm_execute(two_operand_module(a, b, opcodes::DIV_I64), Seq::empty(), used, limit).result
                == Ok::<Seq<u8>, WasmError>(#[trigger] u64_le(q as u64)) && {
                let r = a as int - q as int * b as int;
                &&& (if r >= 0 { r } else { -r }) < (if b >= 0 { b as int } else { -b })
                &&& (r == 0 || (r > 0) == (a > 0))
            },
{
    lemma_two_operand_parse(a, b, opcodes::DIV_I64, Instruction::Div);
    assert(spec_inputs(Seq::empty()) =~= Seq::<i64>::empty());
    lemma_trunc_div_props(a as int, b as int);
    let qi = spec_trunc_div(a as int, b as int);
    if qi > i64::MAX {
        let r = a as int - qi * b as int;
        assert(qi == 0x8000_0000_0000_0000int);
        assert(a == i64::MIN);
        assert(b < 0) by (nonlinear_arith)
            requires
                qi > 0,
                a < 0,
                r == a as int - qi * b as int,
                (r == 0 || (r > 0) == (a > 0)),
                (if r >= 0 { r } else { -r }) < (if b >= 0 { b as int } else { -b }),
        ;
        assert(b <= -2);
        assert(false) by (nonlinear_arith)
            requires
                qi == 0x8000_0000_0000_0000int,
                b <= -2,
                b >= -0x8000_0000_0000_0000int,
                r == a as int - qi * b as int,
                a as int == -0x8000_0000_0000_0000int,
                (if r >= 0 { r } else { -r }) < -b,
        ;
    }
    assert(i64::MIN <= qi <= i64::MAX);
    let q = qi as i64;
    let is = seq![Instruction::PushConst(a), Instruction::PushConst(b), Instruction::Div, Instruction::Return(1)];
    let e = Seq::<i64>::empty();
    let s1 = e.push(a);
    let s2 = s1.push(b);
    let s3 = e.push(q);
    assert(s2.subrange(0, 0) =~= e);
    assert(s2[0] == a && s2[1] == b);
    assert(s3.subrange(0, 1) =~= s3);
    assert(s3.drop_last() =~= e);
    assert(spec_words_le(e) == Seq::<u8>::empty());
    assert(spec_words_le(s3) == spec_words_le(e) + u64_le(q as u64));
    assert(spec_words_le(s3) =~= u64_le(q as u64));
    let u1 = (used + 1) as u64;
    let u2 = (used + 2) as u64;
    let u3 = (used + 3) as u64;
    assert(spec_exec_from(is, 2, s2, e, u2, limit) == spec_exec_from(is, 3, s3, e, u3, limit));
    assert(spec_exec_from(is, 1, s1, e, u1, limit) == spec_exec_from(is, 2, s2, e, u2, limit));
    assert(spec_exec_from(is, 0, e, e, used, limit) == spec_exec_from(is, 1, s1, e, u1, limit));
    assert(q as int == qi);
    let _ = u64_le(q as u64);
}

} // verus!
