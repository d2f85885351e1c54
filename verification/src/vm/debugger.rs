//! A single-step debugger for the bytecode VM that records a trace.

use vstd::prelude::*;
use crate::hashing::{blake3_hash, spec_blake3};
use crate::le::{le_u64, push_u64_le, read_u64_le, u64_le};
use crate::vm::exec::{spec_binop, spec_hash_word};
use crate::vm::gas::{self, GasMeter, spec_cost, GAS_HASH, GAS_IMMEDIATE, GAS_STORAGE_READ, GAS_STORAGE_WRITE};
use crate::vm::opcodes::{OpCode, spec_op_from_byte, spec_op_name};
use crate::vm::state::{ContractId, ContractView, State};

verus! {

/// One recorded step: the position of the opcode, its name, and the stack and
/// storage after it.
#[derive(Clone, Debug, PartialEq)]
pub struct TraceStep {
    pub pc: usize,
    pub op: String,
    pub stack: Vec<u64>,
    pub storage: Vec<u8>,
}

/// The abstract content of a trace step.
pub struct StepView {
    pub pc: usize,
    pub op: Seq<char>,
    pub stack: Seq<u64>,
    pub storage: Seq<u8>,
}

/// The abstract content of a trace step.
pub open spec fn step_view(s: TraceStep) -> StepView {
    StepView { pc: s.pc, op: s.op@, stack: s.stack@, storage: s.storage@ }
}

/// The debugger's machine state.
pub struct DbgState {
    pub pc: int,
    pub stack: Seq<u64>,
    pub used: u64,
    pub storage: Option<Seq<u8>>,
}

/// The outcome of one step: the machine continues, halts (recording the halt)
/// or stops without recording anything, in each case with the state it
/// leaves.
pub enum DbgStep {
    Next(DbgState),
    Halt(DbgState),
    Stop(DbgState),
}

/// The stored word the debugger's `Load` reads.
pub open spec fn spec_dbg_load(storage: Option<Seq<u8>>) -> u64 {
    match storage {
        Some(s) => if s.len() >= 8 { le_u64(s) } else { 0 },
        None => 0,
    }
}

/// One debugger step from state `s` (gas limit `u64::MAX`).  The program
/// counter moves past the opcode before anything can fail, and a failure keeps
/// every effect that came before it.
pub open spec fn spec_dbg_step(code: Seq<u8>, s: DbgState) -> DbgStep {
    let pc = s.pc;
    let stack = s.stack;
    let used = s.used;
    let st = s.storage;
    if pc < 0 || pc >= code.len() {
        DbgStep::Stop(s)
    } else {
        match spec_op_from_byte(code[pc]) {
            None => DbgStep::Stop(s),
            Some(op) => {
                let p = pc + 1;
                let c = spec_cost(op);
                let n = stack.len() as int;
                match op {
                    OpCode::Halt => DbgStep::Halt(DbgState { pc: p, ..s }),
                    OpCode::Push => if p + 8 > code.len() {
                        DbgStep::Stop(DbgState { pc: p, ..s })
                    } else if used + c > u64::MAX {
                        DbgStep::Stop(DbgState { pc: p + 8, ..s })
                    } else if used + c + GAS_IMMEDIATE > u64::MAX {
                        DbgStep::Stop(DbgState { pc: p + 8, used: (used + c) as u64, ..s })
                    } else {
                        DbgStep::Next(
                            DbgState {
                                pc: p + 8,
                                stack: stack.push(le_u64(code.subrange(p, p + 8))),
                                used: (used + c + GAS_IMMEDIATE) as u64,
                                storage: st,
                            },
                        )
                    },
                    OpCode::Load => if used + c > u64::MAX {
                        DbgStep::Stop(DbgState { pc: p, ..s })
                    } else if used + c + GAS_STORAGE_READ > u64::MAX {
                        DbgStep::Stop(DbgState { pc: p, used: (used + c) as u64, ..s })
                    } else {
                        DbgStep::Next(
                            DbgState {
                                pc: p,
                                stack: stack.push(spec_dbg_load(st)),
                                used: (used + c + GAS_STORAGE_READ) as u64,
                                storage: st,
                            },
                        )
                    },
                    OpCode::Store => if used + c > u64::MAX {
                        DbgStep::Stop(DbgState { pc: p, ..s })
                    } else if n < 1 {
                        DbgStep::Stop(DbgState { pc: p, used: (used + c) as u64, ..s })
                    } else if used + c + GAS_STORAGE_WRITE > u64::MAX {
                        DbgStep::Stop(
                            DbgState { pc: p, used: (used + c) as u64, stack: stack.drop_last(), storage: st },
                        )
                    } else {
                        DbgStep::Next(
                            DbgState {
                                pc: p,
                                stack: stack.drop_last(),
                                used: (used + c + GAS_STORAGE_WRITE) as u64,
                                storage: Some(u64_le(stack.last())),
                            },
                        )
                    },
                    OpCode::Hash => if used + c > u64::MAX {
                        DbgStep::Stop(DbgState { pc: p, ..s })
                    } else if n < 1 {
                        DbgStep::Stop(DbgState { pc: p, used: (used + c) as u64, ..s })
                    } else if used + c + GAS_HASH > u64::MAX {
                        DbgStep::Stop(
                            DbgState { pc: p, used: (used + c) as u64, stack: stack.drop_last(), storage: st },
                        )
                    } else {
                        DbgStep::Next(
                            DbgState {
                                pc: p,
                                stack: stack.drop_last().push(spec_hash_word(stack.last())),
                                used: (used + c + GAS_HASH) as u64,
                                storage: st,
                            },
                        )
                    },
                    _ => if used + c > u64::MAX {
                        DbgStep::Stop(DbgState { pc: p, ..s })
                    } else if n < 1 {
                        DbgStep::Stop(DbgState { pc: p, used: (used + c) as u64, ..s })
                    } else if (op == OpCode::Div || op == OpCode::Mod) && stack.last() == 0 {
                        DbgStep::Stop(
                            DbgState { pc: p, used: (used + c) as u64, stack: stack.drop_last(), storage: st },
                        )
                    } else if n < 2 {
                        DbgStep::Stop(
                            DbgState { pc: p, used: (used + c) as u64, stack: stack.drop_last(), storage: st },
                        )
                    } else {
                        DbgStep::Next(
                            DbgState {
                                pc: p,
                                stack: stack.subrange(0, n - 2).push(spec_binop(op, stack[n - 2], stack[n - 1])),
                                used: (used + c) as u64,
                                storage: st,
                            },
                        )
                    },
                }
            },
        }
    }
}

/// The step recorded for an opcode at `pc` leaving state `s`.
pub open spec fn spec_record(code: Seq<u8>, pc: int, s: DbgState) -> StepView {
    StepView {
        pc: pc as usize,
        op: spec_op_name(spec_op_from_byte(code[pc]).unwrap())@,
        stack: s.stack,
        storage: match s.storage {
            Some(b) => b,
            None => Seq::empty(),
        },
    }
}

/// Running from state `s` with trace `trace`: stop at the end of the code
/// or at a breakpoint; otherwise take one step, record it unless it
/// stopped, and go on after a plain step.
pub open spec fn spec_dbg_run(code: Seq<u8>, bps: Set<usize>, s: DbgState, trace: Seq<StepView>) -> (DbgState, Seq<StepView>)
    decreases code.len() - s.pc,
{
    if s.pc < 0 || s.pc >= code.len() || bps.contains(s.pc as usize) {
        (s, trace)
    } else {
        match spec_dbg_step(code, s) {
            DbgStep::Next(n) => if n.pc > s.pc {
                spec_dbg_run(code, bps, n, trace.push(spec_record(code, s.pc, n)))
            } else {
                (n, trace.push(spec_record(code, s.pc, n)))
            },
            DbgStep::Halt(n) => (n, trace.push(spec_record(code, s.pc, n))),
            DbgStep::Stop(n) => (n, trace),
        }
    }
}

/// A single-step debugger for the bytecode VM.
pub struct Debugger {
    code: Vec<u8>,
    pc: usize,
    stack: Vec<u64>,
    state: State,
    contract_id: ContractId,
    breakpoints: Vec<usize>,
    meter: GasMeter,
    trace: Vec<TraceStep>,
}

impl Debugger {
    /// The program being debugged.
    pub closed spec fn spec_code(&self) -> Seq<u8> {
        self.code@
    }

    /// The machine state.
    pub closed spec fn spec_state(&self) -> DbgState {
        DbgState {
            pc: self.pc as int,
            stack: self.stack@,
            used: self.meter.spec_used(),
            storage: self.state.spec_contracts()[self.contract_id as int].storage,
        }
    }

    /// The steps recorded so far.
    pub closed spec fn spec_trace(&self) -> Seq<StepView> {
        self.trace@.map_values(|t: TraceStep| step_view(t))
    }

    /// The breakpoints set so far.
    pub closed spec fn spec_breakpoints(&self) -> Set<usize> {
        self.breakpoints@.to_set()
    }

    /// Internal consistency of the debugger.
    pub closed spec fn wf(&self) -> bool {
        &&& self.state.spec_contracts().len() == 1
        &&& self.contract_id == 0
        &&& self.meter.spec_limit() == u64::MAX
        &&& self.meter.wf()
        &&& self.pc <= self.code@.len()
    }

    /// A debugger at the start of `code`, with the code deployed as its one
    /// contract.
    pub fn new(code: Vec<u8>) -> (d: Self)
        ensures
            d.wf(),
            d.spec_code() == code@,
            d.spec_state() == (DbgState { pc: 0, stack: Seq::empty(), used: 0, storage: None }),
            d.spec_trace() == Seq::<StepView>::empty(),
            d.spec_breakpoints() == Set::<usize>::empty(),
    {
        let mut state = State::new();
        let contract_id = state.deploy(code.clone());
        let d = Debugger {
            code,
            pc: 0,
            stack: Vec::new(),
            state,
            contract_id,
            breakpoints: Vec::new(),
            meter: GasMeter::new(u64::MAX),
            trace: Vec::new(),
        };
        assert(d.spec_trace() =~= Seq::<StepView>::empty());
        assert(d.spec_breakpoints() =~= Set::<usize>::empty());
        d
    }

    /// Stops `run` before the opcode at `pc`.
    pub fn add_breakpoint(&mut self, pc: usize)
        requires
            old(self).wf(),
        ensures
            final(self).wf(),
            final(self).spec_breakpoints() == old(self).spec_breakpoints().insert(pc),
            final(self).spec_code() == old(self).spec_code(),
            final(self).spec_state() == old(self).spec_state(),
            final(self).spec_trace() == old(self).spec_trace(),
    {
        self.breakpoints.push(pc);
        assert(self.spec_breakpoints() =~= old(self).spec_breakpoints().insert(pc)) by {
            assert(self.breakpoints@ == old(self).breakpoints@.push(pc));
            vstd::seq_lib::lemma_seq_contains_after_push(old(self).breakpoints@, pc, pc);
            assert forall|x: usize| self.spec_breakpoints().contains(x) <==> old(self).spec_breakpoints().insert(pc).contains(x) by {
                if x != pc {
                    vstd::seq_lib::lemma_seq_contains_after_push(old(self).breakpoints@, pc, x);
                }
            }
        }
    }

    fn has_breakpoint(&self, pc: usize) -> (b: bool)
        ensures
            b == self.spec_breakpoints().contains(pc),
    {
        let mut i: usize = 0;
        while i < self.breakpoints.len()
            invariant
                i <= self.breakpoints@.len(),
                forall|j: int| 0 <= j < i ==> self.breakpoints@[j] != pc,
            decreases self.breakpoints@.len() - i,
        {
            if self.breakpoints[i] == pc {
                assert(self.breakpoints@.contains(pc));
                return true;
            }
            i = i + 1;
        }
        false
    }

    fn load_word(&self) -> (v: u64)
        requires
            self.wf(),
        ensures
            v == spec_dbg_load(self.spec_state().storage),
    {
        match self.state.storage(self.contract_id) {
            Some(b) => if b.len() >= 8 {
                let v = read_u64_le(b.as_slice(), 0);
                assert(le_u64(b@.subrange(0, 8)) == le_u64(b@));
                v
            } else {
                0
            },
            None => 0,
        }
    }

    fn record(&mut self, at: usize, op: OpCode)
        requires
            old(self).wf(),
        ensures
            final(self).wf(),
            final(self).spec_code() == old(self).spec_code(),
            final(self).spec_state() == old(self).spec_state(),
            final(self).spec_breakpoints() == old(self).spec_breakpoints(),
            final(self).spec_trace() == old(self).spec_trace().push(
                StepView {
                    pc: at,
                    op: crate::vm::opcodes::spec_op_name(op)@,
                    stack: old(self).spec_state().stack,
                    storage: match old(self).spec_state().storage {
                        Some(b) => b,
                        None => Seq::empty(),
                    },
                },
            ),
    {
        let storage = match self.state.storage(self.contract_id) {
            Some(b) => b,
            None => Vec::new(),
        };
        let step = TraceStep { pc: at, op: op.name().to_owned(), stack: self.stack.clone(), storage };
        self.trace.push(step);
        assert(self.spec_trace() =~= old(self).spec_trace().push(step_view(step)));
    }

    /// Executes one opcode.  Returns the recorded step, or `None` when the
    /// program ends, halts (the halt itself is recorded) or fails.
    pub fn step(&mut self) -> (r: Option<TraceStep>)
        requires
            old(self).wf(),
        ensures
            final(self).wf(),
            final(self).spec_code() == old(self).spec_code(),
            final(self).spec_breakpoints() == old(self).spec_breakpoints(),
            match spec_dbg_step(old(self).spec_code(), old(self).spec_state()) {
                DbgStep::Next(s) => final(self).spec_state() == s && (r matches Some(t) && step_view(t)
                    == spec_record(old(self).spec_code(), old(self).spec_state().pc, s)
                    && final(self).spec_trace() == old(self).spec_trace().push(step_view(t))),
                DbgStep::Halt(s) => final(self).spec_state() == s && r is None
                    && final(self).spec_trace() == old(self).spec_trace().push(
                    spec_record(old(self).spec_code(), old(self).spec_state().pc, s),
                ),
                DbgStep::Stop(s) => final(self).spec_state() == s && r is None
                    && final(self).spec_trace() == old(self).spec_trace(),
            },
    {
        if self.pc >= self.code.len() {
            return None;
        }
        let at = self.pc;
        let op = match OpCode::from_byte(self.code[self.pc]) {
            Some(op) => op,
            None => return None,
        };
        self.pc = self.pc + 1;
        match op {
            OpCode::Halt => {
                if self.meter.charge(gas::cost(op)).is_err() {
                    return None;
                }
                self.record(at, op);
                return None;
            },
            OpCode::Push => {
                if self.code.len() < 8 || self.pc > self.code.len() - 8 {
                    return None;
                }
                let v = read_u64_le(self.code.as_slice(), self.pc);
                self.pc = self.pc + 8;
                if self.meter.charge(gas::cost(op)).is_err() {
                    return None;
                }
                if self.meter.charge(GAS_IMMEDIATE).is_err() {
                    return None;
                }
                self.stack.push(v);
            },
            OpCode::Load => {
                if self.meter.charge(gas::cost(op)).is_err() {
                    return None;
                }
                if self.meter.charge(GAS_STORAGE_READ).is_err() {
                    return None;
                }
                let v = self.load_word();
                self.stack.push(v);
            },
            OpCode::Store => {
                if self.meter.charge(gas::cost(op)).is_err() {
                    return None;
                }
                let v = match self.stack.pop() {
                    Some(v) => v,
                    None => return None,
                };
                if self.meter.charge(GAS_STORAGE_WRITE).is_err() {
                    return None;
                }
                let mut bytes: Vec<u8> = Vec::new();
                push_u64_le(&mut bytes, v);
                assert(bytes@ =~= u64_le(v));
                self.state.set_storage(self.contract_id, bytes);
            },
            OpCode::Hash => {
                if self.meter.charge(gas::cost(op)).is_err() {
                    return None;
                }
                let v = match self.stack.pop() {
                    Some(v) => v,
                    None => return None,
                };
                if self.meter.charge(GAS_HASH).is_err() {
                    return None;
                }
                let mut buf: Vec<u8> = Vec::new();
                push_u64_le(&mut buf, v);
                assert(buf@ =~= u64_le(v));
                let digest = blake3_hash(buf.as_slice());
                let w = read_u64_le(&digest, 0);
                assert(digest@.subrange(0, 8) =~= spec_blake3(u64_le(v)).subrange(0, 8));
                self.stack.push(w);
            },
            _ => {
                if self.meter.charge(gas::cost(op)).is_err() {
                    return None;
                }
                let b = match self.stack.pop() {
                    Some(b) => b,
                    None => return None,
                };
                if (op == OpCode::Div || op == OpCode::Mod) && b == 0 {
                    return None;
                }
                let a = match self.stack.pop() {
                    Some(a) => a,
                    None => return None,
                };
                let v = match op {
                    OpCode::Add => a.wrapping_add(b),
                    OpCode::Sub => a.wrapping_sub(b),
                    OpCode::Mul => a.wrapping_mul(b),
                    OpCode::Div => a / b,
                    OpCode::Mod => a % b,
                    OpCode::And => a & b,
                    OpCode::Or => a | b,
                    _ => a ^ b,
                };
                self.stack.push(v);
                assert(self.stack@ =~= old(self).stack@.subrange(0, old(self).stack@.len() - 2).push(v));
            },
        }
        let storage = match self.state.storage(self.contract_id) {
            Some(b) => b,
            None => Vec::new(),
        };
        let step = TraceStep { pc: at, op: op.name().to_owned(), stack: self.stack.clone(), storage };
        self.record(at, op);
        Some(step)
    }

    /// Steps until the end of the code, a breakpoint, a halt or a failure,
    /// and returns the whole trace.
    pub fn run(&mut self) -> (t: &[TraceStep])
        requires
            old(self).wf(),
        ensures
            final(self).wf(),
            final(self).spec_code() == old(self).spec_code(),
            final(self).spec_breakpoints() == old(self).spec_breakpoints(),
            t@.map_values(|s: TraceStep| step_view(s)) == final(self).spec_trace(),
            (final(self).spec_state(), final(self).spec_trace()) == spec_dbg_run(
                old(self).spec_code(),
                old(self).spec_breakpoints(),
                old(self).spec_state(),
                old(self).spec_trace(),
            ),
    {
        while self.pc < self.code.len()
            invariant_except_break
                spec_dbg_run(
                    old(self).spec_code(),
                    old(self).spec_breakpoints(),
                    old(self).spec_state(),
                    old(self).spec_trace(),
                ) == spec_dbg_run(self.spec_code(), self.spec_breakpoints(), self.spec_state(), self.spec_trace()),
            invariant
                self.wf(),
                self.spec_code() == old(self).spec_code(),
                self.spec_breakpoints() == old(self).spec_breakpoints(),
            ensures
                (self.spec_state(), self.spec_trace()) == spec_dbg_run(
                    old(self).spec_code(),
                    old(self).spec_breakpoints(),
                    old(self).spec_state(),
                    old(self).spec_trace(),
                ),
            decreases self.code@.len() - self.pc,
        {
            if self.has_breakpoint(self.pc) {
                break;
            }
            let before = self.pc;
            let ghost s0 = self.spec_state();
            let ghost t0 = self.spec_trace();
            let r = self.step();
            if r.is_none() {
                break;
            }
            assert(self.pc > before);
            proof {
                let code = self.spec_code();
                let bps = self.spec_breakpoints();
                assert(!bps.contains(s0.pc as usize));
                match spec_dbg_step(code, s0) {
                    DbgStep::Next(n) => {
                        assert(n.pc > s0.pc);
                    },
                    _ => {},
                }
            }
        }
        let t = self.trace.as_slice();
        t
    }

    /// The steps recorded so far.
    pub fn trace(&self) -> (t: &[TraceStep])
        ensures
            t@.map_values(|s: TraceStep| step_view(s)) == self.spec_trace(),
    {
        self.trace.as_slice()
    }
}

} // verus!
