//! The VM front end: deploys contracts and runs calls against them,
//! charging fees from the caller's balance.

use vstd::prelude::*;
use crate::le::{le_u64, push_u64_le, read_u64_le, u64_le};
use crate::vm::exec::{execute_with_storage, spec_run_from_start, RunOutcome, VmError};
use crate::vm::gas::{GasMeter, GAS_CODE_READ, GAS_STORAGE_WRITE};
use crate::vm::state::{ContractId, ContractView, State};
use crate::vm::wasm::interpreter::{self, spec_wasm_execute, WasmError, WasmOutcome};

verus! {

/// Supported VM types.
#[derive(Clone, Copy, Debug, PartialEq, Eq, Structural)]
pub enum VmType {
    Evm,
    Wasm,
}

/// The first 8 input bytes, zero-padded to 8.
pub open spec fn spec_input_word(input: Seq<u8>) -> Seq<u8> {
    Seq::new(8, |i: int| if i < input.len() { input[i] } else { 0u8 })
}

/// The program a bytecode call runs: the contract's code, then a push of the
/// input word when there is input, then a halt.
pub open spec fn spec_call_code(code: Seq<u8>, input: Seq<u8>) -> Seq<u8> {
    if input.len() > 0 {
        code + seq![0x01u8] + spec_input_word(input) + seq![0x00u8]
    } else {
        code + seq![0x00u8]
    }
}

/// The value a contract's storage holds as a word: its first 8 bytes when
/// there are 8, else 0.
pub open spec fn spec_storage_word(storage: Option<Seq<u8>>) -> u64 {
    match storage {
        Some(s) => if s.len() >= 8 { le_u64(s) } else { 0 },
        None => 0,
    }
}

/// The little-endian encoding of each word of a stack in turn.
pub open spec fn spec_stack_bytes(s: Seq<u64>) -> Seq<u8>
    decreases s.len(),
{
    if s.len() == 0 {
        Seq::empty()
    } else {
        spec_stack_bytes(s.drop_last()) + u64_le(s.last())
    }
}

/// What a call ends with: its result (output bytes and gas used), the
/// caller's balance and the called contract's storage.
pub struct CallOutcome {
    pub result: Result<(Seq<u8>, u64), VmError>,
    pub balance: u64,
    pub storage: Option<Seq<u8>>,
}

/// Fee settlement after a successful run that used `used` gas: the fee is
/// `used * gas_price`, taken from `balance`; then `write` (the value to keep
/// in storage, if any) costs one storage write.
pub open spec fn spec_settle(
    out: Seq<u8>,
    used: u64,
    gas_limit: u64,
    gas_price: u64,
    balance: u64,
    storage: Option<Seq<u8>>,
    write: Option<Seq<u8>>,
) -> CallOutcome {
    if used * gas_price > u64::MAX {
        CallOutcome { result: Err(VmError::FeeOverflow), balance, storage }
    } else if balance < used * gas_price {
        CallOutcome { result: Err(VmError::InsufficientBalance), balance, storage }
    } else {
        let rest = (balance - used * gas_price) as u64;
        match write {
            Some(w) => if used + GAS_STORAGE_WRITE > gas_limit {
                CallOutcome { result: Err(VmError::OutOfGas), balance: rest, storage }
            } else {
                CallOutcome { result: Ok((out, used)), balance: rest, storage: Some(w) }
            },
            None => CallOutcome { result: Ok((out, used)), balance: rest, storage },
        }
    }
}

/// A bytecode call: charge for reading the code, run the call program with the
/// storage word, keep any word it stored, then settle the fee and store the
/// top of the final stack.
pub open spec fn spec_evm_call(
    c: ContractView,
    input: Seq<u8>,
    gas_limit: u64,
    gas_price: u64,
    balance: u64,
) -> CallOutcome {
    if GAS_CODE_READ > gas_limit {
        CallOutcome { result: Err(VmError::OutOfGas), balance, storage: c.storage }
    } else {
        let o = spec_run_from_start(
            spec_call_code(c.code, input),
            GAS_CODE_READ,
            gas_limit,
            spec_storage_word(c.storage),
            None,
        );
        let storage = match o.stored {
            Some(v) => Some(u64_le(v)),
            None => c.storage,
        };
        match o.result {
            Err(e) => CallOutcome { result: Err(e), balance, storage },
            Ok(stack) => spec_settle(
                spec_stack_bytes(stack),
                o.used,
                gas_limit,
                gas_price,
                balance,
                storage,
                if stack.len() > 0 { Some(u64_le(stack.last())) } else { None },
            ),
        }
    }
}

/// A WASM call: run the module, then settle the fee and store a non-empty
/// output.
pub open spec fn spec_wasm_call(
    c: ContractView,
    input: Seq<u8>,
    gas_limit: u64,
    gas_price: u64,
    balance: u64,
) -> CallOutcome {
    let o = spec_wasm_execute(c.code, input, 0, gas_limit);
    match o.result {
        Err(_) => CallOutcome { result: Err(VmError::WasmError), balance, storage: c.storage },
        Ok(out) => spec_settle(
            out,
            o.used,
            gas_limit,
            gas_price,
            balance,
            c.storage,
            if out.len() > 0 { Some(out) } else { None },
        ),
    }
}

/// A call of contract `id` on a VM of type `vm_type` over `contracts`.
pub open spec fn spec_call(
    vm_type: VmType,
    contracts: Seq<ContractView>,
    id: ContractId,
    input: Seq<u8>,
    gas_limit: u64,
    gas_price: u64,
    balance: u64,
) -> CallOutcome {
    if id >= contracts.len() {
        CallOutcome { result: Err(VmError::UnknownContract), balance, storage: None }
    } else if contracts[id as int].is_wasm != (vm_type == VmType::Wasm) {
        CallOutcome { result: Err(VmError::UnknownContract), balance, storage: contracts[id as int].storage }
    } else {
        match vm_type {
            VmType::Evm => spec_evm_call(contracts[id as int], input, gas_limit, gas_price, balance),
            VmType::Wasm => spec_wasm_call(contracts[id as int], input, gas_limit, gas_price, balance),
        }
    }
}

/// The contracts after a call: only the called contract's storage changes.
pub open spec fn spec_after_call(contracts: Seq<ContractView>, id: ContractId, o: CallOutcome) -> Seq<
    ContractView,
> {
    if id < contracts.len() {
        contracts.update(id as int, ContractView { storage: o.storage, ..contracts[id as int] })
    } else {
        contracts
    }
}

/// A call that is inside the contract: WASM calls must not divide `i64::MIN`
/// by -1.
pub open spec fn spec_call_defined(
    vm_type: VmType,
    contracts: Seq<ContractView>,
    id: ContractId,
    input: Seq<u8>,
    gas_limit: u64,
) -> bool {
    vm_type == VmType::Wasm && id < contracts.len() && contracts[id as int].is_wasm ==> spec_wasm_execute(
        contracts[id as int].code,
        input,
        0,
        gas_limit,
    ).result != Err::<Seq<u8>, WasmError>(WasmError::DivisionOverflow)
}

/// A VM of one type over its own contract state.
pub struct Vm {
    pub vm_type: VmType,
    state: State,
}

/// Copies the input word (first 8 bytes, zero-padded).
fn input_word(input: &[u8]) -> (w: Vec<u8>)
    ensures
        w@ == spec_input_word(input@),
{
    let mut w: Vec<u8> = Vec::new();
    let mut i: usize = 0;
    while i < 8
        invariant
            i <= 8,
            w@ == spec_input_word(input@).subrange(0, i as int),
        decreases 8 - i,
    {
        if i < input.len() {
            w.push(input[i]);
        } else {
            w.push(0);
        }
        i = i + 1;
        assert(w@ =~= spec_input_word(input@).subrange(0, i as int));
    }
    assert(w@ =~= spec_input_word(input@));
    w
}

/// Builds the program a bytecode call runs.
fn call_code(code: Vec<u8>, input: &[u8]) -> (out: Vec<u8>)
    ensures
        out@ == spec_call_code(code@, input@),
{
    let mut out = code;
    if input.len() > 0 {
        out.push(0x01);
        let w = input_word(input);
        crate::le::push_all(&mut out, w.as_slice());
    }
    out.push(0x00);
    assert(out@ =~= spec_call_code(code@, input@));
    out
}

/// The encoding of a whole stack.
fn stack_bytes(stack: &Vec<u64>) -> (out: Vec<u8>)
    ensures
        out@ == spec_stack_bytes(stack@),
{
    let mut out: Vec<u8> = Vec::new();
    let mut j: usize = 0;
    while j < stack.len()
        invariant
            j <= stack@.len(),
            out@ == spec_stack_bytes(stack@.subrange(0, j as int)),
        decreases stack@.len() - j,
    {
        push_u64_le(&mut out, stack[j]);
        assert(stack@.subrange(0, j + 1).drop_last() =~= stack@.subrange(0, j as int));
        j = j + 1;
    }
    assert(stack@.subrange(0, stack@.len() as int) =~= stack@);
    out
}

impl Vm {
    /// The runtime this VM executes.
    pub closed spec fn spec_vm_type(&self) -> VmType {
        self.vm_type
    }

    /// The contracts of this VM.
    pub closed spec fn spec_contracts(&self) -> Seq<ContractView> {
        self.state.spec_contracts()
    }

    /// Where the VM's state persists, if anywhere.
    pub closed spec fn spec_path(&self) -> Option<String> {
        self.state.spec_path()
    }

    /// A VM with empty in-memory state.
    pub fn new(vm_type: VmType) -> (vm: Self)
        ensures
            vm.spec_vm_type() == vm_type,
            vm.spec_contracts() == Seq::<ContractView>::empty(),
            vm.spec_path() is None,
    {
        Vm { vm_type, state: State::new() }
    }

    /// A VM whose state belongs at `path`.
    pub fn new_persistent(vm_type: VmType, path: String) -> (vm: Self)
        ensures
            vm.spec_vm_type() == vm_type,
            vm.spec_contracts() == Seq::<ContractView>::empty(),
            vm.spec_path() == Some(path),
    {
        Vm { vm_type, state: State::with_path(path) }
    }

    /// Deploys bytecode, returning its identifier.
    pub fn deploy(&mut self, code: Vec<u8>) -> (id: ContractId)
        ensures
            final(self).spec_vm_type() == old(self).spec_vm_type(),
            id == old(self).spec_contracts().len(),
            final(self).spec_contracts() == old(self).spec_contracts().push(
                ContractView { code: code@, abi: Seq::empty(), is_wasm: false, storage: None },
            ),
    {
        self.state.deploy(code)
    }

    /// Deploys a WASM module with its ABI descriptor.
    pub fn deploy_wasm(&mut self, wasm: Vec<u8>, abi: Vec<u8>) -> (id: ContractId)
        ensures
            final(self).spec_vm_type() == old(self).spec_vm_type(),
            id == old(self).spec_contracts().len(),
            final(self).spec_contracts() == old(self).spec_contracts().push(
                ContractView { code: wasm@, abi: abi@, is_wasm: true, storage: None },
            ),
    {
        self.state.deploy_wasm(wasm, abi)
    }

    /// Reads back a contract's storage.
    pub fn read(&self, id: ContractId) -> (s: Option<Vec<u8>>)
        ensures
            id < self.spec_contracts().len() ==> match s {
                Some(v) => self.spec_contracts()[id as int].storage == Some(v@),
                None => self.spec_contracts()[id as int].storage is None,
            },
            id >= self.spec_contracts().len() ==> s is None,
    {
        self.state.storage(id)
    }

    /// Overwrites a contract's storage.
    pub fn write(&mut self, id: ContractId, data: Vec<u8>)
        ensures
            final(self).spec_vm_type() == old(self).spec_vm_type(),
            id < old(self).spec_contracts().len() ==> final(self).spec_contracts() == old(self).spec_contracts().update(
                id as int,
                ContractView { storage: Some(data@), ..old(self).spec_contracts()[id as int] },
            ),
            id >= old(self).spec_contracts().len() ==> final(self).spec_contracts() == old(self).spec_contracts(),
    {
        self.state.set_storage(id, data);
    }

    /// Settles the fee of a finished run and stores `write` if there is one.
    fn settle(
        &mut self,
        id: ContractId,
        out: Vec<u8>,
        meter: &mut GasMeter,
        gas_price: u64,
        balance: &mut u64,
        write: Option<Vec<u8>>,
    ) -> (r: Result<(Vec<u8>, u64), VmError>)
        requires
            old(meter).wf(),
            id < old(self).spec_contracts().len(),
        ensures
            ({
                let o = spec_settle(
                    out@,
                    old(meter).spec_used(),
                    old(meter).spec_limit(),
                    gas_price,
                    *old(balance),
                    old(self).spec_contracts()[id as int].storage,
                    match write {
                        Some(w) => Some(w@),
                        None => None,
                    },
                );
                &&& *final(balance) == o.balance
                &&& final(self).spec_vm_type() == old(self).spec_vm_type()
                &&& final(self).spec_contracts() == spec_after_call(old(self).spec_contracts(), id, o)
                &&& match r {
                    Ok((b, u)) => o.result == Ok::<(Seq<u8>, u64), VmError>((b@, u)),
                    Err(e) => o.result == Err::<(Seq<u8>, u64), VmError>(e),
                }
            }),
    {
        let ghost c = old(self).spec_contracts();
        assert(c.update(id as int, ContractView { storage: c[id as int].storage, ..c[id as int] }) =~= c);
        let used = meter.used();
        let fee = match used.checked_mul(gas_price) {
            Some(f) => f,
            None => return Err(VmError::FeeOverflow),
        };
        if *balance < fee {
            return Err(VmError::InsufficientBalance);
        }
        *balance = *balance - fee;
        match write {
            Some(w) => {
                if meter.charge(GAS_STORAGE_WRITE).is_err() {
                    return Err(VmError::OutOfGas);
                }
                self.state.set_storage(id, w);
                Ok((out, used))
            },
            None => Ok((out, used)),
        }
    }

    /// Executes a contract. Returns output bytes and gas used.
    /// Fees are deducted from the provided balance at `gas_price` per unit.
    pub fn execute(
        &mut self,
        id: ContractId,
        input: &[u8],
        gas_limit: u64,
        gas_price: u64,
        balance: &mut u64,
    ) -> (r: Result<(Vec<u8>, u64), &'static str>)
        requires
            spec_call_defined(old(self).spec_vm_type(), old(self).spec_contracts(), id, input@, gas_limit),
        ensures
            ({
                let o = spec_call(
                    old(self).spec_vm_type(),
                    old(self).spec_contracts(),
                    id,
                    input@,
                    gas_limit,
                    gas_price,
                    *old(balance),
                );
                &&& *final(balance) == o.balance
                &&& final(self).spec_vm_type() == old(self).spec_vm_type()
                &&& final(self).spec_contracts() == spec_after_call(old(self).spec_contracts(), id, o)
                &&& match r {
                    Ok((b, u)) => o.result == Ok::<(Seq<u8>, u64), VmError>((b@, u)),
                    Err(m) => o.result matches Err(e) && m == crate::vm::exec::spec_error_message(e),
                }
            }),
    {
        match self.call(id, input, gas_limit, gas_price, balance) {
            Ok(v) => Ok(v),
            Err(e) => Err(e.message()),
        }
    }

    /// `execute` with the error as a `VmError`.
    pub fn call(
        &mut self,
        id: ContractId,
        input: &[u8],
        gas_limit: u64,
        gas_price: u64,
        balance: &mut u64,
    ) -> (r: Result<(Vec<u8>, u64), VmError>)
        requires
            spec_call_defined(old(self).spec_vm_type(), old(self).spec_contracts(), id, input@, gas_limit),
        ensures
            ({
                let o = spec_call(
                    old(self).spec_vm_type(),
                    old(self).spec_contracts(),
                    id,
                    input@,
                    gas_limit,
                    gas_price,
                    *old(balance),
                );
                &&& *final(balance) == o.balance
                &&& final(self).spec_vm_type() == old(self).spec_vm_type()
                &&& final(self).spec_contracts() == spec_after_call(old(self).spec_contracts(), id, o)
                &&& match r {
                    Ok((b, u)) => o.result == Ok::<(Seq<u8>, u64), VmError>((b@, u)),
                    Err(e) => o.result == Err::<(Seq<u8>, u64), VmError>(e),
                }
            }),
    {
        let ghost c = old(self).spec_contracts();
        let mut meter = GasMeter::new(gas_limit);
        match self.vm_type {
            VmType::Evm => {
                let code = match self.state.code(id) {
                    Some(c) => c,
                    None => {
                        proof {
                            if id < c.len() {
                                assert(c.update(id as int, ContractView { storage: c[id as int].storage, ..c[id as int] })
                                    =~= c);
                            }
                        }
                        return Err(VmError::UnknownContract);
                    },
                };
                if meter.charge(GAS_CODE_READ).is_err() {
                    return Err(VmError::OutOfGas);
                }
                let exec_code = call_code(code, input);
                let initial = match self.state.storage(id) {
                    Some(b) => if b.len() >= 8 {
                        let v = read_u64_le(b.as_slice(), 0);
                        assert(le_u64(b@.subrange(0, 8)) == le_u64(b@));
                        v
                    } else {
                        0
                    },
                    None => 0,
                };
                let mut stored: Option<u64> = None;
                let res = execute_with_storage(exec_code.as_slice(), &mut meter, initial, &mut stored);
                match stored {
                    Some(v) => {
                        let mut bytes: Vec<u8> = Vec::new();
                        push_u64_le(&mut bytes, v);
                        assert(bytes@ =~= u64_le(v));
                        self.state.set_storage(id, bytes);
                    },
                    None => {},
                }
                let stack = match res {
                    Ok(s) => s,
                    Err(e) => return Err(e),
                };
                let out = stack_bytes(&stack);
                let write = if stack.len() > 0 {
                    let mut bytes: Vec<u8> = Vec::new();
                    push_u64_le(&mut bytes, stack[stack.len() - 1]);
                    assert(bytes@ =~= u64_le(stack@.last()));
                    Some(bytes)
                } else {
                    None
                };
                self.settle(id, out, &mut meter, gas_price, balance, write)
            },
            VmType::Wasm => {
                let code = match self.state.wasm(id) {
                    Some(c) => c,
                    None => {
                        proof {
                            if id < c.len() {
                                assert(c.update(id as int, ContractView { storage: c[id as int].storage, ..c[id as int] })
                                    =~= c);
                            }
                        }
                        return Err(VmError::UnknownContract);
                    },
                };
                let out = match interpreter::execute(code.as_slice(), input, &mut meter) {
                    Ok(o) => o,
                    Err(_) => return Err(VmError::WasmError),
                };
                let write = if out.len() > 0 { Some(out.clone()) } else { None };
                self.settle(id, out, &mut meter, gas_price, balance, write)
            },
        }
    }
}

} // verus!
