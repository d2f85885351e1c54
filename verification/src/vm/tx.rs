//! Transactions targeting the contract VM.

use vstd::prelude::*;
use crate::vm::exec::{spec_error_message, VmError};
use crate::vm::runtime::{spec_after_call, spec_call, spec_call_defined, Vm};
use crate::vm::state::{ContractId, ContractView};

verus! {

/// Transactions targeting the contract VM.
#[derive(Clone)]
pub enum ContractTx {
    Deploy { code: Vec<u8> },
    DeployWasm { wasm: Vec<u8>, abi: Vec<u8> },
    Call { id: ContractId, input: Vec<u8>, gas_limit: u64, gas_price: u64 },
}

/// A transaction that is inside the VM's contract (see `spec_call_defined`).
pub open spec fn spec_tx_defined(tx: ContractTx, vm: &Vm) -> bool {
    match tx {
        ContractTx::Call { id, input, gas_limit, .. } => spec_call_defined(
            vm.spec_vm_type(),
            vm.spec_contracts(),
            id,
            input@,
            gas_limit,
        ),
        _ => true,
    }
}

impl ContractTx {
    /// Applies this transaction to the VM: deployments add a contract and
    /// return no bytes; calls run the contract and return its output.
    pub fn apply(self, vm: &mut Vm, balance: &mut u64) -> (r: Result<Vec<u8>, &'static str>)
        requires
            spec_tx_defined(self, old(vm)),
        ensures
            final(vm).spec_vm_type() == old(vm).spec_vm_type(),
            match self {
                ContractTx::Deploy { code } => r matches Ok(v) && v@.len() == 0 && *final(balance)
                    == *old(balance) && final(vm).spec_contracts() == old(vm).spec_contracts().push(
                    ContractView { code: code@, abi: Seq::empty(), is_wasm: false, storage: None },
                ),
                ContractTx::DeployWasm { wasm, abi } => r matches Ok(v) && v@.len() == 0
                    && *final(balance) == *old(balance) && final(vm).spec_contracts()
                    == old(vm).spec_contracts().push(
                    ContractView { code: wasm@, abi: abi@, is_wasm: true, storage: None },
                ),
                ContractTx::Call { id, input, gas_limit, gas_price } => {
                    let o = spec_call(
                        old(vm).spec_vm_type(),
                        old(vm).spec_contracts(),
                        id,
                        input@,
                        gas_limit,
                        gas_price,
                        *old(balance),
                    );
                    &&& *final(balance) == o.balance
                    &&& final(vm).spec_contracts() == spec_after_call(old(vm).spec_contracts(), id, o)
                    &&& match r {
                        Ok(b) => o.result matches Ok((out, _)) && out == b@,
                        Err(m) => o.result matches Err(e) && m == spec_error_message(e),
                    }
                },
            },
    {
        match self {
            ContractTx::Deploy { code } => {
                vm.deploy(code);
                Ok(Vec::new())
            },
            ContractTx::DeployWasm { wasm, abi } => {
                vm.deploy_wasm(wasm, abi);
                Ok(Vec::new())
            },
            ContractTx::Call { id, input, gas_limit, gas_price } => {
                let (out, _) = vm.execute(id, input.as_slice(), gas_limit, gas_price, balance)?;
                Ok(out)
            },
        }
    }
}

} // verus!
