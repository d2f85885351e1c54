//! Contract code and storage.

use vstd::prelude::*;

verus! {

/// Contract identifiers, assigned in deployment order from 0.
pub type ContractId = u64;

/// One deployed contract.
pub struct ContractRecord {
    /// Bytecode, or the module for a WASM contract.
    pub code: Vec<u8>,
    /// ABI descriptor of a WASM contract (empty for bytecode).
    pub abi: Vec<u8>,
    /// Whether the contract was deployed as a WASM module.
    pub is_wasm: bool,
    /// The contract's storage, once written.
    pub storage: Option<Vec<u8>>,
}

/// The abstract state of one contract.
pub struct ContractView {
    pub code: Seq<u8>,
    pub abi: Seq<u8>,
    pub is_wasm: bool,
    pub storage: Option<Seq<u8>>,
}

/// The abstract state of a contract record.
pub open spec fn record_view(r: ContractRecord) -> ContractView {
    ContractView {
        code: r.code@,
        abi: r.abi@,
        is_wasm: r.is_wasm,
        storage: match r.storage {
            Some(s) => Some(s@),
            None => None,
        },
    }
}

/// Contract code and storage, in memory; `path` names where a persistent
/// store keeps it.
pub struct State {
    contracts: Vec<ContractRecord>,
    path: Option<String>,
}

impl State {
    /// The deployed contracts, indexed by their identifiers.
    pub closed spec fn spec_contracts(&self) -> Seq<ContractView> {
        self.contracts@.map_values(|r: ContractRecord| record_view(r))
    }

    /// The persistence path, if any.
    pub closed spec fn spec_path(&self) -> Option<String> {
        self.path
    }

    /// A new in-memory state store.
    pub fn new() -> (s: Self)
        ensures
            s.spec_contracts() == Seq::<ContractView>::empty(),
            s.spec_path() is None,
    {
        let s = State { contracts: Vec::new(), path: None };
        assert(s.spec_contracts() =~= Seq::<ContractView>::empty());
        s
    }

    /// A new state store whose contents belong at `path`.
    pub fn with_path(path: String) -> (s: Self)
        ensures
            s.spec_contracts() == Seq::<ContractView>::empty(),
            s.spec_path() == Some(path),
    {
        let s = State { contracts: Vec::new(), path: Some(path) };
        assert(s.spec_contracts() =~= Seq::<ContractView>::empty());
        s
    }

    /// The persistence path, if any.
    pub fn path(&self) -> (p: Option<&String>)
        ensures
            p == match self.spec_path() {
                Some(s) => Some(&s),
                None => None::<&String>,
            },
    {
        match &self.path {
            Some(p) => Some(p),
            None => None,
        }
    }

    fn add(&mut self, record: ContractRecord) -> (id: ContractId)
        ensures
            id == old(self).spec_contracts().len(),
            final(self).spec_contracts() == old(self).spec_contracts().push(record_view(record)),
            final(self).spec_path() == old(self).spec_path(),
    {
        let id = self.contracts.len() as u64;
        self.contracts.push(record);
        assert(self.spec_contracts() =~= old(self).spec_contracts().push(record_view(record)));
        id
    }

    /// Deploys bytecode, returning the new contract's identifier.
    pub fn deploy(&mut self, code: Vec<u8>) -> (id: ContractId)
        ensures
            id == old(self).spec_contracts().len(),
            final(self).spec_contracts() == old(self).spec_contracts().push(
                ContractView { code: code@, abi: Seq::empty(), is_wasm: false, storage: None },
            ),
            final(self).spec_path() == old(self).spec_path(),
    {
        let r = ContractRecord { code, abi: Vec::new(), is_wasm: false, storage: None };
        let id = self.add(r);
        assert(record_view(r).abi =~= Seq::<u8>::empty());
        id
    }

    /// Deploys a WASM module with its ABI descriptor.
    pub fn deploy_wasm(&mut self, wasm: Vec<u8>, abi: Vec<u8>) -> (id: ContractId)
        ensures
            id == old(self).spec_contracts().len(),
            final(self).spec_contracts() == old(self).spec_contracts().push(
                ContractView { code: wasm@, abi: abi@, is_wasm: true, storage: None },
            ),
            final(self).spec_path() == old(self).spec_path(),
    {
        let r = ContractRecord { code: wasm, abi, is_wasm: true, storage: None };
        self.add(r)
    }

    /// The bytecode of a contract deployed with `deploy`.
    pub fn code(&self, id: ContractId) -> (c: Option<Vec<u8>>)
        ensures
            match c {
                Some(v) => id < self.spec_contracts().len() && !self.spec_contracts()[id as int].is_wasm
                    && v@ == self.spec_contracts()[id as int].code,
                None => id >= self.spec_contracts().len() || self.spec_contracts()[id as int].is_wasm,
            },
    {
        if id < self.contracts.len() as u64 {
            let r = &self.contracts[id as usize];
            if r.is_wasm {
                None
            } else {
                Some(r.code.clone())
            }
        } else {
            None
        }
    }

    /// The module of a contract deployed with `deploy_wasm`.
    pub fn wasm(&self, id: ContractId) -> (c: Option<Vec<u8>>)
        ensures
            match c {
                Some(v) => id < self.spec_contracts().len() && self.spec_contracts()[id as int].is_wasm
                    && v@ == self.spec_contracts()[id as int].code,
                None => id >= self.spec_contracts().len() || !self.spec_contracts()[id as int].is_wasm,
            },
    {
        if id < self.contracts.len() as u64 {
            let r = &self.contracts[id as usize];
            if r.is_wasm {
                Some(r.code.clone())
            } else {
                None
            }
        } else {
            None
        }
    }

    /// Overwrites the storage of contract `id`; unknown identifiers are
    /// ignored.
    pub fn set_storage(&mut self, id: ContractId, data: Vec<u8>)
        ensures
            final(self).spec_path() == old(self).spec_path(),
            id < old(self).spec_contracts().len() ==> final(self).spec_contracts() == old(self).spec_contracts().update(
                id as int,
                ContractView { storage: Some(data@), ..old(self).spec_contracts()[id as int] },
            ),
            id >= old(self).spec_contracts().len() ==> final(self).spec_contracts() == old(self).spec_contracts(),
    {
        if id < self.contracts.len() as u64 {
            let idx = id as usize;
            let ghost before = self.contracts@;
            let mut r = self.contracts.remove(idx);
            r.storage = Some(data);
            self.contracts.insert(idx, r);
            assert(self.contracts@ =~= before.update(idx as int, r));
            assert(self.spec_contracts() =~= old(self).spec_contracts().update(
                id as int,
                ContractView { storage: Some(data@), ..old(self).spec_contracts()[id as int] },
            ));
        }
    }

    /// The storage of contract `id`, if it exists and has been written.
    pub fn storage(&self, id: ContractId) -> (s: Option<Vec<u8>>)
        ensures
            id < self.spec_contracts().len() ==> match s {
                Some(v) => self.spec_contracts()[id as int].storage == Some(v@),
                None => self.spec_contracts()[id as int].storage is None,
            },
            id >= self.spec_contracts().len() ==> s is None,
    {
        if id < self.contracts.len() as u64 {
            match &self.contracts[id as usize].storage {
                Some(v) => Some(v.clone()),
                None => None,
            }
        } else {
            None
        }
    }
}

/// What a read of storage gives back after a write: writing `data` to a
/// deployed contract makes its storage exactly `data`, and leaves every other
/// contract unchanged.
pub proof fn lemma_storage_read_after_write(
    before: Seq<ContractView>,
    id: int,
    data: Seq<u8>,
    other: int,
)
    requires
        0 <= id < before.len(),
        0 <= other < before.len(),
        other != id,
    ensures
        before.update(id, ContractView { storage: Some(data), ..before[id] })[id].storage == Some(data),
        before.update(id, ContractView { storage: Some(data), ..before[id] })[other] == before[other],
{
}

} // verus!
