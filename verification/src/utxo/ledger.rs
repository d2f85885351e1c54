//! The unspent-output set.

use vstd::prelude::*;
use crate::hashing::{blake3_hash, spec_blake3};
use crate::le::{bytes_eq, push_all, push_u32_le, push_u64_le, u32_le, u64_le};
use crate::utxo::script::{execute, spec_heads, spec_script, spec_script_defined, OpView, Script};

verus! {

/// A reference to one output of a transaction.
#[derive(Debug, Clone, Copy)]
pub struct OutPoint {
    pub txid: [u8; 32],
    pub index: u32,
}

/// A transaction input: the output it spends and the unlocking script.
#[derive(Debug)]
pub struct TxIn {
    pub previous_output: OutPoint,
    pub script_sig: Script,
}

/// A transaction output: a value and its locking script.
#[derive(Debug)]
pub struct TxOut {
    pub value: u64,
    pub script_pubkey: Script,
}

/// A UTXO transaction.
#[derive(Debug)]
pub struct Transaction {
    pub inputs: Vec<TxIn>,
    pub outputs: Vec<TxOut>,
}

/// The abstract key of an output.
pub open spec fn outpoint_key(o: OutPoint) -> (Seq<u8>, u32) {
    (o.txid@, o.index)
}

/// The abstract content of an output.
pub open spec fn txout_view(o: TxOut) -> (u64, Seq<OpView>) {
    (o.value, o.script_pubkey@)
}

/// The bytes a transaction id is computed from: each input's referenced
/// transaction id and index, then each output's value.
pub open spec fn spec_txid_preimage(tx: Transaction) -> Seq<u8> {
    spec_inputs_preimage(tx.inputs@, tx.inputs@.len() as int) + spec_outputs_preimage(
        tx.outputs@,
        tx.outputs@.len() as int,
    )
}

/// Preimage bytes of the first `k` inputs.
pub open spec fn spec_inputs_preimage(inputs: Seq<TxIn>, k: int) -> Seq<u8>
    decreases k,
{
    if k <= 0 {
        Seq::empty()
    } else {
        spec_inputs_preimage(inputs, k - 1) + inputs[k - 1].previous_output.txid@ + u32_le(
            inputs[k - 1].previous_output.index,
        )
    }
}

/// Preimage bytes of the first `k` outputs.
pub open spec fn spec_outputs_preimage(outputs: Seq<TxOut>, k: int) -> Seq<u8>
    decreases k,
{
    if k <= 0 {
        Seq::empty()
    } else {
        spec_outputs_preimage(outputs, k - 1) + u64_le(outputs[k - 1].value)
    }
}

/// The transaction id: BLAKE3 of the preimage.
pub open spec fn spec_txid(tx: Transaction) -> Seq<u8> {
    spec_blake3(spec_txid_preimage(tx))
}

impl Transaction {
    /// The transaction id.
    pub fn txid(&self) -> (id: [u8; 32])
        ensures
            id@ == spec_txid(*self),
    {
        let mut buf: Vec<u8> = Vec::new();
        let mut i: usize = 0;
        while i < self.inputs.len()
            invariant
                i <= self.inputs@.len(),
                buf@ == spec_inputs_preimage(self.inputs@, i as int),
            decreases self.inputs@.len() - i,
        {
            let input = &self.inputs[i];
            push_all(&mut buf, &input.previous_output.txid);
            push_u32_le(&mut buf, input.previous_output.index);
            i = i + 1;
        }
        let ghost prefix = buf@;
        let mut j: usize = 0;
        while j < self.outputs.len()
            invariant
                j <= self.outputs@.len(),
                prefix == spec_inputs_preimage(self.inputs@, self.inputs@.len() as int),
                buf@ == prefix + spec_outputs_preimage(self.outputs@, j as int),
            decreases self.outputs@.len() - j,
        {
            push_u64_le(&mut buf, self.outputs[j].value);
            j = j + 1;
            assert(buf@ =~= prefix + spec_outputs_preimage(self.outputs@, j as int));
        }
        blake3_hash(buf.as_slice())
    }
}

/// Why a transaction was refused.
pub enum LedgerError {
    MissingUtxo,
    ScriptError,
    ScriptFailed,
}

/// The message reporting a refusal.
pub open spec fn spec_ledger_message(e: LedgerError) -> Seq<char> {
    match e {
        LedgerError::MissingUtxo => "missing utxo"@,
        LedgerError::ScriptError => "stack underflow"@,
        LedgerError::ScriptFailed => "script failed"@,
    }
}

/// The first refusal among inputs `k..`, if any: a missing output, a script
/// error, or a script whose last reported byte (0 when none) is not 1.
pub open spec fn spec_check_inputs(
    utxos: Map<(Seq<u8>, u32), (u64, Seq<OpView>)>,
    inputs: Seq<TxIn>,
    k: int,
) -> Option<LedgerError>
    decreases inputs.len() - k,
{
    if k < 0 || k >= inputs.len() {
        None
    } else {
        let key = outpoint_key(inputs[k].previous_output);
        if !utxos.contains_key(key) {
            Some(LedgerError::MissingUtxo)
        } else {
            match spec_script(inputs[k].script_sig@, utxos[key].1) {
                None => Some(LedgerError::ScriptError),
                Some(s) => {
                    let heads = spec_heads(s);
                    if heads.len() == 0 || heads.last() != 1 {
                        Some(LedgerError::ScriptFailed)
                    } else {
                        spec_check_inputs(utxos, inputs, k + 1)
                    }
                },
            }
        }
    }
}

/// The outputs left after removing those spent by `inputs[..k]`.
pub open spec fn spec_remove_spent(
    utxos: Map<(Seq<u8>, u32), (u64, Seq<OpView>)>,
    inputs: Seq<TxIn>,
    k: int,
) -> Map<(Seq<u8>, u32), (u64, Seq<OpView>)>
    decreases k,
{
    if k <= 0 {
        utxos
    } else {
        spec_remove_spent(utxos, inputs, k - 1).remove(outpoint_key(inputs[k - 1].previous_output))
    }
}

/// The outputs after adding `outputs[..k]` under transaction id `txid`.
pub open spec fn spec_add_outputs(
    utxos: Map<(Seq<u8>, u32), (u64, Seq<OpView>)>,
    txid: Seq<u8>,
    outputs: Seq<TxOut>,
    k: int,
) -> Map<(Seq<u8>, u32), (u64, Seq<OpView>)>
    decreases k,
{
    if k <= 0 {
        utxos
    } else {
        spec_add_outputs(utxos, txid, outputs, k - 1).insert(
            (txid, (k - 1) as u32),
            txout_view(outputs[k - 1]),
        )
    }
}

/// The outputs after applying a transaction that passed its checks.
pub open spec fn spec_apply(
    utxos: Map<(Seq<u8>, u32), (u64, Seq<OpView>)>,
    tx: Transaction,
) -> Map<(Seq<u8>, u32), (u64, Seq<OpView>)> {
    spec_add_outputs(
        spec_remove_spent(utxos, tx.inputs@, tx.inputs@.len() as int),
        spec_txid(tx),
        tx.outputs@,
        tx.outputs@.len() as int,
    )
}

/// The set of unspent outputs.
pub struct Ledger {
    utxos: Vec<(OutPoint, TxOut)>,
}

impl Ledger {
    /// The unspent outputs by key.
    pub closed spec fn spec_utxos(&self) -> Map<(Seq<u8>, u32), (u64, Seq<OpView>)> {
        Map::new(
            |k: (Seq<u8>, u32)| exists|i: int| 0 <= i < self.utxos@.len() && outpoint_key(self.utxos@[i].0) == k,
            |k: (Seq<u8>, u32)| {
                let i = choose|i: int| 0 <= i < self.utxos@.len() && outpoint_key(self.utxos@[i].0) == k;
                txout_view(self.utxos@[i].1)
            },
        )
    }

    /// No key occurs twice.
    pub closed spec fn wf(&self) -> bool {
        forall|i: int, j: int|
            0 <= i < self.utxos@.len() && 0 <= j < self.utxos@.len() && i != j ==> outpoint_key(
                #[trigger] self.utxos@[i].0,
            ) != outpoint_key(#[trigger] self.utxos@[j].0)
    }

    /// An empty ledger.
    pub fn new() -> (l: Self)
        ensures
            l.wf(),
            l.spec_utxos() == Map::<(Seq<u8>, u32), (u64, Seq<OpView>)>::empty(),
    {
        let l = Ledger { utxos: Vec::new() };
        assert(l.spec_utxos() =~= Map::<(Seq<u8>, u32), (u64, Seq<OpView>)>::empty());
        l
    }

    proof fn lemma_index_value(&self, i: int)
        requires
            self.wf(),
            0 <= i < self.utxos@.len(),
        ensures
            self.spec_utxos().contains_key(outpoint_key(self.utxos@[i].0)),
            self.spec_utxos()[outpoint_key(self.utxos@[i].0)] == txout_view(self.utxos@[i].1),
    {
        let k = outpoint_key(self.utxos@[i].0);
        let j = choose|j: int| 0 <= j < self.utxos@.len() && outpoint_key(self.utxos@[j].0) == k;
        assert(j == i);
    }

    fn find(&self, key: &OutPoint) -> (r: Option<usize>)
        requires
            self.wf(),
        ensures
            match r {
                Some(i) => i < self.utxos@.len() && outpoint_key(self.utxos@[i as int].0) == outpoint_key(*key),
                None => !self.spec_utxos().contains_key(outpoint_key(*key)),
            },
    {
        let mut i: usize = 0;
        while i < self.utxos.len()
            invariant
                i <= self.utxos@.len(),
                forall|j: int| 0 <= j < i ==> outpoint_key(#[trigger] self.utxos@[j].0) != outpoint_key(*key),
            decreases self.utxos@.len() - i,
        {
            let entry = &self.utxos[i];
            if entry.0.index == key.index && bytes_eq(&entry.0.txid, &key.txid) {
                return Some(i);
            }
            i = i + 1;
        }
        None
    }

    fn remove_key(&mut self, key: &OutPoint)
        requires
            old(self).wf(),
        ensures
            final(self).wf(),
            final(self).spec_utxos() == old(self).spec_utxos().remove(outpoint_key(*key)),
    {
        match self.find(key) {
            None => {
                assert(self.spec_utxos() =~= old(self).spec_utxos().remove(outpoint_key(*key)));
            },
            Some(i) => {
                let ghost before = self.utxos@;
                let _ = self.utxos.remove(i);
                assert(self.wf()) by {
                    assert forall|a: int, b: int|
                        0 <= a < self.utxos@.len() && 0 <= b < self.utxos@.len() && a != b implies outpoint_key(
                        #[trigger] self.utxos@[a].0,
                    ) != outpoint_key(#[trigger] self.utxos@[b].0) by {
                        let a2 = if a < i { a } else { a + 1 };
                        let b2 = if b < i { b } else { b + 1 };
                        assert(self.utxos@[a] == before[a2]);
                        assert(self.utxos@[b] == before[b2]);
                    }
                }
                assert forall|k: (Seq<u8>, u32)| #[trigger] self.spec_utxos().contains_key(k) <==> old(self).spec_utxos().remove(outpoint_key(*key)).contains_key(k) by {
                    if self.spec_utxos().contains_key(k) {
                        let j = choose|j: int| 0 <= j < self.utxos@.len() && outpoint_key(self.utxos@[j].0) == k;
                        let j2 = if j < i { j } else { j + 1 };
                        assert(before[j2] == self.utxos@[j]);
                    }
                    if old(self).spec_utxos().remove(outpoint_key(*key)).contains_key(k) {
                        let j = choose|j: int| 0 <= j < before.len() && outpoint_key(before[j].0) == k;
                        assert(j != i);
                        let j2 = if j < i { j } else { j - 1 };
                        assert(self.utxos@[j2] == before[j]);
                    }
                }
                assert forall|k: (Seq<u8>, u32)| #[trigger] self.spec_utxos().contains_key(k) implies self.spec_utxos()[k] == old(self).spec_utxos().remove(outpoint_key(*key))[k] by {
                    let j = choose|j: int| 0 <= j < self.utxos@.len() && outpoint_key(self.utxos@[j].0) == k;
                    let j2 = if j < i { j } else { j + 1 };
                    assert(before[j2] == self.utxos@[j]);
                    self.lemma_index_value(j);
                    old(self).lemma_index_value(j2);
                }
                assert(self.spec_utxos() =~= old(self).spec_utxos().remove(outpoint_key(*key)));
            },
        }
    }

    fn insert_key(&mut self, key: OutPoint, value: TxOut)
        requires
            old(self).wf(),
        ensures
            final(self).wf(),
            final(self).spec_utxos() == old(self).spec_utxos().insert(outpoint_key(key), txout_view(value)),
    {
        self.remove_key(&key);
        let ghost mid = self.spec_utxos();
        let ghost before = self.utxos@;
        self.utxos.push((key, value));
        let ghost n = before.len() as int;
        assert(self.wf()) by {
            assert forall|a: int, b: int|
                0 <= a < self.utxos@.len() && 0 <= b < self.utxos@.len() && a != b implies outpoint_key(
                #[trigger] self.utxos@[a].0,
            ) != outpoint_key(#[trigger] self.utxos@[b].0) by {
                if a == n {
                    assert(!mid.contains_key(outpoint_key(key)));
                    assert(self.utxos@[b] == before[b]);
                } else if b == n {
                    assert(!mid.contains_key(outpoint_key(key)));
                    assert(self.utxos@[a] == before[a]);
                } else {
                    assert(self.utxos@[a] == before[a]);
                    assert(self.utxos@[b] == before[b]);
                }
            }
        }
        assert forall|k: (Seq<u8>, u32)| #[trigger] self.spec_utxos().contains_key(k) <==> mid.insert(outpoint_key(key), txout_view(value)).contains_key(k) by {
            if k != outpoint_key(key) && mid.contains_key(k) {
                let j = choose|j: int| 0 <= j < before.len() && outpoint_key(before[j].0) == k;
                assert(self.utxos@[j] == before[j]);
            }
            if self.spec_utxos().contains_key(k) && k != outpoint_key(key) {
                let j = choose|j: int| 0 <= j < self.utxos@.len() && outpoint_key(self.utxos@[j].0) == k;
                assert(j != n);
                assert(self.utxos@[j] == before[j]);
            }
            if k == outpoint_key(key) {
                assert(outpoint_key(self.utxos@[n].0) == k);
            }
        }
        assert forall|k: (Seq<u8>, u32)| #[trigger] self.spec_utxos().contains_key(k) implies self.spec_utxos()[k] == mid.insert(outpoint_key(key), txout_view(value))[k] by {
            let j = choose|j: int| 0 <= j < self.utxos@.len() && outpoint_key(self.utxos@[j].0) == k;
            self.lemma_index_value(j);
            if j < n {
                assert(self.utxos@[j] == before[j]);
                assert(outpoint_key(before[j].0) == k);
                if k == outpoint_key(key) {
                    assert(mid.contains_key(k));
                }
                assert(k != outpoint_key(key));
                let j2 = choose|j2: int| 0 <= j2 < before.len() && outpoint_key(before[j2].0) == k;
                assert(j2 == j) by {
                    if j2 != j {
                        assert(self.utxos@[j2] == before[j2]);
                    }
                }
            }
        }
        assert(self.spec_utxos() =~= old(self).spec_utxos().insert(outpoint_key(key), txout_view(value)));
    }

    /// Applies a transaction: every input must spend an unspent output whose
    /// scripts run and report 1 last; then the spent outputs are removed and the
    /// new outputs are added under the transaction id.  A refused transaction
    /// leaves the ledger unchanged.
    pub fn apply_tx(&mut self, tx: &Transaction) -> (r: Result<(), String>)
        requires
            old(self).wf(),
            forall|k: int|
                0 <= k < tx.inputs@.len() && old(self).spec_utxos().contains_key(
                    outpoint_key(#[trigger] tx.inputs@[k].previous_output),
                ) ==> spec_script_defined(
                    tx.inputs@[k].script_sig@,
                    old(self).spec_utxos()[outpoint_key(tx.inputs@[k].previous_output)].1,
                ),
            tx.outputs@.len() <= u32::MAX + 1,
        ensures
            final(self).wf(),
            match spec_check_inputs(old(self).spec_utxos(), tx.inputs@, 0) {
                Some(e) => r matches Err(m) && m@ == spec_ledger_message(e) && final(self).spec_utxos()
                    == old(self).spec_utxos(),
                None => r is Ok && final(self).spec_utxos() == spec_apply(old(self).spec_utxos(), *tx),
            },
    {
        let ghost u0 = self.spec_utxos();
        let mut i: usize = 0;
        while i < tx.inputs.len()
            invariant
                self.wf(),
                u0 == self.spec_utxos(),
                u0 == old(self).spec_utxos(),
                i <= tx.inputs@.len(),
                spec_check_inputs(u0, tx.inputs@, 0) == spec_check_inputs(u0, tx.inputs@, i as int),
                forall|k: int|
                    0 <= k < tx.inputs@.len() && u0.contains_key(
                        outpoint_key(#[trigger] tx.inputs@[k].previous_output),
                    ) ==> spec_script_defined(
                        tx.inputs@[k].script_sig@,
                        u0[outpoint_key(tx.inputs@[k].previous_output)].1,
                    ),
            decreases tx.inputs@.len() - i,
        {
            let input = &tx.inputs[i];
            let idx = match self.find(&input.previous_output) {
                Some(idx) => idx,
                None => return Err("missing utxo".to_owned()),
            };
            proof {
                self.lemma_index_value(idx as int);
            }
            let stack = match execute(&input.script_sig, &self.utxos[idx].1.script_pubkey) {
                Ok(s) => s,
                Err(e) => return Err(e),
            };
            let n = stack.len();
            if n == 0 || stack[n - 1] != 1u8 {
                return Err("script failed".to_owned());
            }
            i = i + 1;
        }
        let ghost checked = self.spec_utxos();
        let mut k: usize = 0;
        while k < tx.inputs.len()
            invariant
                self.wf(),
                k <= tx.inputs@.len(),
                self.spec_utxos() == spec_remove_spent(checked, tx.inputs@, k as int),
            decreases tx.inputs@.len() - k,
        {
            self.remove_key(&tx.inputs[k].previous_output);
            k = k + 1;
        }
        let txid = tx.txid();
        let ghost removed = self.spec_utxos();
        let mut j: usize = 0;
        while j < tx.outputs.len()
            invariant
                self.wf(),
                j <= tx.outputs@.len(),
                tx.outputs@.len() <= u32::MAX + 1,
                txid@ == spec_txid(*tx),
                self.spec_utxos() == spec_add_outputs(removed, txid@, tx.outputs@, j as int),
            decreases tx.outputs@.len() - j,
        {
            let out = &tx.outputs[j];
            let copy = TxOut { value: out.value, script_pubkey: out.script_pubkey.duplicate() };
            self.insert_key(OutPoint { txid, index: j as u32 }, copy);
            j = j + 1;
        }
        Ok(())
    }
}

impl Default for Ledger {
    fn default() -> (l: Self)
        ensures
            l.wf(),
            l.spec_utxos() == Map::<(Seq<u8>, u32), (u64, Seq<OpView>)>::empty(),
    {
        Ledger::new()
    }
}

} // verus!

verus! {

/// A single input spending an output locked by `Push(y); Equal` with the
/// unlocking script `Push(x)` passes the input checks exactly when
/// `x == y`; otherwise the transaction is refused as a failed script.
pub proof fn law_hash_lock_spend(
    utxos: Map<(Seq<u8>, u32), (u64, Seq<OpView>)>,
    input: TxIn,
    x: Seq<u8>,
    y: Seq<u8>,
)
    requires
        utxos.contains_key(outpoint_key(input.previous_output)),
        utxos[outpoint_key(input.previous_output)].1 == seq![OpView::Push(y), OpView::Equal],
        input.script_sig@ == seq![OpView::Push(x)],
    ensures
        x == y ==> spec_check_inputs(utxos, seq![input], 0) is None,
        x != y ==> spec_check_inputs(utxos, seq![input], 0) == Some(LedgerError::ScriptFailed),
{
    crate::utxo::script::law_hash_lock_script(x, y);
    let s = spec_script(input.script_sig@, utxos[outpoint_key(input.previous_output)].1)->Some_0;
    let heads = spec_heads(s);
    assert(heads.len() == 1);
    if x == y {
        assert(heads.last() == 1u8);
        assert(spec_check_inputs(utxos, seq![input], 1) is None);
    } else {
        assert(heads.last() == 0u8);
    }
}

} // verus!
