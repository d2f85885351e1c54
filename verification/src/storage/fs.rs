//! Rent escrow for stored blobs: deposits are locked per blob and, on release
//! or expiry, 90% is refunded and the rest burned.

use vstd::prelude::*;
use crate::text::str_eq;

verus! {

/// One locked deposit.
#[derive(Clone, Debug)]
pub struct Escrow {
    pub depositor: String,
    pub amount: u64,
    pub expiry: u64,
}

/// The abstract content of a deposit keyed by blob id.
pub struct EscrowView {
    pub id: Seq<char>,
    pub depositor: Seq<char>,
    pub amount: u64,
    pub expiry: u64,
}

/// The abstract content of an entry.
pub open spec fn entry_view(e: (String, Escrow)) -> EscrowView {
    EscrowView { id: e.0@, depositor: e.1.depositor@, amount: e.1.amount, expiry: e.1.expiry }
}

/// The refunded part of a deposit: 90%, rounded down.
pub open spec fn spec_refund(amount: u64) -> u64 {
    (amount * 9 / 10) as u64
}

/// Index of the deposit for `id`, if any.
pub open spec fn spec_find(entries: Seq<EscrowView>, id: Seq<char>) -> Option<int> {
    if exists|i: int| 0 <= i < entries.len() && entries[i].id == id {
        Some(choose|i: int| 0 <= i < entries.len() && entries[i].id == id)
    } else {
        None
    }
}

/// The deposit for `id`, if any.
pub open spec fn spec_lookup(entries: Seq<EscrowView>, id: Seq<char>) -> Option<EscrowView> {
    match spec_find(entries, id) {
        Some(i) => Some(entries[i]),
        None => None,
    }
}

/// The deposits after locking `e`: it replaces the deposit under its blob
/// id, or is appended when there was none.
pub open spec fn spec_lock(entries: Seq<EscrowView>, e: EscrowView) -> Seq<EscrowView> {
    match spec_find(entries, e.id) {
        Some(i) => entries.update(i, e),
        None => entries.push(e),
    }
}

/// No two deposits share a blob id.
pub open spec fn ids_distinct(entries: Seq<EscrowView>) -> bool {
    forall|i: int, j: int|
        0 <= i < entries.len() && 0 <= j < entries.len() && i != j ==> (#[trigger] entries[i]).id
            != (#[trigger] entries[j]).id
}

/// Sum of the deposits of `account` among `entries[..k]`.
pub open spec fn spec_account_sum(entries: Seq<EscrowView>, account: Seq<char>, k: int) -> int
    decreases k,
{
    if k <= 0 {
        0
    } else {
        spec_account_sum(entries, account, k - 1) + if entries[k - 1].depositor == account {
            entries[k - 1].amount as int
        } else {
            0
        }
    }
}

/// Whether a deposit has expired at `now` (an expiry of 0 never expires).
pub open spec fn spec_expired(e: EscrowView, now: u64) -> bool {
    e.expiry > 0 && e.expiry <= now
}

/// The settlement of a deposit: depositor, refund and burn.
pub open spec fn spec_settlement(e: EscrowView) -> (Seq<char>, u64, u64) {
    (e.depositor, spec_refund(e.amount), (e.amount - spec_refund(e.amount)) as u64)
}

/// Rent escrow over an in-memory key-value store named by a path.
pub struct RentEscrow {
    entries: Vec<(String, Escrow)>,
    path: String,
}

impl RentEscrow {
    /// The deposits, in store order.
    pub closed spec fn spec_entries(&self) -> Seq<EscrowView> {
        self.entries@.map_values(|e: (String, Escrow)| entry_view(e))
    }

    /// The path that names the store.
    pub closed spec fn spec_path(&self) -> Seq<char> {
        self.path@
    }

    /// Each blob id has at most one deposit.
    pub closed spec fn wf(&self) -> bool {
        forall|i: int, j: int|
            0 <= i < self.entries@.len() && 0 <= j < self.entries@.len() && i != j ==> (
            #[trigger] self.entries@[i]).0@ != (#[trigger] self.entries@[j]).0@
    }

    /// A well-formed store holds at most one deposit per blob id.
    pub proof fn lemma_ids_distinct(&self)
        requires
            self.wf(),
        ensures
            ids_distinct(self.spec_entries()),
    {
        assert forall|i: int, j: int|
            0 <= i < self.spec_entries().len() && 0 <= j < self.spec_entries().len() && i != j implies (
            #[trigger] self.spec_entries()[i]).id != (#[trigger] self.spec_entries()[j]).id by {
            assert(self.spec_entries()[i] == entry_view(self.entries@[i]));
            assert(self.spec_entries()[j] == entry_view(self.entries@[j]));
        }
    }

    /// An empty escrow store for `path`.
    pub fn open(path: &str) -> (e: Self)
        ensures
            e.wf(),
            e.spec_entries() == Seq::<EscrowView>::empty(),
            e.spec_path() == path@,
    {
        let e = RentEscrow { entries: Vec::new(), path: path.to_owned() };
        assert(e.spec_entries() =~= Seq::<EscrowView>::empty());
        e
    }

    /// The storage engine behind the store.
    pub fn engine_label(&self) -> (s: &'static str)
        ensures
            s == "memory",
    {
        "memory"
    }

    fn find(&self, id: &str) -> (r: Option<usize>)
        requires
            self.wf(),
        ensures
            match r {
                Some(i) => i < self.entries@.len() && self.spec_entries()[i as int].id == id@ && spec_find(
                    self.spec_entries(),
                    id@,
                ) == Some(i as int),
                None => spec_find(self.spec_entries(), id@) is None,
            },
    {
        let mut i: usize = 0;
        while i < self.entries.len()
            invariant
                self.wf(),
                i <= self.entries@.len(),
                forall|j: int| 0 <= j < i ==> self.spec_entries()[j].id != id@,
            decreases self.entries@.len() - i,
        {
            if str_eq(self.entries[i].0.as_str(), id) {
                proof {
                    assert(self.spec_entries()[i as int] == entry_view(self.entries@[i as int]));
                    assert(self.spec_entries()[i as int].id == id@);
                    let k = choose|k: int| 0 <= k < self.spec_entries().len() && self.spec_entries()[k].id == id@;
                    assert(self.spec_entries()[k] == entry_view(self.entries@[k]));
                    if k != i {
                        assert(self.entries@[k].0@ == self.entries@[i as int].0@);
                    }
                }
                return Some(i);
            }
            i = i + 1;
        }
        None
    }

    /// Locks `amount` for blob `id`, replacing any deposit it had.
    pub fn lock(&mut self, id: &str, depositor: &str, amount: u64, expiry: u64)
        requires
            old(self).wf(),
        ensures
            final(self).wf(),
            final(self).spec_entries() == spec_lock(
                old(self).spec_entries(),
                EscrowView { id: id@, depositor: depositor@, amount, expiry },
            ),
    {
        let rec = Escrow { depositor: depositor.to_owned(), amount, expiry };
        match self.find(id) {
            Some(i) => {
                let ghost before = self.entries@;
                let _ = self.entries.remove(i);
                self.entries.insert(i, (id.to_owned(), rec));
                assert(self.entries@ =~= before.update(i as int, (self.entries@[i as int].0, rec)));
                assert(self.spec_entries() =~= old(self).spec_entries().update(
                    i as int,
                    EscrowView { id: id@, depositor: depositor@, amount, expiry },
                ));
                assert(self.wf()) by {
                    assert forall|a: int, b: int|
                        0 <= a < self.entries@.len() && 0 <= b < self.entries@.len() && a != b implies (
                        #[trigger] self.entries@[a]).0@ != (#[trigger] self.entries@[b]).0@ by {
                        assert(self.spec_entries()[a].id == self.entries@[a].0@);
                        assert(self.spec_entries()[b].id == self.entries@[b].0@);
                        if a != i && b != i {
                            assert(self.entries@[a] == before[a]);
                            assert(self.entries@[b] == before[b]);
                        } else if a == i {
                            assert(self.entries@[b] == before[b]);
                            assert(before[i as int].0@ == id@);
                        } else {
                            assert(self.entries@[a] == before[a]);
                            assert(before[i as int].0@ == id@);
                        }
                    }
                }
            },
            None => {
                let ghost before = self.entries@;
                self.entries.push((id.to_owned(), rec));
                assert(self.spec_entries() =~= old(self).spec_entries().push(
                    EscrowView { id: id@, depositor: depositor@, amount, expiry },
                ));
                assert(self.wf()) by {
                    assert forall|a: int, b: int|
                        0 <= a < self.entries@.len() && 0 <= b < self.entries@.len() && a != b implies (
                        #[trigger] self.entries@[a]).0@ != (#[trigger] self.entries@[b]).0@ by {
                        let n = before.len() as int;
                        if a == n {
                            assert(self.entries@[b] == before[b]);
                            assert(old(self).spec_entries()[b].id == before[b].0@);
                        } else if b == n {
                            assert(self.entries@[a] == before[a]);
                            assert(old(self).spec_entries()[a].id == before[a].0@);
                        } else {
                            assert(self.entries@[a] == before[a]);
                            assert(self.entries@[b] == before[b]);
                        }
                    }
                }
            },
        }
    }

    fn settle(amount: u64) -> (r: (u64, u64))
        ensures
            r.0 == spec_refund(amount),
            r.1 == amount - spec_refund(amount),
    {
        let refund = amount / 10 * 9 + amount % 10 * 9 / 10;
        assert(refund == amount * 9 / 10) by (nonlinear_arith)
            requires
                refund == amount / 10 * 9 + amount % 10 * 9 / 10,
        {
            let q = amount / 10;
            let r = amount % 10;
            assert(amount == 10 * q + r);
            assert(amount * 9 == 90 * q + 9 * r);
        }
        (refund, amount - refund)
    }

    /// Releases the deposit for `id`: removes it and returns the depositor, the
    /// refund (90%, rounded down) and the burned rest.
    pub fn release(&mut self, id: &str) -> (r: Option<(String, u64, u64)>)
        requires
            old(self).wf(),
        ensures
            final(self).wf(),
            match spec_find(old(self).spec_entries(), id@) {
                Some(i) => r matches Some((d, refund, burn)) && (d@, refund, burn) == spec_settlement(
                    old(self).spec_entries()[i],
                ) && final(self).spec_entries() == old(self).spec_entries().remove(i),
                None => r is None && final(self).spec_entries() == old(self).spec_entries(),
            },
    {
        match self.find(id) {
            None => None,
            Some(i) => {
                let ghost before = self.entries@;
                let (_, e) = self.entries.remove(i);
                assert(self.spec_entries() =~= old(self).spec_entries().remove(i as int));
                assert(self.wf()) by {
                    assert forall|a: int, b: int|
                        0 <= a < self.entries@.len() && 0 <= b < self.entries@.len() && a != b implies (
                        #[trigger] self.entries@[a]).0@ != (#[trigger] self.entries@[b]).0@ by {
                        let a2 = if a < i { a } else { a + 1 };
                        let b2 = if b < i { b } else { b + 1 };
                        assert(self.entries@[a] == before[a2]);
                        assert(self.entries@[b] == before[b2]);
                    }
                }
                let (refund, burn) = Self::settle(e.amount);
                Some((e.depositor, refund, burn))
            },
        }
    }

    /// The amount locked for `id` (0 when there is none).
    pub fn balance(&self, id: &str) -> (b: u64)
        requires
            self.wf(),
        ensures
            b == match spec_find(self.spec_entries(), id@) {
                Some(i) => self.spec_entries()[i].amount,
                None => 0,
            },
    {
        match self.find(id) {
            Some(i) => self.entries[i].1.amount,
            None => 0,
        }
    }

    /// The total locked by `account`.
    pub fn balance_account(&self, account: &str) -> (b: u64)
        requires
            spec_account_sum(self.spec_entries(), account@, self.spec_entries().len() as int) <= u64::MAX,
        ensures
            b == spec_account_sum(self.spec_entries(), account@, self.spec_entries().len() as int),
    {
        let mut sum: u64 = 0;
        let mut i: usize = 0;
        while i < self.entries.len()
            invariant
                i <= self.entries@.len(),
                sum == spec_account_sum(self.spec_entries(), account@, i as int),
                spec_account_sum(self.spec_entries(), account@, self.spec_entries().len() as int) <= u64::MAX,
            decreases self.entries@.len() - i,
        {
            proof {
                lemma_account_sum_monotone(self.spec_entries(), account@, i as int + 1, self.spec_entries().len() as int);
            }
            if str_eq(self.entries[i].1.depositor.as_str(), account) {
                sum = sum + self.entries[i].1.amount;
            }
            i = i + 1;
        }
        sum
    }

    /// Removes every expired deposit, in store order, returning each one's
    /// depositor, refund and burn.
    pub fn purge_expired(&mut self, now: u64) -> (out: Vec<(String, u64, u64)>)
        requires
            old(self).wf(),
        ensures
            final(self).wf(),
            final(self).spec_entries() == old(self).spec_entries().filter(|e: EscrowView| !spec_expired(e, now)),
            out@.map_values(|t: (String, u64, u64)| (t.0@, t.1, t.2)) == old(self).spec_entries().filter(
                |e: EscrowView| spec_expired(e, now),
            ).map_values(|e: EscrowView| spec_settlement(e)),
    {
        let ghost all = self.spec_entries();
        let mut kept: Vec<(String, Escrow)> = Vec::new();
        let mut out: Vec<(String, u64, u64)> = Vec::new();
        let mut i: usize = 0;
        while i < self.entries.len()
            invariant
                i <= self.entries@.len(),
                all == self.spec_entries(),
                self.wf(),
                kept@.map_values(|e: (String, Escrow)| entry_view(e)) == all.subrange(0, i as int).filter(
                    |e: EscrowView| !spec_expired(e, now),
                ),
                forall|a: int| 0 <= a < kept@.len() ==> id_in_prefix(all, (#[trigger] kept@[a]).0@, i as int),
                forall|a: int, c: int|
                    0 <= a < kept@.len() && 0 <= c < kept@.len() && a != c ==> (#[trigger] kept@[a]).0@
                        != (#[trigger] kept@[c]).0@,
                out@.map_values(|t: (String, u64, u64)| (t.0@, t.1, t.2)) == all.subrange(0, i as int).filter(
                    |e: EscrowView| spec_expired(e, now),
                ).map_values(|e: EscrowView| spec_settlement(e)),
            decreases self.entries@.len() - i,
        {
            let e = &self.entries[i];
            let ghost ev = entry_view(*e);
            assert(all.subrange(0, i + 1) =~= all.subrange(0, i as int).push(ev));
            assert(all.subrange(0, i + 1).drop_last() =~= all.subrange(0, i as int));
            assert(all[i as int] == ev);
            proof {
                reveal(Seq::filter);
            }
            if e.1.expiry > 0 && e.1.expiry <= now {
                let (refund, burn) = Self::settle(e.1.amount);
                let ghost before_out = out@;
                out.push((e.1.depositor.clone(), refund, burn));
                assert(out@.map_values(|t: (String, u64, u64)| (t.0@, t.1, t.2)) =~= before_out.map_values(
                    |t: (String, u64, u64)| (t.0@, t.1, t.2),
                ).push(spec_settlement(ev)));
                assert(all.subrange(0, i + 1).filter(|e: EscrowView| spec_expired(e, now)) == all.subrange(
                    0,
                    i as int,
                ).filter(|e: EscrowView| spec_expired(e, now)).push(ev));
                assert(all.subrange(0, i + 1).filter(|e: EscrowView| !spec_expired(e, now)) == all.subrange(
                    0,
                    i as int,
                ).filter(|e: EscrowView| !spec_expired(e, now)));
            } else {
                assert(all.subrange(0, i + 1).filter(|e: EscrowView| spec_expired(e, now)) == all.subrange(
                    0,
                    i as int,
                ).filter(|e: EscrowView| spec_expired(e, now)));
                assert(all.subrange(0, i + 1).filter(|e: EscrowView| !spec_expired(e, now)) == all.subrange(
                    0,
                    i as int,
                ).filter(|e: EscrowView| !spec_expired(e, now)).push(ev));
                let ghost before = kept@;
                proof {
                    assert forall|a: int| 0 <= a < before.len() implies (#[trigger] before[a]).0@ != e.0@ by {
                        assert(id_in_prefix(all, before[a].0@, i as int));
                        let b = choose|b: int| 0 <= b < i && all[b].id == before[a].0@;
                        assert(all[b].id == self.entries@[b].0@);
                        assert(all[i as int].id == self.entries@[i as int].0@);
                    }
                }
                let copy = Escrow { depositor: e.1.depositor.clone(), amount: e.1.amount, expiry: e.1.expiry };
                kept.push((e.0.clone(), copy));
                assert(kept@.map_values(|e: (String, Escrow)| entry_view(e)) =~= before.map_values(
                    |e: (String, Escrow)| entry_view(e),
                ).push(ev));
                assert(id_in_prefix(all, e.0@, i + 1)) by {
                    assert(all[i as int].id == e.0@);
                }
                assert forall|a: int| 0 <= a < before.len() implies id_in_prefix(all, (#[trigger] before[a]).0@, i + 1) by {
                    assert(id_in_prefix(all, before[a].0@, i as int));
                    let b = choose|b: int| 0 <= b < i && all[b].id == before[a].0@;
                    assert(0 <= b < i + 1 && all[b].id == before[a].0@);
                }
            }
            i = i + 1;
        }
        assert(all.subrange(0, all.len() as int) =~= all);
        self.entries = kept;
        assert(self.spec_entries() =~= all.filter(|e: EscrowView| !spec_expired(e, now)));
        out
    }
}

/// Whether some of the first `i` deposits has blob id `id`.
pub open spec fn id_in_prefix(entries: Seq<EscrowView>, id: Seq<char>, i: int) -> bool {
    exists|b: int| 0 <= b < i && entries[b].id == id
}

/// Partial account sums never exceed later ones.
pub proof fn lemma_account_sum_monotone(entries: Seq<EscrowView>, account: Seq<char>, j: int, k: int)
    requires
        0 <= j <= k,
    ensures
        spec_account_sum(entries, account, j) <= spec_account_sum(entries, account, k),
    decreases k - j,
{
    if j < k {
        lemma_account_sum_monotone(entries, account, j, k - 1);
    }
}

/// With distinct ids, the deposit at `k` is the one found for its id.
pub proof fn lemma_find_unique(entries: Seq<EscrowView>, k: int)
    requires
        ids_distinct(entries),
        0 <= k < entries.len(),
    ensures
        spec_find(entries, entries[k].id) == Some(k),
{
    let id = entries[k].id;
    let c = choose|i: int| 0 <= i < entries.len() && entries[i].id == id;
    if c != k {
        assert(entries[c].id != entries[k].id);
    }
}

/// Appending a deposit leaves the account sums of the earlier prefixes.
pub proof fn lemma_account_sum_push(entries: Seq<EscrowView>, e: EscrowView, account: Seq<char>, k: int)
    requires
        0 <= k <= entries.len(),
    ensures
        spec_account_sum(entries.push(e), account, k) == spec_account_sum(entries, account, k),
    decreases k,
{
    if k > 0 {
        lemma_account_sum_push(entries, e, account, k - 1);
        assert(entries.push(e)[k - 1] == entries[k - 1]);
    }
}

/// Facts of the deposits after locking `e` into a store with distinct ids:
/// ids stay distinct, `e` sits at `k`, and every other deposit keeps its
/// place.
proof fn lemma_lock_shape(entries: Seq<EscrowView>, e: EscrowView) -> (k: int)
    requires
        ids_distinct(entries),
    ensures
        ids_distinct(spec_lock(entries, e)),
        0 <= k < spec_lock(entries, e).len(),
        spec_lock(entries, e)[k] == e,
        spec_find(spec_lock(entries, e), e.id) == Some(k),
        forall|j: int| 0 <= j < spec_lock(entries, e).len() && j != k ==> spec_lock(entries, e)[j] == entries[j]
            && entries[j].id != e.id,
        spec_lock(entries, e).len() >= entries.len(),
{
    let s2 = spec_lock(entries, e);
    let k = match spec_find(entries, e.id) {
        Some(i) => i,
        None => entries.len() as int,
    };
    match spec_find(entries, e.id) {
        Some(i) => {
            assert forall|j: int| 0 <= j < s2.len() && j != k implies s2[j] == entries[j] && entries[j].id != e.id by {
                assert(entries[i].id == e.id);
            }
        },
        None => {
            assert forall|j: int| 0 <= j < s2.len() && j != k implies s2[j] == entries[j] && entries[j].id != e.id by {
            }
        },
    }
    assert(ids_distinct(s2)) by {
        assert forall|a: int, b: int| 0 <= a < s2.len() && 0 <= b < s2.len() && a != b implies (
        #[trigger] s2[a]).id != (#[trigger] s2[b]).id by {
            if a != k && b != k {
                assert(s2[a] == entries[a]);
                assert(s2[b] == entries[b]);
            }
        }
    }
    lemma_find_unique(s2, k);
    k
}

/// Locking a deposit for a blob id in a store: afterwards the id holds
/// exactly that deposit, every other id holds what it held before, a new
/// id adds the amount to its depositor's total and leaves every other
/// account's total as it was, and a purge at `now` settles the deposit
/// exactly when it has expired by then (keeping it otherwise).
pub proof fn law_lock(store: RentEscrow, id: Seq<char>, depositor: Seq<char>, amount: u64, expiry: u64, now: u64)
    requires
        store.wf(),
    ensures
        ({
            let before = store.spec_entries();
            let e = EscrowView { id, depositor, amount, expiry };
            let after = spec_lock(before, e);
            &&& ids_distinct(after)
            &&& spec_lookup(after, id) == Some(e)
            &&& forall|other: Seq<char>| other != id ==> spec_lookup(after, other) == spec_lookup(before, other)
            &&& spec_lookup(before, id) is None ==> forall|account: Seq<char>|
                spec_account_sum(after, account, after.len() as int) == spec_account_sum(
                    before,
                    account,
                    before.len() as int,
                ) + if account == depositor {
                    amount as int
                } else {
                    0int
                }
            &&& after.filter(|x: EscrowView| spec_expired(x, now)).contains(e) == spec_expired(e, now)
            &&& after.filter(|x: EscrowView| !spec_expired(x, now)).contains(e) == !spec_expired(e, now)
        }),
{
    let before = store.spec_entries();
    let e = EscrowView { id, depositor, amount, expiry };
    store.lemma_ids_distinct();
    let k = lemma_lock_shape(before, e);
    let after = spec_lock(before, e);
    assert forall|other: Seq<char>| other != id implies spec_lookup(after, other) == spec_lookup(before, other) by {
        match spec_find(before, other) {
            Some(j) => {
                assert(before[j].id == other);
                if j == k {
                    assert(after[k].id == id);
                    if k < before.len() {
                        assert(before[k].id == id);
                    }
                    assert(false) by {
                        if spec_find(before, id) is None {
                            assert(before[j].id == id);
                        }
                    }
                }
                assert(after[j] == before[j]);
                lemma_find_unique(after, j);
            },
            None => {
                assert forall|j: int| 0 <= j < after.len() implies after[j].id != other by {
                    if j != k {
                        assert(after[j] == before[j]);
                    }
                }
            },
        }
    }
    if spec_lookup(before, id) is None {
        assert forall|account: Seq<char>|
            spec_account_sum(after, account, after.len() as int) == spec_account_sum(before, account, before.len() as int)
                + if account == depositor { amount as int } else { 0int } by {
            lemma_account_sum_push(before, e, account, before.len() as int);
            assert(after.len() == before.len() + 1);
            assert(after[before.len() as int] == e);
        }
    }
    let p = |x: EscrowView| spec_expired(x, now);
    let q = |x: EscrowView| !spec_expired(x, now);
    after.filter_lemma(p);
    after.filter_lemma(q);
    assert(after[k] == e);
    if !spec_expired(e, now) {
        if after.filter(p).contains(e) {
            let j = choose|j: int| 0 <= j < after.filter(p).len() && after.filter(p)[j] == e;
            assert(p(after.filter(p)[j]));
        }
        assert(q(after[k]));
    } else {
        if after.filter(q).contains(e) {
            let j = choose|j: int| 0 <= j < after.filter(q).len() && after.filter(q)[j] == e;
            assert(q(after.filter(q)[j]));
        }
        assert(p(after[k]));
    }
}

/// Releasing a blob id right after locking a deposit under it settles that
/// deposit: its depositor gets 90% of the amount back (rounded down), the
/// rest is burned, the two add up to the amount, and no deposit is left
/// under the id.
pub proof fn law_release_after_lock(store: RentEscrow, id: Seq<char>, depositor: Seq<char>, amount: u64, expiry: u64)
    requires
        store.wf(),
    ensures
        ({
            let after = spec_lock(store.spec_entries(), EscrowView { id, depositor, amount, expiry });
            &&& spec_find(after, id) matches Some(i) && spec_settlement(after[i]) == (
                depositor,
                (amount * 9 / 10) as u64,
                (amount - amount * 9 / 10) as u64,
            ) && spec_find(after.remove(i), id) is None
            &&& spec_refund(amount) + (amount - spec_refund(amount)) == amount
            &&& spec_refund(amount) <= amount
        }),
{
    let before = store.spec_entries();
    let e = EscrowView { id, depositor, amount, expiry };
    store.lemma_ids_distinct();
    let k = lemma_lock_shape(before, e);
    let after = spec_lock(before, e);
    assert(amount * 9 / 10 <= amount) by (nonlinear_arith);
    let r = after.remove(k);
    assert forall|j: int| 0 <= j < r.len() implies r[j].id != id by {
        let j2 = if j < k { j } else { j + 1 };
        assert(r[j] == after[j2]);
        assert(after[j2].id != after[k].id);
    }
}

/// The settlement of a deposit splits it exactly: refund plus burn is the
/// amount, and the refund is 90% of it rounded down.
pub proof fn lemma_settlement_conserves(e: EscrowView)
    ensures
        spec_settlement(e).1 + spec_settlement(e).2 == e.amount,
        spec_settlement(e).1 * 10 <= e.amount * 9 < spec_settlement(e).1 * 10 + 10,
{
    assert(e.amount * 9 / 10 <= e.amount) by (nonlinear_arith);
}

} // verus!
