//! Label-keyed integer metrics.

use vstd::prelude::*;
use crate::text::str_eq;

verus! {

/// Integer metric values keyed by label; an unseen label reads 0.
pub struct LabelCounters {
    entries: Vec<(String, u64)>,
}

impl LabelCounters {
    /// The value recorded for `label` (0 if none).
    pub closed spec fn spec_value(&self, label: Seq<char>) -> u64 {
        if exists|i: int| 0 <= i < self.entries@.len() && self.entries@[i].0@ == label {
            self.entries@[choose|i: int| 0 <= i < self.entries@.len() && self.entries@[i].0@ == label].1
        } else {
            0
        }
    }

    /// Whether `label` has an entry (a value was set for it, possibly 0).
    pub closed spec fn spec_contains(&self, label: Seq<char>) -> bool {
        exists|i: int| 0 <= i < self.entries@.len() && self.entries@[i].0@ == label
    }

    /// Each label appears at most once.
    pub closed spec fn wf(&self) -> bool {
        forall|i: int, j: int|
            0 <= i < self.entries@.len() && 0 <= j < self.entries@.len() && i != j ==> (
            #[trigger] self.entries@[i]).0@ != (#[trigger] self.entries@[j]).0@
    }

    /// No metric recorded yet.
    pub fn new() -> (c: Self)
        ensures
            c.wf(),
            forall|l: Seq<char>| c.spec_value(l) == 0,
            forall|l: Seq<char>| !c.spec_contains(l),
    {
        LabelCounters { entries: Vec::new() }
    }

    fn find(&self, label: &str) -> (r: Option<usize>)
        requires
            self.wf(),
        ensures
            match r {
                Some(i) => i < self.entries@.len() && self.entries@[i as int].0@ == label@
                    && self.spec_value(label@) == self.entries@[i as int].1,
                None => forall|i: int| 0 <= i < self.entries@.len() ==> self.entries@[i].0@ != label@,
            },
    {
        let mut i: usize = 0;
        while i < self.entries.len()
            invariant
                self.wf(),
                i <= self.entries@.len(),
                forall|j: int| 0 <= j < i ==> self.entries@[j].0@ != label@,
            decreases self.entries@.len() - i,
        {
            if str_eq(self.entries[i].0.as_str(), label) {
                proof {
                    let k = choose|k: int| 0 <= k < self.entries@.len() && self.entries@[k].0@ == label@;
                    if k != i {
                        assert(self.entries@[k].0@ == self.entries@[i as int].0@);
                    }
                }
                return Some(i);
            }
            i = i + 1;
        }
        None
    }

    /// The value recorded for `label` (0 if none).
    pub fn get(&self, label: &str) -> (v: u64)
        requires
            self.wf(),
        ensures
            v == self.spec_value(label@),
    {
        match self.find(label) {
            Some(i) => self.entries[i].1,
            None => 0,
        }
    }

    /// Sets the value of `label`; every other label keeps its value.
    pub fn set(&mut self, label: &str, v: u64)
        requires
            old(self).wf(),
        ensures
            final(self).wf(),
            final(self).spec_value(label@) == v,
            forall|l: Seq<char>| l != label@ ==> final(self).spec_value(l) == old(self).spec_value(l),
            final(self).spec_contains(label@),
            forall|l: Seq<char>| l != label@ ==> final(self).spec_contains(l) == old(self).spec_contains(l),
    {
        match self.find(label) {
            Some(i) => {
                let ghost before = self.entries@;
                let (name, _) = self.entries.remove(i);
                self.entries.insert(i, (name, v));
                assert(self.entries@ =~= before.update(i as int, (before[i as int].0, v)));
                assert(self.wf()) by {
                    assert forall|a: int, b: int|
                        0 <= a < self.entries@.len() && 0 <= b < self.entries@.len() && a != b implies (
                        #[trigger] self.entries@[a]).0@ != (#[trigger] self.entries@[b]).0@ by {
                        assert(self.entries@[a].0 == before[a].0);
                        assert(self.entries@[b].0 == before[b].0);
                    }
                }
                assert(self.entries@[i as int].0@ == label@);
                assert forall|l: Seq<char>| l != label@ implies self.spec_contains(l) == old(self).spec_contains(l) by {
                    if old(self).spec_contains(l) {
                        let k = choose|k: int| 0 <= k < before.len() && before[k].0@ == l;
                        assert(self.entries@[k].0 == before[k].0);
                    }
                    if self.spec_contains(l) {
                        let k = choose|k: int| 0 <= k < self.entries@.len() && self.entries@[k].0@ == l;
                        assert(self.entries@[k].0 == before[k].0);
                    }
                }
                assert forall|l: Seq<char>| l != label@ implies self.spec_value(l) == old(self).spec_value(l) by {
                    if exists|k: int| 0 <= k < before.len() && before[k].0@ == l {
                        let k = choose|k: int| 0 <= k < before.len() && before[k].0@ == l;
                        assert(self.entries@[k].0@ == l);
                        let k2 = choose|k2: int| 0 <= k2 < self.entries@.len() && self.entries@[k2].0@ == l;
                        assert(k2 == k) by {
                            if k2 != k {
                                assert(self.entries@[k2].0@ == self.entries@[k].0@);
                            }
                        }
                        assert(k != i);
                    } else {
                        assert forall|k: int| 0 <= k < self.entries@.len() implies self.entries@[k].0@ != l by {
                            assert(self.entries@[k].0 == before[k].0);
                        }
                    }
                }
                let ghost k2 = choose|k2: int| 0 <= k2 < self.entries@.len() && self.entries@[k2].0@ == label@;
                assert(k2 == i) by {
                    if k2 != i {
                        assert(self.entries@[k2].0@ == self.entries@[i as int].0@);
                    }
                }
            },
            None => {
                let ghost before = self.entries@;
                self.entries.push((label.to_owned(), v));
                let ghost n = before.len() as int;
                assert(self.wf()) by {
                    assert forall|a: int, b: int|
                        0 <= a < self.entries@.len() && 0 <= b < self.entries@.len() && a != b implies (
                        #[trigger] self.entries@[a]).0@ != (#[trigger] self.entries@[b]).0@ by {
                        if a < n {
                            assert(self.entries@[a] == before[a]);
                        }
                        if b < n {
                            assert(self.entries@[b] == before[b]);
                        }
                    }
                }
                assert(self.entries@[n].0@ == label@);
                let ghost k2 = choose|k2: int| 0 <= k2 < self.entries@.len() && self.entries@[k2].0@ == label@;
                assert(k2 == n) by {
                    if k2 != n {
                        assert(self.entries@[k2] == before[k2]);
                    }
                }
                assert forall|l: Seq<char>| l != label@ implies self.spec_contains(l) == old(self).spec_contains(l) by {
                    if old(self).spec_contains(l) {
                        let k = choose|k: int| 0 <= k < before.len() && before[k].0@ == l;
                        assert(self.entries@[k] == before[k]);
                    }
                    if self.spec_contains(l) {
                        let k = choose|k: int| 0 <= k < self.entries@.len() && self.entries@[k].0@ == l;
                        assert(k != n);
                        assert(self.entries@[k] == before[k]);
                    }
                }
                assert forall|l: Seq<char>| l != label@ implies self.spec_value(l) == old(self).spec_value(l) by {
                    if exists|k: int| 0 <= k < before.len() && before[k].0@ == l {
                        let k = choose|k: int| 0 <= k < before.len() && before[k].0@ == l;
                        assert(self.entries@[k] == before[k]);
                        let k3 = choose|k3: int| 0 <= k3 < self.entries@.len() && self.entries@[k3].0@ == l;
                        assert(k3 == k) by {
                            if k3 != k {
                                if k3 < n {
                                    assert(self.entries@[k3] == before[k3]);
                                }
                            }
                        }
                    } else {
                        assert forall|k: int| 0 <= k < self.entries@.len() implies self.entries@[k].0@ != l by {
                            if k < n {
                                assert(self.entries@[k] == before[k]);
                            }
                        }
                    }
                }
            },
        }
    }

    /// Adds `by` to the value of `label` (wrapping, like a counter).
    pub fn inc_by(&mut self, label: &str, by: u64)
        requires
            old(self).wf(),
        ensures
            final(self).wf(),
            final(self).spec_value(label@) == vstd::wrapping::u64_specs::wrapping_add(
                old(self).spec_value(label@),
                by,
            ),
            forall|l: Seq<char>| l != label@ ==> final(self).spec_value(l) == old(self).spec_value(l),
            final(self).spec_contains(label@),
            forall|l: Seq<char>| l != label@ ==> final(self).spec_contains(l) == old(self).spec_contains(l),
    {
        let v = self.get(label);
        self.set(label, v.wrapping_add(by));
    }

    /// Adds one to the value of `label`.
    pub fn inc(&mut self, label: &str)
        requires
            old(self).wf(),
        ensures
            final(self).wf(),
            final(self).spec_value(label@) == vstd::wrapping::u64_specs::wrapping_add(
                old(self).spec_value(label@),
                1,
            ),
            forall|l: Seq<char>| l != label@ ==> final(self).spec_value(l) == old(self).spec_value(l),
            final(self).spec_contains(label@),
            forall|l: Seq<char>| l != label@ ==> final(self).spec_contains(l) == old(self).spec_contains(l),
    {
        self.inc_by(label, 1);
    }
}

} // verus!
