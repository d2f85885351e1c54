//! Stack scripts that lock and unlock outputs.

use vstd::prelude::*;

verus! {

/// Script operations.
#[derive(Debug)]
pub enum Op {
    Push(Vec<u8>),
    Dup,
    Equal,
    CheckSig,
    True,
}

/// A script: a sequence of operations.
#[derive(Debug)]
pub struct Script(pub Vec<Op>);

/// The abstract form of a script operation.
pub enum OpView {
    Push(Seq<u8>),
    Dup,
    Equal,
    CheckSig,
    True,
}

impl View for Op {
    type V = OpView;

    open spec fn view(&self) -> OpView {
        match self {
            Op::Push(d) => OpView::Push(d@),
            Op::Dup => OpView::Dup,
            Op::Equal => OpView::Equal,
            Op::CheckSig => OpView::CheckSig,
            Op::True => OpView::True,
        }
    }
}

impl View for Script {
    type V = Seq<OpView>;

    open spec fn view(&self) -> Seq<OpView> {
        self.0@.map_values(|o: Op| o@)
    }
}

impl Op {
    /// A copy of this operation.
    pub fn duplicate(&self) -> (r: Op)
        ensures
            r@ == self@,
    {
        match self {
            Op::Push(d) => Op::Push(d.clone()),
            Op::Dup => Op::Dup,
            Op::Equal => Op::Equal,
            Op::CheckSig => Op::CheckSig,
            Op::True => Op::True,
        }
    }
}

impl Script {
    /// A copy of this script.
    pub fn duplicate(&self) -> (r: Script)
        ensures
            r@ == self@,
    {
        let mut ops: Vec<Op> = Vec::new();
        let mut i: usize = 0;
        while i < self.0.len()
            invariant
                i <= self.0@.len(),
                ops@.map_values(|o: Op| o@) =~= self@.subrange(0, i as int),
            decreases self.0@.len() - i,
        {
            let d = self.0[i].duplicate();
            let ghost prev = ops@;
            ops.push(d);
            assert(ops@ == prev.push(d));
            assert(ops@.map_values(|o: Op| o@) =~= prev.map_values(|o: Op| o@).push(d@));
            i = i + 1;
            assert(ops@.map_values(|o: Op| o@) =~= self@.subrange(0, i as int));
        }
        assert(self@.subrange(0, self@.len() as int) =~= self@);
        Script(ops)
    }
}

/// Runs `ops[i..]` on `stack`; `None` on stack underflow.
pub open spec fn spec_ops(ops: Seq<OpView>, i: int, stack: Seq<Seq<u8>>) -> Option<Seq<Seq<u8>>>
    decreases ops.len() - i,
{
    if i < 0 || i >= ops.len() {
        Some(stack)
    } else {
        let n = stack.len() as int;
        match ops[i] {
            OpView::Push(data) => spec_ops(ops, i + 1, stack.push(data)),
            OpView::Dup => if n < 1 {
                None
            } else {
                spec_ops(ops, i + 1, stack.push(stack.last()))
            },
            OpView::Equal => if n < 2 {
                None
            } else {
                spec_ops(
                    ops,
                    i + 1,
                    stack.subrange(0, n - 2).push(
                        if stack[n - 1] == stack[n - 2] { seq![1u8] } else { seq![0u8] },
                    ),
                )
            },
            OpView::True => spec_ops(ops, i + 1, stack.push(seq![1u8])),
            OpView::CheckSig => if n < 2 {
                None
            } else {
                spec_ops(ops, i + 1, stack.subrange(0, n - 2).push(seq![1u8]))
            },
        }
    }
}

/// Runs the unlocking script then the locking script from an empty stack.
pub open spec fn spec_script(sig: Seq<OpView>, pk: Seq<OpView>) -> Option<Seq<Seq<u8>>> {
    match spec_ops(sig, 0, Seq::empty()) {
        None => None,
        Some(s) => spec_ops(pk, 0, s),
    }
}

/// The first byte of every stack entry.
pub open spec fn spec_heads(stack: Seq<Seq<u8>>) -> Seq<u8> {
    stack.map_values(|v: Seq<u8>| v[0])
}

/// A script pair whose final stack has no empty entry (the first byte of each
/// entry is reported).
pub open spec fn spec_script_defined(sig: Seq<OpView>, pk: Seq<OpView>) -> bool {
    match spec_script(sig, pk) {
        Some(s) => forall|i: int| 0 <= i < s.len() ==> #[trigger] s[i].len() > 0,
        None => true,
    }
}

fn single(b: u8) -> (v: Vec<u8>)
    ensures
        v@ == seq![b],
{
    let mut v: Vec<u8> = Vec::new();
    v.push(b);
    assert(v@ =~= seq![b]);
    v
}

fn run_ops(ops: &Vec<Op>, stack: &mut Vec<Vec<u8>>) -> (ok: bool)
    ensures
        ok == spec_ops(ops@.map_values(|o: Op| o@), 0, old(stack)@.map_values(|v: Vec<u8>| v@)) is Some,
        ok ==> spec_ops(ops@.map_values(|o: Op| o@), 0, old(stack)@.map_values(|v: Vec<u8>| v@)) == Some(
            final(stack)@.map_values(|v: Vec<u8>| v@),
        ),
{
    let ghost target = spec_ops(ops@.map_values(|o: Op| o@), 0, old(stack)@.map_values(|v: Vec<u8>| v@));
    let mut i: usize = 0;
    while i < ops.len()
        invariant
            i <= ops@.len(),
            target == spec_ops(ops@.map_values(|o: Op| o@), 0, old(stack)@.map_values(|v: Vec<u8>| v@)),
            spec_ops(ops@.map_values(|o: Op| o@), i as int, stack@.map_values(|v: Vec<u8>| v@)) == target,
        decreases ops@.len() - i,
    {
        let ghost before = stack@.map_values(|v: Vec<u8>| v@);
        match &ops[i] {
            Op::Push(data) => {
                stack.push(data.clone());
                assert(stack@.map_values(|v: Vec<u8>| v@) =~= before.push(data@));
            },
            Op::Dup => {
                let n = stack.len();
                if n < 1 {
                    return false;
                }
                let v = stack[n - 1].clone();
                stack.push(v);
                assert(stack@.map_values(|v: Vec<u8>| v@) =~= before.push(before.last()));
            },
            Op::Equal => {
                let n = stack.len();
                if n < 2 {
                    return false;
                }
                let a = stack.pop().unwrap();
                let b = stack.pop().unwrap();
                let eq = crate::le::bytes_eq(a.as_slice(), b.as_slice());
                if eq {
                    stack.push(single(1u8));
                } else {
                    stack.push(single(0u8));
                }
                assert(stack@.map_values(|v: Vec<u8>| v@) =~= before.subrange(0, n - 2).push(
                    if before[n - 1] == before[n - 2] { seq![1u8] } else { seq![0u8] },
                ));
            },
            Op::True => {
                stack.push(single(1u8));
                assert(stack@.map_values(|v: Vec<u8>| v@) =~= before.push(seq![1u8]));
            },
            Op::CheckSig => {
                let n = stack.len();
                if n < 2 {
                    return false;
                }
                let _sig = stack.pop();
                let _pk = stack.pop();
                stack.push(single(1u8));
                assert(stack@.map_values(|v: Vec<u8>| v@) =~= before.subrange(0, n - 2).push(seq![1u8]));
            },
        }
        i = i + 1;
    }
    true
}

/// Executes the unlocking script `sig` then the locking script `pk`,
/// returning the first byte of each final stack entry.  Signature checks
/// always succeed.
pub fn execute(sig: &Script, pk: &Script) -> (r: Result<Vec<u8>, String>)
    requires
        spec_script_defined(sig@, pk@),
    ensures
        match r {
            Ok(v) => spec_script(sig@, pk@) matches Some(s) && v@ == spec_heads(s),
            Err(e) => spec_script(sig@, pk@) is None && e@ == "stack underflow"@,
        },
{
    let mut stack: Vec<Vec<u8>> = Vec::new();
    assert(stack@.map_values(|v: Vec<u8>| v@) =~= Seq::<Seq<u8>>::empty());
    if !run_ops(&sig.0, &mut stack) {
        return Err("stack underflow".to_owned());
    }
    let ghost s1 = stack@.map_values(|v: Vec<u8>| v@);
    if !run_ops(&pk.0, &mut stack) {
        return Err("stack underflow".to_owned());
    }
    let ghost s = stack@.map_values(|v: Vec<u8>| v@);
    assert(spec_script(sig@, pk@) == Some(s));
    assert forall|j: int| 0 <= j < s.len() implies #[trigger] s[j].len() > 0 by {
        assert(spec_script_defined(sig@, pk@));
        let ss = spec_script(sig@, pk@).unwrap();
        assert(ss == s);
        assert(ss[j].len() > 0);
    }
    let mut out: Vec<u8> = Vec::new();
    let mut i: usize = 0;
    while i < stack.len()
        invariant
            i <= stack@.len(),
            s == stack@.map_values(|v: Vec<u8>| v@),
            forall|j: int| 0 <= j < s.len() ==> #[trigger] s[j].len() > 0,
            out@ =~= spec_heads(s).subrange(0, i as int),
        decreases stack@.len() - i,
    {
        assert(s[i as int].len() > 0);
        out.push(stack[i][0]);
        i = i + 1;
    }
    Ok(out)
}

} // verus!

verus! {

/// `Equal` replaces the two top entries by `[1]` when they are the same
/// bytes, and leaves every entry below them in place.
pub proof fn law_equal_on_same_entries(below: Seq<Seq<u8>>, x: Seq<u8>)
    ensures
        spec_ops(seq![OpView::Equal], 0, below.push(x).push(x)) == Some(below.push(seq![1u8])),
{
    let s = below.push(x).push(x);
    let n = s.len() as int;
    assert(s.subrange(0, n - 2) =~= below);
    assert(spec_ops(seq![OpView::Equal], 1, below.push(seq![1u8])) == Some(below.push(seq![1u8])));
}

/// `Equal` replaces the two top entries by `[0]` when they differ, and
/// leaves every entry below them in place.
pub proof fn law_equal_on_different_entries(below: Seq<Seq<u8>>, x: Seq<u8>, y: Seq<u8>)
    requires
        x != y,
    ensures
        spec_ops(seq![OpView::Equal], 0, below.push(x).push(y)) == Some(below.push(seq![0u8])),
{
    let s = below.push(x).push(y);
    let n = s.len() as int;
    assert(s.subrange(0, n - 2) =~= below);
    assert(s[n - 1] == y && s[n - 2] == x);
    assert(spec_ops(seq![OpView::Equal], 1, below.push(seq![0u8])) == Some(below.push(seq![0u8])));
}

/// A hash-lock style pair: unlocking with `Push(x)` a script locked by
/// `Push(y); Equal` ends with the single entry `[1]` when `x == y`, and
/// `[0]` when they differ.
pub proof fn law_hash_lock_script(x: Seq<u8>, y: Seq<u8>)
    ensures
        x == y ==> spec_script(seq![OpView::Push(x)], seq![OpView::Push(y), OpView::Equal]) == Some(
            seq![seq![1u8]],
        ),
        x != y ==> spec_script(seq![OpView::Push(x)], seq![OpView::Push(y), OpView::Equal]) == Some(
            seq![seq![0u8]],
        ),
{
    let sig = seq![OpView::Push(x)];
    let pk = seq![OpView::Push(y), OpView::Equal];
    let e = Seq::<Seq<u8>>::empty();
    assert(spec_ops(sig, 1, e.push(x)) == Some(e.push(x)));
    assert(spec_ops(sig, 0, e) == Some(e.push(x)));
    let s2 = e.push(x).push(y);
    let r = if x == y { seq![1u8] } else { seq![0u8] };
    assert(s2.subrange(0, 0) =~= e);
    assert(spec_ops(pk, 2, e.push(r)) == Some(e.push(r)));
    assert(spec_ops(pk, 1, s2) == spec_ops(pk, 2, e.push(r)));
    assert(spec_ops(pk, 0, e.push(x)) == spec_ops(pk, 1, s2));
    assert(e.push(r) =~= seq![r]);
}

/// `Dup` pushes a copy of the top entry and changes nothing else.
pub proof fn law_dup_copies_top(below: Seq<Seq<u8>>, x: Seq<u8>)
    ensures
        spec_ops(seq![OpView::Dup], 0, below.push(x)) == Some(below.push(x).push(x)),
{
    assert(spec_ops(seq![OpView::Dup], 1, below.push(x).push(x)) == Some(below.push(x).push(x)));
}

/// `True` pushes `[1]`; `CheckSig` replaces the two top entries by `[1]`
/// (signatures are not checked by scripts), leaving the rest in place.
pub proof fn law_true_and_checksig_push_one(below: Seq<Seq<u8>>, x: Seq<u8>, y: Seq<u8>)
    ensures
        spec_ops(seq![OpView::True], 0, below) == Some(below.push(seq![1u8])),
        spec_ops(seq![OpView::CheckSig], 0, below.push(x).push(y)) == Some(below.push(seq![1u8])),
{
    let s = below.push(x).push(y);
    assert(s.subrange(0, s.len() - 2) =~= below);
    assert(spec_ops(seq![OpView::True], 1, below.push(seq![1u8])) == Some(below.push(seq![1u8])));
    assert(spec_ops(seq![OpView::CheckSig], 1, below.push(seq![1u8])) == Some(below.push(seq![1u8])));
}

} // verus!
