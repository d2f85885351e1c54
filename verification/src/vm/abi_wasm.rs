//! Moving bytes in and out of a module's linear memory.

use vstd::prelude::*;

verus! {

/// Writes `data` at offset 0 of `mem` when it fits (else leaves `mem`
/// alone) and returns the offset, 0.
pub fn write(mem: &mut Vec<u8>, data: &[u8]) -> (ptr: i32)
    ensures
        ptr == 0,
        final(mem)@.len() == old(mem)@.len(),
        old(mem)@.len() >= data@.len() ==> final(mem)@ == data@ + old(mem)@.subrange(
            data@.len() as int,
            old(mem)@.len() as int,
        ),
        old(mem)@.len() < data@.len() ==> final(mem)@ == old(mem)@,
{
    if mem.len() >= data.len() {
        let mut i: usize = 0;
        while i < data.len()
            invariant
                i <= data@.len(),
                data@.len() <= old(mem)@.len(),
                mem@.len() == old(mem)@.len(),
                forall|k: int| 0 <= k < i ==> mem@[k] == data@[k],
                forall|k: int| i <= k < mem@.len() ==> mem@[k] == old(mem)@[k],
            decreases data@.len() - i,
        {
            mem.set(i, data[i]);
            i = i + 1;
        }
        assert(mem@ =~= data@ + old(mem)@.subrange(data@.len() as int, old(mem)@.len() as int));
    }
    0
}

/// The bytes `[start, start + len)` of `mem` with `start` and `len` read as
/// unsigned (a negative value wraps); none when the range overflows or
/// leaves the memory.
pub open spec fn spec_read(mem: Seq<u8>, ptr: i32, len: i32) -> Option<Seq<u8>> {
    let start = ptr as usize as int;
    let l = len as usize as int;
    if start + l > usize::MAX || start + l > mem.len() {
        None
    } else {
        Some(mem.subrange(start, start + l))
    }
}

/// Reads `len` bytes at `ptr` from `mem`.
pub fn read(mem: &[u8], ptr: i32, len: i32) -> (r: Option<Vec<u8>>)
    ensures
        match r {
            Some(v) => spec_read(mem@, ptr, len) == Some(v@),
            None => spec_read(mem@, ptr, len) is None,
        },
{
    let start = ptr as usize;
    let l = len as usize;
    if start > usize::MAX - l {
        return None;
    }
    let end = start + l;
    if end > mem.len() {
        return None;
    }
    Some(crate::le::copy_range(mem, start, end))
}

} // verus!
