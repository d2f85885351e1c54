//! Choices of the treasury executor that do not depend on its stores.

use vstd::prelude::*;

verus! {

/// Largest memo, in bytes, whose dependency list is read.
pub const MAX_MEMO_SIZE: usize = 1024;

/// The first nonce starting from `start` that is not pending.
pub open spec fn spec_first_free(start: u64, pending: Seq<u64>, c: u64) -> bool {
    start <= c && !pending.contains(c) && forall|x: u64| start <= x < c ==> pending.contains(x)
}

/// One past the account's nonce and its pending count, saturating.
pub open spec fn spec_start(nonce: u64, pending_nonce: u64) -> u64 {
    if nonce as int + pending_nonce as int + 1 > u64::MAX {
        u64::MAX
    } else {
        (nonce + pending_nonce + 1) as u64
    }
}

/// The nonce the executor signs with next: one past the account's nonce
/// and its pending count (saturating), moved up past every nonce already
/// pending.  Requires a free nonce at or above that start.
pub fn next_available_nonce(nonce: u64, pending_nonce: u64, pending: &[u64]) -> (c: u64)
    requires
        exists|x: u64| spec_start(nonce, pending_nonce) <= x && !pending@.contains(x),
    ensures
        spec_first_free(spec_start(nonce, pending_nonce), pending@, c),
{
    let a = if nonce > u64::MAX - pending_nonce { u64::MAX } else { nonce + pending_nonce };
    let start = if a == u64::MAX { u64::MAX } else { a + 1 };
    let ghost s_spec = spec_start(nonce, pending_nonce);
    assert(start == s_spec);
    let ghost free = choose|x: u64| start <= x && !pending@.contains(x);
    let mut candidate = start;
    loop
        invariant
            start == s_spec,
            s_spec == spec_start(nonce, pending_nonce),
            start <= candidate <= free,
            free >= start,
            !pending@.contains(free),
            forall|x: u64| start <= x < candidate ==> pending@.contains(x),
        decreases free - candidate,
    {
        let mut i: usize = 0;
        let mut hit = false;
        while i < pending.len()
            invariant
                i <= pending@.len(),
                hit == exists|k: int| 0 <= k < i && pending@[k] == candidate,
                start == s_spec,
                s_spec == spec_start(nonce, pending_nonce),
                start <= candidate <= free,
                !pending@.contains(free),
                forall|x: u64| start <= x < candidate ==> pending@.contains(x),
            decreases pending@.len() - i,
        {
            if pending[i] == candidate {
                hit = true;
            }
            i = i + 1;
        }
        if !hit {
            assert(!pending@.contains(candidate));
            return candidate;
        }
        assert(pending@.contains(candidate));
        assert(candidate != free);
        candidate = candidate + 1;
    }
}

/// Whether a memo is small enough for its dependency list to be read.
pub fn memo_within_limit(memo: &[u8]) -> (ok: bool)
    ensures
        ok == (memo@.len() <= MAX_MEMO_SIZE * 8),
{
    memo.len() <= MAX_MEMO_SIZE * 8
}

} // verus!
