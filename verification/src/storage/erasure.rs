//! Erasure layout: Reed–Solomon shard counts plus a small fountain overlay
//! that can restore either of the first two shards.
//!
//! The shard coder itself belongs to the coding service; this module decides
//! the layout around it: which shards it is given, and what is done with its
//! output.

use vstd::prelude::*;
use crate::text::str_eq;

verus! {

/// Number of fountain-overlay shards layered on top of the Reed–Solomon set.
pub const FOUNTAIN_OVERLAY_SHARDS: usize = 3;

/// Number of leading shards the overlay combines.
pub const FOUNTAIN_SOURCE: usize = 2;

/// Erasure coding parameters.
#[derive(Clone, Debug)]
pub struct ErasureParams {
    pub algorithm: String,
    pub data_shards: usize,
    pub parity_shards: usize,
}

impl ErasureParams {
    /// Data plus parity shards.
    pub fn total_rs(&self) -> (n: usize)
        requires
            self.data_shards + self.parity_shards <= usize::MAX,
        ensures
            n == self.data_shards + self.parity_shards,
    {
        self.data_shards + self.parity_shards
    }

    /// Whether the algorithm is Reed–Solomon.
    pub fn is_reed_solomon(&self) -> (b: bool)
        ensures
            b == (self.algorithm@ == "reed-solomon"@),
    {
        str_eq(self.algorithm.as_str(), "reed-solomon")
    }

    /// Whether the algorithm is the XOR fallback.
    pub fn is_xor(&self) -> (b: bool)
        ensures
            b == (self.algorithm@ == "xor"@),
    {
        str_eq(self.algorithm.as_str(), "xor")
    }
}

/// Shards per chunk: the Reed–Solomon set plus the overlay shards.
pub fn total_shards_for_params(params: &ErasureParams) -> (n: usize)
    requires
        params.data_shards + params.parity_shards + FOUNTAIN_OVERLAY_SHARDS <= usize::MAX,
    ensures
        n == params.data_shards + params.parity_shards + FOUNTAIN_OVERLAY_SHARDS,
{
    params.total_rs() + FOUNTAIN_OVERLAY_SHARDS
}

/// Overlay shard `i`: the first shard XOR the second (over their common
/// length; the rest of the first shard is kept), with `i` XOR-ed into the
/// first byte.
pub open spec fn spec_overlay_shard(b0: Seq<u8>, b1: Seq<u8>, i: u8) -> Seq<u8> {
    Seq::new(
        b0.len(),
        |j: int|
            {
                let x = if j < b1.len() { b0[j] ^ b1[j] } else { b0[j] };
                if j == 0 { x ^ i } else { x }
            },
    )
}

/// The coder's shards followed by the overlay shards (when there are at least
/// two shards).
pub open spec fn spec_overlay_fountain(shards: Seq<Seq<u8>>) -> Seq<Seq<u8>> {
    if shards.len() >= 2 {
        shards + seq![
            spec_overlay_shard(shards[0], shards[1], 0),
            spec_overlay_shard(shards[0], shards[1], 1),
            spec_overlay_shard(shards[0], shards[1], 2),
        ]
    } else {
        shards
    }
}

fn overlay_shard(b0: &Vec<u8>, b1: &Vec<u8>, i: u8) -> (c: Vec<u8>)
    ensures
        c@ == spec_overlay_shard(b0@, b1@, i),
{
    let mut c: Vec<u8> = Vec::new();
    let mut j: usize = 0;
    while j < b0.len()
        invariant
            j <= b0@.len(),
            c@ =~= spec_overlay_shard(b0@, b1@, i).subrange(0, j as int),
        decreases b0@.len() - j,
    {
        let x = if j < b1.len() { b0[j] ^ b1[j] } else { b0[j] };
        let y = if j == 0 { x ^ i } else { x };
        c.push(y);
        j = j + 1;
    }
    c
}

/// Appends the overlay shards to the coder's shards.
pub fn overlay_fountain(shards: Vec<Vec<u8>>) -> (out: Vec<Vec<u8>>)
    ensures
        out@.map_values(|s: Vec<u8>| s@) == spec_overlay_fountain(shards@.map_values(|s: Vec<u8>| s@)),
{
    let ghost v = shards@.map_values(|s: Vec<u8>| s@);
    let mut shards = shards;
    if shards.len() >= FOUNTAIN_SOURCE {
        let o0 = overlay_shard(&shards[0], &shards[1], 0);
        let o1 = overlay_shard(&shards[0], &shards[1], 1);
        let o2 = overlay_shard(&shards[0], &shards[1], 2);
        shards.push(o0);
        shards.push(o1);
        shards.push(o2);
        assert(shards@.map_values(|s: Vec<u8>| s@) =~= spec_overlay_fountain(v));
    }
    shards
}

/// Restores a shard from overlay shard `idx` and the other source shard.
pub open spec fn spec_recover_overlay(overlay: Seq<u8>, known: Seq<u8>, idx: u8) -> Option<Seq<u8>> {
    if overlay.len() != known.len() {
        None
    } else {
        Some(
            Seq::new(
                overlay.len(),
                |p: int| (if p == 0 { overlay[p] ^ idx } else { overlay[p] }) ^ known[p],
            ),
        )
    }
}

/// Restores a shard from an overlay shard and the other source shard.
pub fn recover_overlay(overlay: &[u8], known: &[u8], overlay_idx: usize) -> (r: Option<Vec<u8>>)
    ensures
        match r {
            Some(v) => spec_recover_overlay(overlay@, known@, overlay_idx as u8) == Some(v@),
            None => spec_recover_overlay(overlay@, known@, overlay_idx as u8) is None,
        },
{
    if overlay.len() != known.len() {
        return None;
    }
    let idx = overlay_idx as u8;
    let mut out: Vec<u8> = Vec::new();
    let mut p: usize = 0;
    while p < overlay.len()
        invariant
            overlay@.len() == known@.len(),
            idx == overlay_idx as u8,
            p <= overlay@.len(),
            out@ =~= spec_recover_overlay(overlay@, known@, idx).unwrap().subrange(0, p as int),
        decreases overlay@.len() - p,
    {
        let b = if p == 0 { overlay[p] ^ idx } else { overlay[p] };
        out.push(b ^ known[p]);
        p = p + 1;
    }
    Some(out)
}

/// XOR-ing the same two bytes in twice restores the original.
proof fn lemma_xor_cancel(a: u8, b: u8, i: u8)
    ensures
        ((a ^ b) ^ i) ^ i ^ b == a,
        (a ^ b) ^ b == a,
        ((a ^ b) ^ i) ^ i ^ a == b,
        (a ^ b) ^ a == b,
{
    assert(((a ^ b) ^ i) ^ i ^ b == a) by (bit_vector);
    assert((a ^ b) ^ b == a) by (bit_vector);
    assert(((a ^ b) ^ i) ^ i ^ a == b) by (bit_vector);
    assert((a ^ b) ^ a == b) by (bit_vector);
}

/// Either source shard is restored from any overlay shard and the other
/// source shard (for shards of equal length).
pub proof fn lemma_overlay_recovers_sources(b0: Seq<u8>, b1: Seq<u8>, i: u8)
    requires
        b0.len() == b1.len(),
    ensures
        spec_recover_overlay(spec_overlay_shard(b0, b1, i), b1, i) == Some(b0),
        spec_recover_overlay(spec_overlay_shard(b0, b1, i), b0, i) == Some(b1),
{
    let o = spec_overlay_shard(b0, b1, i);
    assert forall|p: int| 0 <= p < b0.len() implies ((if p == 0 { o[p] ^ i } else { o[p] }) ^ b1[p]) == b0[p]
        && ((if p == 0 { o[p] ^ i } else { o[p] }) ^ b0[p]) == b1[p] by {
        lemma_xor_cancel(b0[p], b1[p], i);
    }
    assert(spec_recover_overlay(o, b1, i).unwrap() =~= b0);
    assert(spec_recover_overlay(o, b0, i).unwrap() =~= b1);
}

/// Fills the first two base shards from overlays `k..`, in order.
pub open spec fn spec_fill(
    first: Option<Seq<u8>>,
    second: Option<Seq<u8>>,
    overlays: Seq<Option<Seq<u8>>>,
    k: int,
) -> (Option<Seq<u8>>, Option<Seq<u8>>)
    decreases overlays.len() - k,
{
    if k < 0 || k >= overlays.len() {
        (first, second)
    } else {
        match overlays[k] {
            None => spec_fill(first, second, overlays, k + 1),
            Some(o) => {
                let f = if first is None && second is Some && second.unwrap().len() == o.len() {
                    spec_recover_overlay(o, second.unwrap(), k as u8)
                } else {
                    first
                };
                let g = if second is None && f is Some && f.unwrap().len() == o.len() {
                    spec_recover_overlay(o, f.unwrap(), k as u8)
                } else {
                    second
                };
                if f is Some && g is Some {
                    (f, g)
                } else {
                    spec_fill(f, g, overlays, k + 1)
                }
            },
        }
    }
}

fn clone_opt(v: &Option<Vec<u8>>) -> (c: Option<Vec<u8>>)
    ensures
        match c {
            Some(x) => v matches Some(y) && x@ == y@,
            None => v is None,
        },
{
    match v {
        Some(x) => Some(x.clone()),
        None => None,
    }
}

/// The view of an optional shard.
pub open spec fn opt_view(o: Option<Vec<u8>>) -> Option<Seq<u8>> {
    match o {
        Some(v) => Some(v@),
        None => None,
    }
}

/// Restores missing first or second base shards from the overlays.
pub fn try_fill_from_overlay(base: &mut Vec<Option<Vec<u8>>>, overlays: &Vec<Option<Vec<u8>>>)
    requires
        old(base)@.len() >= 2,
    ensures
        final(base)@.len() == old(base)@.len(),
        forall|i: int| 2 <= i < old(base)@.len() ==> #[trigger] final(base)@[i] == old(base)@[i],
        (opt_view(final(base)@[0]), opt_view(final(base)@[1])) == spec_fill(
            opt_view(old(base)@[0]),
            opt_view(old(base)@[1]),
            overlays@.map_values(|o: Option<Vec<u8>>| opt_view(o)),
            0,
        ),
{
    let ghost ov = overlays@.map_values(|o: Option<Vec<u8>>| opt_view(o));
    let ghost target = spec_fill(opt_view(base@[0]), opt_view(base@[1]), ov, 0);
    let mut first = clone_opt(&base[0]);
    let mut second = clone_opt(&base[1]);
    let mut k: usize = 0;
    while k < overlays.len()
        invariant
            k <= overlays@.len(),
            ov == overlays@.map_values(|o: Option<Vec<u8>>| opt_view(o)),
            spec_fill(opt_view(first), opt_view(second), ov, k as int) == target,
        ensures
            (opt_view(first), opt_view(second)) == target,
        decreases overlays@.len() - k,
    {
        match &overlays[k] {
            None => {},
            Some(o) => {
                assert(ov[k as int] == Some(o@));
                let need_first = match (&first, &second) {
                    (None, Some(s)) => s.len() == o.len(),
                    _ => false,
                };
                if need_first {
                    let s = clone_opt(&second).unwrap();
                    first = recover_overlay(o.as_slice(), s.as_slice(), k);
                }
                let need_second = match (&second, &first) {
                    (None, Some(f)) => f.len() == o.len(),
                    _ => false,
                };
                if need_second {
                    let f = clone_opt(&first).unwrap();
                    second = recover_overlay(o.as_slice(), f.as_slice(), k);
                }
                if first.is_some() && second.is_some() {
                    break;
                }
            },
        }
        k = k + 1;
    }
    let ghost b = base@;
    base.set(0, first);
    base.set(1, second);
}

} // verus!

verus! {

/// One shard handed to the coder for reconstruction.
pub struct ShardFragment {
    pub index: usize,
    pub is_data: bool,
    pub bytes: Vec<u8>,
}

/// What the coder is asked to reconstruct from.
pub struct ReconstructionPlan {
    pub data_shards: usize,
    pub parity_shards: usize,
    pub shard_len: usize,
    pub original_len: usize,
    pub fragments: Vec<Option<ShardFragment>>,
}

/// The largest length among the present shards of `s[..k]` (0 if none).
pub open spec fn spec_max_len(s: Seq<Option<Seq<u8>>>, k: int) -> int
    decreases k,
{
    if k <= 0 {
        0
    } else {
        let prev = spec_max_len(s, k - 1);
        match s[k - 1] {
            Some(b) => if b.len() > prev { b.len() as int } else { prev },
            None => prev,
        }
    }
}

/// The base shards after restoring the first two from the overlays when
/// either is missing.
pub open spec fn spec_filled_base(base: Seq<Option<Seq<u8>>>, overlays: Seq<Option<Seq<u8>>>) -> Seq<
    Option<Seq<u8>>,
> {
    if base.len() >= 2 && (base[0] is None || base[1] is None) {
        let f = spec_fill(base[0], base[1], overlays, 0);
        base.update(0, f.0).update(1, f.1)
    } else {
        base
    }
}

/// Splits the received shards into the Reed–Solomon set and the overlays,
/// restores the first two shards from the overlays when needed, and lays out
/// what the coder reconstructs from.  A shard count other than the layout's
/// is refused.
pub fn prepare_reconstruction(
    shards: Vec<Option<Vec<u8>>>,
    original_len: usize,
    params: &ErasureParams,
) -> (r: Result<ReconstructionPlan, String>)
    requires
        params.data_shards + params.parity_shards + FOUNTAIN_OVERLAY_SHARDS <= usize::MAX,
    ensures
        ({
            let total_rs = params.data_shards + params.parity_shards;
            let v = shards@.map_values(|o: Option<Vec<u8>>| opt_view(o));
            let base = spec_filled_base(v.subrange(0, total_rs as int), v.subrange(total_rs as int, v.len() as int));
            match r {
                Err(e) => shards@.len() != total_rs + FOUNTAIN_OVERLAY_SHARDS && e@ == "invalid shard layout"@,
                Ok(plan) => {
                    &&& shards@.len() == total_rs + FOUNTAIN_OVERLAY_SHARDS
                    &&& plan.data_shards == params.data_shards
                    &&& plan.parity_shards == params.parity_shards
                    &&& plan.original_len == original_len
                    &&& plan.shard_len == spec_max_len(base, base.len() as int)
                    &&& plan.fragments@.len() == total_rs
                    &&& forall|i: int| 0 <= i < total_rs ==> match #[trigger] plan.fragments@[i] {
                        Some(f) => base[i] == Some(f.bytes@) && f.index == i && f.is_data == (i
                            < params.data_shards),
                        None => base[i] is None,
                    }
                },
            }
        }),
{
    let total_rs = params.total_rs();
    if shards.len() != total_rs + FOUNTAIN_OVERLAY_SHARDS {
        return Err("invalid shard layout".to_owned());
    }
    let ghost v = shards@.map_values(|o: Option<Vec<u8>>| opt_view(o));
    let mut base: Vec<Option<Vec<u8>>> = Vec::new();
    let mut overlays: Vec<Option<Vec<u8>>> = Vec::new();
    let mut i: usize = 0;
    while i < shards.len()
        invariant
            i <= shards@.len(),
            shards@.len() == total_rs + FOUNTAIN_OVERLAY_SHARDS,
            v == shards@.map_values(|o: Option<Vec<u8>>| opt_view(o)),
            i <= total_rs ==> base@.map_values(|o: Option<Vec<u8>>| opt_view(o)) =~= v.subrange(0, i as int)
                && overlays@.len() == 0,
            i > total_rs ==> base@.map_values(|o: Option<Vec<u8>>| opt_view(o)) =~= v.subrange(0, total_rs as int)
                && overlays@.map_values(|o: Option<Vec<u8>>| opt_view(o)) =~= v.subrange(total_rs as int, i as int),
        decreases shards@.len() - i,
    {
        let c = clone_opt(&shards[i]);
        if i < total_rs {
            base.push(c);
        } else {
            overlays.push(c);
        }
        i = i + 1;
    }
    let ghost bv = base@.map_values(|o: Option<Vec<u8>>| opt_view(o));
    let ghost ovv = overlays@.map_values(|o: Option<Vec<u8>>| opt_view(o));
    if base.len() >= 2 && (base[0].is_none() || base[1].is_none()) {
        try_fill_from_overlay(&mut base, &overlays);
        assert(base@.map_values(|o: Option<Vec<u8>>| opt_view(o)) =~= spec_filled_base(bv, ovv));
    } else {
        assert(base@.map_values(|o: Option<Vec<u8>>| opt_view(o)) =~= spec_filled_base(bv, ovv));
    }
    let ghost fb = spec_filled_base(bv, ovv);
    let mut shard_len: usize = 0;
    let mut fragments: Vec<Option<ShardFragment>> = Vec::new();
    let mut k: usize = 0;
    while k < base.len()
        invariant
            k <= base@.len(),
            base@.len() == total_rs,
            fb == base@.map_values(|o: Option<Vec<u8>>| opt_view(o)),
            shard_len == spec_max_len(fb, k as int),
            fragments@.len() == k,
            forall|j: int| 0 <= j < k ==> match #[trigger] fragments@[j] {
                Some(f) => fb[j] == Some(f.bytes@) && f.index == j && f.is_data == (j < params.data_shards),
                None => fb[j] is None,
            },
        decreases base@.len() - k,
    {
        match &base[k] {
            Some(b) => {
                if b.len() > shard_len {
                    shard_len = b.len();
                }
                fragments.push(Some(ShardFragment { index: k, is_data: k < params.data_shards, bytes: b.clone() }));
            },
            None => {
                fragments.push(None);
            },
        }
        k = k + 1;
    }
    Ok(ReconstructionPlan {
        data_shards: params.data_shards,
        parity_shards: params.parity_shards,
        shard_len,
        original_len,
        fragments,
    })
}

/// Checks the coder's output against the original chunk length and cuts it
/// to that length.
pub fn finish_reconstruction(recovered: Vec<u8>, original_len: usize) -> (r: Result<Vec<u8>, String>)
    ensures
        match r {
            Ok(v) => recovered@.len() >= original_len && v@ == recovered@.subrange(0, original_len as int),
            Err(e) => recovered@.len() < original_len && e@ == "reconstructed chunk shorter than expected"@,
        },
{
    if recovered.len() < original_len {
        return Err("reconstructed chunk shorter than expected".to_owned());
    }
    let mut out = recovered;
    out.truncate(original_len);
    Ok(out)
}

} // verus!

verus! {

/// The erasure parameters of the active settings: the active erasure
/// algorithm with the configured shard counts.
pub fn default_params(settings: &crate::storage::settings::StorageSettings) -> (p: ErasureParams)
    ensures
        p.algorithm@ == settings.spec_algorithms().erasure,
        (p.data_shards, p.parity_shards) == settings.spec_erasure_counts(),
{
    let (data, parity) = crate::storage::settings::erasure_counts(settings);
    let algorithms = crate::storage::settings::algorithms(settings);
    ErasureParams { algorithm: algorithms.erasure().to_owned(), data_shards: data, parity_shards: parity }
}

/// The configured data and parity shard counts.
pub fn reed_solomon_counts(settings: &crate::storage::settings::StorageSettings) -> (r: (usize, usize))
    ensures
        r == settings.spec_erasure_counts(),
{
    let params = default_params(settings);
    (params.data_shards, params.parity_shards)
}

/// Shards per chunk under the active settings.
pub fn total_shards_per_chunk(settings: &crate::storage::settings::StorageSettings) -> (n: usize)
    requires
        settings.spec_erasure_counts().0 + settings.spec_erasure_counts().1 + FOUNTAIN_OVERLAY_SHARDS
            <= usize::MAX,
    ensures
        n == settings.spec_erasure_counts().0 + settings.spec_erasure_counts().1 + FOUNTAIN_OVERLAY_SHARDS,
{
    total_shards_for_params(&default_params(settings))
}

} // verus!
