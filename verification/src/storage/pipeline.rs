//! The storage pipeline's bookkeeping: chunk-size ladders, manifest and
//! receipt assembly, the manifest store and its listing, and the pipeline's own settings.
//! Moving bytes to providers and running the coders is the caller's part.

pub mod binary;

use vstd::prelude::*;
use crate::storage::fs::{spec_expired, spec_settlement, EscrowView, RentEscrow};
use crate::storage::settings::{spec_is_fallback_compression, spec_is_fallback_erasure, AlgorithmsView};
use crate::storage::types::{spec_chunk_count, ObjectManifest, ObjectManifestView, Redundancy, StoreReceipt};
use crate::text::eq_ignore_ascii_case;
use crate::hashing::{blake3_hash, spec_blake3};
use crate::transaction::BlobTx;
use vstd::string::StrSliceExecFns;

verus! {

/// Manifest layout version written by the pipeline.
pub const VERSION: u16 = 1;

/// Chunk size used when the settings give none that fits.
pub const FALLBACK_CHUNK: u32 = 1048576;

/// Chunk sizes used when the settings give no ladder.
pub const FALLBACK_CHUNK_LADDER: [u32; 5] = [262144, 524288, 1048576, 2097152, 4194304];

/// Logical quota per credit of stake.
pub const QUOTA_BYTES_PER_CREDIT: u64 = 1048576;

/// `s` is strictly increasing.
pub open spec fn strictly_increasing(s: Seq<u32>) -> bool {
    forall|i: int, j: int| 0 <= i < j < s.len() ==> s[i] < s[j]
}

/// The ladder entries that fit in `u32`.
pub open spec fn fitting(ladder: Seq<usize>) -> Set<u32> {
    Set::new(|x: u32| exists|i: int| 0 <= i < ladder.len() && ladder[i] == x as usize)
}

fn insert_sorted(v: &mut Vec<u32>, x: u32)
    requires
        strictly_increasing(old(v)@),
    ensures
        strictly_increasing(final(v)@),
        final(v)@.to_set() == old(v)@.to_set().insert(x),
{
    let mut i: usize = 0;
    while i < v.len() && v[i] < x
        invariant
            i <= v@.len(),
            strictly_increasing(v@),
            v@ == old(v)@,
            forall|k: int| 0 <= k < i ==> v@[k] < x,
        decreases v@.len() - i,
    {
        i = i + 1;
    }
    if i < v.len() && v[i] == x {
        assert(v@.to_set().insert(x) =~= v@.to_set()) by {
            assert(v@.contains(x));
        }
        return;
    }
    let ghost before = v@;
    v.insert(i, x);
    assert(v@ =~= before.subrange(0, i as int).push(x) + before.subrange(i as int, before.len() as int));
    assert forall|a: int, b: int| 0 <= a < b < v@.len() implies v@[a] < v@[b] by {
        if b < i {
        } else if a < i && b == i {
        } else if a < i && b > i {
            assert(before[b - 1] > x || before[b - 1] == x || before[b - 1] < x);
            if i < before.len() {
                assert(before[i as int] > x);
                if b - 1 > i {
                    assert(before[i as int] < before[b - 1]);
                }
            }
        } else if a == i {
            assert(before[i as int] > x);
            if b - 1 > i {
                assert(before[i as int] < before[b - 1]);
            }
        } else {
        }
    }
    assert(v@.to_set() =~= before.to_set().insert(x)) by {
        assert forall|y: u32| v@.to_set().contains(y) <==> before.to_set().insert(x).contains(y) by {
            if v@.contains(y) {
                let k = choose|k: int| 0 <= k < v@.len() && v@[k] == y;
                if k < i {
                    assert(before[k] == y);
                } else if k > i {
                    assert(before[k - 1] == y);
                }
            }
            if before.contains(y) {
                let k = choose|k: int| 0 <= k < before.len() && before[k] == y;
                if k < i {
                    assert(v@[k] == y);
                } else {
                    assert(v@[k + 1] == y);
                }
            }
            if y == x {
                assert(v@[i as int] == x);
            }
        }
    }
}

/// The chunk sizes of the settings: the default (the fallback chunk when it
/// does not fit in `u32`) and the ladder entries that fit in `u32`, sorted
/// and without repeats, or the fallback ladder when none does.
pub fn chunk_defaults(settings: &crate::storage::settings::StorageSettings) -> (r: (u32, Vec<u32>))
    ensures
        r.0 == if settings.spec_chunk_defaults().0 <= u32::MAX {
            settings.spec_chunk_defaults().0 as u32
        } else {
            FALLBACK_CHUNK
        },
        fitting(settings.spec_chunk_defaults().1).is_empty() ==> r.1@ == FALLBACK_CHUNK_LADDER@,
        !fitting(settings.spec_chunk_defaults().1).is_empty() ==> strictly_increasing(r.1@) && r.1@.to_set()
            == fitting(settings.spec_chunk_defaults().1),
{
    let (default, ladder) = crate::storage::settings::chunk_defaults(settings);
    let d: u32 = if default <= u32::MAX as usize {
        default as u32
    } else {
        FALLBACK_CHUNK
    };
    let mut converted: Vec<u32> = Vec::new();
    let mut i: usize = 0;
    while i < ladder.len()
        invariant
            i <= ladder@.len(),
            ladder@ == settings.spec_chunk_defaults().1,
            strictly_increasing(converted@),
            converted@.to_set() == Set::new(
                |x: u32| exists|k: int| 0 <= k < i && ladder@[k] == x as usize,
            ),
        decreases ladder@.len() - i,
    {
        let step = ladder[i];
        if step <= u32::MAX as usize {
            insert_sorted(&mut converted, step as u32);
        }
        proof {
            assert(converted@.to_set() =~= Set::new(
                |x: u32| exists|k: int| 0 <= k < i + 1 && ladder@[k] == x as usize,
            )) by {
                assert forall|x: u32|
                    converted@.to_set().contains(x) <==> (exists|k: int| 0 <= k < i + 1 && ladder@[k] == x as usize) by {
                    if exists|k: int| 0 <= k < i + 1 && ladder@[k] == x as usize {
                        let k = choose|k: int| 0 <= k < i + 1 && ladder@[k] == x as usize;
                        if k < i {
                            assert(exists|k2: int| 0 <= k2 < i && ladder@[k2] == x as usize);
                        }
                    }
                    if converted@.to_set().contains(x) && !(exists|k: int| 0 <= k < i && ladder@[k] == x as usize) {
                        assert(ladder@[i as int] == x as usize);
                    }
                }
            }
        }
        i = i + 1;
    }
    assert(converted@.to_set() =~= fitting(settings.spec_chunk_defaults().1));
    if converted.len() == 0 {
        assert(converted@.to_set() =~= Set::<u32>::empty());
        let fallback = FALLBACK_CHUNK_LADDER;
        let mut out: Vec<u32> = Vec::new();
        let mut k: usize = 0;
        while k < 5
            invariant
                k <= 5,
                fallback@ == FALLBACK_CHUNK_LADDER@,
                out@ == fallback@.take(k as int),
            decreases 5 - k,
        {
            out.push(fallback[k]);
            assert(fallback@.take(k + 1) =~= fallback@.take(k as int).push(fallback@[k as int]));
            k = k + 1;
        }
        assert(fallback@.take(5) =~= fallback@);
        return (d, out);
    }
    assert(converted@.to_set().contains(converted@[0]));
    (d, converted)
}

/// The next smaller chunk size after a failed dispatch: the largest ladder
/// step below `current` (scanning from the end), else half of `current`
/// (at least 1); nothing below 2.
pub open spec fn spec_previous_chunk_step(current: usize, ladder: Seq<u32>) -> usize
    decreases ladder.len(),
{
    if current <= 1 {
        0
    } else if ladder.len() == 0 {
        if current / 2 > 1 { current / 2 } else { 1 }
    } else if (ladder.last() as usize) < current {
        ladder.last() as usize
    } else {
        spec_previous_chunk_step(current, ladder.drop_last())
    }
}

/// The next smaller chunk size after a failed dispatch.
pub fn previous_chunk_step(current: usize, ladder: &[u32]) -> (s: usize)
    ensures
        s == spec_previous_chunk_step(current, ladder@),
        current > 1 ==> s < current,
{
    if current <= 1 {
        return 0;
    }
    let mut k: usize = ladder.len();
    assert(ladder@.take(k as int) =~= ladder@);
    while k > 0
        invariant
            k <= ladder@.len(),
            current > 1,
            spec_previous_chunk_step(current, ladder@) == spec_previous_chunk_step(current, ladder@.take(k as int)),
            forall|j: int| k <= j < ladder@.len() ==> (ladder@[j] as usize) >= current,
        decreases k,
    {
        let step = ladder[k - 1];
        proof {
            assert(ladder@.take(k as int).drop_last() =~= ladder@.take(k - 1));
            assert(ladder@.take(k as int).last() == step);
        }
        if (step as usize) < current {
            proof {
                lemma_step_positive(step, current, ladder@.take(k as int));
            }
            return step as usize;
        }
        k = k - 1;
    }
    assert(ladder@.take(0) =~= Seq::<u32>::empty());
    if current / 2 > 1 {
        current / 2
    } else {
        1
    }
}

proof fn lemma_step_positive(step: u32, current: usize, ladder: Seq<u32>)
    requires
        ladder.len() > 0,
        ladder.last() == step,
        (step as usize) < current,
        current > 1,
    ensures
        spec_previous_chunk_step(current, ladder) == step as usize,
{
}

/// Rent for storing `len` bytes at `rate` per byte: the rate as unsigned
/// (a negative rate wraps), times the length, saturating.
pub open spec fn spec_rent(rate: i64, len: usize) -> u64 {
    let r = rate as u64;
    if r * len > u64::MAX {
        u64::MAX
    } else {
        (r * len) as u64
    }
}

/// Rent for storing `len` bytes at `rate` per byte.
pub fn rent_for(rate: i64, len: usize) -> (r: u64)
    ensures
        r == spec_rent(rate, len),
{
    let rr = rate as u64;
    let l = len as u64;
    if l != 0 && rr > u64::MAX / l {
        assert(rr * l > u64::MAX) by (nonlinear_arith)
            requires
                rr > u64::MAX / l,
                l > 0,
        ;
        u64::MAX
    } else {
        assert(rr * l <= u64::MAX) by (nonlinear_arith)
            requires
                l == 0 || rr <= u64::MAX / l,
        ;
        rr * l
    }
}

/// Logical quota of a provider with the given stake balances: one MiB per
/// credit, saturating.
pub open spec fn spec_quota(consumer: u64, industrial: u64) -> u64 {
    let credits = if consumer + industrial > u64::MAX { u64::MAX as int } else { consumer + industrial };
    if credits * QUOTA_BYTES_PER_CREDIT > u64::MAX {
        u64::MAX
    } else {
        (credits * QUOTA_BYTES_PER_CREDIT) as u64
    }
}

/// Why a manifest or receipt could not be assembled.
pub open spec fn spec_assembly_error(data_shards: usize, parity_shards: usize) -> Option<Seq<char>> {
    if data_shards > u8::MAX {
        Some("invalid data shard count"@)
    } else if parity_shards > u8::MAX {
        Some("invalid parity shard count"@)
    } else {
        None
    }
}

/// `name` joined under the directory `base`, as a path join does: a
/// separator goes between them unless `base` is empty or already ends in
/// one.
pub open spec fn spec_path_join(base: Seq<char>, name: Seq<char>) -> Seq<char> {
    if base.len() == 0 || base.last() == '/' {
        base + name
    } else {
        base + "/"@ + name
    }
}

/// `name` joined under the directory `base`.
pub fn path_join(base: &str, name: &str) -> (s: String)
    ensures
        s@ == spec_path_join(base@, name@),
{
    let n = base.unicode_len();
    if n == 0 || base.get_char(n - 1) == '/' {
        crate::text::concat(base, name)
    } else {
        let with_sep = crate::text::concat(base, "/");
        proof {
            reveal_strlit("/");
        }
        crate::text::concat(with_sep.as_str(), name)
    }
}

/// A stored manifest as a value: its hash and its encoded bytes.
pub open spec fn stored_view(e: ([u8; 32], Vec<u8>)) -> (Seq<u8>, Seq<u8>) {
    (e.0@, e.1@)
}

/// No two stored manifests share a hash.
pub open spec fn hashes_distinct(s: Seq<(Seq<u8>, Seq<u8>)>) -> bool {
    forall|i: int, j: int|
        0 <= i < s.len() && 0 <= j < s.len() && i != j ==> (#[trigger] s[i]).0 != (#[trigger] s[j]).0
}

/// Index of the manifest stored under `hash`, if any.
pub open spec fn spec_find_manifest(s: Seq<(Seq<u8>, Seq<u8>)>, hash: Seq<u8>) -> Option<int> {
    if exists|i: int| 0 <= i < s.len() && s[i].0 == hash {
        Some(choose|i: int| 0 <= i < s.len() && s[i].0 == hash)
    } else {
        None
    }
}

/// The encoded manifest stored under `hash`, if any.
pub open spec fn spec_manifest_bytes(s: Seq<(Seq<u8>, Seq<u8>)>, hash: Seq<u8>) -> Option<Seq<u8>> {
    match spec_find_manifest(s, hash) {
        Some(i) => Some(s[i].1),
        None => None,
    }
}

/// The store after putting `bytes` under `hash`: in place of what was
/// stored under it, or appended.
pub open spec fn spec_put_manifest(s: Seq<(Seq<u8>, Seq<u8>)>, hash: Seq<u8>, bytes: Seq<u8>) -> Seq<(Seq<u8>, Seq<u8>)> {
    match spec_find_manifest(s, hash) {
        Some(i) => s.update(i, (hash, bytes)),
        None => s.push((hash, bytes)),
    }
}

/// The store after removing what is stored under `hash`.
pub open spec fn spec_remove_manifest(s: Seq<(Seq<u8>, Seq<u8>)>, hash: Seq<u8>) -> Seq<(Seq<u8>, Seq<u8>)> {
    match spec_find_manifest(s, hash) {
        Some(i) => s.remove(i),
        None => s,
    }
}

/// The manifests that the listing shows, among the first `k` stored ones:
/// each that decodes and whose chunk count fits in `u32`, with its hash, in
/// store order, no more than `limit` of them when `limit` is positive.
pub open spec fn listed_manifests(s: Seq<(Seq<u8>, Seq<u8>)>, limit: usize, k: int) -> Seq<(Seq<u8>, ObjectManifestView)>
    decreases k,
{
    if k <= 0 {
        Seq::empty()
    } else {
        let prev = listed_manifests(s, limit, k - 1);
        if limit > 0 && prev.len() >= limit {
            prev
        } else {
            match crate::storage::manifest_binary::spec_decode_manifest(s[k - 1].1) {
                Ok(m) => if (view_chunk_count(m) as usize) <= u32::MAX {
                    prev.push((s[k - 1].0, m))
                } else {
                    prev
                },
                Err(_) => prev,
            }
        }
    }
}

/// The pipeline's own state: the rent escrow, the rent rate, providers in
/// maintenance, the per-epoch byte caps and the stored manifests.
pub struct StoragePipeline {
    rent: RentEscrow,
    rent_rate: i64,
    maintenance: crate::telemetry::counters::LabelCounters,
    repair_log_dir: String,
    l2_cap_bytes_per_epoch: u64,
    bytes_per_sender_epoch_cap: u64,
    manifests: Vec<([u8; 32], Vec<u8>)>,
}

/// The storage engines behind a pipeline.
#[derive(Debug)]
pub struct PipelineEngineSummary {
    pub pipeline: String,
    pub rent_escrow: String,
}

impl StoragePipeline {
    pub closed spec fn wf(&self) -> bool {
        self.rent.wf() && self.maintenance.wf() && hashes_distinct(self.spec_manifests())
    }

    /// The stored manifests, hash and encoded bytes, in store order.
    pub closed spec fn spec_manifests(&self) -> Seq<(Seq<u8>, Seq<u8>)> {
        self.manifests@.map_values(|e: ([u8; 32], Vec<u8>)| stored_view(e))
    }

    pub closed spec fn spec_rent_rate(&self) -> i64 {
        self.rent_rate
    }

    pub closed spec fn spec_in_maintenance(&self, provider: Seq<char>) -> bool {
        self.maintenance.spec_value(provider) != 0
    }

    pub closed spec fn spec_escrow(&self) -> Seq<EscrowView> {
        self.rent.spec_entries()
    }

    pub closed spec fn spec_repair_log_dir(&self) -> Seq<char> {
        self.repair_log_dir@
    }

    pub closed spec fn spec_caps(&self) -> (u64, u64) {
        (self.l2_cap_bytes_per_epoch, self.bytes_per_sender_epoch_cap)
    }

    /// A pipeline over `path`: no rent, nobody in maintenance, the default
    /// caps (32 MiB per epoch on L2, 16 MiB per sender and epoch), no
    /// manifest stored, and the repair log under `path`.
    pub fn open(path: &str) -> (p: Self)
        ensures
            p.wf(),
            p.spec_rent_rate() == 0,
            forall|s: Seq<char>| !p.spec_in_maintenance(s),
            p.spec_escrow() == Seq::<EscrowView>::empty(),
            p.spec_repair_log_dir() == spec_path_join(path@, "repair_log"@),
            p.spec_caps() == (33554432u64, 16777216u64),
            p.spec_manifests() == Seq::<(Seq<u8>, Seq<u8>)>::empty(),
    {
        let rent_path = crate::text::concat(path, "/rent_escrow.db");
        let p = StoragePipeline {
            rent: RentEscrow::open(rent_path.as_str()),
            rent_rate: 0,
            maintenance: crate::telemetry::counters::LabelCounters::new(),
            repair_log_dir: path_join(path, "repair_log"),
            l2_cap_bytes_per_epoch: 33554432,
            bytes_per_sender_epoch_cap: 16777216,
            manifests: Vec::new(),
        };
        assert(p.spec_manifests() =~= Seq::<(Seq<u8>, Seq<u8>)>::empty());
        p
    }

    /// The blob transaction committing `data` for `owner`: its root is the
    /// BLAKE3 of the data, its size the data's length, on layer 1 (L2),
    /// under the caller's freshly drawn `blob_id`.
    pub fn build_blob_tx(owner: &str, data: &[u8], blob_id: [u8; 32], expiry: Option<u64>) -> (t: BlobTx)
        ensures
            t.owner@ == owner@,
            t.blob_id == blob_id,
            t.blob_root@ == spec_blake3(data@),
            t.blob_size == data@.len(),
            t.fractal_lvl == 1,
            t.expiry == expiry,
    {
        let root = blake3_hash(data);
        BlobTx::new(owner.to_owned(), blob_id, root, data.len() as u64, 1, expiry)
    }

    /// Sets the rent charged per stored byte.
    pub fn set_rent_rate(&mut self, rate: i64)
        requires
            old(self).wf(),
        ensures
            final(self).spec_caps() == old(self).spec_caps(),
            final(self).spec_repair_log_dir() == old(self).spec_repair_log_dir(),
            final(self).wf(),
            final(self).spec_rent_rate() == rate,
            final(self).spec_manifests() == old(self).spec_manifests(),
            final(self).spec_escrow() == old(self).spec_escrow(),
            forall|s: Seq<char>| final(self).spec_in_maintenance(s) == old(self).spec_in_maintenance(s),
    {
        self.rent_rate = rate;
    }

    /// Rent of storing `len` bytes at the current rate.
    pub fn rent_for_len(&self, len: usize) -> (r: u64)
        ensures
            r == spec_rent(self.spec_rent_rate(), len),
    {
        rent_for(self.rent_rate, len)
    }

    /// Logical quota in bytes derived from a provider's stake balances.
    pub fn logical_quota_bytes(consumer: u64, industrial: u64) -> (q: u64)
        ensures
            q == spec_quota(consumer, industrial),
    {
        let credits = if consumer > u64::MAX - industrial { u64::MAX } else { consumer + industrial };
        if credits > u64::MAX / QUOTA_BYTES_PER_CREDIT {
            u64::MAX
        } else {
            credits * QUOTA_BYTES_PER_CREDIT
        }
    }

    /// Puts a provider into or out of maintenance.
    pub fn set_provider_maintenance(&mut self, provider: &str, maintenance: bool) -> (r: Result<(), String>)
        requires
            old(self).wf(),
        ensures
            final(self).spec_caps() == old(self).spec_caps(),
            final(self).spec_repair_log_dir() == old(self).spec_repair_log_dir(),
            r is Ok,
            final(self).wf(),
            final(self).spec_in_maintenance(provider@) == maintenance,
            final(self).spec_manifests() == old(self).spec_manifests(),
            forall|s: Seq<char>| s != provider@ ==> final(self).spec_in_maintenance(s) == old(self).spec_in_maintenance(s),
            final(self).spec_rent_rate() == old(self).spec_rent_rate(),
            final(self).spec_escrow() == old(self).spec_escrow(),
    {
        self.maintenance.set(provider, if maintenance { 1 } else { 0 });
        Ok(())
    }

    /// Whether a provider is in maintenance.
    pub fn in_maintenance(&self, provider: &str) -> (b: bool)
        requires
            self.wf(),
        ensures
            b == self.spec_in_maintenance(provider@),
    {
        self.maintenance.get(provider) != 0
    }

    /// The engines behind the pipeline and its rent escrow.
    pub fn engine_summary(&self) -> (s: PipelineEngineSummary)
        ensures
            s.pipeline@ == "memory"@,
            s.rent_escrow@ == "memory"@,
    {
        PipelineEngineSummary { pipeline: "memory".to_owned(), rent_escrow: self.rent.engine_label().to_owned() }
    }

    /// Locks the rent of a stored object in escrow, without expiry.
    pub fn lock_rent(&mut self, id: &str, depositor: &str, amount: u64)
        requires
            old(self).wf(),
        ensures
            final(self).spec_caps() == old(self).spec_caps(),
            final(self).spec_repair_log_dir() == old(self).spec_repair_log_dir(),
            final(self).wf(),
            final(self).spec_rent_rate() == old(self).spec_rent_rate(),
            final(self).spec_manifests() == old(self).spec_manifests(),
            final(self).spec_escrow() == crate::storage::fs::spec_lock(
                old(self).spec_escrow(),
                EscrowView { id: id@, depositor: depositor@, amount, expiry: 0 },
            ),
            forall|s: Seq<char>| final(self).spec_in_maintenance(s) == old(self).spec_in_maintenance(s),
    {
        self.rent.lock(id, depositor, amount, 0);
    }

    /// Settles the expired rent deposits: each gives its depositor, refund
    /// and burn, to be credited by the caller.
    pub fn process_expired(&mut self, now: u64) -> (out: Vec<(String, u64, u64)>)
        requires
            old(self).wf(),
        ensures
            final(self).spec_caps() == old(self).spec_caps(),
            final(self).spec_repair_log_dir() == old(self).spec_repair_log_dir(),
            final(self).wf(),
            final(self).spec_escrow() == old(self).spec_escrow().filter(|e: EscrowView| !spec_expired(e, now)),
            final(self).spec_manifests() == old(self).spec_manifests(),
            out@.map_values(|t: (String, u64, u64)| (t.0@, t.1, t.2)) == old(self).spec_escrow().filter(
                |e: EscrowView| spec_expired(e, now),
            ).map_values(|e: EscrowView| spec_settlement(e)),
            final(self).spec_rent_rate() == old(self).spec_rent_rate(),
    {
        self.rent.purge_expired(now)
    }

    fn find_manifest(&self, hash: &[u8; 32]) -> (r: Option<usize>)
        requires
            self.wf(),
        ensures
            match r {
                Some(i) => i < self.manifests@.len() && spec_find_manifest(self.spec_manifests(), hash@) == Some(
                    i as int,
                ),
                None => spec_find_manifest(self.spec_manifests(), hash@) is None,
            },
    {
        let mut i: usize = 0;
        while i < self.manifests.len()
            invariant
                self.wf(),
                i <= self.manifests@.len(),
                forall|j: int| 0 <= j < i ==> self.spec_manifests()[j].0 != hash@,
            decreases self.manifests@.len() - i,
        {
            if crate::le::bytes_eq(&self.manifests[i].0, hash) {
                proof {
                    let s = self.spec_manifests();
                    assert(s[i as int] == stored_view(self.manifests@[i as int]));
                    let k = choose|k: int| 0 <= k < s.len() && s[k].0 == hash@;
                    if k != i {
                        assert(s[k].0 == s[i as int].0);
                    }
                }
                return Some(i);
            }
            proof {
                assert(self.spec_manifests()[i as int] == stored_view(self.manifests@[i as int]));
            }
            i = i + 1;
        }
        None
    }

    /// Stores a manifest, encoded, under its own hash (replacing what was
    /// stored under it).
    pub fn store_manifest(&mut self, manifest: &ObjectManifest)
        requires
            old(self).wf(),
        ensures
            final(self).spec_caps() == old(self).spec_caps(),
            final(self).spec_repair_log_dir() == old(self).spec_repair_log_dir(),
            final(self).wf(),
            final(self).spec_manifests() == spec_put_manifest(
                old(self).spec_manifests(),
                manifest.blake3@,
                crate::storage::manifest_binary::enc_manifest(manifest@),
            ),
            final(self).spec_escrow() == old(self).spec_escrow(),
            final(self).spec_rent_rate() == old(self).spec_rent_rate(),
            forall|p: Seq<char>| final(self).spec_in_maintenance(p) == old(self).spec_in_maintenance(p),
    {
        let bytes = match crate::storage::manifest_binary::encode_manifest(manifest) {
            Ok(b) => b,
            Err(_) => return,
        };
        let ghost before = self.manifests@;
        let ghost s0 = self.spec_manifests();
        let ghost entry = (manifest.blake3@, bytes@);
        match self.find_manifest(&manifest.blake3) {
            Some(i) => {
                let _ = self.manifests.remove(i);
                self.manifests.insert(i, (manifest.blake3, bytes));
                proof {
                    assert(self.manifests@ =~= before.update(i as int, self.manifests@[i as int]));
                    assert(self.spec_manifests() =~= s0.update(i as int, entry));
                    assert(s0[i as int].0 == manifest.blake3@);
                    let s1 = self.spec_manifests();
                    assert forall|a: int, b: int| 0 <= a < s1.len() && 0 <= b < s1.len() && a != b implies (
                    #[trigger] s1[a]).0 != (#[trigger] s1[b]).0 by {
                        if a != i && b != i {
                            assert(s1[a] == s0[a] && s1[b] == s0[b]);
                        } else if a == i {
                            assert(s1[b] == s0[b]);
                        } else {
                            assert(s1[a] == s0[a]);
                        }
                    }
                }
            },
            None => {
                self.manifests.push((manifest.blake3, bytes));
                proof {
                    assert(self.spec_manifests() =~= s0.push(entry));
                    let s1 = self.spec_manifests();
                    let n = s0.len() as int;
                    assert forall|a: int, b: int| 0 <= a < s1.len() && 0 <= b < s1.len() && a != b implies (
                    #[trigger] s1[a]).0 != (#[trigger] s1[b]).0 by {
                        if a < n && b < n {
                            assert(s1[a] == s0[a] && s1[b] == s0[b]);
                        } else if a == n {
                            assert(s1[b] == s0[b]);
                        } else {
                            assert(s1[a] == s0[a]);
                        }
                    }
                }
            },
        }
    }

    /// The manifest stored under `manifest_hash`, decoded; `None` when
    /// nothing is stored there or it does not decode.
    pub fn get_manifest(&self, manifest_hash: &[u8; 32]) -> (r: Option<ObjectManifest>)
        requires
            self.wf(),
        ensures
            match spec_manifest_bytes(self.spec_manifests(), manifest_hash@) {
                Some(b) => match crate::storage::manifest_binary::spec_decode_manifest(b) {
                    Ok(m) => r matches Some(x) && x@ == m,
                    Err(_) => r is None,
                },
                None => r is None,
            },
    {
        match self.find_manifest(manifest_hash) {
            None => None,
            Some(i) => {
                proof {
                    assert(self.spec_manifests()[i as int] == stored_view(self.manifests@[i as int]));
                }
                match crate::storage::manifest_binary::decode_manifest(self.manifests[i].1.as_slice()) {
                    Ok(m) => Some(m),
                    Err(_) => None,
                }
            },
        }
    }

    /// Deletes an object: forgets its manifest and releases its rent
    /// deposit (kept under the manifest hash in hex), returning the
    /// depositor, refund and burn to be credited by the caller.
    pub fn delete_object(&mut self, manifest_hash: &[u8; 32]) -> (r: Option<(String, u64, u64)>)
        requires
            old(self).wf(),
        ensures
            final(self).spec_caps() == old(self).spec_caps(),
            final(self).spec_repair_log_dir() == old(self).spec_repair_log_dir(),
            final(self).wf(),
            final(self).spec_manifests() == spec_remove_manifest(old(self).spec_manifests(), manifest_hash@),
            ({
                let id = crate::util::decimal::ascii_chars(crate::util::hex::spec_hex(manifest_hash@));
                match crate::storage::fs::spec_find(old(self).spec_escrow(), id) {
                    Some(i) => r matches Some((d, refund, burn)) && (d@, refund, burn) == spec_settlement(
                        old(self).spec_escrow()[i],
                    ) && final(self).spec_escrow() == old(self).spec_escrow().remove(i),
                    None => r is None && final(self).spec_escrow() == old(self).spec_escrow(),
                }
            }),
            final(self).spec_rent_rate() == old(self).spec_rent_rate(),
            forall|p: Seq<char>| final(self).spec_in_maintenance(p) == old(self).spec_in_maintenance(p),
    {
        let ghost s0 = self.spec_manifests();
        let ghost before = self.manifests@;
        match self.find_manifest(manifest_hash) {
            Some(i) => {
                let _ = self.manifests.remove(i);
                proof {
                    assert(self.spec_manifests() =~= s0.remove(i as int));
                    let s1 = self.spec_manifests();
                    assert forall|a: int, b: int| 0 <= a < s1.len() && 0 <= b < s1.len() && a != b implies (
                    #[trigger] s1[a]).0 != (#[trigger] s1[b]).0 by {
                        let a2 = if a < i { a } else { a + 1 };
                        let b2 = if b < i { b } else { b + 1 };
                        assert(s1[a] == s0[a2]);
                        assert(s1[b] == s0[b2]);
                    }
                }
            },
            None => {},
        }
        let id = crate::util::hex::encode(manifest_hash);
        self.rent.release(id.as_str())
    }

    /// The listing of stored manifests, in store order: one line for each
    /// that decodes and whose chunk count fits in `u32`, at most `limit`
    /// lines when `limit` is positive; `defaults` gives the algorithms of a
    /// manifest that names none.
    pub fn manifest_summaries(&self, limit: usize, defaults: &crate::storage::settings::Algorithms) -> (out: Vec<ManifestSummary>)
        requires
            self.wf(),
        ensures
            ({
                let listed = listed_manifests(self.spec_manifests(), limit, self.spec_manifests().len() as int);
                &&& out@.len() == listed.len()
                &&& forall|j: int|
                    0 <= j < out@.len() ==> summary_of(
                        #[trigger] out@[j],
                        crate::util::decimal::ascii_chars(crate::util::hex::spec_hex(listed[j].0)),
                        listed[j].1,
                        defaults@,
                    )
            }),
    {
        let mut out: Vec<ManifestSummary> = Vec::new();
        let mut i: usize = 0;
        while i < self.manifests.len()
            invariant
                i <= self.manifests@.len(),
                self.spec_manifests().len() == self.manifests@.len(),
                out@.len() == listed_manifests(self.spec_manifests(), limit, i as int).len(),
                forall|j: int|
                    0 <= j < out@.len() ==> summary_of(
                        #[trigger] out@[j],
                        crate::util::decimal::ascii_chars(
                            crate::util::hex::spec_hex(listed_manifests(self.spec_manifests(), limit, i as int)[j].0),
                        ),
                        listed_manifests(self.spec_manifests(), limit, i as int)[j].1,
                        defaults@,
                    ),
            decreases self.manifests@.len() - i,
        {
            let ghost prev = listed_manifests(self.spec_manifests(), limit, i as int);
            proof {
                assert(self.spec_manifests()[i as int] == stored_view(self.manifests@[i as int]));
            }
            if !(limit > 0 && out.len() >= limit) {
                match crate::storage::manifest_binary::decode_manifest(self.manifests[i].1.as_slice()) {
                    Ok(m) => {
                        let hex = crate::util::hex::encode(&self.manifests[i].0);
                        match manifest_summary(hex.as_str(), &m, defaults) {
                            Some(line) => {
                                let ghost before = out@;
                                out.push(line);
                                proof {
                                    let next = listed_manifests(self.spec_manifests(), limit, i + 1);
                                    assert(next == prev.push((self.spec_manifests()[i as int].0, m@)));
                                    assert forall|j: int| 0 <= j < out@.len() implies summary_of(
                                        #[trigger] out@[j],
                                        crate::util::decimal::ascii_chars(crate::util::hex::spec_hex(next[j].0)),
                                        next[j].1,
                                        defaults@,
                                    ) by {
                                        if j < before.len() {
                                            assert(out@[j] == before[j]);
                                            assert(next[j] == prev[j]);
                                        }
                                    }
                                }
                            },
                            None => {
                                assert(listed_manifests(self.spec_manifests(), limit, i + 1) == prev);
                            },
                        }
                    },
                    Err(_) => {
                        assert(listed_manifests(self.spec_manifests(), limit, i + 1) == prev);
                    },
                }
            } else {
                assert(listed_manifests(self.spec_manifests(), limit, i + 1) == prev);
            }
            i = i + 1;
        }
        out
    }

    /// Commits a stored object: keeps its manifest under its hash and locks
    /// the `rent` paid by `lane` in escrow under the hash in hex, without
    /// expiry.
    pub fn commit_object(&mut self, manifest: &ObjectManifest, lane: &str, rent: u64)
        requires
            old(self).wf(),
        ensures
            final(self).wf(),
            final(self).spec_manifests() == spec_put_manifest(
                old(self).spec_manifests(),
                manifest.blake3@,
                crate::storage::manifest_binary::enc_manifest(manifest@),
            ),
            final(self).spec_escrow() == crate::storage::fs::spec_lock(
                old(self).spec_escrow(),
                EscrowView {
                    id: crate::util::decimal::ascii_chars(crate::util::hex::spec_hex(manifest.blake3@)),
                    depositor: lane@,
                    amount: rent,
                    expiry: 0,
                },
            ),
            final(self).spec_rent_rate() == old(self).spec_rent_rate(),
            final(self).spec_caps() == old(self).spec_caps(),
            final(self).spec_repair_log_dir() == old(self).spec_repair_log_dir(),
            forall|p: Seq<char>| final(self).spec_in_maintenance(p) == old(self).spec_in_maintenance(p),
    {
        self.store_manifest(manifest);
        let id = crate::util::hex::encode(&manifest.blake3);
        self.lock_rent(id.as_str(), lane, rent);
    }

    /// Directory of the repair log.
    pub fn repair_log_dir(&self) -> (d: String)
        ensures
            d@ == self.spec_repair_log_dir(),
    {
        self.repair_log_dir.clone()
    }

    /// Sets the per-epoch byte cap of L2 blobs.
    pub fn set_l2_cap_bytes_per_epoch(&mut self, v: u64)
        ensures
            final(self).spec_repair_log_dir() == old(self).spec_repair_log_dir(),
            final(self).spec_escrow() == old(self).spec_escrow(),
            forall|p: Seq<char>| final(self).spec_in_maintenance(p) == old(self).spec_in_maintenance(p),
            final(self).spec_caps() == (v, old(self).spec_caps().1),
            final(self).spec_manifests() == old(self).spec_manifests(),
            final(self).wf() == old(self).wf(),
            final(self).spec_rent_rate() == old(self).spec_rent_rate(),
    {
        self.l2_cap_bytes_per_epoch = v;
    }

    /// Sets the per-sender, per-epoch byte cap.
    pub fn set_bytes_per_sender_epoch_cap(&mut self, v: u64)
        ensures
            final(self).spec_repair_log_dir() == old(self).spec_repair_log_dir(),
            final(self).spec_escrow() == old(self).spec_escrow(),
            forall|p: Seq<char>| final(self).spec_in_maintenance(p) == old(self).spec_in_maintenance(p),
            final(self).spec_caps() == (old(self).spec_caps().0, v),
            final(self).spec_manifests() == old(self).spec_manifests(),
            final(self).wf() == old(self).wf(),
            final(self).spec_rent_rate() == old(self).spec_rent_rate(),
    {
        self.bytes_per_sender_epoch_cap = v;
    }
}

/// One line of the manifest listing.
#[derive(Debug)]
pub struct ManifestSummary {
    pub manifest: String,
    pub total_len: u64,
    pub chunk_count: u32,
    pub erasure: String,
    pub compression: String,
    pub encryption: Option<String>,
    pub compression_level: Option<i32>,
    pub erasure_fallback: bool,
    pub compression_fallback: bool,
}

/// The number of plaintext chunks of a manifest value (as `spec_chunk_count`).
pub open spec fn view_chunk_count(m: ObjectManifestView) -> int {
    if m.chunk_lens.len() > 0 {
        m.chunk_lens.len() as int
    } else if m.chunk_len == 0 {
        0
    } else if m.total_len == 0 {
        if m.chunks.len() == 0 { 0 } else { 1 }
    } else {
        crate::storage::types::spec_div_ceil(m.total_len as int, m.chunk_len as int)
    }
}

/// Whether `s` is the listing line of manifest `m` stored under the hex id
/// `hex`, with `defaults` the active algorithms.
pub open spec fn summary_of(s: ManifestSummary, hex: Seq<char>, m: ObjectManifestView, defaults: AlgorithmsView) -> bool {
    let erasure = match m.erasure_alg {
        Some(a) => a,
        None => defaults.erasure,
    };
    let compression = match m.compression_alg {
        Some(a) => a,
        None => defaults.compression,
    };
    &&& s.manifest@ == hex
    &&& s.total_len == m.total_len
    &&& s.chunk_count as usize == view_chunk_count(m) as usize
    &&& s.erasure@ == erasure
    &&& s.compression@ == compression
    &&& crate::storage::types::opt_string_view(s.encryption) == m.encryption_alg
    &&& s.compression_level == m.compression_level
    &&& s.erasure_fallback == spec_is_fallback_erasure(erasure)
    &&& s.compression_fallback == spec_is_fallback_compression(compression)
}

/// The summary of a stored manifest under its hex id: algorithms default
/// to the active ones; a manifest with more chunks than `u32` holds is left
/// out.
pub fn manifest_summary(hex_id: &str, manifest: &ObjectManifest, defaults: &crate::storage::settings::Algorithms) -> (r: Option<ManifestSummary>)
    ensures
        (spec_chunk_count(*manifest) as usize) > u32::MAX ==> r is None,
        (spec_chunk_count(*manifest) as usize) <= u32::MAX ==> (r matches Some(s) && {
            let erasure = match manifest.erasure_alg {
                Some(a) => a@,
                None => defaults@.erasure,
            };
            let compression = match manifest.compression_alg {
                Some(a) => a@,
                None => defaults@.compression,
            };
            &&& s.manifest@ == hex_id@
            &&& s.total_len == manifest.total_len
            &&& s.chunk_count == spec_chunk_count(*manifest) as usize
            &&& s.erasure@ == erasure
            &&& s.compression@ == compression
            &&& crate::storage::types::opt_string_view(s.encryption) == crate::storage::types::opt_string_view(
                manifest.encryption_alg,
            )
            &&& s.compression_level == manifest.compression_level
            &&& s.erasure_fallback == spec_is_fallback_erasure(erasure)
            &&& s.compression_fallback == spec_is_fallback_compression(compression)
        }),
        (view_chunk_count(manifest@) as usize) > u32::MAX ==> r is None,
        (view_chunk_count(manifest@) as usize) <= u32::MAX ==> (r matches Some(s) && summary_of(
            s,
            hex_id@,
            manifest@,
            defaults@,
        )),
{
    assert(spec_chunk_count(*manifest) == view_chunk_count(manifest@));
    let count = manifest.chunk_count();
    if count > u32::MAX as usize {
        return None;
    }
    let erasure = match &manifest.erasure_alg {
        Some(a) => a.clone(),
        None => defaults.erasure().to_owned(),
    };
    let compression = match &manifest.compression_alg {
        Some(a) => a.clone(),
        None => defaults.compression().to_owned(),
    };
    let encryption = match &manifest.encryption_alg {
        Some(a) => Some(a.clone()),
        None => None,
    };
    let erasure_fallback = eq_ignore_ascii_case(erasure.as_str(), "xor");
    let compression_fallback = eq_ignore_ascii_case(compression.as_str(), "rle");
    Some(
        ManifestSummary {
            manifest: hex_id.to_owned(),
            total_len: manifest.total_len,
            chunk_count: count as u32,
            erasure,
            compression,
            encryption,
            compression_level: manifest.compression_level,
            erasure_fallback,
            compression_fallback,
        },
    )
}

/// A manifest with its hash field zeroed.
pub open spec fn zero_hash(m: ObjectManifestView) -> ObjectManifestView {
    ObjectManifestView { blake3: Seq::new(32, |i: int| 0u8), ..m }
}

/// Seals an assembled manifest: its hash field becomes the BLAKE3 of its
/// encoding with the hash field zeroed; every other field is kept.
pub fn seal_manifest(manifest: ObjectManifest) -> (r: ObjectManifest)
    ensures
        r@ == (ObjectManifestView {
            blake3: spec_blake3(crate::storage::manifest_binary::enc_manifest(zero_hash(manifest@))),
            ..manifest@
        }),
        spec_blake3(crate::storage::manifest_binary::enc_manifest(zero_hash(r@))) == r.blake3@,
{
    let mut m = manifest;
    m.blake3 = [0u8; 32];
    assert(m@ == zero_hash(manifest@)) by {
        assert(m.blake3@ =~= Seq::new(32, |i: int| 0u8));
    }
    match crate::storage::manifest_binary::encode_manifest(&m) {
        Ok(bytes) => {
            m.blake3 = blake3_hash(bytes.as_slice());
        },
        Err(_) => {},
    }
    assert(zero_hash(m@) == zero_hash(manifest@));
    m
}

/// The store receipt of an assembled manifest; more chunks than `u32`
/// holds is a chunk count overflow.
pub fn store_receipt_for(manifest: &ObjectManifest, manifest_hash: [u8; 32], lane: &str) -> (r: Result<StoreReceipt, String>)
    ensures
        (spec_chunk_count(*manifest) as usize) > u32::MAX ==> (r matches Err(e) && e@ == "chunk count overflow"@),
        (spec_chunk_count(*manifest) as usize) <= u32::MAX ==> (r matches Ok(rc) && rc.manifest_hash == manifest_hash
            && rc.chunk_count == spec_chunk_count(*manifest) as usize && rc.redundancy == manifest.redundancy
            && rc.lane@ == lane@),
{
    let count = manifest.chunk_count();
    if count > u32::MAX as usize {
        return Err("chunk count overflow".to_owned());
    }
    Ok(StoreReceipt { manifest_hash, chunk_count: count as u32, redundancy: manifest.redundancy, lane: lane.to_owned() })
}

/// The Reed–Solomon redundancy of shard counts; counts above 255 are
/// refused.
pub fn redundancy_for(data_shards: usize, parity_shards: usize) -> (r: Result<Redundancy, String>)
    ensures
        match spec_assembly_error(data_shards, parity_shards) {
            Some(msg) => r matches Err(e) && e@ == msg,
            None => r == Ok::<Redundancy, String>(
                Redundancy::ReedSolomon { data: data_shards as u8, parity: parity_shards as u8 },
            ),
        },
{
    if data_shards > 255 {
        return Err("invalid data shard count".to_owned());
    }
    if parity_shards > 255 {
        return Err("invalid parity shard count".to_owned());
    }
    Ok(Redundancy::ReedSolomon { data: data_shards as u8, parity: parity_shards as u8 })
}

} // verus!

verus! {

/// Progress of storing one object: which bytes are stored, the chunk size
/// being tried, and the length tables of the chunks stored so far.
pub struct PutProgress {
    pub data_len: usize,
    pub offset: usize,
    pub desired: usize,
    pub chunk_lens: Vec<u32>,
    pub compressed_lens: Vec<u32>,
    pub cipher_lens: Vec<u32>,
}

/// What to do next while storing an object.
#[derive(Debug)]
pub enum PutStep {
    /// Compress, encrypt, erasure-code and dispatch `data[start..end]`.
    Chunk { start: usize, end: usize },
    /// Every byte is stored.
    Done,
}

impl PutProgress {
    pub open spec fn wf(&self) -> bool {
        &&& self.offset <= self.data_len
        &&& self.chunk_lens@.len() == self.compressed_lens@.len()
        &&& self.chunk_lens@.len() == self.cipher_lens@.len()
    }

    /// Nothing stored yet.
    pub fn new(data_len: usize) -> (p: Self)
        ensures
            p.wf(),
            p.data_len == data_len,
            p.offset == 0,
            p.desired == 0,
            p.chunk_lens@.len() == 0,
    {
        PutProgress {
            data_len,
            offset: 0,
            desired: 0,
            chunk_lens: Vec::new(),
            compressed_lens: Vec::new(),
            cipher_lens: Vec::new(),
        }
    }

    /// Starts the next chunk with the size the providers prefer (0 for
    /// none, which takes all the remaining bytes).
    pub fn start_chunk(&mut self, preferred: usize)
        requires
            old(self).wf(),
        ensures
            final(self).wf(),
            final(self).desired == if preferred == 0 { (old(self).data_len - old(self).offset) as usize } else { preferred },
            final(self).offset == old(self).offset,
            final(self).data_len == old(self).data_len,
            final(self).chunk_lens@ == old(self).chunk_lens@,
            final(self).compressed_lens@ == old(self).compressed_lens@,
            final(self).cipher_lens@ == old(self).cipher_lens@,
    {
        self.desired = if preferred == 0 { self.data_len - self.offset } else { preferred };
    }

    /// The next range to store: from the offset, the desired size or what
    /// remains, whichever is less.
    pub fn next_step(&self) -> (s: PutStep)
        requires
            self.wf(),
        ensures
            self.offset == self.data_len ==> s is Done,
            self.offset < self.data_len ==> (s matches PutStep::Chunk { start, end } && start == self.offset
                && end == self.offset + if self.desired < self.data_len - self.offset {
                self.desired as int
            } else {
                self.data_len - self.offset
            }),
    {
        if self.offset >= self.data_len {
            return PutStep::Done;
        }
        let remaining = self.data_len - self.offset;
        let take = if self.desired < remaining { self.desired } else { remaining };
        PutStep::Chunk { start: self.offset, end: self.offset + take }
    }

    /// Records a dispatched chunk of the given plain, compressed and
    /// encrypted lengths (each must fit in `u32`) and moves past it.
    pub fn chunk_stored(&mut self, end: usize, plain: usize, compressed: usize, cipher: usize) -> (r: Result<(), String>)
        requires
            old(self).wf(),
            old(self).offset <= end <= old(self).data_len,
        ensures
            final(self).wf(),
            final(self).data_len == old(self).data_len,
            plain > u32::MAX ==> (r matches Err(e) && e@ == "chunk too large"@),
            plain <= u32::MAX && compressed > u32::MAX ==> (r matches Err(e) && e@ == "compressed chunk too large"@),
            plain <= u32::MAX && compressed <= u32::MAX && cipher > u32::MAX ==> (r matches Err(e) && e@
                == "cipher chunk too large"@),
            plain <= u32::MAX && compressed <= u32::MAX && cipher <= u32::MAX ==> {
                &&& r is Ok
                &&& final(self).offset == end
                &&& final(self).chunk_lens@ == old(self).chunk_lens@.push(plain as u32)
                &&& final(self).compressed_lens@ == old(self).compressed_lens@.push(compressed as u32)
                &&& final(self).cipher_lens@ == old(self).cipher_lens@.push(cipher as u32)
            },
    {
        if plain > u32::MAX as usize {
            return Err("chunk too large".to_owned());
        }
        self.chunk_lens.push(plain as u32);
        if compressed > u32::MAX as usize {
            self.chunk_lens.pop();
            return Err("compressed chunk too large".to_owned());
        }
        self.compressed_lens.push(compressed as u32);
        if cipher > u32::MAX as usize {
            self.chunk_lens.pop();
            self.compressed_lens.pop();
            return Err("cipher chunk too large".to_owned());
        }
        self.cipher_lens.push(cipher as u32);
        self.offset = end;
        Ok(())
    }

    /// The providers lacked capacity for the chunk: try the next smaller
    /// size of the ladder; when there is none, storing fails.
    pub fn capacity_exhausted(&mut self, ladder: &[u32]) -> (r: Result<(), String>)
        requires
            old(self).wf(),
        ensures
            final(self).wf(),
            final(self).offset == old(self).offset,
            final(self).data_len == old(self).data_len,
            final(self).chunk_lens@ == old(self).chunk_lens@,
            final(self).desired == spec_previous_chunk_step(old(self).desired, ladder@),
            r is Ok <==> final(self).desired > 0,
            r matches Err(e) ==> e@ == "storage provider capacity exhausted"@,
    {
        self.desired = previous_chunk_step(self.desired, ladder);
        if self.desired == 0 {
            Err("storage provider capacity exhausted".to_owned())
        } else {
            Ok(())
        }
    }
}

/// The chunk length recorded in a manifest: the first chunk's, else the
/// default chunk size.
pub open spec fn spec_manifest_chunk_len(chunk_lens: Seq<u32>, default_chunk: u32) -> u32 {
    if chunk_lens.len() > 0 {
        chunk_lens[0]
    } else {
        default_chunk
    }
}

/// The chunk length recorded in a manifest.
pub fn manifest_chunk_len(chunk_lens: &Vec<u32>, default_chunk: u32) -> (l: u32)
    ensures
        l == spec_manifest_chunk_len(chunk_lens@, default_chunk),
{
    if chunk_lens.len() > 0 {
        chunk_lens[0]
    } else {
        default_chunk
    }
}

} // verus!

verus! {

/// The shard layout of a Reed–Solomon manifest read back: shards per chunk
/// (data, parity and overlay), which must divide the chunk references.
pub fn read_layout(manifest: &ObjectManifest, data_shards: usize, parity_shards: usize) -> (r: Result<usize, String>)
    requires
        data_shards + parity_shards + crate::storage::erasure::FOUNTAIN_OVERLAY_SHARDS <= usize::MAX,
    ensures
        ({
            let spc: int = data_shards + parity_shards + crate::storage::erasure::FOUNTAIN_OVERLAY_SHARDS;
            if (manifest.chunks@.len() as int) % spc != 0 {
                r matches Err(e) && e@ == "corrupt manifest"@
            } else {
                r == Ok::<usize, String>(spc as usize)
            }
        }),
{
    let spc = data_shards + parity_shards + crate::storage::erasure::FOUNTAIN_OVERLAY_SHARDS;
    if manifest.chunks.len() % spc != 0 {
        return Err("corrupt manifest".to_owned());
    }
    Ok(spc)
}

/// Appends a decoded chunk cut to its plaintext length; a chunk shorter
/// than that is corrupt.
pub fn append_plain_chunk(out: &mut Vec<u8>, plain: &[u8], expected: usize) -> (r: Result<(), String>)
    ensures
        plain@.len() < expected ==> (r matches Err(e) && e@ == "corrupt chunk"@) && final(out)@ == old(out)@,
        plain@.len() >= expected ==> r is Ok && final(out)@ == old(out)@ + plain@.subrange(0, expected as int),
{
    if plain.len() < expected {
        return Err("corrupt chunk".to_owned());
    }
    let part = crate::le::copy_range(plain, 0, expected);
    crate::le::push_all(out, part.as_slice());
    Ok(())
}

/// Cuts the reassembled object to the manifest's total length.
pub fn finish_object(out: &mut Vec<u8>, total_len: u64)
    ensures
        final(out)@ == if (total_len as usize) < old(out)@.len() {
            old(out)@.subrange(0, total_len as usize as int)
        } else {
            old(out)@
        },
{
    out.truncate(total_len as usize);
    proof {
        if (total_len as usize) < old(out)@.len() {
            assert(out@ =~= old(out)@.subrange(0, total_len as usize as int));
        }
    }
}

/// Which encryptor reads a manifest: its algorithm (the active one when
/// it names none), and whether that is the active encryptor.
pub fn encryptor_choice(manifest: &ObjectManifest, active: &str) -> (r: (String, bool))
    ensures
        ({
            let alg = match manifest.encryption_alg {
                Some(a) => a@,
                None => active@,
            };
            r.0@ == alg && r.1 == (alg == active@)
        }),
{
    let alg = match &manifest.encryption_alg {
        Some(a) => a.clone(),
        None => active.to_owned(),
    };
    let shared = crate::text::str_eq(alg.as_str(), active);
    (alg, shared)
}

/// Which compressor reads a manifest: its algorithm and level (the active
/// ones when it names none), and whether that is the active compressor.
pub fn compressor_choice(manifest: &ObjectManifest, active: &str, active_level: i32) -> (r: (String, i32, bool))
    ensures
        ({
            let name = match manifest.compression_alg {
                Some(a) => a@,
                None => active@,
            };
            let level = match manifest.compression_level {
                Some(l) => l,
                None => active_level,
            };
            r.0@ == name && r.1 == level && r.2 == (name == active@ && level == active_level)
        }),
{
    let name = match &manifest.compression_alg {
        Some(a) => a.clone(),
        None => active.to_owned(),
    };
    let level = match manifest.compression_level {
        Some(l) => l,
        None => active_level,
    };
    let shared = crate::text::str_eq(name.as_str(), active) && level == active_level;
    (name, level, shared)
}

} // verus!

verus! {

/// With distinct hashes, the manifest at `k` is the one found for its hash.
proof fn lemma_find_manifest_unique(s: Seq<(Seq<u8>, Seq<u8>)>, k: int)
    requires
        hashes_distinct(s),
        0 <= k < s.len(),
    ensures
        spec_find_manifest(s, s[k].0) == Some(k),
{
    let c = choose|i: int| 0 <= i < s.len() && s[i].0 == s[k].0;
    if c != k {
        assert(s[c].0 != s[k].0);
    }
}

/// Storing a manifest and then reading it back by its hash gives the same
/// manifest (for a manifest whose strings and lists fit the encoding), and
/// what is stored under any other hash is unchanged.
pub proof fn law_store_then_get(store: StoragePipeline, m: ObjectManifestView)
    requires
        store.wf(),
        crate::storage::manifest_laws::manifest_fits(m),
    ensures
        ({
            let after = spec_put_manifest(store.spec_manifests(), m.blake3, crate::storage::manifest_binary::enc_manifest(m));
            &&& spec_manifest_bytes(after, m.blake3) == Some(crate::storage::manifest_binary::enc_manifest(m))
            &&& crate::storage::manifest_binary::spec_decode_manifest(crate::storage::manifest_binary::enc_manifest(m))
                == Ok::<ObjectManifestView, crate::util::binary_struct::DecodeErrorView>(m)
            &&& forall|h: Seq<u8>| h != m.blake3 ==> spec_manifest_bytes(after, h) == spec_manifest_bytes(
                store.spec_manifests(),
                h,
            )
        }),
{
    crate::storage::manifest_laws::lemma_manifest_roundtrip(m);
    let s = store.spec_manifests();
    let bytes = crate::storage::manifest_binary::enc_manifest(m);
    let after = spec_put_manifest(s, m.blake3, bytes);
    let k = match spec_find_manifest(s, m.blake3) {
        Some(i) => i,
        None => s.len() as int,
    };
    assert(forall|j: int| 0 <= j < after.len() && j != k ==> after[j] == s[j] && s[j].0 != m.blake3);
    assert(hashes_distinct(after)) by {
        assert forall|a: int, b: int| 0 <= a < after.len() && 0 <= b < after.len() && a != b implies (
        #[trigger] after[a]).0 != (#[trigger] after[b]).0 by {
            if a != k && b != k {
                assert(after[a] == s[a] && after[b] == s[b]);
            }
        }
    }
    lemma_find_manifest_unique(after, k);
    assert forall|h: Seq<u8>| h != m.blake3 implies spec_manifest_bytes(after, h) == spec_manifest_bytes(s, h) by {
        match spec_find_manifest(s, h) {
            Some(j) => {
                assert(s[j].0 == h);
                assert(j != k);
                assert(after[j] == s[j]);
                lemma_find_manifest_unique(after, j);
            },
            None => {
                assert forall|j: int| 0 <= j < after.len() implies after[j].0 != h by {
                    if j != k {
                        assert(after[j] == s[j]);
                    }
                }
            },
        }
    }
}

/// After an object is deleted nothing is stored under its manifest hash,
/// and what is stored under any other hash is unchanged.
pub proof fn law_delete_then_get(store: StoragePipeline, hash: Seq<u8>)
    requires
        store.wf(),
    ensures
        ({
            let after = spec_remove_manifest(store.spec_manifests(), hash);
            &&& spec_manifest_bytes(after, hash) is None
            &&& forall|h: Seq<u8>| h != hash ==> spec_manifest_bytes(after, h) == spec_manifest_bytes(
                store.spec_manifests(),
                h,
            )
        }),
{
    let s = store.spec_manifests();
    let after = spec_remove_manifest(s, hash);
    match spec_find_manifest(s, hash) {
        None => {},
        Some(k) => {
            assert(s[k].0 == hash);
            assert forall|j: int| 0 <= j < after.len() implies after[j].0 != hash by {
                let j2 = if j < k { j } else { j + 1 };
                assert(after[j] == s[j2]);
            }
            assert(hashes_distinct(after)) by {
                assert forall|a: int, b: int| 0 <= a < after.len() && 0 <= b < after.len() && a != b implies (
                #[trigger] after[a]).0 != (#[trigger] after[b]).0 by {
                    let a2 = if a < k { a } else { a + 1 };
                    let b2 = if b < k { b } else { b + 1 };
                    assert(after[a] == s[a2] && after[b] == s[b2]);
                }
            }
            assert forall|h: Seq<u8>| h != hash implies spec_manifest_bytes(after, h) == spec_manifest_bytes(s, h) by {
                match spec_find_manifest(s, h) {
                    Some(j) => {
                        assert(s[j].0 == h);
                        assert(j != k);
                        let j2 = if j < k { j } else { j - 1 };
                        assert(after[j2] == s[j]);
                        lemma_find_manifest_unique(after, j2);
                    },
                    None => {
                        assert forall|j: int| 0 <= j < after.len() implies after[j].0 != h by {
                            let j2 = if j < k { j } else { j + 1 };
                            assert(after[j] == s[j2]);
                        }
                    },
                }
            }
        },
    }
}

/// Putting bytes under a hash keeps the hashes distinct.
proof fn lemma_put_keeps_distinct(s: Seq<(Seq<u8>, Seq<u8>)>, hash: Seq<u8>, bytes: Seq<u8>)
    requires
        hashes_distinct(s),
    ensures
        hashes_distinct(spec_put_manifest(s, hash, bytes)),
{
    let after = spec_put_manifest(s, hash, bytes);
    let k = match spec_find_manifest(s, hash) {
        Some(i) => i,
        None => s.len() as int,
    };
    assert(forall|j: int| 0 <= j < after.len() && j != k ==> after[j] == s[j] && s[j].0 != hash);
    assert forall|a: int, b: int| 0 <= a < after.len() && 0 <= b < after.len() && a != b implies (
    #[trigger] after[a]).0 != (#[trigger] after[b]).0 by {
        if a != k && b != k {
            assert(after[a] == s[a] && after[b] == s[b]);
        }
    }
}

/// Removing what is stored under a hash leaves nothing under it.
proof fn lemma_remove_leaves_none(s: Seq<(Seq<u8>, Seq<u8>)>, hash: Seq<u8>)
    requires
        hashes_distinct(s),
    ensures
        spec_manifest_bytes(spec_remove_manifest(s, hash), hash) is None,
{
    match spec_find_manifest(s, hash) {
        None => {},
        Some(k) => {
            let after = s.remove(k);
            assert forall|j: int| 0 <= j < after.len() implies after[j].0 != hash by {
                let j2 = if j < k { j } else { j + 1 };
                assert(after[j] == s[j2]);
                assert(s[k].0 == hash);
            }
        },
    }
}

/// Deleting an object right after committing it gives its payer back 90%
/// of the rent (rounded down), burns the rest, and leaves no manifest under
/// its hash.
pub proof fn law_commit_then_delete(store: StoragePipeline, m: ObjectManifestView, lane: Seq<char>, rent: u64)
    requires
        store.wf(),
    ensures
        ({
            let id = crate::util::decimal::ascii_chars(crate::util::hex::spec_hex(m.blake3));
            let escrow = crate::storage::fs::spec_lock(
                store.spec_escrow(),
                EscrowView { id, depositor: lane, amount: rent, expiry: 0 },
            );
            let manifests = spec_put_manifest(
                store.spec_manifests(),
                m.blake3,
                crate::storage::manifest_binary::enc_manifest(m),
            );
            &&& crate::storage::fs::spec_find(escrow, id) matches Some(i) && spec_settlement(escrow[i]) == (
                lane,
                crate::storage::fs::spec_refund(rent),
                (rent - crate::storage::fs::spec_refund(rent)) as u64,
            )
            &&& spec_manifest_bytes(spec_remove_manifest(manifests, m.blake3), m.blake3) is None
        }),
{
    let id = crate::util::decimal::ascii_chars(crate::util::hex::spec_hex(m.blake3));
    crate::storage::fs::law_release_after_lock(store.rent, id, lane, rent, 0);
    lemma_put_keeps_distinct(store.spec_manifests(), m.blake3, crate::storage::manifest_binary::enc_manifest(m));
    lemma_remove_leaves_none(
        spec_put_manifest(store.spec_manifests(), m.blake3, crate::storage::manifest_binary::enc_manifest(m)),
        m.blake3,
    );
}

/// A freshly opened pipeline lists no manifest, whatever the limit.
pub proof fn law_open_lists_nothing(store: StoragePipeline, limit: usize)
    requires
        store.spec_manifests() == Seq::<(Seq<u8>, Seq<u8>)>::empty(),
    ensures
        listed_manifests(store.spec_manifests(), limit, store.spec_manifests().len() as int).len() == 0,
{
}

} // verus!
