//! Repair of erasure-coded objects: which chunks to rebuild, how failures
//! back off, and how each outcome is accounted and logged.  Reading the
//! database, running the coder and writing the log are the caller's part.

use vstd::prelude::*;
use vstd::string::StringExecFns;
use crate::hashing::{blake3_hash, spec_blake3};
use crate::storage::erasure::{total_shards_for_params, ErasureParams, FOUNTAIN_OVERLAY_SHARDS};
use crate::storage::types::{ObjectManifest, Redundancy, spec_chunk_count};
use crate::text::{concat, str_eq};
use crate::util::decimal::{ascii_chars, decimal_i64, decimal_u64, spec_decimal, spec_signed_decimal};

verus! {

/// Shortest backoff after a failure, in seconds.
pub const FAILURE_BACKOFF_BASE_SECS: u64 = 30;

/// Longest backoff after failures, in seconds.
pub const FAILURE_BACKOFF_CAP_SECS: u64 = 3600;

/// Why a repair failed.
#[derive(Clone, Copy, Debug, PartialEq, Eq, Structural)]
pub enum RepairErrorKind {
    Manifest,
    Integrity,
    Reconstruction,
    Encode,
    Database,
    Backoff,
    Fatal,
}

impl RepairErrorKind {
    /// The metric label of the error kind.
    pub fn label(&self) -> (s: &'static str)
        ensures
            s@ == (match self {
                RepairErrorKind::Manifest => "manifest"@,
                RepairErrorKind::Integrity => "integrity"@,
                RepairErrorKind::Reconstruction => "reconstruct"@,
                RepairErrorKind::Encode => "encode"@,
                RepairErrorKind::Database => "database"@,
                RepairErrorKind::Backoff => "backoff"@,
                RepairErrorKind::Fatal => "fatal"@,
            }),
    {
        match self {
            RepairErrorKind::Manifest => "manifest",
            RepairErrorKind::Integrity => "integrity",
            RepairErrorKind::Reconstruction => "reconstruct",
            RepairErrorKind::Encode => "encode",
            RepairErrorKind::Database => "database",
            RepairErrorKind::Backoff => "backoff",
            RepairErrorKind::Fatal => "fatal",
        }
    }
}

/// Status of a repair log entry.
#[derive(Clone, Copy, Debug, PartialEq, Eq, Structural)]
pub enum RepairLogStatus {
    Success,
    Failure,
    Skipped,
    Fatal,
}

impl RepairLogStatus {
    /// The status as it is written in the log.
    pub fn as_str(&self) -> (s: &'static str)
        ensures
            s@ == (match self {
                RepairLogStatus::Success => "success"@,
                RepairLogStatus::Failure => "failure"@,
                RepairLogStatus::Skipped => "skipped"@,
                RepairLogStatus::Fatal => "fatal"@,
            }),
    {
        match self {
            RepairLogStatus::Success => "success",
            RepairLogStatus::Failure => "failure",
            RepairLogStatus::Skipped => "skipped",
            RepairLogStatus::Fatal => "fatal",
        }
    }
}

/// What a repair pass covers: one manifest or all, one chunk or all, and
/// whether to rebuild chunks that miss nothing (ignoring backoff).
#[derive(Clone, Copy, Debug)]
pub struct RepairRequest {
    pub manifest: Option<[u8; 32]>,
    pub chunk: Option<usize>,
    pub force: bool,
}

impl Default for RepairRequest {
    fn default() -> (r: Self)
        ensures
            r.manifest is None && r.chunk is None && !r.force,
    {
        RepairRequest { manifest: None, chunk: None, force: false }
    }
}

/// Failed attempts at a chunk and when it may be retried.
#[derive(Clone, Copy, Debug, PartialEq, Eq, Structural)]
pub struct FailureRecord {
    pub attempts: u32,
    pub next_retry_at: i64,
}

impl Default for FailureRecord {
    fn default() -> (r: Self)
        ensures
            r.attempts == 0 && r.next_retry_at == 0,
    {
        FailureRecord { attempts: 0, next_retry_at: 0 }
    }
}

/// `2^e` for `e <= 31`.
pub open spec fn pow2(e: nat) -> nat
    decreases e,
{
    if e == 0 {
        1
    } else {
        2 * pow2((e - 1) as nat)
    }
}

/// The wait after the `attempts`-th failure: 30 s doubled per earlier
/// failure (at most 31 doublings), capped at one hour.
pub open spec fn spec_backoff_secs(attempts: u32) -> u64 {
    let e: nat = if attempts == 0 {
        0
    } else if attempts - 1 > 31 {
        31
    } else {
        (attempts - 1) as nat
    };
    let b = 30 * pow2(e);
    if b > 3600 {
        3600
    } else {
        b as u64
    }
}

/// The record after one more failure at time `now`.
pub open spec fn spec_next_failure_record(previous: FailureRecord, now: i64) -> FailureRecord {
    let attempts = if previous.attempts == u32::MAX {
        u32::MAX
    } else {
        (previous.attempts + 1) as u32
    };
    let next = now + spec_backoff_secs(attempts);
    FailureRecord { attempts, next_retry_at: if next > i64::MAX { i64::MAX } else { next as i64 } }
}

proof fn lemma_pow2_monotone(a: nat, b: nat)
    requires
        a <= b,
    ensures
        pow2(a) <= pow2(b),
    decreases b,
{
    if a < b {
        lemma_pow2_monotone(a, (b - 1) as nat);
    }
}

proof fn lemma_pow2_facts(e: nat)
    ensures
        pow2(e) >= 1,
        e >= 7 ==> 30 * pow2(e) > 3600,
    decreases e,
{
    if e > 0 {
        lemma_pow2_facts((e - 1) as nat);
    }
    if e >= 7 {
        lemma_pow2_monotone(7, e);
        assert(pow2(7) == 128) by {
            reveal_with_fuel(pow2, 8);
        }
    }
}

/// The wait after the `attempts`-th failure.
pub fn backoff_secs(attempts: u32) -> (s: u64)
    ensures
        s == spec_backoff_secs(attempts),
        FAILURE_BACKOFF_BASE_SECS <= s <= FAILURE_BACKOFF_CAP_SECS,
{
    let exponent: u32 = if attempts == 0 {
        0
    } else if attempts - 1 > 31 {
        31
    } else {
        attempts - 1
    };
    proof {
        lemma_pow2_facts(exponent as nat);
    }
    if exponent >= 7 {
        return FAILURE_BACKOFF_CAP_SECS;
    }
    let mut multiplier: u64 = 1;
    let mut i: u32 = 0;
    while i < exponent
        invariant
            i <= exponent < 7,
            multiplier == pow2(i as nat),
            multiplier <= 64,
        decreases exponent - i,
    {
        proof {
            lemma_pow2_monotone((i + 1) as nat, 6);
            assert(pow2(6) == 64) by {
                reveal_with_fuel(pow2, 7);
            }
        }
        multiplier = multiplier * 2;
        i = i + 1;
    }
    let backoff = FAILURE_BACKOFF_BASE_SECS * multiplier;
    if backoff > FAILURE_BACKOFF_CAP_SECS {
        FAILURE_BACKOFF_CAP_SECS
    } else {
        backoff
    }
}

/// The failure record after one more failure at time `now`, starting from
/// a fresh record when there is none.
pub fn next_failure_record(previous: Option<FailureRecord>, now: i64) -> (r: FailureRecord)
    ensures
        r == spec_next_failure_record(
            match previous {
                Some(p) => p,
                None => FailureRecord { attempts: 0, next_retry_at: 0 },
            },
            now,
        ),
{
    let prev = match previous {
        Some(p) => p,
        None => FailureRecord::default(),
    };
    let attempts = prev.attempts.saturating_add(1);
    let capped = backoff_secs(attempts);
    let c = capped as i64;
    let next_retry_at = if now > i64::MAX - c {
        i64::MAX
    } else {
        now + c
    };
    FailureRecord { attempts, next_retry_at }
}


/// The key of a chunk's failure record: the manifest's hex id, a colon and
/// the chunk index.
pub fn failure_key(manifest: &str, chunk_idx: usize) -> (k: String)
    ensures
        k@ == manifest@ + ":"@ + ascii_chars(spec_decimal(chunk_idx as nat)),
{
    let head = concat(manifest, ":");
    let idx = decimal_u64(chunk_idx as u64);
    concat(head.as_str(), idx.as_str())
}

/// The id a shard is stored under: BLAKE3 of its slot (one byte, the slot
/// modulo 256) followed by its bytes.
pub open spec fn spec_shard_id(slot: usize, shard: Seq<u8>) -> Seq<u8> {
    spec_blake3(seq![slot as u8] + shard)
}

/// The id a shard is stored under.
pub fn compute_shard_id(slot: usize, shard: &[u8]) -> (id: [u8; 32])
    ensures
        id@ == spec_shard_id(slot, shard@),
{
    let mut buf: Vec<u8> = Vec::new();
    buf.push(slot as u8);
    crate::le::push_all(&mut buf, shard);
    assert(buf@ =~= seq![slot as u8] + shard@);
    blake3_hash(&buf)
}

/// The erasure parameters of a Reed–Solomon manifest: its own erasure
/// algorithm, else the active one.
pub fn manifest_erasure_params(manifest: &ObjectManifest, default_erasure: &str) -> (r: Result<ErasureParams, String>)
    ensures
        match manifest.redundancy {
            Redundancy::ReedSolomon { data, parity } => r matches Ok(p) && p.data_shards == data as usize
                && p.parity_shards == parity as usize && p.algorithm@ == (match manifest.erasure_alg {
                Some(a) => a@,
                None => default_erasure@,
            }),
            Redundancy::Disabled => r matches Err(e) && e@ == "manifest has no erasure redundancy"@,
        },
{
    match manifest.redundancy {
        Redundancy::ReedSolomon { data, parity } => {
            let algorithm = match &manifest.erasure_alg {
                Some(a) => a.clone(),
                None => default_erasure.to_owned(),
            };
            Ok(ErasureParams { algorithm, data_shards: data as usize, parity_shards: parity as usize })
        },
        Redundancy::Disabled => Err("manifest has no erasure redundancy".to_owned()),
    }
}

/// Layout check of a manifest: for Reed–Solomon, its chunk references
/// form whole shard groups, one group per chunk.
pub open spec fn spec_layout_error(m: ObjectManifest) -> Option<Seq<char>> {
    match m.redundancy {
        Redundancy::ReedSolomon { data, parity } => {
            let spc: int = data + parity + FOUNTAIN_OVERLAY_SHARDS;
            let n: int = m.chunks@.len() as int;
            if n % spc != 0 {
                Some("chunk list not aligned to shard groups"@)
            } else if (spec_chunk_count(m) as usize) * spc != n {
                Some("manifest chunk count mismatch"@)
            } else {
                None
            }
        },
        Redundancy::Disabled => None,
    }
}

/// Checks a manifest: its layout, then that `computed_hash` (the BLAKE3 of
/// the manifest serialized with a zeroed hash field) equals its hash.
pub fn validate_manifest(manifest: &ObjectManifest, computed_hash: &[u8; 32]) -> (r: Result<(), String>)
    ensures
        match spec_layout_error(*manifest) {
            Some(msg) => r matches Err(e) && e@ == msg,
            None => if computed_hash@ == manifest.blake3@ {
                r is Ok
            } else {
                r matches Err(e) && e@ == "manifest hash mismatch"@
            },
        },
{
    if let Redundancy::ReedSolomon { data, parity } = manifest.redundancy {
        let spc: usize = data as usize + parity as usize + FOUNTAIN_OVERLAY_SHARDS;
        if manifest.chunks.len() % spc != 0 {
            return Err("chunk list not aligned to shard groups".to_owned());
        }
        let expected_chunks = manifest.chunk_count();
        assert(expected_chunks as u128 * spc as u128 <= u128::MAX) by (nonlinear_arith)
            requires
                expected_chunks <= usize::MAX,
                spc <= 513,
                usize::MAX <= u64::MAX,
        ;
        if expected_chunks as u128 * spc as u128 != manifest.chunks.len() as u128 {
            return Err("manifest chunk count mismatch".to_owned());
        }
    }
    if crate::le::bytes_eq(computed_hash, &manifest.blake3) {
        Ok(())
    } else {
        Err("manifest hash mismatch".to_owned())
    }
}

/// Checks a manifest given its serialization with the hash field zeroed:
/// its layout, then that the BLAKE3 of those bytes equals its hash.
pub fn validate_manifest_bytes(manifest: &ObjectManifest, serialized_zeroed: &[u8]) -> (r: Result<(), String>)
    ensures
        match spec_layout_error(*manifest) {
            Some(msg) => r matches Err(e) && e@ == msg,
            None => if spec_blake3(serialized_zeroed@) == manifest.blake3@ {
                r is Ok
            } else {
                r matches Err(e) && e@ == "manifest hash mismatch"@
            },
        },
{
    let computed = blake3_hash(serialized_zeroed);
    validate_manifest(manifest, &computed)
}

} // verus!

verus! {

/// How one chunk's shard group stands before repair.
#[derive(Debug)]
pub enum ChunkPlan {
    /// Another chunk was requested.
    Filtered,
    /// A recent failure is still backing off.
    Backoff { next_retry_at: i64 },
    /// A stored shard does not hash to its id.
    IntegrityFailure { slot: usize },
    /// The fallback XOR coder cannot rebuild what is missing.
    AlgorithmLimited { missing: usize, parity_available: usize },
    /// Nothing is missing and no rebuild was forced.
    Intact,
    /// The manifest gives the chunk no ciphertext length.
    ZeroLength,
    /// Rebuild the chunk and rewrite these slots.
    Repair { missing_slots: Vec<usize>, expected_cipher: usize },
}

/// Whether the shard stored for slot `s` hashes to something other than
/// its id.
pub open spec fn slot_corrupt(ids: Seq<Seq<u8>>, blobs: Seq<Option<Seq<u8>>>, s: int) -> bool {
    blobs[s] matches Some(b) && spec_shard_id(s as usize, b) != ids[s]
}

/// Slots below `k` whose shard is absent, in order.
pub open spec fn missing_slots(blobs: Seq<Option<Seq<u8>>>, k: int) -> Seq<usize>
    decreases k,
{
    if k <= 0 {
        Seq::empty()
    } else if blobs[k - 1] is None {
        missing_slots(blobs, k - 1).push((k - 1) as usize)
    } else {
        missing_slots(blobs, k - 1)
    }
}

/// Absent shards below `k` among the data slots.
pub open spec fn missing_data_count(blobs: Seq<Option<Seq<u8>>>, k: int, data: int) -> nat
    decreases k,
{
    if k <= 0 {
        0
    } else {
        missing_data_count(blobs, k - 1, data) + if blobs[k - 1] is None && k - 1 < data {
            1nat
        } else {
            0nat
        }
    }
}

/// Present shards below `k` among the parity slots `[data, total)`.
pub open spec fn parity_present_count(blobs: Seq<Option<Seq<u8>>>, k: int, data: int, total: int) -> nat
    decreases k,
{
    if k <= 0 {
        0
    } else {
        parity_present_count(blobs, k - 1, data, total) + if blobs[k - 1] is Some && data <= k - 1 < total {
            1nat
        } else {
            0nat
        }
    }
}

/// The shard ids of a group's chunk references.
pub open spec fn group_ids(group: Seq<crate::storage::types::ChunkRef>) -> Seq<Seq<u8>> {
    Seq::new(group.len(), |i: int| group[i].id@)
}

/// The views of optional shards.
pub open spec fn blobs_view(blobs: Seq<Option<Vec<u8>>>) -> Seq<Option<Seq<u8>>> {
    Seq::new(
        blobs.len(),
        |i: int|
            match blobs[i] {
                Some(b) => Some(b@),
                None => None,
            },
    )
}

/// The plan for one chunk, in the order the checks are made.
pub open spec fn spec_plan_chunk(
    request: RepairRequest,
    chunk_idx: usize,
    record: Option<FailureRecord>,
    now: i64,
    ids: Seq<Seq<u8>>,
    blobs: Seq<Option<Seq<u8>>>,
    data: int,
    total_rs: int,
    is_xor: bool,
    expected_cipher: int,
) -> ChunkPlanView {
    let n = blobs.len() as int;
    let missing = missing_slots(blobs, n);
    let missing_data = missing_data_count(blobs, n, data);
    let parity = parity_present_count(blobs, n, data, total_rs);
    if (request.chunk matches Some(f) && chunk_idx != f) {
        ChunkPlanView::Filtered
    } else if !request.force && (record matches Some(rec) && now < rec.next_retry_at) {
        ChunkPlanView::Backoff { next_retry_at: record->Some_0.next_retry_at }
    } else if exists|s: int| 0 <= s < n && slot_corrupt(ids, blobs, s) {
        ChunkPlanView::IntegrityFailure {
            slot: (choose|s: int| 0 <= s < n && slot_corrupt(ids, blobs, s) && forall|t: int|
                0 <= t < s ==> !slot_corrupt(ids, blobs, t)) as usize,
        }
    } else if is_xor && missing_data > 0 && (missing_data > 1 || parity == 0) {
        ChunkPlanView::AlgorithmLimited { missing: missing_data as usize, parity_available: parity as usize }
    } else if missing.len() == 0 && !request.force {
        ChunkPlanView::Intact
    } else if expected_cipher == 0 {
        ChunkPlanView::ZeroLength
    } else {
        ChunkPlanView::Repair {
            missing_slots: if request.force && missing.len() == 0 {
                Seq::new((total_rs + FOUNTAIN_OVERLAY_SHARDS) as nat, |i: int| i as usize)
            } else {
                missing
            },
            expected_cipher: expected_cipher as usize,
        }
    }
}

/// A chunk plan as a mathematical value.
pub enum ChunkPlanView {
    Filtered,
    Backoff { next_retry_at: i64 },
    IntegrityFailure { slot: usize },
    AlgorithmLimited { missing: usize, parity_available: usize },
    Intact,
    ZeroLength,
    Repair { missing_slots: Seq<usize>, expected_cipher: usize },
}

impl View for ChunkPlan {
    type V = ChunkPlanView;

    open spec fn view(&self) -> ChunkPlanView {
        match self {
            ChunkPlan::Filtered => ChunkPlanView::Filtered,
            ChunkPlan::Backoff { next_retry_at } => ChunkPlanView::Backoff { next_retry_at: *next_retry_at },
            ChunkPlan::IntegrityFailure { slot } => ChunkPlanView::IntegrityFailure { slot: *slot },
            ChunkPlan::AlgorithmLimited { missing, parity_available } => ChunkPlanView::AlgorithmLimited {
                missing: *missing,
                parity_available: *parity_available,
            },
            ChunkPlan::Intact => ChunkPlanView::Intact,
            ChunkPlan::ZeroLength => ChunkPlanView::ZeroLength,
            ChunkPlan::Repair { missing_slots, expected_cipher } => ChunkPlanView::Repair {
                missing_slots: missing_slots@,
                expected_cipher: *expected_cipher,
            },
        }
    }
}

proof fn lemma_counts_bounded(blobs: Seq<Option<Seq<u8>>>, k: int, data: int, total: int)
    requires
        0 <= k <= blobs.len(),
    ensures
        missing_data_count(blobs, k, data) <= k,
        parity_present_count(blobs, k, data, total) <= k,
        missing_slots(blobs, k).len() <= k,
        forall|i: int| 0 <= i < missing_slots(blobs, k).len() ==> #[trigger] missing_slots(blobs, k)[i] < k,
    decreases k,
{
    if k > 0 {
        lemma_counts_bounded(blobs, k - 1, data, total);
    }
}

/// Plans the repair of the chunk `chunk_idx` of `manifest`, whose shard
/// group is `group`, given the shards found for it (`blobs`, one per
/// reference), its failure record and the time.
pub fn plan_chunk(
    request: &RepairRequest,
    chunk_idx: usize,
    record: Option<FailureRecord>,
    now: i64,
    group: &[crate::storage::types::ChunkRef],
    blobs: &[Option<Vec<u8>>],
    params: &ErasureParams,
    manifest: &ObjectManifest,
) -> (plan: ChunkPlan)
    requires
        blobs@.len() == group@.len(),
        params.data_shards + params.parity_shards + FOUNTAIN_OVERLAY_SHARDS <= usize::MAX,
    ensures
        plan@ == spec_plan_chunk(
            *request,
            chunk_idx,
            record,
            now,
            group_ids(group@),
            blobs_view(blobs@),
            params.data_shards as int,
            params.data_shards + params.parity_shards,
            params.algorithm@ == "xor"@,
            (if manifest.chunk_cipher_lens@.len() > 0 {
                crate::storage::types::spec_table_len(manifest.chunk_cipher_lens@, chunk_idx as int)
            } else {
                (crate::storage::types::spec_chunk_plain_len(*manifest, chunk_idx as int)
                    + crate::storage::types::ENCRYPTED_CHUNK_OVERHEAD) as usize as int
            }),
        ),
{
    let ghost ids = group_ids(group@);
    let ghost bv = blobs_view(blobs@);
    let ghost n = bv.len() as int;
    if let Some(f) = request.chunk {
        if chunk_idx != f {
            return ChunkPlan::Filtered;
        }
    }
    if !request.force {
        if let Some(rec) = record {
            if now < rec.next_retry_at {
                return ChunkPlan::Backoff { next_retry_at: rec.next_retry_at };
            }
        }
    }
    let data = params.data_shards;
    let total_rs = params.total_rs();
    let mut missing: Vec<usize> = Vec::new();
    let mut missing_data: usize = 0;
    let mut parity: usize = 0;
    let mut slot: usize = 0;
    while slot < blobs.len()
        invariant
            slot <= blobs@.len(),
            blobs@.len() == group@.len(),
            ids == group_ids(group@),
            bv == blobs_view(blobs@),
            n == bv.len(),
            data == params.data_shards,
            total_rs == params.data_shards + params.parity_shards,
            forall|t: int| 0 <= t < slot ==> !slot_corrupt(ids, bv, t),
            !(request.chunk matches Some(f) && chunk_idx != f),
            !(!request.force && (record matches Some(rec) && now < rec.next_retry_at)),
            missing@ == missing_slots(bv, slot as int),
            missing_data == missing_data_count(bv, slot as int, data as int),
            parity == parity_present_count(bv, slot as int, data as int, total_rs as int),
        decreases blobs@.len() - slot,
    {
        proof {
            lemma_counts_bounded(bv, slot as int, data as int, total_rs as int);
        }
        match &blobs[slot] {
            Some(b) => {
                let id = compute_shard_id(slot, b.as_slice());
                if !crate::le::bytes_eq(&id, &group[slot].id) {
                    proof {
                        assert(group@[slot as int].id@ == ids[slot as int]);
                        assert(bv[slot as int] == Some(b@));
                        assert(slot_corrupt(ids, bv, slot as int));
                        assert(0 <= slot < n && slot_corrupt(ids, bv, slot as int) && forall|t: int|
                            0 <= t < slot ==> !slot_corrupt(ids, bv, t));
                        let s = choose|s: int| 0 <= s < n && slot_corrupt(ids, bv, s) && forall|t: int|
                            0 <= t < s ==> !slot_corrupt(ids, bv, t);
                        if s < slot {
                        } else if s > slot {
                            assert(!slot_corrupt(ids, bv, slot as int));
                        }
                    }
                    return ChunkPlan::IntegrityFailure { slot };
                }
                if data <= slot && slot < total_rs {
                    parity = parity + 1;
                }
            },
            None => {
                missing.push(slot);
                if slot < data {
                    missing_data = missing_data + 1;
                }
            },
        }
        slot = slot + 1;
    }
    assert(!(exists|s: int| 0 <= s < n && slot_corrupt(ids, bv, s)));
    if params.is_xor() && missing_data > 0 && (missing_data > 1 || parity == 0) {
        return ChunkPlan::AlgorithmLimited { missing: missing_data, parity_available: parity };
    }
    if missing.len() == 0 && !request.force {
        return ChunkPlan::Intact;
    }
    let expected_cipher = manifest.chunk_cipher_len(chunk_idx);
    if expected_cipher == 0 {
        return ChunkPlan::ZeroLength;
    }
    let missing_slots = if request.force && missing.len() == 0 {
        let spc = total_rs + FOUNTAIN_OVERLAY_SHARDS;
        let mut all: Vec<usize> = Vec::new();
        let mut i: usize = 0;
        while i < spc
            invariant
                i <= spc,
                all@ =~= Seq::new(i as nat, |j: int| j as usize),
            decreases spc - i,
        {
            all.push(i);
            i = i + 1;
        }
        all
    } else {
        missing
    };
    ChunkPlan::Repair { missing_slots, expected_cipher }
}

} // verus!

verus! {

/// A shard to store under a key.
#[derive(Debug)]
pub struct ShardWrite {
    pub key: String,
    pub value: Vec<u8>,
}

/// Why a chunk was skipped.
#[derive(Debug)]
pub enum SkipReason {
    Backoff { next_retry_at: i64 },
    AlgorithmLimited { algorithm: String, missing: usize, parity_available: usize },
}

/// The result of working on one chunk.
#[derive(Debug)]
pub enum RepairOutcome {
    Success {
        manifest: String,
        chunk: usize,
        bytes: u64,
        writes: Vec<ShardWrite>,
        missing_slots: Vec<usize>,
        failure_key: String,
    },
    Failure {
        manifest: String,
        chunk: Option<usize>,
        failure_key: Option<String>,
        error: RepairErrorKind,
        message: String,
    },
    Skipped { manifest: String, chunk: usize, reason: SkipReason },
}

/// The key a shard is stored under: `chunk/` and the hex of its id.
pub open spec fn spec_chunk_key(id: Seq<u8>) -> Seq<char> {
    "chunk/"@ + ascii_chars(crate::util::hex::spec_hex(id))
}

/// The key a shard is stored under.
pub fn chunk_key(id: &[u8; 32]) -> (k: String)
    ensures
        k@ == spec_chunk_key(id@),
{
    let h = crate::util::hex::encode(id);
    concat("chunk/", h.as_str())
}

/// `prefix` followed by the decimal text of `n`.
fn with_number(prefix: &str, n: u64) -> (s: String)
    ensures
        s@ == prefix@ + ascii_chars(spec_decimal(n as nat)),
{
    let d = decimal_u64(n);
    concat(prefix, d.as_str())
}

/// Whether rewriting slot `idx` fails: the coder gave no shard for it, or
/// the shard does not hash to the slot's id.
pub open spec fn rewrite_fails(idx: usize, encoded: Seq<Vec<u8>>, entries: Seq<crate::storage::types::ChunkRef>) -> bool {
    idx >= encoded.len() || spec_shard_id(idx, encoded[idx as int]@) != entries[idx as int].id@
}

/// Bytes written for the first `k` rewritten slots (saturating).
pub open spec fn rewritten_bytes(missing: Seq<usize>, encoded: Seq<Vec<u8>>, k: int) -> u64
    decreases k,
{
    if k <= 0 {
        0
    } else {
        let prev = rewritten_bytes(missing, encoded, k - 1);
        let len = encoded[missing[k - 1] as int]@.len();
        if prev + len > u64::MAX {
            u64::MAX
        } else {
            (prev + len) as u64
        }
    }
}

/// The outcome of a rebuilt chunk, given the shards the coder re-encoded:
/// they must be as many as the group; the first rewritten slot without a
/// shard is an encode failure and the first whose shard does not hash to
/// its id an integrity failure; otherwise every slot is written and the
/// bytes written are summed (saturating).
pub fn outcome_from_encoded(
    manifest: String,
    chunk: usize,
    failure_key: String,
    entries: &[crate::storage::types::ChunkRef],
    missing_slots: Vec<usize>,
    encoded: &Vec<Vec<u8>>,
) -> (r: RepairOutcome)
    ensures
        encoded@.len() != entries@.len() ==> (r matches RepairOutcome::Failure { error, message, chunk: c, failure_key: k, manifest: m }
            && error == RepairErrorKind::Encode && message@ == "encoded shard count mismatch"@ && c == Some(chunk)
            && (k matches Some(kk) && kk@ == failure_key@) && m@ == manifest@),
        encoded@.len() == entries@.len() && (exists|i: int|
            0 <= i < missing_slots@.len() && rewrite_fails(#[trigger] missing_slots@[i], encoded@, entries@)) ==> ({
            let i = choose|i: int|
                0 <= i < missing_slots@.len() && rewrite_fails(missing_slots@[i], encoded@, entries@) && forall|j: int|
                    0 <= j < i ==> !rewrite_fails(#[trigger] missing_slots@[j], encoded@, entries@);
            let idx = missing_slots@[i];
            r matches RepairOutcome::Failure { error, message, chunk: c, failure_key: k, manifest: m } && c == Some(chunk)
                && (k matches Some(kk) && kk@ == failure_key@) && m@ == manifest@ && if idx >= encoded@.len() {
                error == RepairErrorKind::Encode && message@ == "missing encoded shard at slot "@ + ascii_chars(
                    spec_decimal(idx as nat),
                )
            } else {
                error == RepairErrorKind::Integrity && message@ == "re-encoded shard hash mismatch at slot "@
                    + ascii_chars(spec_decimal(idx as nat))
            }
        }),
        encoded@.len() == entries@.len() && (forall|i: int|
            0 <= i < missing_slots@.len() ==> !rewrite_fails(#[trigger] missing_slots@[i], encoded@, entries@)) ==> (
        match r {
            RepairOutcome::Success { writes, missing_slots: ms, bytes, chunk: c, failure_key: k, manifest: m } => {
                &&& ms@ == missing_slots@
                &&& c == chunk && k@ == failure_key@ && m@ == manifest@
                &&& bytes == rewritten_bytes(missing_slots@, encoded@, missing_slots@.len() as int)
                &&& writes@.len() == missing_slots@.len()
                &&& forall|i: int|
                    0 <= i < missing_slots@.len() ==> {
                        let idx = #[trigger] missing_slots@[i];
                        &&& writes@[i].key@ == spec_chunk_key(entries@[idx as int].id@)
                        &&& writes@[i].value@ == encoded@[idx as int]@
                    }
            },
            _ => false,
        }),
{
    if encoded.len() != entries.len() {
        return RepairOutcome::Failure {
            manifest,
            chunk: Some(chunk),
            failure_key: Some(failure_key),
            error: RepairErrorKind::Encode,
            message: "encoded shard count mismatch".to_owned(),
        };
    }
    let mut writes: Vec<ShardWrite> = Vec::new();
    let mut bytes: u64 = 0;
    let mut i: usize = 0;
    while i < missing_slots.len()
        invariant
            i <= missing_slots@.len(),
            encoded@.len() == entries@.len(),
            writes@.len() == i,
            bytes == rewritten_bytes(missing_slots@, encoded@, i as int),
            forall|j: int| 0 <= j < i ==> !rewrite_fails(#[trigger] missing_slots@[j], encoded@, entries@),
            forall|j: int|
                0 <= j < i ==> {
                    let idx = #[trigger] missing_slots@[j];
                    &&& writes@[j].key@ == spec_chunk_key(entries@[idx as int].id@)
                    &&& writes@[j].value@ == encoded@[idx as int]@
                },
        decreases missing_slots@.len() - i,
    {
        let idx = missing_slots[i];
        proof {
            assert forall|j: int| 0 <= j < i implies !rewrite_fails(#[trigger] missing_slots@[j], encoded@, entries@) by {
            }
        }
        if idx >= encoded.len() {
            proof {
                let ii = i as int;
                assert(rewrite_fails(missing_slots@[ii], encoded@, entries@));
                let c = choose|k: int|
                    0 <= k < missing_slots@.len() && rewrite_fails(missing_slots@[k], encoded@, entries@) && forall|j: int|
                        0 <= j < k ==> !rewrite_fails(#[trigger] missing_slots@[j], encoded@, entries@);
                assert(0 <= ii < missing_slots@.len() && rewrite_fails(missing_slots@[ii], encoded@, entries@) && forall|j: int|
                    0 <= j < ii ==> !rewrite_fails(#[trigger] missing_slots@[j], encoded@, entries@));
                if c < ii {
                } else if c > ii {
                    assert(!rewrite_fails(missing_slots@[ii], encoded@, entries@));
                }
            }
            return RepairOutcome::Failure {
                manifest,
                chunk: Some(chunk),
                failure_key: Some(failure_key),
                error: RepairErrorKind::Encode,
                message: with_number("missing encoded shard at slot ", idx as u64),
            };
        }
        let shard = &encoded[idx];
        let id = compute_shard_id(idx, shard.as_slice());
        if !crate::le::bytes_eq(&id, &entries[idx].id) {
            proof {
                let ii = i as int;
                assert(rewrite_fails(missing_slots@[ii], encoded@, entries@));
                let c = choose|k: int|
                    0 <= k < missing_slots@.len() && rewrite_fails(missing_slots@[k], encoded@, entries@) && forall|j: int|
                        0 <= j < k ==> !rewrite_fails(#[trigger] missing_slots@[j], encoded@, entries@);
                assert(0 <= ii < missing_slots@.len() && rewrite_fails(missing_slots@[ii], encoded@, entries@) && forall|j: int|
                    0 <= j < ii ==> !rewrite_fails(#[trigger] missing_slots@[j], encoded@, entries@));
                if c < ii {
                } else if c > ii {
                    assert(!rewrite_fails(missing_slots@[ii], encoded@, entries@));
                }
            }
            return RepairOutcome::Failure {
                manifest,
                chunk: Some(chunk),
                failure_key: Some(failure_key),
                error: RepairErrorKind::Integrity,
                message: with_number("re-encoded shard hash mismatch at slot ", idx as u64),
            };
        }
        let key = chunk_key(&entries[idx].id);
        let value = crate::le::copy_range(shard.as_slice(), 0, shard.len());
        assert(value@ =~= shard@);
        writes.push(ShardWrite { key, value });
        let len = shard.len() as u64;
        bytes = if bytes > u64::MAX - len {
            u64::MAX
        } else {
            bytes + len
        };
        i = i + 1;
    }
    RepairOutcome::Success { manifest, chunk, bytes, writes, missing_slots, failure_key }
}

/// A failure with its chunk and message.
#[derive(Debug)]
pub struct RepairFailure {
    pub manifest: String,
    pub chunk: Option<usize>,
    pub error: RepairErrorKind,
    pub message: String,
}

/// Counts of a repair pass.
#[derive(Debug)]
pub struct RepairSummary {
    pub manifests: usize,
    pub attempts: usize,
    pub successes: usize,
    pub failures: usize,
    pub skipped: usize,
    pub bytes_repaired: u64,
    pub failure_details: Vec<RepairFailure>,
}

impl RepairSummary {
    /// Nothing counted yet.
    pub fn new() -> (s: Self)
        ensures
            s.manifests == 0 && s.attempts == 0 && s.successes == 0 && s.failures == 0 && s.skipped == 0
                && s.bytes_repaired == 0 && s.failure_details@.len() == 0,
    {
        RepairSummary {
            manifests: 0,
            attempts: 0,
            successes: 0,
            failures: 0,
            skipped: 0,
            bytes_repaired: 0,
            failure_details: Vec::new(),
        }
    }

    /// No counter is at its limit.
    pub open spec fn has_room(&self) -> bool {
        self.attempts < usize::MAX && self.successes < usize::MAX && self.failures < usize::MAX
            && self.skipped < usize::MAX
    }

    /// Whether one more outcome can be counted: no counter is at its limit.
    pub fn can_count(&self) -> (b: bool)
        ensures
            b == self.has_room(),
    {
        self.attempts < usize::MAX && self.successes < usize::MAX && self.failures < usize::MAX
            && self.skipped < usize::MAX
    }
}

/// One line of the repair log.
#[derive(Debug)]
pub struct RepairLogEntry {
    pub timestamp: i64,
    pub manifest: String,
    pub chunk: Option<u32>,
    pub status: RepairLogStatus,
    pub bytes: u64,
    pub missing_slots: Vec<u32>,
    pub error: Option<String>,
}

/// What to do with a chunk's failure record.
#[derive(Debug)]
pub enum FailureAction {
    /// Leave the records as they are.
    Keep,
    /// The chunk was repaired: remove its record.
    Clear(String),
    /// The chunk failed again: back off further.
    Bump(String),
}

fn slots_u32(v: &Vec<usize>) -> (r: Vec<u32>)
    ensures
        r@ == v@.map_values(|s: usize| s as u32),
{
    let mut r: Vec<u32> = Vec::new();
    let mut i: usize = 0;
    while i < v.len()
        invariant
            i <= v@.len(),
            r@ == v@.take(i as int).map_values(|s: usize| s as u32),
        decreases v@.len() - i,
    {
        r.push(v[i] as u32);
        assert(v@.take(i + 1).map_values(|s: usize| s as u32) =~= v@.take(i as int).map_values(
            |s: usize| s as u32,
        ).push(v@[i as int] as u32));
        i = i + 1;
    }
    assert(v@.take(v@.len() as int) =~= v@);
    r
}

/// Accounts one outcome in the summary and gives the log entry and the
/// failure-record action.  `db_error` is the error of storing a success's
/// shard writes, if any.
pub fn handle_outcome(
    summary: &mut RepairSummary,
    outcome: RepairOutcome,
    db_error: Option<String>,
    timestamp: i64,
) -> (r: (RepairLogEntry, FailureAction))
    requires
        old(summary).has_room(),
    ensures
        final(summary).manifests == old(summary).manifests,
        r.0.timestamp == timestamp,
        match outcome {
            RepairOutcome::Success { bytes, failure_key, missing_slots, chunk, manifest, .. } => r.0.manifest@
                == manifest@ && match db_error {
                Some(err) => {
                    &&& final(summary).failures == old(summary).failures + 1
                    &&& final(summary).attempts == old(summary).attempts
                    &&& final(summary).successes == old(summary).successes
                    &&& final(summary).skipped == old(summary).skipped
                    &&& final(summary).bytes_repaired == old(summary).bytes_repaired
                    &&& final(summary).failure_details@.len() == old(summary).failure_details@.len() + 1
                    &&& final(summary).failure_details@.last().error == RepairErrorKind::Database
                    &&& final(summary).failure_details@.last().message@ == err@
                    &&& final(summary).failure_details@.last().manifest@ == manifest@
                    &&& final(summary).failure_details@.last().chunk == Some(chunk)
                    &&& final(summary).failure_details@.drop_last() == old(summary).failure_details@
                    &&& r.0.status == RepairLogStatus::Failure && r.0.bytes == 0
                    &&& r.0.chunk == Some(chunk as u32)
                    &&& r.0.missing_slots@ == missing_slots@.map_values(|s: usize| s as u32)
                    &&& r.0.error matches Some(e) && e@ == err@
                    &&& r.1 matches FailureAction::Bump(k) && k@ == failure_key@
                },
                None => {
                    &&& final(summary).attempts == old(summary).attempts + 1
                    &&& final(summary).successes == old(summary).successes + 1
                    &&& final(summary).failures == old(summary).failures
                    &&& final(summary).skipped == old(summary).skipped
                    &&& final(summary).bytes_repaired == if old(summary).bytes_repaired + bytes > u64::MAX {
                        u64::MAX as int
                    } else {
                        old(summary).bytes_repaired + bytes
                    }
                    &&& final(summary).failure_details@ == old(summary).failure_details@
                    &&& r.0.status == RepairLogStatus::Success && r.0.bytes == bytes
                    &&& r.0.chunk == Some(chunk as u32)
                    &&& r.0.missing_slots@ == missing_slots@.map_values(|s: usize| s as u32)
                    &&& r.0.error is None
                    &&& r.1 matches FailureAction::Clear(k) && k@ == failure_key@
                },
            },
            RepairOutcome::Failure { failure_key, error, message, chunk, manifest } => {
                &&& r.0.manifest@ == manifest@
                &&& final(summary).failure_details@.last().manifest@ == manifest@
                &&& final(summary).failure_details@.drop_last() == old(summary).failure_details@
                &&& final(summary).failures == old(summary).failures + 1
                &&& final(summary).attempts == old(summary).attempts + 1
                &&& final(summary).successes == old(summary).successes
                &&& final(summary).skipped == old(summary).skipped
                &&& final(summary).bytes_repaired == old(summary).bytes_repaired
                &&& final(summary).failure_details@.len() == old(summary).failure_details@.len() + 1
                &&& final(summary).failure_details@.last().error == error
                &&& final(summary).failure_details@.last().chunk == chunk
                &&& final(summary).failure_details@.last().message@ == message@
                &&& r.0.status == RepairLogStatus::Failure && r.0.bytes == 0
                &&& r.0.chunk == (match chunk {
                    Some(c) => Some(c as u32),
                    None => None,
                })
                &&& r.0.missing_slots@.len() == 0
                &&& r.0.error matches Some(e) && e@ == message@
                &&& match failure_key {
                    Some(k) => r.1 matches FailureAction::Bump(k2) && k2@ == k@,
                    None => r.1 is Keep,
                }
            },
            RepairOutcome::Skipped { reason, chunk, manifest } => {
                &&& r.0.manifest@ == manifest@
                &&& final(summary).skipped == old(summary).skipped + 1
                &&& final(summary).failures == old(summary).failures
                &&& final(summary).attempts == old(summary).attempts
                &&& final(summary).successes == old(summary).successes
                &&& final(summary).bytes_repaired == old(summary).bytes_repaired
                &&& final(summary).failure_details@ == old(summary).failure_details@
                &&& r.0.status == RepairLogStatus::Skipped && r.0.bytes == 0
                &&& r.0.chunk == Some(chunk as u32)
                &&& r.0.missing_slots@.len() == 0
                &&& r.1 is Keep
                &&& match reason {
                    SkipReason::Backoff { next_retry_at } => r.0.error matches Some(e) && e@ == "next_retry_at:"@
                        + ascii_chars(spec_signed_decimal(next_retry_at as int)),
                    SkipReason::AlgorithmLimited { algorithm, missing, parity_available } => r.0.error matches Some(
                        e,
                    ) && e@ == "algorithm_limited:"@ + algorithm@ + ":missing="@ + ascii_chars(
                        spec_decimal(missing as nat),
                    ) + ":parity="@ + ascii_chars(spec_decimal(parity_available as nat)),
                }
            },
        },
{
    match outcome {
        RepairOutcome::Success { manifest, chunk, bytes, writes: _, missing_slots, failure_key } => {
            let slots = slots_u32(&missing_slots);
            match db_error {
                Some(err) => {
                    summary.failures = summary.failures + 1;
                    summary.failure_details.push(
                        RepairFailure {
                            manifest: manifest.clone(),
                            chunk: Some(chunk),
                            error: RepairErrorKind::Database,
                            message: err.clone(),
                        },
                    );
                    let entry = RepairLogEntry {
                        timestamp,
                        manifest,
                        chunk: Some(chunk as u32),
                        status: RepairLogStatus::Failure,
                        bytes: 0,
                        missing_slots: slots,
                        error: Some(err),
                    };
                    (entry, FailureAction::Bump(failure_key))
                },
                None => {
                    summary.attempts = summary.attempts + 1;
                    summary.successes = summary.successes + 1;
                    summary.bytes_repaired = if summary.bytes_repaired > u64::MAX - bytes {
                        u64::MAX
                    } else {
                        summary.bytes_repaired + bytes
                    };
                    let entry = RepairLogEntry {
                        timestamp,
                        manifest,
                        chunk: Some(chunk as u32),
                        status: RepairLogStatus::Success,
                        bytes,
                        missing_slots: slots,
                        error: None,
                    };
                    (entry, FailureAction::Clear(failure_key))
                },
            }
        },
        RepairOutcome::Failure { manifest, chunk, failure_key, error, message } => {
            summary.failures = summary.failures + 1;
            summary.attempts = summary.attempts + 1;
            summary.failure_details.push(
                RepairFailure { manifest: manifest.clone(), chunk, error, message: message.clone() },
            );
            let entry = RepairLogEntry {
                timestamp,
                manifest,
                chunk: match chunk {
                    Some(c) => Some(c as u32),
                    None => None,
                },
                status: RepairLogStatus::Failure,
                bytes: 0,
                missing_slots: Vec::new(),
                error: Some(message),
            };
            let action = match failure_key {
                Some(k) => FailureAction::Bump(k),
                None => FailureAction::Keep,
            };
            (entry, action)
        },
        RepairOutcome::Skipped { manifest, chunk, reason } => {
            summary.skipped = summary.skipped + 1;
            let text = match reason {
                SkipReason::Backoff { next_retry_at } => {
                    let d = decimal_i64(next_retry_at);
                    concat("next_retry_at:", d.as_str())
                },
                SkipReason::AlgorithmLimited { algorithm, missing, parity_available } => {
                    let a = concat("algorithm_limited:", algorithm.as_str());
                    let b = concat(a.as_str(), ":missing=");
                    let c = with_number(b.as_str(), missing as u64);
                    let d = concat(c.as_str(), ":parity=");
                    with_number(d.as_str(), parity_available as u64)
                },
            };
            let entry = RepairLogEntry {
                timestamp,
                manifest,
                chunk: Some(chunk as u32),
                status: RepairLogStatus::Skipped,
                bytes: 0,
                missing_slots: Vec::new(),
                error: Some(text),
            };
            (entry, FailureAction::Keep)
        },
    }
}

} // verus!

verus! {

/// More failures never shorten the wait, and it stays between the base
/// and the cap.
pub proof fn lemma_backoff_monotone(a: u32, b: u32)
    requires
        a <= b,
    ensures
        spec_backoff_secs(a) <= spec_backoff_secs(b),
        FAILURE_BACKOFF_BASE_SECS <= spec_backoff_secs(a) <= FAILURE_BACKOFF_CAP_SECS,
{
    let ea: nat = if a == 0 { 0 } else if a - 1 > 31 { 31 } else { (a - 1) as nat };
    let eb: nat = if b == 0 { 0 } else if b - 1 > 31 { 31 } else { (b - 1) as nat };
    lemma_pow2_monotone(ea, eb);
    lemma_pow2_facts(ea);
    lemma_pow2_facts(eb);
}

} // verus!

verus! {

/// With exactly one absent data slot `j` among the first `k`, the count of
/// absent data slots below `k` is 1 once `k` passes `j`, else 0.
proof fn lemma_one_missing_data(blobs: Seq<Option<Seq<u8>>>, k: int, data: int, j: int)
    requires
        0 <= k <= blobs.len(),
        0 <= j < data,
        j < blobs.len(),
        blobs[j] is None,
        forall|i: int| 0 <= i < data && i < blobs.len() && i != j ==> blobs[i] is Some,
    ensures
        missing_data_count(blobs, k, data) == if k > j { 1nat } else { 0nat },
    decreases k,
{
    if k > 0 {
        lemma_one_missing_data(blobs, k - 1, data, j);
    }
}

/// A present parity slot below `k` makes the parity count positive.
proof fn lemma_parity_present(blobs: Seq<Option<Seq<u8>>>, k: int, data: int, total: int, p: int)
    requires
        0 <= k <= blobs.len(),
        data <= p < total,
        0 <= p < k,
        blobs[p] is Some,
    ensures
        parity_present_count(blobs, k, data, total) >= 1,
    decreases k,
{
    if k - 1 != p {
        lemma_parity_present(blobs, k - 1, data, total, p);
    }
}

/// No present parity slot below `k` when the parity count is 0.
proof fn lemma_no_parity(blobs: Seq<Option<Seq<u8>>>, k: int, data: int, total: int)
    requires
        0 <= k <= blobs.len(),
        parity_present_count(blobs, k, data, total) == 0,
    ensures
        forall|p: int| 0 <= p < k && data <= p < total ==> blobs[p] is None,
    decreases k,
{
    if k > 0 {
        lemma_no_parity(blobs, k - 1, data, total);
    }
}

/// Two absent data slots below `k` when the count of absent data slots is
/// at least 2.
proof fn lemma_two_missing_data(blobs: Seq<Option<Seq<u8>>>, k: int, data: int)
    requires
        0 <= k <= blobs.len(),
        missing_data_count(blobs, k, data) >= 2,
    ensures
        exists|i1: int, i2: int|
            0 <= i1 < i2 < k && i2 < data && blobs[i1] is None && blobs[i2] is None,
    decreases k,
{
    if missing_data_count(blobs, k - 1, data) >= 2 {
        lemma_two_missing_data(blobs, k - 1, data);
        let (i1, i2) = choose|i1: int, i2: int|
            0 <= i1 < i2 < k - 1 && i2 < data && blobs[i1] is None && blobs[i2] is None;
        assert(0 <= i1 < i2 < k && i2 < data && blobs[i1] is None && blobs[i2] is None);
    } else {
        assert(blobs[k - 1] is None && k - 1 < data);
        assert(missing_data_count(blobs, k - 1, data) >= 1);
        lemma_one_absent(blobs, k - 1, data);
        let i1 = choose|i1: int| 0 <= i1 < k - 1 && i1 < data && blobs[i1] is None;
        assert(0 <= i1 < k - 1 < k && k - 1 < data && blobs[i1] is None && blobs[k - 1] is None);
    }
}

/// An absent data slot below `k` when the count is positive.
proof fn lemma_one_absent(blobs: Seq<Option<Seq<u8>>>, k: int, data: int)
    requires
        0 <= k <= blobs.len(),
        missing_data_count(blobs, k, data) >= 1,
    ensures
        exists|i: int| 0 <= i < k && i < data && blobs[i] is None,
    decreases k,
{
    if missing_data_count(blobs, k - 1, data) >= 1 {
        lemma_one_absent(blobs, k - 1, data);
        let i = choose|i: int| 0 <= i < k - 1 && i < data && blobs[i] is None;
        assert(0 <= i < k && i < data && blobs[i] is None);
    } else {
        assert(0 <= k - 1 < k && k - 1 < data && blobs[k - 1] is None);
    }
}

/// The absent slots below `k` are listed exactly.
proof fn lemma_missing_slots_exact(blobs: Seq<Option<Seq<u8>>>, k: int)
    requires
        0 <= k <= blobs.len(),
        blobs.len() <= usize::MAX,
    ensures
        forall|i: int| 0 <= i < k ==> (blobs[i] is None <==> missing_slots(blobs, k).contains(i as usize)),
        forall|t: int| 0 <= t < missing_slots(blobs, k).len() ==> (#[trigger] missing_slots(blobs, k)[t]) < k,
    decreases k,
{
    if k > 0 {
        lemma_missing_slots_exact(blobs, k - 1);
        let prev = missing_slots(blobs, k - 1);
        assert forall|i: int| 0 <= i < k implies (blobs[i] is None <==> missing_slots(blobs, k).contains(i as usize)) by {
            assert(missing_slots(blobs, k) == if blobs[k - 1] is None { prev.push((k - 1) as usize) } else { prev });
            if blobs[k - 1] is None {
                let cur = prev.push((k - 1) as usize);
                assert(cur[prev.len() as int] == (k - 1) as usize);
                if i == k - 1 {
                    assert(cur.contains(i as usize));
                }
                if i < k - 1 {
                    if prev.contains(i as usize) {
                        let t = choose|t: int| 0 <= t < prev.len() && prev[t] == i as usize;
                        assert(cur[t] == i as usize);
                    }
                    if cur.contains(i as usize) {
                        let t = choose|t: int| 0 <= t < cur.len() && cur[t] == i as usize;
                        if t < prev.len() {
                            assert(prev[t] == i as usize);
                        }
                    }
                }
            } else {
                if i == k - 1 && prev.contains(i as usize) {
                    let t = choose|t: int| 0 <= t < prev.len() && prev[t] == i as usize;
                    assert(prev[t] < k - 1);
                }
            }
        }
    }
}

/// With the XOR coder, a chunk that is not filtered out, not backing off and
/// not corrupt, with exactly one absent data shard and at least one parity
/// shard present, is planned as a repair of exactly its absent slots (given
/// a known cipher length) and never as limited by the algorithm.
pub proof fn law_xor_rebuilds_one_missing_data_shard(
    request: RepairRequest,
    chunk_idx: usize,
    record: Option<FailureRecord>,
    now: i64,
    ids: Seq<Seq<u8>>,
    blobs: Seq<Option<Seq<u8>>>,
    data: int,
    total_rs: int,
    expected_cipher: int,
    j: int,
    p: int,
)
    requires
        request.chunk matches Some(f) ==> f == chunk_idx,
        request.force || !(record matches Some(rec) && now < rec.next_retry_at),
        forall|s: int| 0 <= s < blobs.len() ==> !slot_corrupt(ids, blobs, s),
        0 <= j < data,
        j < blobs.len(),
        blobs[j] is None,
        forall|i: int| 0 <= i < data && i < blobs.len() && i != j ==> blobs[i] is Some,
        data <= p < total_rs,
        p < blobs.len(),
        blobs[p] is Some,
        expected_cipher > 0,
        blobs.len() <= usize::MAX,
    ensures
        spec_plan_chunk(request, chunk_idx, record, now, ids, blobs, data, total_rs, true, expected_cipher) matches
            ChunkPlanView::Repair { missing_slots, expected_cipher: e } && e == expected_cipher as usize && (forall|
            i: int|
            0 <= i < blobs.len() ==> (blobs[i] is None <==> missing_slots.contains(i as usize))),
{
    let n = blobs.len() as int;
    lemma_one_missing_data(blobs, n, data, j);
    lemma_parity_present(blobs, n, data, total_rs, p);
    lemma_missing_slots_exact(blobs, n);
    assert(missing_slots(blobs, n).contains(j as usize));
    assert(missing_slots(blobs, n).len() > 0);
}

/// With the XOR coder, a chunk is reported as limited by the algorithm only
/// when two data shards are absent or no parity shard is present.
pub proof fn law_xor_limited_only_when_unrecoverable(
    request: RepairRequest,
    chunk_idx: usize,
    record: Option<FailureRecord>,
    now: i64,
    ids: Seq<Seq<u8>>,
    blobs: Seq<Option<Seq<u8>>>,
    data: int,
    total_rs: int,
    expected_cipher: int,
)
    requires
        spec_plan_chunk(request, chunk_idx, record, now, ids, blobs, data, total_rs, true, expected_cipher) is AlgorithmLimited,
    ensures
        (exists|i1: int, i2: int|
            0 <= i1 < i2 < blobs.len() && i2 < data && blobs[i1] is None && blobs[i2] is None) || (forall|q: int|
            0 <= q < blobs.len() && data <= q < total_rs ==> blobs[q] is None),
{
    let n = blobs.len() as int;
    if missing_data_count(blobs, n, data) > 1 {
        lemma_two_missing_data(blobs, n, data);
    } else {
        lemma_no_parity(blobs, n, data, total_rs);
    }
}

/// A request for one chunk leaves every other chunk alone, and without
/// `force` a chunk whose failure record is still backing off is not
/// touched before its retry time.
pub proof fn law_filter_and_backoff(
    request: RepairRequest,
    chunk_idx: usize,
    record: Option<FailureRecord>,
    now: i64,
    ids: Seq<Seq<u8>>,
    blobs: Seq<Option<Seq<u8>>>,
    data: int,
    total_rs: int,
    is_xor: bool,
    expected_cipher: int,
)
    ensures
        (request.chunk matches Some(f) && f != chunk_idx) ==> spec_plan_chunk(
            request,
            chunk_idx,
            record,
            now,
            ids,
            blobs,
            data,
            total_rs,
            is_xor,
            expected_cipher,
        ) == ChunkPlanView::Filtered,
        (request.chunk is None || request.chunk == Some(chunk_idx)) && !request.force && (record matches Some(
            rec,
        ) && now < rec.next_retry_at) ==> spec_plan_chunk(
            request,
            chunk_idx,
            record,
            now,
            ids,
            blobs,
            data,
            total_rs,
            is_xor,
            expected_cipher,
        ) == (ChunkPlanView::Backoff { next_retry_at: record->Some_0.next_retry_at }),
{
}

} // verus!
