//! Receipt metrics: receipts per block by market, settlement totals and
//! per-shard usage.

use vstd::prelude::*;
use std::collections::HashMap;

verus! {

broadcast use vstd::std_specs::hash::group_hash_axioms;

/// The market a receipt settles.
#[derive(Clone, Copy, Debug, PartialEq, Eq, Structural)]
pub enum ReceiptKind {
    Storage,
    Compute,
    ComputeSlash,
    Energy,
    EnergySlash,
    Ad,
}

/// What a block's receipt metrics read of one receipt: its market and the
/// amount it settles.
#[derive(Clone, Copy, Debug, PartialEq, Eq, Structural)]
pub struct ReceiptEntry {
    pub kind: ReceiptKind,
    pub settlement: u64,
}

/// Receipt usage of one shard within a block.
#[derive(Clone, Copy, Debug, PartialEq, Eq, Structural)]
pub struct ReceiptBlockUsage {
    pub count: u64,
    pub bytes: u64,
    pub verify_units: u64,
}

/// The groups that receipts are counted in; a compute slash counts as
/// compute too, an energy slash as energy.
#[derive(Clone, Copy, Debug, PartialEq, Eq, Structural)]
pub enum ReceiptGroup {
    Storage,
    Compute,
    ComputeSlash,
    Energy,
    EnergySlash,
    Ad,
}

pub open spec fn in_group(k: ReceiptKind, g: ReceiptGroup) -> bool {
    match g {
        ReceiptGroup::Storage => k == ReceiptKind::Storage,
        ReceiptGroup::Compute => k == ReceiptKind::Compute || k == ReceiptKind::ComputeSlash,
        ReceiptGroup::ComputeSlash => k == ReceiptKind::ComputeSlash,
        ReceiptGroup::Energy => k == ReceiptKind::Energy || k == ReceiptKind::EnergySlash,
        ReceiptGroup::EnergySlash => k == ReceiptKind::EnergySlash,
        ReceiptGroup::Ad => k == ReceiptKind::Ad,
    }
}

/// Number of receipts of a group.
pub open spec fn group_count(rs: Seq<ReceiptEntry>, g: ReceiptGroup) -> nat
    decreases rs.len(),
{
    if rs.len() == 0 {
        0
    } else {
        group_count(rs.drop_last(), g) + if in_group(rs.last().kind, g) { 1nat } else { 0nat }
    }
}

/// Total settled by the receipts of a group.
pub open spec fn group_settlement(rs: Seq<ReceiptEntry>, g: ReceiptGroup) -> nat
    decreases rs.len(),
{
    if rs.len() == 0 {
        0
    } else {
        group_settlement(rs.drop_last(), g) + if in_group(rs.last().kind, g) {
            rs.last().settlement as nat
        } else {
            0nat
        }
    }
}

/// Per-group values of the last recorded block.
#[derive(Clone, Copy, Debug, PartialEq, Eq, Structural)]
pub struct GroupTally {
    pub storage: u64,
    pub compute: u64,
    pub compute_slash: u64,
    pub energy: u64,
    pub energy_slash: u64,
    pub ad: u64,
}

/// Per-group settlement totals of the last recorded block.
#[derive(Clone, Copy, Debug, PartialEq, Eq, Structural)]
pub struct GroupSettlement {
    pub storage: u128,
    pub compute: u128,
    pub compute_slash: u128,
    pub energy: u128,
    pub energy_slash: u128,
    pub ad: u128,
}

impl GroupTally {
    pub open spec fn get(&self, g: ReceiptGroup) -> u64 {
        match g {
            ReceiptGroup::Storage => self.storage,
            ReceiptGroup::Compute => self.compute,
            ReceiptGroup::ComputeSlash => self.compute_slash,
            ReceiptGroup::Energy => self.energy,
            ReceiptGroup::EnergySlash => self.energy_slash,
            ReceiptGroup::Ad => self.ad,
        }
    }
}

impl GroupSettlement {
    pub open spec fn get(&self, g: ReceiptGroup) -> u128 {
        match g {
            ReceiptGroup::Storage => self.storage,
            ReceiptGroup::Compute => self.compute,
            ReceiptGroup::ComputeSlash => self.compute_slash,
            ReceiptGroup::Energy => self.energy,
            ReceiptGroup::EnergySlash => self.energy_slash,
            ReceiptGroup::Ad => self.ad,
        }
    }
}

/// The receipt metric values.
pub struct ReceiptMetrics {
    /// Receipts counted across all blocks, by group.
    pub totals: GroupTally,
    /// Receipts in the last block.
    pub receipts_per_block: u64,
    /// Serialized receipt bytes in the last block.
    pub bytes_per_block: u64,
    /// Receipts in the last block, by group.
    pub per_block: GroupTally,
    /// Amount settled in the last block, by group.
    pub settlement: GroupSettlement,
    /// Receipt usage by shard.
    pub shard_usage: HashMap<u16, ReceiptBlockUsage>,
    /// Depth of the receipt drain queue.
    pub drain_depth: u64,
    /// Depth of the SLA breach queue.
    pub sla_breach_depth: u64,
    /// Allocation minus free count of the orchard allocator.
    pub orchard_alloc_free_delta: i64,
    /// Commit of the benchmark that produced the blocktorch kernel.
    pub blocktorch_benchmark_commit: Option<String>,
    /// Epoch of the blocktorch tensor profile.
    pub blocktorch_tensor_profile_epoch: Option<String>,
    /// Observations of metrics derivation time.
    pub derivation_count: u64,
    /// Sum of observed metrics derivation times in milliseconds.
    pub derivation_total_ms: u128,
}

impl ReceiptMetrics {
    /// No block recorded yet.
    pub fn new() -> (m: Self)
        ensures
            m.totals == (GroupTally { storage: 0, compute: 0, compute_slash: 0, energy: 0, energy_slash: 0, ad: 0 }),
            m.shard_usage@ == Map::<u16, ReceiptBlockUsage>::empty(),
            m.derivation_count == 0 && m.derivation_total_ms == 0,
    {
        let zero = GroupTally { storage: 0, compute: 0, compute_slash: 0, energy: 0, energy_slash: 0, ad: 0 };
        ReceiptMetrics {
            totals: zero,
            receipts_per_block: 0,
            bytes_per_block: 0,
            per_block: zero,
            settlement: GroupSettlement {
                storage: 0,
                compute: 0,
                compute_slash: 0,
                energy: 0,
                energy_slash: 0,
                ad: 0,
            },
            shard_usage: HashMap::new(),
            drain_depth: 0,
            sla_breach_depth: 0,
            orchard_alloc_free_delta: 0,
            blocktorch_benchmark_commit: None,
            blocktorch_tensor_profile_epoch: None,
            derivation_count: 0,
            derivation_total_ms: 0,
        }
    }
}

proof fn lemma_group_bounds(rs: Seq<ReceiptEntry>, g: ReceiptGroup)
    ensures
        group_count(rs, g) <= rs.len(),
        group_settlement(rs, g) <= rs.len() * (u64::MAX as nat),
    decreases rs.len(),
{
    if rs.len() > 0 {
        lemma_group_bounds(rs.drop_last(), g);
        assert(group_settlement(rs, g) <= rs.len() * (u64::MAX as nat)) by (nonlinear_arith)
            requires
                group_settlement(rs, g) <= group_settlement(rs.drop_last(), g) + u64::MAX,
                group_settlement(rs.drop_last(), g) <= rs.drop_last().len() * (u64::MAX as nat),
                rs.drop_last().len() + 1 == rs.len(),
        ;
    }
}

fn tally_receipts(receipts: &[ReceiptEntry]) -> (r: (GroupTally, GroupSettlement))
    ensures
        forall|g: ReceiptGroup|
            r.0.get(g) == group_count(receipts@, g) && r.1.get(g) == group_settlement(receipts@, g),
{
    let mut c = GroupTally { storage: 0, compute: 0, compute_slash: 0, energy: 0, energy_slash: 0, ad: 0 };
    let mut s = GroupSettlement { storage: 0, compute: 0, compute_slash: 0, energy: 0, energy_slash: 0, ad: 0 };
    let mut i: usize = 0;
    while i < receipts.len()
        invariant
            i <= receipts@.len(),
            forall|g: ReceiptGroup|
                c.get(g) == group_count(receipts@.take(i as int), g) && s.get(g) == group_settlement(
                    receipts@.take(i as int),
                    g,
                ),
        decreases receipts@.len() - i,
    {
        let r = receipts[i];
        let ghost pre = receipts@.take(i as int);
        let ghost post = receipts@.take(i + 1);
        proof {
            assert(post.drop_last() =~= pre);
            assert(post.last() == r);
            assert forall|g: ReceiptGroup| group_count(pre, g) <= i && group_settlement(pre, g) <= i * (
            u64::MAX as nat) by {
                lemma_group_bounds(pre, g);
            }
            assert(i * (u64::MAX as nat) + u64::MAX <= u128::MAX) by (nonlinear_arith)
                requires
                    i <= usize::MAX,
            ;
            assert(c.get(ReceiptGroup::Storage) <= i && s.get(ReceiptGroup::Storage) <= i * (u64::MAX as nat));
            assert(c.get(ReceiptGroup::Compute) <= i && s.get(ReceiptGroup::Compute) <= i * (u64::MAX as nat));
            assert(c.get(ReceiptGroup::ComputeSlash) <= i && s.get(ReceiptGroup::ComputeSlash) <= i * (
            u64::MAX as nat));
            assert(c.get(ReceiptGroup::Energy) <= i && s.get(ReceiptGroup::Energy) <= i * (u64::MAX as nat));
            assert(c.get(ReceiptGroup::EnergySlash) <= i && s.get(ReceiptGroup::EnergySlash) <= i * (
            u64::MAX as nat));
            assert(c.get(ReceiptGroup::Ad) <= i && s.get(ReceiptGroup::Ad) <= i * (u64::MAX as nat));
        }
        match r.kind {
            ReceiptKind::Storage => {
                c.storage = c.storage + 1;
                s.storage = s.storage + r.settlement as u128;
            },
            ReceiptKind::Compute => {
                c.compute = c.compute + 1;
                s.compute = s.compute + r.settlement as u128;
            },
            ReceiptKind::ComputeSlash => {
                c.compute = c.compute + 1;
                s.compute = s.compute + r.settlement as u128;
                c.compute_slash = c.compute_slash + 1;
                s.compute_slash = s.compute_slash + r.settlement as u128;
            },
            ReceiptKind::Energy => {
                c.energy = c.energy + 1;
                s.energy = s.energy + r.settlement as u128;
            },
            ReceiptKind::EnergySlash => {
                c.energy = c.energy + 1;
                s.energy = s.energy + r.settlement as u128;
                c.energy_slash = c.energy_slash + 1;
                s.energy_slash = s.energy_slash + r.settlement as u128;
            },
            ReceiptKind::Ad => {
                c.ad = c.ad + 1;
                s.ad = s.ad + r.settlement as u128;
            },
        }
        i = i + 1;
    }
    assert(receipts@.take(receipts@.len() as int) =~= receipts@);
    (c, s)
}

/// Records the receipts of a block: the per-block gauges are set to this
/// block's counts and settlements, and the running totals grow by its
/// counts.
pub fn record_receipts(m: &mut ReceiptMetrics, receipts: &[ReceiptEntry], serialized_bytes: usize)
    ensures
        final(m).receipts_per_block == receipts@.len() as u64,
        final(m).bytes_per_block == serialized_bytes as u64,
        forall|g: ReceiptGroup|
            final(m).per_block.get(g) == group_count(receipts@, g) && final(m).settlement.get(g)
                == group_settlement(receipts@, g) && final(m).totals.get(g)
                == vstd::wrapping::u64_specs::wrapping_add(old(m).totals.get(g), group_count(receipts@, g) as u64),
        *final(m) == (ReceiptMetrics {
            totals: final(m).totals,
            receipts_per_block: final(m).receipts_per_block,
            bytes_per_block: final(m).bytes_per_block,
            per_block: final(m).per_block,
            settlement: final(m).settlement,
            ..*old(m)
        }),
{
    let (c, s) = tally_receipts(receipts);
    m.receipts_per_block = receipts.len() as u64;
    m.bytes_per_block = serialized_bytes as u64;
    m.totals = GroupTally {
        storage: m.totals.storage.wrapping_add(c.storage),
        compute: m.totals.compute.wrapping_add(c.compute),
        compute_slash: m.totals.compute_slash.wrapping_add(c.compute_slash),
        energy: m.totals.energy.wrapping_add(c.energy),
        energy_slash: m.totals.energy_slash.wrapping_add(c.energy_slash),
        ad: m.totals.ad.wrapping_add(c.ad),
    };
    m.per_block = c;
    m.settlement = s;
}

/// Sets the usage gauges of one shard.
pub fn record_shard_usage(m: &mut ReceiptMetrics, shard: u16, usage: &ReceiptBlockUsage)
    ensures
        final(m).shard_usage@ == old(m).shard_usage@.insert(shard, *usage),
        *final(m) == (ReceiptMetrics { shard_usage: final(m).shard_usage, ..*old(m) }),
{
    m.shard_usage.insert(shard, *usage);
}

/// Sets the receipt drain depth gauge.
pub fn set_receipt_drain_depth(m: &mut ReceiptMetrics, value: usize)
    ensures
        *final(m) == (ReceiptMetrics { drain_depth: value as u64, ..*old(m) }),
{
    m.drain_depth = value as u64;
}

/// Sets the SLA breach depth gauge.
pub fn set_sla_breach_depth(m: &mut ReceiptMetrics, value: usize)
    ensures
        *final(m) == (ReceiptMetrics { sla_breach_depth: value as u64, ..*old(m) }),
{
    m.sla_breach_depth = value as u64;
}

/// Sets the orchard allocation/free delta gauge.
pub fn set_orchard_alloc_free_delta(m: &mut ReceiptMetrics, delta: i64)
    ensures
        *final(m) == (ReceiptMetrics { orchard_alloc_free_delta: delta, ..*old(m) }),
{
    m.orchard_alloc_free_delta = delta;
}

fn owned(v: Option<&str>) -> (r: Option<String>)
    ensures
        match v {
            Some(s) => r matches Some(t) && t@ == s@,
            None => r is None,
        },
{
    match v {
        Some(s) => Some(s.to_owned()),
        None => None,
    }
}

/// Records the commit of the blocktorch benchmark (none clears it).
pub fn set_blocktorch_benchmark_commit(m: &mut ReceiptMetrics, commit: Option<&str>)
    ensures
        match commit {
            Some(s) => final(m).blocktorch_benchmark_commit matches Some(t) && t@ == s@,
            None => final(m).blocktorch_benchmark_commit is None,
        },
        *final(m) == (ReceiptMetrics { blocktorch_benchmark_commit: final(m).blocktorch_benchmark_commit, ..*old(m) }),
{
    m.blocktorch_benchmark_commit = owned(commit);
}

/// Records the epoch of the blocktorch tensor profile (none clears it).
pub fn set_blocktorch_tensor_profile_epoch(m: &mut ReceiptMetrics, epoch: Option<&str>)
    ensures
        match epoch {
            Some(s) => final(m).blocktorch_tensor_profile_epoch matches Some(t) && t@ == s@,
            None => final(m).blocktorch_tensor_profile_epoch is None,
        },
        *final(m) == (ReceiptMetrics {
            blocktorch_tensor_profile_epoch: final(m).blocktorch_tensor_profile_epoch,
            ..*old(m)
        }),
{
    m.blocktorch_tensor_profile_epoch = owned(epoch);
}

/// Observes one metrics derivation time.
pub fn record_metrics_derivation_time_ms(m: &mut ReceiptMetrics, duration_ms: u64)
    ensures
        final(m).derivation_count == vstd::wrapping::u64_specs::wrapping_add(old(m).derivation_count, 1),
        final(m).derivation_total_ms == vstd::wrapping::u128_specs::wrapping_add(
            old(m).derivation_total_ms,
            duration_ms as u128,
        ),
        *final(m) == (ReceiptMetrics {
            derivation_count: final(m).derivation_count,
            derivation_total_ms: final(m).derivation_total_ms,
            ..*old(m)
        }),
{
    m.derivation_count = m.derivation_count.wrapping_add(1);
    m.derivation_total_ms = m.derivation_total_ms.wrapping_add(duration_ms as u128);
}

} // verus!
