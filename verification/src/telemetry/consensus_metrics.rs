//! Consensus health metrics and the helpers that update them.

use vstd::prelude::*;

verus! {

/// Consensus health gauges and counters.
#[derive(Debug, Clone, Copy, PartialEq, Eq)]
pub struct ConsensusMetrics {
    /// Current block height (chain tip).
    pub block_height: i64,
    /// Number of active connected peers.
    pub active_peers: i64,
    /// Number of transactions in the mempool.
    pub mempool_size: i64,
    /// Transactions per second.
    pub transactions_per_second: i64,
    /// Blocks between chain tip and finalized height.
    pub finality_lag: i64,
    /// Fork detection events.
    pub forks_detected: u64,
    /// Network partition events.
    pub network_partitions: u64,
    /// Consensus stall events.
    pub consensus_stalls: u64,
    /// Orphaned blocks.
    pub orphaned_blocks: u64,
    /// Failed receipt validations.
    pub receipt_validation_failures: u64,
    /// Failed storage proof validations.
    pub storage_proof_validation_failures: u64,
}

/// Counter increment (counters wrap like the 64-bit atomics behind them).
pub open spec fn bump(c: u64) -> u64 {
    vstd::wrapping::u64_specs::wrapping_add(c, 1)
}

impl ConsensusMetrics {
    /// All metrics at zero.
    pub fn new() -> (m: Self)
        ensures
            m == (ConsensusMetrics {
                block_height: 0,
                active_peers: 0,
                mempool_size: 0,
                transactions_per_second: 0,
                finality_lag: 0,
                forks_detected: 0,
                network_partitions: 0,
                consensus_stalls: 0,
                orphaned_blocks: 0,
                receipt_validation_failures: 0,
                storage_proof_validation_failures: 0,
            }),
    {
        ConsensusMetrics {
            block_height: 0,
            active_peers: 0,
            mempool_size: 0,
            transactions_per_second: 0,
            finality_lag: 0,
            forks_detected: 0,
            network_partitions: 0,
            consensus_stalls: 0,
            orphaned_blocks: 0,
            receipt_validation_failures: 0,
            storage_proof_validation_failures: 0,
        }
    }
}

/// Updates the block height gauge.
pub fn set_block_height(m: &mut ConsensusMetrics, height: u64)
    ensures
        *final(m) == (ConsensusMetrics { block_height: height as i64, ..*old(m) }),
{
    m.block_height = height as i64;
}

/// Updates the active peer count.
pub fn set_peer_count(m: &mut ConsensusMetrics, count: usize)
    ensures
        *final(m) == (ConsensusMetrics { active_peers: count as i64, ..*old(m) }),
{
    m.active_peers = count as i64;
}

/// Updates the mempool size.
pub fn set_mempool_size(m: &mut ConsensusMetrics, size: usize)
    ensures
        *final(m) == (ConsensusMetrics { mempool_size: size as i64, ..*old(m) }),
{
    m.mempool_size = size as i64;
}

/// Records a fork detection.
pub fn record_fork_detected(m: &mut ConsensusMetrics)
    ensures
        *final(m) == (ConsensusMetrics { forks_detected: bump(old(m).forks_detected), ..*old(m) }),
{
    m.forks_detected = m.forks_detected.wrapping_add(1);
}

/// Updates transactions per second.
pub fn set_tps(m: &mut ConsensusMetrics, transactions_per_sec: u64)
    ensures
        *final(m) == (ConsensusMetrics { transactions_per_second: transactions_per_sec as i64, ..*old(m) }),
{
    m.transactions_per_second = transactions_per_sec as i64;
}

/// Updates the finality lag.
pub fn set_finality_lag(m: &mut ConsensusMetrics, blocks_behind: u64)
    ensures
        *final(m) == (ConsensusMetrics { finality_lag: blocks_behind as i64, ..*old(m) }),
{
    m.finality_lag = blocks_behind as i64;
}

/// Records a network partition detection.
pub fn record_network_partition(m: &mut ConsensusMetrics)
    ensures
        *final(m) == (ConsensusMetrics { network_partitions: bump(old(m).network_partitions), ..*old(m) }),
{
    m.network_partitions = m.network_partitions.wrapping_add(1);
}

/// Records a consensus stall.
pub fn record_consensus_stall(m: &mut ConsensusMetrics)
    ensures
        *final(m) == (ConsensusMetrics { consensus_stalls: bump(old(m).consensus_stalls), ..*old(m) }),
{
    m.consensus_stalls = m.consensus_stalls.wrapping_add(1);
}

/// Records an orphaned block.
pub fn record_orphaned_block(m: &mut ConsensusMetrics)
    ensures
        *final(m) == (ConsensusMetrics { orphaned_blocks: bump(old(m).orphaned_blocks), ..*old(m) }),
{
    m.orphaned_blocks = m.orphaned_blocks.wrapping_add(1);
}

/// Records a failed receipt validation.
pub fn record_receipt_validation_failure(m: &mut ConsensusMetrics)
    ensures
        *final(m) == (ConsensusMetrics {
            receipt_validation_failures: bump(old(m).receipt_validation_failures),
            ..*old(m)
        }),
{
    m.receipt_validation_failures = m.receipt_validation_failures.wrapping_add(1);
}

/// Records a failed storage proof validation.
pub fn record_storage_proof_validation_failure(m: &mut ConsensusMetrics)
    ensures
        *final(m) == (ConsensusMetrics {
            storage_proof_validation_failures: bump(old(m).storage_proof_validation_failures),
            ..*old(m)
        }),
{
    m.storage_proof_validation_failures = m.storage_proof_validation_failures.wrapping_add(1);
}

} // verus!
