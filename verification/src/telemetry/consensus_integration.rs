//! The consensus integration layer: block bookkeeping that drives the
//! consensus metrics.

use vstd::prelude::*;
use crate::telemetry::consensus_metrics::{
    bump, record_consensus_stall, record_fork_detected, record_network_partition,
    record_orphaned_block, set_block_height, set_finality_lag, set_mempool_size, set_tps,
    ConsensusMetrics,
};

verus! {

/// Seconds without a block after which consensus counts as stalled.
pub const STALL_THRESHOLD_SECS: u64 = 120;

/// Tracks the last applied block for metric updates and stall detection.
pub struct ConsensusStateTracker {
    last_block_time: u64,
    last_block_height: u64,
    stall_threshold_secs: u64,
}

/// The metrics after a block at `height` with `tx_count` transactions (one of
/// them the system transaction) and the given finalized height was applied at
/// `now_secs`, the previous block having been applied at `last_time`.
pub open spec fn spec_block_applied(
    m: ConsensusMetrics,
    height: u64,
    tx_count: usize,
    finalized_height: u64,
    now_secs: u64,
    last_time: u64,
    threshold: u64,
) -> ConsensusMetrics {
    let user_txs = if tx_count >= 1 { (tx_count - 1) as u64 } else { 0u64 };
    let m1 = ConsensusMetrics {
        block_height: height as i64,
        transactions_per_second: user_txs as i64,
        ..m
    };
    let m2 = if height >= finalized_height {
        ConsensusMetrics { finality_lag: (height - finalized_height) as u64 as i64, ..m1 }
    } else {
        m1
    };
    if last_time > 0 && now_secs > last_time && now_secs - last_time > threshold {
        ConsensusMetrics { consensus_stalls: bump(m2.consensus_stalls), ..m2 }
    } else {
        m2
    }
}

impl ConsensusStateTracker {
    /// The last applied height.
    pub closed spec fn spec_height(&self) -> u64 {
        self.last_block_height
    }

    /// The time of the last applied block.
    pub closed spec fn spec_time(&self) -> u64 {
        self.last_block_time
    }

    /// The stall threshold in seconds.
    pub closed spec fn spec_threshold(&self) -> u64 {
        self.stall_threshold_secs
    }

    /// A tracker with no block seen and a 2-minute stall threshold.
    pub fn new() -> (t: Self)
        ensures
            t.spec_height() == 0,
            t.spec_time() == 0,
            t.spec_threshold() == STALL_THRESHOLD_SECS,
    {
        ConsensusStateTracker { last_block_time: 0, last_block_height: 0, stall_threshold_secs: STALL_THRESHOLD_SECS }
    }

    /// Records a block applied at `now_secs`: updates height, throughput
    /// (excluding the system transaction) and finality lag, and counts a stall
    /// when more than the threshold passed since the previous block.
    pub fn record_block_applied(
        &mut self,
        metrics: &mut ConsensusMetrics,
        height: u64,
        tx_count: usize,
        finalized_height: u64,
        now_secs: u64,
    )
        ensures
            final(self).spec_height() == height,
            final(self).spec_time() == now_secs,
            final(self).spec_threshold() == old(self).spec_threshold(),
            *final(metrics) == spec_block_applied(
                *old(metrics),
                height,
                tx_count,
                finalized_height,
                now_secs,
                old(self).spec_time(),
                old(self).spec_threshold(),
            ),
    {
        set_block_height(metrics, height);
        let user_txs = if tx_count >= 1 { tx_count - 1 } else { 0 };
        set_tps(metrics, user_txs as u64);
        if height >= finalized_height {
            set_finality_lag(metrics, height - finalized_height);
        }
        let last_time = self.last_block_time;
        self.last_block_time = now_secs;
        self.last_block_height = height;
        if last_time > 0 && now_secs > last_time {
            let elapsed = now_secs - last_time;
            if elapsed > self.stall_threshold_secs {
                record_consensus_stall(metrics);
            }
        }
    }

    /// Updates the mempool gauge.
    pub fn update_mempool_metrics(&self, metrics: &mut ConsensusMetrics, pending_tx_count: usize)
        ensures
            *final(metrics) == (ConsensusMetrics { mempool_size: pending_tx_count as i64, ..*old(metrics) }),
    {
        set_mempool_size(metrics, pending_tx_count);
    }

    /// Records a fork detection.
    pub fn record_fork(&self, metrics: &mut ConsensusMetrics)
        ensures
            *final(metrics) == (ConsensusMetrics { forks_detected: bump(old(metrics).forks_detected), ..*old(metrics) }),
    {
        record_fork_detected(metrics);
    }

    /// Records an orphaned block.
    pub fn record_orphan(&self, metrics: &mut ConsensusMetrics)
        ensures
            *final(metrics) == (ConsensusMetrics { orphaned_blocks: bump(old(metrics).orphaned_blocks), ..*old(metrics) }),
    {
        record_orphaned_block(metrics);
    }

    /// Records a network partition.
    pub fn record_partition(&self, metrics: &mut ConsensusMetrics)
        ensures
            *final(metrics) == (ConsensusMetrics {
                network_partitions: bump(old(metrics).network_partitions),
                ..*old(metrics)
            }),
    {
        record_network_partition(metrics);
    }

    /// The last applied height.
    pub fn current_height(&self) -> (h: u64)
        ensures
            h == self.spec_height(),
    {
        self.last_block_height
    }

    /// The time of the last applied block.
    pub fn current_time(&self) -> (t: u64)
        ensures
            t == self.spec_time(),
    {
        self.last_block_time
    }
}

/// Accumulates block statistics to publish them in one flush.
pub struct MetricBatcher {
    blocks_applied: u64,
    total_txs: u64,
    max_finality_lag: u64,
    forks_detected: u64,
    orphans_detected: u64,
}

impl MetricBatcher {
    /// Blocks added.
    pub closed spec fn spec_blocks(&self) -> u64 {
        self.blocks_applied
    }

    /// Transactions added.
    pub closed spec fn spec_txs(&self) -> u64 {
        self.total_txs
    }

    /// Largest finality lag added.
    pub closed spec fn spec_max_lag(&self) -> u64 {
        self.max_finality_lag
    }

    /// Forks added.
    pub closed spec fn spec_forks(&self) -> u64 {
        self.forks_detected
    }

    /// Orphans added.
    pub closed spec fn spec_orphans(&self) -> u64 {
        self.orphans_detected
    }

    /// An empty batch.
    pub fn new() -> (b: Self)
        ensures
            b.spec_blocks() == 0,
            b.spec_txs() == 0,
            b.spec_max_lag() == 0,
            b.spec_forks() == 0,
            b.spec_orphans() == 0,
    {
        MetricBatcher { blocks_applied: 0, total_txs: 0, max_finality_lag: 0, forks_detected: 0, orphans_detected: 0 }
    }

    /// Adds a block with `tx_count` transactions and the given finality lag.
    pub fn add_block(&mut self, tx_count: usize, finality_lag: u64)
        requires
            old(self).spec_blocks() < u64::MAX,
            old(self).spec_txs() + tx_count <= u64::MAX,
        ensures
            final(self).spec_blocks() == old(self).spec_blocks() + 1,
            final(self).spec_txs() == old(self).spec_txs() + tx_count,
            final(self).spec_max_lag() == if finality_lag > old(self).spec_max_lag() {
                finality_lag
            } else {
                old(self).spec_max_lag()
            },
            final(self).spec_forks() == old(self).spec_forks(),
            final(self).spec_orphans() == old(self).spec_orphans(),
    {
        self.blocks_applied = self.blocks_applied + 1;
        self.total_txs = self.total_txs + tx_count as u64;
        if finality_lag > self.max_finality_lag {
            self.max_finality_lag = finality_lag;
        }
    }

    /// Adds a fork.
    pub fn add_fork(&mut self)
        requires
            old(self).spec_forks() < u64::MAX,
        ensures
            final(self).spec_forks() == old(self).spec_forks() + 1,
            final(self).spec_blocks() == old(self).spec_blocks(),
            final(self).spec_txs() == old(self).spec_txs(),
            final(self).spec_max_lag() == old(self).spec_max_lag(),
            final(self).spec_orphans() == old(self).spec_orphans(),
    {
        self.forks_detected = self.forks_detected + 1;
    }

    /// Adds an orphan.
    pub fn add_orphan(&mut self)
        requires
            old(self).spec_orphans() < u64::MAX,
        ensures
            final(self).spec_orphans() == old(self).spec_orphans() + 1,
            final(self).spec_blocks() == old(self).spec_blocks(),
            final(self).spec_txs() == old(self).spec_txs(),
            final(self).spec_max_lag() == old(self).spec_max_lag(),
            final(self).spec_forks() == old(self).spec_forks(),
    {
        self.orphans_detected = self.orphans_detected + 1;
    }

    /// Blocks added.
    pub fn blocks_applied(&self) -> (n: u64)
        ensures
            n == self.spec_blocks(),
    {
        self.blocks_applied
    }

    /// Transactions added.
    pub fn total_txs(&self) -> (n: u64)
        ensures
            n == self.spec_txs(),
    {
        self.total_txs
    }

    /// Forks added.
    pub fn forks_detected(&self) -> (n: u64)
        ensures
            n == self.spec_forks(),
    {
        self.forks_detected
    }

    /// Publishes the batch: with at least one block, the average
    /// transactions per block, the current height and the finality lag; then
    /// every fork and orphan counted.
    pub fn flush(&self, metrics: &mut ConsensusMetrics, current_height: u64, current_finalized: u64)
        ensures
            ({
                let m0 = *old(metrics);
                let m1 = if self.spec_blocks() > 0 {
                    let a = ConsensusMetrics {
                        transactions_per_second: (self.spec_txs() / self.spec_blocks()) as i64,
                        block_height: current_height as i64,
                        ..m0
                    };
                    if current_height >= current_finalized {
                        ConsensusMetrics { finality_lag: (current_height - current_finalized) as u64 as i64, ..a }
                    } else {
                        a
                    }
                } else {
                    m0
                };
                *final(metrics) == (ConsensusMetrics {
                    forks_detected: vstd::wrapping::u64_specs::wrapping_add(m1.forks_detected, self.spec_forks()),
                    orphaned_blocks: vstd::wrapping::u64_specs::wrapping_add(m1.orphaned_blocks, self.spec_orphans()),
                    ..m1
                })
            }),
    {
        if self.blocks_applied > 0 {
            let avg_tps = self.total_txs / self.blocks_applied;
            set_tps(metrics, avg_tps);
            set_block_height(metrics, current_height);
            if current_height >= current_finalized {
                set_finality_lag(metrics, current_height - current_finalized);
            }
        }
        metrics.forks_detected = metrics.forks_detected.wrapping_add(self.forks_detected);
        metrics.orphaned_blocks = metrics.orphaned_blocks.wrapping_add(self.orphans_detected);
    }
}

} // verus!
