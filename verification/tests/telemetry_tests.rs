use the_block_node::storage::settings::Algorithms;
use the_block_node::telemetry::consensus_instrumentation::{
    BlockProposalTimer, BlockValidationTimer, ReceiptValidationTimer, StorageProofValidationTimer,
    TransactionProcessingTimer,
};
use the_block_node::telemetry::consensus_integration::{ConsensusStateTracker, MetricBatcher};
use the_block_node::telemetry::consensus_metrics::{
    record_consensus_stall, record_fork_detected, record_network_partition, record_orphaned_block,
    record_receipt_validation_failure, record_storage_proof_validation_failure, set_block_height,
    set_finality_lag, set_mempool_size, set_peer_count, set_tps, ConsensusMetrics,
};
use the_block_node::telemetry::counters::LabelCounters;
use the_block_node::telemetry::energy::{
    dispute_outcome, dispute_type, error_reason as energy_error_reason, increment_disputes_raised,
    increment_disputes_resolved, increment_energy_readings, increment_oracle_submission_error,
    increment_quorum_shortfall, increment_slashing, EnergyMetrics,
};
use the_block_node::telemetry::receipts::{
    record_receipts, record_shard_usage, ReceiptBlockUsage, ReceiptEntry, ReceiptKind, ReceiptMetrics,
};
use the_block_node::telemetry::treasury::{
    dependency_failure, increment_dependency_failure, increment_disbursements, increment_execution_error,
    set_circuit_breaker_state, set_disbursement_backlog, set_treasury_balance, status, TreasuryMetrics,
};
use the_block_node::telemetry::{
    label_key, record_coding_algorithms, record_coding_result, record_dependency_policy,
    record_runtime_backend, reset_log_counters, sample_weight, sampled_inc, set_compaction_interval,
    set_log_enabled, should_log, CodingInfo, LogLimiter, MemoryComponent, Recorder, TelemetryConfig,
    LOG_LIMIT,
};

#[test]
fn timers_dont_panic() {
    let _block_timer = BlockProposalTimer::new(0);
    let _validation_timer = BlockValidationTimer::new(0);
    let _tx_timer = TransactionProcessingTimer::new(0);
    let _receipt_timer = ReceiptValidationTimer::new(0);
    let _proof_timer = StorageProofValidationTimer::new(0);
}

#[test]
fn timers_measure_elapsed_time() {
    let t = BlockProposalTimer::new(1_000);
    assert_eq!(t.elapsed_micros(1_250), 250);
    assert_eq!(t.elapsed_micros(900), 0);
}

#[test]
fn helpers_dont_panic() {
    let mut m = ConsensusMetrics::new();
    set_block_height(&mut m, 100);
    set_peer_count(&mut m, 50);
    set_mempool_size(&mut m, 1000);
    record_fork_detected(&mut m);
    set_tps(&mut m, 5000);
    set_finality_lag(&mut m, 10);
    record_network_partition(&mut m);
    record_consensus_stall(&mut m);
    record_orphaned_block(&mut m);
    record_receipt_validation_failure(&mut m);
    record_storage_proof_validation_failure(&mut m);
}

#[test]
fn metrics_initialize() {
    let _ = ConsensusMetrics::new();
}

#[test]
fn state_tracker_initializes() {
    let tracker = ConsensusStateTracker::new();
    assert_eq!(tracker.current_height(), 0);
    assert_eq!(tracker.current_time(), 0);
}

#[test]
fn state_tracker_records_block() {
    let mut tracker = ConsensusStateTracker::new();
    let mut metrics = ConsensusMetrics::new();
    tracker.record_block_applied(&mut metrics, 100, 50, 95, 1000);
    assert_eq!(tracker.current_height(), 100);
    assert_eq!(tracker.current_time(), 1000);
}

#[test]
fn metric_batcher_accumulates() {
    let mut batcher = MetricBatcher::new();
    batcher.add_block(10, 5);
    batcher.add_block(15, 3);
    batcher.add_fork();
    assert_eq!(batcher.blocks_applied(), 2);
    assert_eq!(batcher.total_txs(), 25);
    assert_eq!(batcher.forks_detected(), 1);
}

#[test]
fn batcher_computes_avg_tps() {
    let mut batcher = MetricBatcher::new();
    batcher.add_block(10, 0);
    batcher.add_block(20, 0);
    assert_eq!(batcher.total_txs() / batcher.blocks_applied(), 15);
}

#[test]
fn test_energy_metrics() {
    let mut m = EnergyMetrics::new();
    increment_energy_readings(&mut m);
    increment_oracle_submission_error(&mut m, energy_error_reason::INVALID_READING);
    assert_eq!(m.readings, 1);
    assert_eq!(m.oracle_submission_errors.get("invalid_reading"), 1);
}

#[test]
fn test_dispute_metrics() {
    let mut m = EnergyMetrics::new();
    increment_disputes_raised(&mut m, dispute_type::LOW_READING);
    increment_disputes_resolved(&mut m, dispute_outcome::RESOLVED);
    assert_eq!(m.disputes_raised.get("low_reading"), 1);
    assert_eq!(m.disputes_resolved.get("resolved"), 1);
}

#[test]
fn oracle_errors_are_sanitized() {
    let mut m = EnergyMetrics::new();
    increment_oracle_submission_error(&mut m, "stale timestamp from oracle 7");
    increment_oracle_submission_error(&mut m, "bad sig");
    increment_oracle_submission_error(&mut m, "something else");
    assert_eq!(m.oracle_submission_errors.get("stale_timestamp"), 1);
    assert_eq!(m.oracle_submission_errors.get("bad_signature"), 1);
    assert_eq!(m.oracle_submission_errors.get("other"), 1);
    increment_disputes_raised(&mut m, "unknown kind");
    assert_eq!(m.disputes_raised.get("other"), 1);
}

#[test]
fn slashing_is_counted_by_reason_class() {
    let mut m = EnergyMetrics::with_known_providers(vec!["prov-1".to_string(), "prov-2".to_string()]);
    increment_slashing(&mut m, "prov-1", "quorum missed");
    increment_slashing(&mut m, "prov-1", "hash conflict");
    increment_slashing(&mut m, "prov-2", "expired reading");
    increment_slashing(&mut m, "stranger", "expired reading");
    assert_eq!(m.slashing_quorum.get("prov-1"), 1);
    assert_eq!(m.slashing_conflict.get("prov-1"), 1);
    assert_eq!(m.slashing_expiry.get("prov-2"), 1);
    assert_eq!(m.slashing_expiry.get("stranger"), 0);
    assert_eq!(m.slashing_expiry.get("other"), 1);
    assert_eq!(m.slashing_other.get("prov-1"), 0);
}

#[test]
fn quorum_shortfall_labels_stay_bounded() {
    let mut m = EnergyMetrics::with_known_providers(vec!["prov-1".to_string()]);
    increment_quorum_shortfall(&mut m, "prov-1");
    for i in 0..50 {
        increment_quorum_shortfall(&mut m, &format!("random-{i}"));
    }
    assert_eq!(m.quorum_shortfall.get("prov-1"), 1);
    assert_eq!(m.quorum_shortfall.get("other"), 50);
    assert_eq!(m.quorum_shortfall.get("random-3"), 0);
    let mut fresh = EnergyMetrics::new();
    increment_quorum_shortfall(&mut fresh, "prov-1");
    assert_eq!(fresh.quorum_shortfall.get("prov-1"), 0);
    assert_eq!(fresh.quorum_shortfall.get("other"), 1);
}

#[test]
fn test_increment_disbursements() {
    let mut m = TreasuryMetrics::new();
    increment_disbursements(&mut m, status::DRAFT);
    increment_disbursements(&mut m, status::FINALIZED);
    assert_eq!(m.disbursements.get("draft"), 1);
    assert_eq!(m.disbursements.get("finalized"), 1);
}

#[test]
fn test_set_treasury_balance() {
    let mut m = TreasuryMetrics::new();
    set_treasury_balance(&mut m, 1_000_000, 500_000);
    assert_eq!(m.balance_ct, 1_000_000);
    assert_eq!(m.balance_it, 500_000);
}

#[test]
fn test_dependency_failures() {
    let mut m = TreasuryMetrics::new();
    increment_dependency_failure(&mut m, dependency_failure::CIRCULAR);
    increment_dependency_failure(&mut m, dependency_failure::MISSING);
    assert_eq!(m.dependency_failures.get("circular"), 1);
    assert_eq!(m.dependency_failures.get("missing"), 1);
}

#[test]
fn treasury_labels_are_bounded() {
    let mut m = TreasuryMetrics::new();
    increment_disbursements(&mut m, "made-up");
    increment_execution_error(&mut m, "insufficient balance in treasury");
    increment_execution_error(&mut m, "target account missing");
    increment_execution_error(&mut m, "quorum");
    increment_execution_error(&mut m, "???");
    set_disbursement_backlog(&mut m, "queued", 7);
    set_circuit_breaker_state(&mut m, 2, 3, 1);
    assert_eq!(m.disbursements.get("other"), 1);
    assert_eq!(m.execution_errors.get("insufficient_funds"), 1);
    assert_eq!(m.execution_errors.get("invalid_target"), 1);
    assert_eq!(m.execution_errors.get("quorum_not_reached"), 1);
    assert_eq!(m.execution_errors.get("other"), 1);
    assert_eq!(m.disbursement_backlog.get("queued"), 7);
    assert_eq!(m.circuit_breaker_state, 2);
}

#[test]
fn receipts_are_counted_by_market() {
    let mut m = ReceiptMetrics::new();
    let receipts = [
        ReceiptEntry { kind: ReceiptKind::Storage, settlement: 10 },
        ReceiptEntry { kind: ReceiptKind::ComputeSlash, settlement: 5 },
        ReceiptEntry { kind: ReceiptKind::Compute, settlement: 7 },
        ReceiptEntry { kind: ReceiptKind::EnergySlash, settlement: 3 },
        ReceiptEntry { kind: ReceiptKind::Ad, settlement: 1 },
    ];
    record_receipts(&mut m, &receipts, 640);
    assert_eq!(m.receipts_per_block, 5);
    assert_eq!(m.bytes_per_block, 640);
    assert_eq!(m.per_block.compute, 2);
    assert_eq!(m.per_block.compute_slash, 1);
    assert_eq!(m.per_block.energy, 1);
    assert_eq!(m.settlement.compute, 12);
    assert_eq!(m.settlement.storage, 10);
    record_receipts(&mut m, &receipts[..1], 64);
    assert_eq!(m.totals.storage, 2);
    assert_eq!(m.per_block.storage, 1);
    assert_eq!(m.per_block.compute, 0);
    record_shard_usage(&mut m, 3, &ReceiptBlockUsage { count: 4, bytes: 100, verify_units: 9 });
    assert_eq!(m.shard_usage.get(&3).map(|u| u.bytes), Some(100));
}

#[test]
fn log_limiter_samples_after_the_limit() {
    let mut l = LogLimiter::new();
    let mut emitted = 0;
    for _ in 0..250 {
        if should_log(&mut l, "mempool", 7) {
            emitted += 1;
        }
    }
    // the first LOG_LIMIT, then events 200 (every hundredth)
    assert_eq!(emitted, LOG_LIMIT + 1);
    assert_eq!(l.emitted.get("mempool"), 101);
    assert_eq!(l.dropped.get("mempool"), 149);
    // a new second starts a new count
    assert!(should_log(&mut l, "mempool", 8));
    set_log_enabled(&mut l, "p2p", false);
    assert!(!should_log(&mut l, "p2p", 8));
    set_log_enabled(&mut l, "p2p", true);
    assert!(should_log(&mut l, "p2p", 8));
    reset_log_counters(&mut l);
    assert_eq!(l.emitted.get("mempool"), 0);
    assert_eq!(l.count, 0);
}

#[test]
fn recorder_counts() {
    let mut r = Recorder::new();
    r.tx_submitted();
    r.tx_rejected("fee_too_low");
    r.block_mined();
    r.tx_jurisdiction("eu");
    assert_eq!(r.tx_submitted, 1);
    assert_eq!(r.tx_rejected.get("fee_too_low"), 1);
    assert_eq!(r.blocks_mined, 1);
    assert_eq!(r.tx_jurisdiction.get("eu"), 1);
}

#[test]
fn sampling_weights() {
    assert_eq!(sample_weight(0), 0);
    assert_eq!(sample_weight(1_000_000), 1);
    assert_eq!(sample_weight(400_000), 3);
    assert_eq!(sample_weight(3_000_000), 0);
    let mut c = 0u64;
    sampled_inc(&mut c, 500_000, 499_999);
    assert_eq!(c, 2);
    sampled_inc(&mut c, 500_000, 500_000);
    assert_eq!(c, 2);
    let mut cfg = TelemetryConfig { sample_rate_ppm: 1_000_000, compaction_secs: 60 };
    set_compaction_interval(&mut cfg, 0);
    assert_eq!(cfg.compaction_secs, 1);
}

#[test]
fn memory_component_labels() {
    assert_eq!(MemoryComponent::Mempool.as_str(), "mempool");
    assert_eq!(MemoryComponent::Storage.as_str(), "storage");
    assert_eq!(MemoryComponent::Compute.as_str(), "compute");
}

#[test]
fn coding_metrics_follow_the_active_algorithms() {
    let mut counters = LabelCounters::new();
    record_coding_result(&mut counters, "erasure_encode", "reed-solomon", "ok");
    assert_eq!(counters.get(&label_key(&["erasure_encode", "reed-solomon", "ok"])), 1);
    let mut info = CodingInfo::new();
    let first = Algorithms::new("chacha20", "xor", "raptorq", "zstd", false, false);
    record_coding_algorithms(&mut info, &first);
    assert_eq!(info.erasure.gauges.get(&label_key(&["xor", "fallback"])), 1);
    let second = Algorithms::new("chacha20", "reed-solomon", "raptorq", "zstd", false, false);
    record_coding_algorithms(&mut info, &second);
    assert_eq!(info.erasure.gauges.get(&label_key(&["xor", "active"])), 0);
    assert_eq!(info.erasure.gauges.get(&label_key(&["reed-solomon", "active"])), 1);
}

#[test]
fn backend_and_policy_gauges() {
    let mut g = LabelCounters::new();
    record_runtime_backend(&mut g, &["inhouse"], "inhouse");
    assert_eq!(g.get(&label_key(&["inhouse", "true"])), 1);
    assert_eq!(g.get(&label_key(&["stub", "false"])), 0);
    record_runtime_backend(&mut g, &["inhouse"], "tokio");
    assert_eq!(g.get(&label_key(&["tokio", "true"])), 1);
    let mut p = LabelCounters::new();
    record_dependency_policy(&mut p, "transport", &["QUINN".to_string()]);
    assert_eq!(p.get(&label_key(&["transport", "quinn"])), 1);
    assert_eq!(p.get(&label_key(&["transport", "s2n-quic"])), 0);
    record_dependency_policy(&mut p, "nonsense", &["x".to_string()]);
    assert_eq!(p.get(&label_key(&["nonsense", "x"])), 0);
}

use the_block_node::telemetry::codec_metrics::{
    codec_labels, codec_metrics_hook, crypto_metrics_hook, record_crypto_backend, BinaryProfile, Codec,
    CodecMetrics, Direction, JsonProfile,
};

#[test]
fn codec_metrics_by_labels() {
    assert_eq!(codec_labels(Codec::Binary(BinaryProfile::Gossip)), ("binary", "gossip"));
    assert_eq!(codec_labels(Codec::Json(JsonProfile::Canonical)), ("json", "none"));
    let mut m = CodecMetrics::new();
    codec_metrics_hook(&mut m, Codec::Json(JsonProfile::Canonical), Direction::Serialize, Some(40), "1");
    codec_metrics_hook(&mut m, Codec::Json(JsonProfile::Canonical), Direction::Serialize, Some(2), "1");
    codec_metrics_hook(&mut m, Codec::Binary(BinaryProfile::Canonical), Direction::Deserialize, None, "1");
    let k = label_key(&["json", "serialize", "none", "1"]);
    assert_eq!(m.payload_count.get(&k), 2);
    assert_eq!(m.payload_bytes.get(&k), 42);
    assert_eq!(m.deserialize_fail.get(&label_key(&["binary", "canonical", "1"])), 1);
    assert_eq!(m.serialize_fail.get(&label_key(&["binary", "canonical", "1"])), 0);
}

const CODEC_VERSION: &str = "1";

#[test]
fn codec_hook_records_success_and_failures() {
    let mut m = CodecMetrics::new();
    codec_metrics_hook(&mut m, Codec::Json(JsonProfile::Canonical), Direction::Serialize, Some(128), CODEC_VERSION);
    assert_eq!(m.payload_count.get(&label_key(&["json", "serialize", "none", CODEC_VERSION])), 1);
    codec_metrics_hook(&mut m, Codec::Binary(BinaryProfile::Transaction), Direction::Serialize, None, CODEC_VERSION);
    assert_eq!(m.serialize_fail.get(&label_key(&["binary", "transaction", CODEC_VERSION])), 1);
    codec_metrics_hook(&mut m, Codec::Binary(BinaryProfile::Transaction), Direction::Deserialize, None, CODEC_VERSION);
    assert_eq!(m.deserialize_fail.get(&label_key(&["binary", "transaction", CODEC_VERSION])), 1);
}

#[test]
fn crypto_operations_are_counted() {
    let mut c = LabelCounters::new();
    crypto_metrics_hook(&mut c, "ed25519", "sign", "inhouse", "1", true);
    crypto_metrics_hook(&mut c, "ed25519", "verify", "inhouse", "1", false);
    assert_eq!(c.get(&label_key(&["ed25519", "inhouse", "1", "sign", "ok"])), 1);
    assert_eq!(c.get(&label_key(&["ed25519", "inhouse", "1", "verify", "error"])), 1);
    let mut g = LabelCounters::new();
    record_crypto_backend(&mut g, "ed25519", "inhouse", "1");
    assert_eq!(g.get(&label_key(&["ed25519", "inhouse", "1"])), 1);
}

use the_block_node::telemetry::{
    ensure_ad_verifier_committee_label, record_log_correlation_fail, reset_ad_verifier_committee_rejections,
    trigger_anomaly,
};

#[test]
fn committee_and_alarm_counters() {
    let mut c = LabelCounters::new();
    c.inc("x");
    ensure_ad_verifier_committee_label(&mut c, "alpha", "late");
    assert_eq!(c.get(&label_key(&["alpha", "late"])), 0);
    assert_eq!(c.get("x"), 1);
    reset_ad_verifier_committee_rejections(&mut c);
    assert_eq!(c.get("x"), 0);
    let mut alarms = 0u64;
    trigger_anomaly(&mut alarms);
    assert_eq!(alarms, 1);
    let (mut f, mut s) = (0u64, u64::MAX);
    record_log_correlation_fail(&mut f, &mut s);
    assert_eq!((f, s), (1, 0));
}
