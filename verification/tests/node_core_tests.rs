use the_block_node::storage::migrate::{current_version, next_migration, LATEST};
use the_block_node::storage::pipeline::{
    chunk_defaults, manifest_summary, previous_chunk_step, redundancy_for, rent_for, store_receipt_for,
    StoragePipeline, FALLBACK_CHUNK_LADDER,
};
use the_block_node::storage::settings::{settings_from_config, Algorithms, CodingConfig, RolloutConfig};
use the_block_node::storage::types::{ObjectManifest, Redundancy};
use the_block_node::telemetry::routing::{label_value, route_counter, CounterRoute};
use the_block_node::telemetry::summary::{last_count, SummarySequence};
use the_block_node::telemetry::tls_warnings::{record_tls_env_warning, TlsWarningEntry};
use the_block_node::vm::abi_wasm;

fn config(ladder: Vec<usize>) -> CodingConfig {
    CodingConfig {
        encryption_algorithm: "chacha20-poly1305".into(),
        erasure_algorithm: "reed-solomon".into(),
        data_shards: 4,
        parity_shards: 2,
        fountain_algorithm: "lt".into(),
        fountain_symbol_size: 1024,
        compression_algorithm: "zstd".into(),
        compression_level: 3,
        chunk_default_bytes: 1 << 20,
        chunk_ladder: ladder,
        rollout: RolloutConfig {
            allow_fallback_coder: false,
            allow_fallback_compressor: false,
            require_emergency_switch: false,
            emergency_switch_env: None,
        },
    }
}

fn manifest() -> ObjectManifest {
    ObjectManifest {
        version: 1,
        total_len: 3000,
        chunk_len: 1024,
        chunks: vec![],
        redundancy: Redundancy::ReedSolomon { data: 4, parity: 2 },
        content_key_enc: vec![],
        blake3: [0; 32],
        chunk_lens: vec![],
        chunk_compressed_lens: vec![],
        chunk_cipher_lens: vec![],
        compression_alg: Some("RLE".into()),
        compression_level: None,
        encryption_alg: None,
        erasure_alg: None,
        provider_chunks: vec![],
    }
}

#[test]
fn chunk_ladder_is_sorted_and_deduplicated() {
    let s = settings_from_config(&config(vec![4096, 1024, 4096, 2048]), false).expect("settings");
    assert_eq!(chunk_defaults(&s), (1 << 20, vec![1024, 2048, 4096]));
    let empty = settings_from_config(&config(vec![]), false).expect("settings");
    assert_eq!(chunk_defaults(&empty).1, FALLBACK_CHUNK_LADDER.to_vec());
}

#[test]
fn chunk_steps_go_down_the_ladder() {
    let ladder = [1024, 2048, 4096];
    assert_eq!(previous_chunk_step(4096, &ladder), 2048);
    assert_eq!(previous_chunk_step(1500, &ladder), 1024);
    assert_eq!(previous_chunk_step(1000, &ladder), 500);
    assert_eq!(previous_chunk_step(3, &ladder), 1);
    assert_eq!(previous_chunk_step(1, &ladder), 0);
}

#[test]
fn rent_and_quota_saturate() {
    assert_eq!(rent_for(3, 10), 30);
    assert_eq!(rent_for(-1, 2), u64::MAX);
    assert_eq!(rent_for(i64::MAX, 4), u64::MAX);
    assert_eq!(StoragePipeline::logical_quota_bytes(2, 3), 5 * 1024 * 1024);
    assert_eq!(StoragePipeline::logical_quota_bytes(u64::MAX, 1), u64::MAX);
}

#[test]
fn pipeline_settings_and_escrow() {
    let mut p = StoragePipeline::open("/tmp/node");
    p.set_rent_rate(2);
    assert_eq!(p.rent_for_len(5), 10);
    p.set_provider_maintenance("prov", true).expect("ok");
    assert!(p.in_maintenance("prov"));
    assert!(!p.in_maintenance("other"));
    assert_eq!(p.repair_log_dir(), "/tmp/node/repair_log");
    assert_eq!(p.engine_summary().rent_escrow, "memory");
    p.lock_rent("obj", "alice", 1000);
    let none = p.process_expired(10);
    assert!(none.is_empty());
}

#[test]
fn manifest_summary_and_receipt() {
    let m = manifest();
    let defaults = Algorithms::new("aes", "reed-solomon", "lt", "zstd", false, false);
    let s = manifest_summary("abcd", &m, &defaults).expect("summary");
    assert_eq!(s.chunk_count, 3);
    assert_eq!(s.erasure, "reed-solomon");
    assert_eq!(s.compression, "RLE");
    assert!(s.compression_fallback);
    assert!(!s.erasure_fallback);
    let r = store_receipt_for(&m, [1; 32], "lane").expect("receipt");
    assert_eq!(r.chunk_count, 3);
    assert_eq!(redundancy_for(300, 2), Err("invalid data shard count".to_string()));
    assert_eq!(redundancy_for(4, 2), Ok(Redundancy::ReedSolomon { data: 4, parity: 2 }));
}

#[test]
fn counters_are_routed_by_name() {
    let labels = vec![
        ("codec".to_string(), "binary".to_string()),
        ("direction".to_string(), "deserialize".to_string()),
    ];
    assert_eq!(label_value(&labels, "direction"), Some("deserialize"));
    match route_counter("codec_operation_fail_total", &labels, 2) {
        CounterRoute::CodecFailure { serialize, codec, profile, delta } => {
            assert!(!serialize);
            assert_eq!(codec, "binary");
            assert_eq!(profile, "none");
            assert_eq!(delta, 2);
        }
        other => panic!("unexpected route {other:?}"),
    }
    assert!(matches!(route_counter("codec_operation_fail_total", &labels, 0), CounterRoute::Ignored));
    assert!(matches!(route_counter("remote_signer_request_total", &[], 1), CounterRoute::RemoteSignerRequest { delta: 1 }));
    assert!(matches!(route_counter("unknown", &[], 1), CounterRoute::Ignored));
}

#[test]
fn tls_warnings_track_changes() {
    let mut e = TlsWarningEntry::new();
    let ev = record_tls_env_warning(&mut e, "TB_TLS", "missing", "env", Some("cert"), 7, &[], None, "fp7", "none", 100);
    assert_eq!(ev.total, 1);
    assert!(ev.detail_changed);
    let ev2 = record_tls_env_warning(&mut e, "TB_TLS", "missing", "env", Some("cert"), 7, &[], None, "fp7", "none", 120);
    assert_eq!(ev2.total, 2);
    assert!(!ev2.detail_changed);
    assert_eq!(ev2.last_seen, 120);
    assert_eq!(e.detail_fingerprint_counts.get("fp7"), 2);
    let ev3 = record_tls_env_warning(&mut e, "TB_TLS", "missing", "env", Some(""), 9, &["A".to_string()], Some(3), "fp9", "v3", 130);
    assert!(!ev3.detail_changed);
    assert!(ev3.variables_changed);
    assert_eq!(ev3.detail.as_deref(), Some("cert"));
}

#[test]
fn summary_sequence_counts() {
    let mut s = SummarySequence::new();
    assert_eq!(s.next(), 1);
    assert_eq!(s.next(), 2);
    assert_eq!(last_count(&s), 2);
}

#[test]
fn linear_memory_access() {
    let mut mem = vec![0u8; 8];
    assert_eq!(abi_wasm::write(&mut mem, &[1, 2, 3]), 0);
    assert_eq!(&mem[..4], &[1, 2, 3, 0]);
    assert_eq!(abi_wasm::read(&mem, 1, 2), Some(vec![2, 3]));
    assert_eq!(abi_wasm::read(&mem, 7, 2), None);
    assert_eq!(abi_wasm::read(&mem, -1, 1), None);
    let mut small = vec![9u8; 2];
    abi_wasm::write(&mut small, &[1, 2, 3]);
    assert_eq!(small, vec![9, 9]);
}

#[test]
fn schema_versions() {
    assert_eq!(current_version(None), 0);
    assert_eq!(current_version(Some(&1u32.to_le_bytes())), 1);
    assert_eq!(current_version(Some(&[1, 2])), 0);
    assert_eq!(next_migration(0), Some(LATEST));
    assert_eq!(next_migration(1), None);
}

use the_block_node::storage::pipeline::{manifest_chunk_len, PutProgress, PutStep};
use the_block_node::storage::placement_index::{shard_ref, ProviderIndex};

#[test]
fn put_progress_walks_the_object() {
    let ladder = [1024u32, 2048, 4096];
    let mut p = PutProgress::new(5000);
    p.start_chunk(4096);
    match p.next_step() {
        PutStep::Chunk { start, end } => {
            assert_eq!((start, end), (0, 4096));
        }
        PutStep::Done => panic!("work left"),
    }
    p.capacity_exhausted(&ladder).expect("smaller step");
    assert_eq!(p.desired, 2048);
    assert!(matches!(p.next_step(), PutStep::Chunk { start: 0, end: 2048 }));
    p.chunk_stored(2048, 2048, 1500, 1528).expect("stored");
    p.start_chunk(0);
    assert!(matches!(p.next_step(), PutStep::Chunk { start: 2048, end: 5000 }));
    p.chunk_stored(5000, 2952, 2000, 2028).expect("stored");
    assert!(matches!(p.next_step(), PutStep::Done));
    assert_eq!(p.chunk_lens, vec![2048, 2952]);
    assert_eq!(manifest_chunk_len(&p.chunk_lens, 1 << 20), 2048);
    assert_eq!(manifest_chunk_len(&vec![], 1 << 20), 1 << 20);
    let mut q = PutProgress::new(10);
    q.start_chunk(1);
    assert!(q.capacity_exhausted(&ladder).is_err());
}

#[test]
fn provider_index_keeps_names_in_order() {
    let mut idx = ProviderIndex::new();
    idx.record("zeta", 0, 100, &[1, 2]);
    idx.record("alpha", 0, 100, &[3]);
    idx.record("zeta", 0, 100, &[9]);
    idx.record("zeta", 1, 50, &[9]);
    let entries = idx.entries();
    assert_eq!(entries.len(), 2);
    assert_eq!(entries[0].provider, "alpha");
    assert_eq!(entries[1].provider, "zeta");
    assert_eq!(entries[1].chunk_indices, vec![0, 1]);
    assert_eq!(entries[1].chunk_lens, vec![100, 50]);
    assert_eq!(entries[1].encryption_key, vec![1, 2]);
    let c = shard_ref([4; 32], "alpha", 3, 77, &[5]);
    assert_eq!(c.nodes, vec!["alpha".to_string()]);
    assert_eq!(c.provider_chunks[0].chunk_indices, vec![3]);
}

use the_block_node::telemetry::cohorts::{badges_label, cohort_labels, stale_labels};
use the_block_node::telemetry::ReadStats;

#[test]
fn cohort_labels_and_stale_sets() {
    assert_eq!(badges_label(&[]), "none");
    assert_eq!(badges_label(&["a".to_string(), "b".to_string()]), "a|b");
    let (d, p, b) = cohort_labels("news", None, &[], "-");
    assert_eq!((d.as_str(), p.as_str(), b.as_str()), ("news", "-", "none"));
    let prev = vec!["x".to_string(), "y".to_string(), "z".to_string()];
    let cur = vec!["y".to_string()];
    assert_eq!(stale_labels(&prev, &cur), vec!["x".to_string(), "z".to_string()]);
}

#[test]
fn read_stats_by_domain() {
    let mut s = ReadStats::new();
    s.record("blocks", 100);
    s.record("blocks", 20);
    s.record("state", 5);
    assert_eq!(s.snapshot("blocks"), (2, 120));
    assert_eq!(s.snapshot("state"), (1, 5));
    assert_eq!(s.snapshot("none"), (0, 0));
}

use the_block_node::treasury_executor::{memo_within_limit, next_available_nonce};

#[test]
fn executor_nonce_skips_pending() {
    assert_eq!(next_available_nonce(5, 2, &[]), 8);
    assert_eq!(next_available_nonce(5, 2, &[8, 9, 11]), 10);
    assert_eq!(next_available_nonce(u64::MAX - 1, 5, &[]), u64::MAX);
    assert!(memo_within_limit(&[0u8; 8192]));
    assert!(!memo_within_limit(&[0u8; 8193]));
}

use the_block_node::telemetry::cohorts::{update_ad_market_utilization_metrics, AdUtilizationMetrics, CohortUtilization};
use the_block_node::telemetry::label_key;

#[test]
fn utilization_gauges_follow_the_cohorts() {
    let mut m = AdUtilizationMetrics::new();
    let first = vec![
        CohortUtilization {
            domain: "news".into(),
            provider: None,
            badges: vec![],
            observed_utilization_ppm: 10,
            target_utilization_ppm: 20,
            delta_ppm: -10,
        },
        CohortUtilization {
            domain: "games".into(),
            provider: Some("p1".into()),
            badges: vec!["a".into(), "b".into()],
            observed_utilization_ppm: 5,
            target_utilization_ppm: 5,
            delta_ppm: 0,
        },
    ];
    let stale = update_ad_market_utilization_metrics(&mut m, &first);
    assert!(stale.is_empty());
    let news = label_key(&["news", "none", "none"]);
    assert_eq!(m.observed.get(&news), 10);
    assert_eq!(m.delta_bits.get(&news) as i64, -10);
    let second = vec![first[1].clone_for_test()];
    let stale = update_ad_market_utilization_metrics(&mut m, &second);
    assert_eq!(stale, vec![news.clone()]);
    assert_eq!(m.observed.get(&news), 0);
    assert_eq!(m.target.get(&label_key(&["games", "p1", "a|b"])), 5);
}

trait CloneForTest {
    fn clone_for_test(&self) -> Self;
}

impl CloneForTest for CohortUtilization {
    fn clone_for_test(&self) -> Self {
        CohortUtilization {
            domain: self.domain.clone(),
            provider: self.provider.clone(),
            badges: self.badges.clone(),
            observed_utilization_ppm: self.observed_utilization_ppm,
            target_utilization_ppm: self.target_utilization_ppm,
            delta_ppm: self.delta_ppm,
        }
    }
}

use the_block_node::storage::pipeline::{append_plain_chunk, compressor_choice, encryptor_choice, finish_object, read_layout};

#[test]
fn reading_objects_back() {
    let mut m = manifest();
    assert_eq!(read_layout(&m, 4, 2), Ok(9));
    m.chunks = vec![];
    assert_eq!(read_layout(&m, 4, 2), Ok(9));
    let mut out = vec![1u8];
    assert_eq!(append_plain_chunk(&mut out, &[2, 3, 4], 2), Ok(()));
    assert_eq!(out, vec![1, 2, 3]);
    assert_eq!(append_plain_chunk(&mut out, &[5], 2), Err("corrupt chunk".to_string()));
    finish_object(&mut out, 2);
    assert_eq!(out, vec![1, 2]);
    let (alg, shared) = encryptor_choice(&m, "chacha20");
    assert_eq!((alg.as_str(), shared), ("chacha20", true));
    let (name, level, shared) = compressor_choice(&m, "zstd", 3);
    assert_eq!((name.as_str(), level, shared), ("RLE", 3, false));
}
