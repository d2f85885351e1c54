use the_block_node::storage::erasure::{default_params, reed_solomon_counts, total_shards_per_chunk};
use the_block_node::storage::fs::RentEscrow;
use the_block_node::storage::manifest_binary::{
    decode_manifest, decode_store_receipt, encode_manifest, encode_store_receipt, write_chunk_refs,
    write_fixed_u8_array, write_redundancy,
};
use the_block_node::storage::marketplace::SearchOptions;
use the_block_node::storage::pipeline::binary::{convert_field_count, write_field_count, EncodeError};
use the_block_node::storage::repair::{
    backoff_secs, failure_key, next_failure_record, plan_chunk, handle_outcome, ChunkPlan, FailureAction,
    FailureRecord, RepairErrorKind, RepairOutcome, RepairRequest, RepairSummary, SkipReason,
};
use the_block_node::storage::settings::{
    algorithms, chunk_defaults, compression_level, emergency_switch_active, erasure_counts,
    settings_from_config, CodingConfig, CodingError, RolloutConfig,
};
use the_block_node::storage::types::{ChunkRef, ObjectManifest, ProviderChunkEntry, Redundancy, StoreReceipt};
use the_block_node::storage::erasure::ErasureParams;
use the_block_node::util::binary_cursor::{write_bytes, write_string, write_u16, write_u32, write_u64};

#[test]
fn write_field_count_rejects_overflow() {
    let err = convert_field_count(u64::MAX as u128 + 1).expect_err("overflow must error");
    match err {
        EncodeError::LengthOverflow(field) => assert_eq!(field, "profile_fields"),
    }
}

#[test]
fn field_count_is_written_little_endian() {
    let mut out = Vec::new();
    write_field_count(&mut out, 13).expect("fits");
    assert_eq!(out, 13u64.to_le_bytes().to_vec());
    assert_eq!(convert_field_count(7).ok(), Some(7));
}

#[test]
fn release_refunds_and_burns() {
    let mut escrow = RentEscrow::open("rent.db");
    escrow.lock("blob1", "alice", 1000, 0);
    let res = escrow.release("blob1").expect("entry");
    assert_eq!(res.0, "alice");
    assert_eq!(res.1, 900);
    assert_eq!(res.2, 100);
}

#[test]
fn purge_expired_returns_entries() {
    let mut escrow = RentEscrow::open("rent.db");
    escrow.lock("blob", "bob", 1000, 1);
    let out = escrow.purge_expired(1);
    assert_eq!(out.len(), 1);
    assert_eq!(out[0].0, "bob");
    assert_eq!(out[0].1, 900);
    assert_eq!(out[0].2, 100);
}

fn sample_manifest() -> ObjectManifest {
    let mut chunks = Vec::new();
    for idx in 0..2u8 {
        chunks.push(ChunkRef {
            id: [idx; 32],
            nodes: vec!["node-a".to_string(), "node-b".to_string()],
            provider_chunks: vec![ProviderChunkEntry {
                provider: "prov".to_string(),
                chunk_indices: vec![1, 2],
                chunk_lens: vec![100, 200],
                encryption_key: vec![9, 8, 7],
            }],
        });
    }
    ObjectManifest {
        version: 1,
        total_len: 2048,
        chunk_len: 1024,
        chunks,
        redundancy: Redundancy::ReedSolomon { data: 6, parity: 3 },
        content_key_enc: vec![1, 2, 3, 4],
        blake3: [7u8; 32],
        chunk_lens: vec![1024, 1024],
        chunk_compressed_lens: vec![900, 900],
        chunk_cipher_lens: vec![1100, 1100],
        compression_alg: Some("gzip".to_string()),
        compression_level: Some(3),
        encryption_alg: Some("aes".to_string()),
        erasure_alg: Some("reed_solomon".to_string()),
        provider_chunks: vec![ProviderChunkEntry {
            provider: "prov".to_string(),
            chunk_indices: vec![0],
            chunk_lens: vec![1024],
            encryption_key: vec![5, 5, 5],
        }],
    }
}

fn complex_manifest_cases() -> Vec<ObjectManifest> {
    let mut cases = Vec::new();
    cases.push(sample_manifest());
    let mut none_manifest = sample_manifest();
    none_manifest.redundancy = Redundancy::Disabled;
    none_manifest.chunk_lens.clear();
    none_manifest.chunk_compressed_lens.clear();
    none_manifest.chunk_cipher_lens.clear();
    none_manifest.compression_alg = None;
    none_manifest.compression_level = None;
    none_manifest.encryption_alg = None;
    none_manifest.erasure_alg = None;
    none_manifest.provider_chunks.clear();
    cases.push(none_manifest);
    let mut large_manifest = sample_manifest();
    large_manifest.chunks.clear();
    large_manifest.chunk_lens.clear();
    large_manifest.chunk_compressed_lens.clear();
    large_manifest.chunk_cipher_lens.clear();
    large_manifest.provider_chunks.clear();
    let mut chunk_lens = Vec::new();
    for idx in 0..64u32 {
        let mut id = [0u8; 32];
        id[0] = (idx & 0xFF) as u8;
        id[1] = ((idx >> 8) & 0xFF) as u8;
        large_manifest.chunks.push(ChunkRef {
            id,
            nodes: vec![format!("node-{idx}"), format!("backup-{idx}")],
            provider_chunks: vec![ProviderChunkEntry {
                provider: format!("provider-{idx}"),
                chunk_indices: vec![idx, idx + 1, idx + 2],
                chunk_lens: vec![128 + idx, 256 + idx],
                encryption_key: vec![idx as u8; 4],
            }],
        });
        chunk_lens.push(2048 + idx);
    }
    large_manifest.chunk_lens = chunk_lens.clone();
    large_manifest.chunk_compressed_lens = chunk_lens.clone();
    large_manifest.chunk_cipher_lens = chunk_lens;
    large_manifest.provider_chunks = large_manifest
        .chunks
        .iter()
        .map(|chunk| ProviderChunkEntry {
            provider: format!("{}-mirror", chunk.nodes[0]),
            chunk_indices: vec![1, 3, 5, 7],
            chunk_lens: vec![512, 1024, 1536],
            encryption_key: vec![0xA5, 0x5A],
        })
        .collect();
    cases.push(large_manifest);
    cases
}

#[test]
fn manifest_binary_round_trips_complex_cases() {
    for manifest in complex_manifest_cases() {
        let encoded = encode_manifest(&manifest).expect("encode");
        let decoded = decode_manifest(&encoded).expect("decode");
        let reencoded = encode_manifest(&decoded).expect("reencode");
        assert_eq!(reencoded, encoded);
        assert_eq!(decoded.chunks.len(), manifest.chunks.len());
        assert_eq!(decoded.provider_chunks.len(), manifest.provider_chunks.len());
        assert_eq!(decoded.compression_level, manifest.compression_level);
    }
}

#[test]
fn manifest_binary_matches_legacy() {
    let manifest = sample_manifest();
    let encoded = encode_manifest(&manifest).expect("encode");
    let decoded = decode_manifest(&encoded).expect("decode");
    assert_eq!(decoded.version, manifest.version);
    assert_eq!(decoded.total_len, manifest.total_len);
    assert_eq!(decoded.chunk_len, manifest.chunk_len);
    assert_eq!(decoded.chunks.len(), manifest.chunks.len());
    assert_eq!(decoded.content_key_enc, manifest.content_key_enc);
    assert_eq!(decoded.blake3, manifest.blake3);
}

#[test]
fn manifest_decode_handles_missing_optional_fields() {
    let manifest = sample_manifest();
    let mut w = Vec::new();
    write_u64(&mut w, 7);
    write_string(&mut w, "version");
    write_u16(&mut w, manifest.version);
    write_string(&mut w, "total_len");
    write_u64(&mut w, manifest.total_len);
    write_string(&mut w, "chunk_len");
    write_u32(&mut w, manifest.chunk_len);
    write_string(&mut w, "chunks");
    write_chunk_refs(&mut w, &manifest.chunks);
    write_string(&mut w, "redundancy");
    write_redundancy(&mut w, manifest.redundancy);
    write_string(&mut w, "content_key_enc");
    write_bytes(&mut w, &manifest.content_key_enc);
    write_string(&mut w, "blake3");
    write_fixed_u8_array(&mut w, &manifest.blake3);
    let decoded = decode_manifest(&w).expect("decode");
    assert_eq!(decoded.version, manifest.version);
    assert_eq!(decoded.total_len, manifest.total_len);
    assert_eq!(decoded.chunk_len, manifest.chunk_len);
    assert_eq!(decoded.chunks.len(), manifest.chunks.len());
    assert_eq!(decoded.chunk_lens.len(), 0);
    assert!(decoded.compression_alg.is_none());
    assert!(decoded.encryption_alg.is_none());
    assert!(decoded.erasure_alg.is_none());
    assert!(decoded.provider_chunks.is_empty());
}

#[test]
fn receipt_binary_matches_legacy() {
    let receipt = StoreReceipt {
        manifest_hash: [5u8; 32],
        chunk_count: 3,
        redundancy: Redundancy::ReedSolomon { data: 4, parity: 2 },
        lane: "lane-a".to_string(),
    };
    let encoded = encode_store_receipt(&receipt).expect("encode");
    let decoded = decode_store_receipt(&encoded).expect("decode");
    assert_eq!(decoded.manifest_hash, receipt.manifest_hash);
    assert_eq!(decoded.chunk_count, receipt.chunk_count);
    match decoded.redundancy {
        Redundancy::ReedSolomon { data, parity } => {
            assert_eq!(data, 4);
            assert_eq!(parity, 2);
        }
        _ => panic!("unexpected redundancy"),
    }
    assert_eq!(decoded.lane, receipt.lane);
}

#[test]
fn receipt_with_missing_field_is_rejected() {
    let mut w = Vec::new();
    write_u64(&mut w, 1);
    write_string(&mut w, "lane");
    write_string(&mut w, "x");
    assert!(decode_store_receipt(&w).is_err());
}

#[test]
fn search_options_defaults_and_clamp() {
    let opts = SearchOptions::default();
    assert_eq!(opts.limit, 25);
    assert_eq!(opts.shares, 1);
    assert_eq!(opts.min_success_rate_ppm, Some(850_000));
    assert_eq!(SearchOptions::clamp_limit(0), 1);
    assert_eq!(SearchOptions::clamp_limit(500), 200);
    assert_eq!(SearchOptions::clamp_limit(30), 30);
    let mut o = SearchOptions::default();
    o.limit = 1000;
    o.region = Some("eu".into());
    let req = o.discovery_request();
    assert_eq!(req.limit, 200);
    assert_eq!(req.region.as_deref(), Some("eu"));
}

fn config(erasure: &str, compression: &str, allow: bool, require: bool) -> CodingConfig {
    CodingConfig {
        encryption_algorithm: "chacha20-poly1305".into(),
        erasure_algorithm: erasure.into(),
        data_shards: 4,
        parity_shards: 2,
        fountain_algorithm: "lt".into(),
        fountain_symbol_size: 1024,
        compression_algorithm: compression.into(),
        compression_level: 3,
        chunk_default_bytes: 1 << 20,
        chunk_ladder: vec![1 << 18, 1 << 20],
        rollout: RolloutConfig {
            allow_fallback_coder: allow,
            allow_fallback_compressor: allow,
            require_emergency_switch: require,
            emergency_switch_env: None,
        },
    }
}

#[test]
fn settings_follow_the_fallback_policy() {
    let s = settings_from_config(&config("reed-solomon", "zstd", false, false), false).expect("plain");
    let a = algorithms(&s);
    assert_eq!(a.erasure(), "reed-solomon");
    assert!(!a.erasure_fallback());
    assert_eq!(erasure_counts(&s), (4, 2));
    assert_eq!(compression_level(&s), 3);
    assert_eq!(chunk_defaults(&s), (1 << 20, vec![1 << 18, 1 << 20]));
    assert_eq!(reed_solomon_counts(&s), (4, 2));
    assert_eq!(total_shards_per_chunk(&s), 9);
    assert_eq!(default_params(&s).algorithm, "reed-solomon");
    let refused = settings_from_config(&config("XOR", "zstd", false, false), false);
    assert!(matches!(refused, Err(CodingError::Disabled { ref algorithm }) if algorithm == "XOR"));
    let allowed = settings_from_config(&config("xor", "RLE", true, false), false).expect("allowed");
    assert!(algorithms(&allowed).erasure_fallback());
    assert!(algorithms(&allowed).compression_fallback());
    assert!(!algorithms(&allowed).erasure_emergency());
    let forced = settings_from_config(&config("xor", "zstd", false, true), true).expect("emergency");
    assert!(algorithms(&forced).erasure_emergency());
}

#[test]
fn emergency_switch_values() {
    assert!(emergency_switch_active(Some(" TRUE ")));
    assert!(emergency_switch_active(Some("1")));
    assert!(emergency_switch_active(Some("yes")));
    assert!(emergency_switch_active(Some("\ton\n")));
    assert!(!emergency_switch_active(Some("off")));
    assert!(!emergency_switch_active(Some("")));
    assert!(!emergency_switch_active(None));
}

#[test]
fn backoff_doubles_to_the_cap() {
    assert_eq!(backoff_secs(1), 30);
    assert_eq!(backoff_secs(2), 60);
    assert_eq!(backoff_secs(7), 1920);
    assert_eq!(backoff_secs(8), 3600);
    assert_eq!(backoff_secs(u32::MAX), 3600);
    let r = next_failure_record(None, 100);
    assert_eq!(r, FailureRecord { attempts: 1, next_retry_at: 130 });
    let r2 = next_failure_record(Some(r), 200);
    assert_eq!(r2, FailureRecord { attempts: 2, next_retry_at: 260 });
    let r3 = next_failure_record(Some(r2), i64::MAX - 10);
    assert_eq!(r3.next_retry_at, i64::MAX);
    assert_eq!(failure_key("abcd", 12), "abcd:12");
}

fn shard_id(slot: usize, data: &[u8]) -> [u8; 32] {
    let mut h = blake3::Hasher::new();
    h.update(&[slot as u8]);
    h.update(data);
    *h.finalize().as_bytes()
}

#[test]
fn repair_plans_follow_the_shards() {
    let params = ErasureParams { algorithm: "reed-solomon".into(), data_shards: 2, parity_shards: 1 };
    let blobs: Vec<Option<Vec<u8>>> = vec![Some(vec![1, 2]), None, Some(vec![3]), Some(vec![4]), None, None];
    let group: Vec<ChunkRef> = (0..6)
        .map(|slot| ChunkRef {
            id: match &blobs[slot] {
                Some(b) => shard_id(slot, b),
                None => [9; 32],
            },
            nodes: vec![],
            provider_chunks: vec![],
        })
        .collect();
    let mut manifest = sample_manifest();
    manifest.chunk_cipher_lens = vec![1100];
    let request = RepairRequest::default();
    match plan_chunk(&request, 0, None, 0, &group, &blobs, &params, &manifest) {
        ChunkPlan::Repair { missing_slots, expected_cipher } => {
            assert_eq!(missing_slots, vec![1, 4, 5]);
            assert_eq!(expected_cipher, 1100);
        }
        other => panic!("unexpected plan {other:?}"),
    }
    let backoff = FailureRecord { attempts: 1, next_retry_at: 50 };
    assert!(matches!(
        plan_chunk(&request, 0, Some(backoff), 10, &group, &blobs, &params, &manifest),
        ChunkPlan::Backoff { next_retry_at: 50 }
    ));
    let mut corrupt = blobs.clone();
    corrupt[2] = Some(vec![0]);
    assert!(matches!(
        plan_chunk(&request, 0, None, 0, &group, &corrupt, &params, &manifest),
        ChunkPlan::IntegrityFailure { slot: 2 }
    ));
    let xor = ErasureParams { algorithm: "xor".into(), data_shards: 2, parity_shards: 1 };
    let mut two_missing = blobs.clone();
    two_missing[0] = None;
    assert!(matches!(
        plan_chunk(&request, 0, None, 0, &group, &two_missing, &xor, &manifest),
        ChunkPlan::AlgorithmLimited { missing: 2, parity_available: 1 }
    ));
    let only = RepairRequest { manifest: None, chunk: Some(3), force: false };
    assert!(matches!(plan_chunk(&only, 0, None, 0, &group, &blobs, &params, &manifest), ChunkPlan::Filtered));
}

#[test]
fn outcomes_are_accounted() {
    let mut summary = RepairSummary::new();
    let (entry, action) = handle_outcome(
        &mut summary,
        RepairOutcome::Success {
            manifest: "m".into(),
            chunk: 1,
            bytes: 40,
            writes: vec![],
            missing_slots: vec![2, 3],
            failure_key: "m:1".into(),
        },
        None,
        99,
    );
    assert_eq!(summary.successes, 1);
    assert_eq!(summary.bytes_repaired, 40);
    assert_eq!(entry.missing_slots, vec![2, 3]);
    assert_eq!(entry.timestamp, 99);
    assert!(matches!(action, FailureAction::Clear(ref k) if k == "m:1"));
    let (entry, action) = handle_outcome(
        &mut summary,
        RepairOutcome::Skipped {
            manifest: "m".into(),
            chunk: 2,
            reason: SkipReason::AlgorithmLimited { algorithm: "xor".into(), missing: 2, parity_available: 0 },
        },
        None,
        100,
    );
    assert_eq!(entry.error.as_deref(), Some("algorithm_limited:xor:missing=2:parity=0"));
    assert!(matches!(action, FailureAction::Keep));
    let (entry, _) = handle_outcome(
        &mut summary,
        RepairOutcome::Skipped { manifest: "m".into(), chunk: 2, reason: SkipReason::Backoff { next_retry_at: -5 } },
        None,
        100,
    );
    assert_eq!(entry.error.as_deref(), Some("next_retry_at:-5"));
    let (_, action) = handle_outcome(
        &mut summary,
        RepairOutcome::Failure {
            manifest: "m".into(),
            chunk: None,
            failure_key: None,
            error: RepairErrorKind::Manifest,
            message: "bad".into(),
        },
        None,
        101,
    );
    assert!(matches!(action, FailureAction::Keep));
    assert_eq!(summary.failures, 1);
    assert_eq!(summary.skipped, 2);
    assert_eq!(summary.failure_details.len(), 1);
    assert_eq!(RepairErrorKind::Reconstruction.label(), "reconstruct");
}

#[test]
fn escrow_binary_matches_legacy() {
    let record = the_block_node::storage::fs::Escrow { depositor: "alice".to_string(), amount: 4242, expiry: 99 };
    let encoded = the_block_node::storage::escrow_binary::encode_escrow(&record);
    let mut legacy = Vec::new();
    write_u64(&mut legacy, 3);
    write_string(&mut legacy, "depositor");
    write_string(&mut legacy, &record.depositor);
    write_string(&mut legacy, "amount");
    write_u64(&mut legacy, record.amount);
    write_string(&mut legacy, "expiry");
    write_u64(&mut legacy, record.expiry);
    assert_eq!(encoded, legacy);

    let decoded = the_block_node::storage::escrow_binary::decode_escrow(&encoded).expect("decode");
    assert_eq!(decoded.depositor, record.depositor);
    assert_eq!(decoded.amount, record.amount);
    assert_eq!(decoded.expiry, record.expiry);
}
