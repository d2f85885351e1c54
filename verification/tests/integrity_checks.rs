use the_block_node::storage::escrow_binary::{decode_escrow, encode_escrow};
use the_block_node::storage::fs::{Escrow, RentEscrow};
use the_block_node::storage::pipeline::{path_join, StoragePipeline};
use the_block_node::storage::placement_index::provider_key;
use the_block_node::storage::repair::validate_manifest_bytes;
use the_block_node::storage::settings::Algorithms;
use the_block_node::storage::types::{ObjectManifest, Redundancy};
use the_block_node::telemetry::counters::LabelCounters;
use the_block_node::telemetry::{ensure_ad_verifier_committee_label, label_key, record_coding_algorithms, CodingInfo};
use the_block_node::util::binary_struct::{read_fixed_array, DecodeError};
use the_block_node::util::versioned_blob::{encode_blob, MAGIC_PRICE_BOARD};
use the_block_node::vm::wasm::ModuleMetadata;

fn plain_manifest(hash: [u8; 32]) -> ObjectManifest {
    ObjectManifest {
        version: 1,
        total_len: 0,
        chunk_len: 1024,
        chunks: Vec::new(),
        redundancy: Redundancy::Disabled,
        content_key_enc: Vec::new(),
        blake3: hash,
        chunk_lens: Vec::new(),
        chunk_compressed_lens: Vec::new(),
        chunk_cipher_lens: Vec::new(),
        compression_alg: None,
        compression_level: None,
        encryption_alg: None,
        erasure_alg: None,
        provider_chunks: Vec::new(),
    }
}

#[test]
fn blob_tx_commits_to_blake3_of_data() {
    let data = b"hello blob".to_vec();
    let id = [3u8; 32];
    let tx = StoragePipeline::build_blob_tx("alice", &data, id, Some(9));
    assert_eq!(tx.owner, "alice");
    assert_eq!(tx.blob_id, id);
    assert_eq!(tx.blob_root, *blake3::hash(&data).as_bytes());
    assert_ne!(tx.blob_root.to_vec(), data);
    assert_eq!(tx.blob_size, 10);
    assert_eq!(tx.fractal_lvl, 1);
    assert_eq!(tx.expiry, Some(9));
}

#[test]
fn manifest_bytes_check_hashes_the_serialization() {
    let bytes = b"serialized manifest".to_vec();
    let good = plain_manifest(*blake3::hash(&bytes).as_bytes());
    assert_eq!(validate_manifest_bytes(&good, &bytes), Ok(()));
    let bad = plain_manifest([0u8; 32]);
    assert_eq!(validate_manifest_bytes(&bad, &bytes), Err("manifest hash mismatch".to_string()));
    let mut misaligned = plain_manifest(*blake3::hash(&bytes).as_bytes());
    misaligned.redundancy = Redundancy::ReedSolomon { data: 1, parity: 1 };
    misaligned.chunk_lens = vec![10];
    misaligned.chunks = Vec::new();
    assert!(validate_manifest_bytes(&misaligned, &bytes).is_err());
}

#[test]
fn provider_key_is_keyed_blake3_of_name() {
    let key = [5u8; 32];
    let k = provider_key(&key, "prov-a");
    assert_eq!(k, *blake3::keyed_hash(&key, b"prov-a").as_bytes());
    assert_ne!(k, key);
    assert_ne!(k, provider_key(&key, "prov-b"));
}

#[test]
fn repair_log_dir_joins_like_a_path() {
    assert_eq!(path_join("/tmp/node", "repair_log"), "/tmp/node/repair_log");
    assert_eq!(path_join("/tmp/node/", "repair_log"), "/tmp/node/repair_log");
    assert_eq!(path_join("", "repair_log"), "repair_log");
    assert_eq!(StoragePipeline::open("").repair_log_dir(), "repair_log");
    assert_eq!(StoragePipeline::open("data/").repair_log_dir(), "data/repair_log");
}

#[test]
fn module_metadata_encodes_as_text() {
    let meta = ModuleMetadata { version: 1, instruction_count: 4, required_inputs: 2, return_values: Some(1) };
    assert_eq!(meta.encode(), b"version=1;instructions=4;inputs=2;return_values=1\n".to_vec());
    let none = ModuleMetadata { version: 1, instruction_count: 12, required_inputs: 0, return_values: None };
    assert_eq!(none.encode(), b"version=1;instructions=12;inputs=0;return_values=0\n".to_vec());
}

#[test]
fn fixed_array_length_error_gives_reason() {
    let mut data = 31u64.to_le_bytes().to_vec();
    data.extend_from_slice(&[0u8; 31]);
    match read_fixed_array(&data, 0) {
        Err(DecodeError::InvalidFieldValue { field, reason }) => {
            assert_eq!(field, "fixed_array");
            assert_eq!(reason, "expected length 32 got 31");
        }
        other => panic!("unexpected {:?}", other),
    }
}

#[test]
fn lock_then_balance_release_and_purge() {
    let mut escrow = RentEscrow::open("rent.db");
    escrow.lock("a", "alice", 500, 0);
    escrow.lock("b", "bob", 300, 7);
    assert_eq!(escrow.balance("b"), 300);
    assert_eq!(escrow.balance_account("bob"), 300);
    assert_eq!(escrow.balance("a"), 500);
    escrow.lock("c", "bob", 200, 0);
    assert_eq!(escrow.balance_account("bob"), 500);
    assert_eq!(escrow.balance_account("alice"), 500);
    assert!(escrow.purge_expired(6).is_empty());
    let out = escrow.purge_expired(7);
    assert_eq!(out, vec![("bob".to_string(), 270, 30)]);
    assert_eq!(escrow.balance("b"), 0);
    let (who, refund, burn) = escrow.release("c").expect("locked");
    assert_eq!((who.as_str(), refund, burn), ("bob", 180, 20));
    assert_eq!(refund + burn, 200);
    assert_eq!(escrow.balance("c"), 0);
    assert!(escrow.release("c").is_none());
}

#[test]
fn only_the_latest_algorithm_is_active() {
    let mut info = CodingInfo::new();
    let first = Algorithms::new("chacha20", "xor", "raptorq", "zstd", false, false);
    let second = Algorithms::new("chacha20", "reed-solomon", "raptorq", "lz4", false, false);
    record_coding_algorithms(&mut info, &first);
    record_coding_algorithms(&mut info, &second);
    record_coding_algorithms(&mut info, &first);
    assert_eq!(info.erasure.gauges.get(&label_key(&["xor", "active"])), 1);
    assert_eq!(info.erasure.gauges.get(&label_key(&["reed-solomon", "active"])), 0);
    assert_eq!(info.compression.gauges.get(&label_key(&["zstd", "active"])), 1);
    assert_eq!(info.compression.gauges.get(&label_key(&["lz4", "active"])), 0);
}

#[test]
fn committee_label_keeps_counts() {
    let mut c = LabelCounters::new();
    let key = label_key(&["committee-1", "stale"]);
    c.set(&key, 4);
    ensure_ad_verifier_committee_label(&mut c, "committee-1", "stale");
    ensure_ad_verifier_committee_label(&mut c, "committee-2", "invalid");
    assert_eq!(c.get(&key), 4);
    assert_eq!(c.get(&label_key(&["committee-2", "invalid"])), 0);
}

#[test]
fn stored_manifest_reads_back_and_lists() {
    let mut p = StoragePipeline::open("/tmp/node");
    let defaults = Algorithms::new("chacha20", "reed-solomon", "raptorq", "zstd", false, false);
    assert!(p.manifest_summaries(0, &defaults).is_empty());
    let mut m = plain_manifest([7u8; 32]);
    m.total_len = 3000;
    m.compression_alg = Some("rle".to_string());
    p.store_manifest(&m);
    let back = p.get_manifest(&[7u8; 32]).expect("stored");
    assert_eq!(back.total_len, 3000);
    assert_eq!(back.blake3, [7u8; 32]);
    assert_eq!(back.compression_alg.as_deref(), Some("rle"));
    assert!(p.get_manifest(&[8u8; 32]).is_none());
    let second = plain_manifest([8u8; 32]);
    p.store_manifest(&second);
    let all = p.manifest_summaries(0, &defaults);
    assert_eq!(all.len(), 2);
    assert_eq!(all[0].manifest, "07".repeat(32));
    assert_eq!(all[0].chunk_count, 3);
    assert_eq!(all[0].erasure, "reed-solomon");
    assert_eq!(all[0].compression, "rle");
    assert!(all[0].compression_fallback);
    assert!(!all[0].erasure_fallback);
    assert_eq!(all[1].manifest, "08".repeat(32));
    assert_eq!(p.manifest_summaries(1, &defaults).len(), 1);
}

#[test]
fn delete_object_forgets_manifest_and_refunds_rent() {
    let mut p = StoragePipeline::open("/tmp/node");
    let m = plain_manifest([9u8; 32]);
    p.store_manifest(&m);
    p.lock_rent(&"09".repeat(32), "carol", 1000);
    let (who, refund, burn) = p.delete_object(&[9u8; 32]).expect("rent locked");
    assert_eq!((who.as_str(), refund, burn), ("carol", 900, 100));
    assert!(p.get_manifest(&[9u8; 32]).is_none());
    assert!(p.delete_object(&[9u8; 32]).is_none());
}

fn bitwise_crc32(data: &[u8]) -> u32 {
    let mut reg: u32 = 0xFFFF_FFFF;
    for &b in data {
        reg ^= b as u32;
        for _ in 0..8 {
            reg = if reg & 1 == 1 { (reg >> 1) ^ 0xEDB8_8320 } else { reg >> 1 };
        }
    }
    reg ^ 0xFFFF_FFFF
}

#[test]
fn blob_trailer_is_the_ieee_crc32_of_the_body() {
    assert_eq!(bitwise_crc32(b"123456789"), 0xCBF4_3926);
    let blob = encode_blob(MAGIC_PRICE_BOARD, 2, b"123456789").expect("encode");
    let body = &blob[..blob.len() - 4];
    assert_eq!(&blob[blob.len() - 4..], &bitwise_crc32(body).to_le_bytes());
}

#[test]
fn committed_object_is_listed_and_refunded_on_delete() {
    let mut p = StoragePipeline::open("/tmp/node");
    p.set_rent_rate(3);
    let rent = p.rent_for_len(500);
    assert_eq!(rent, 1500);
    let m = plain_manifest([4u8; 32]);
    p.commit_object(&m, "lane-a", rent);
    let defaults = Algorithms::new("chacha20", "reed-solomon", "raptorq", "zstd", false, false);
    assert_eq!(p.manifest_summaries(0, &defaults).len(), 1);
    let (who, refund, burn) = p.delete_object(&[4u8; 32]).expect("rent locked");
    assert_eq!((who.as_str(), refund, burn), ("lane-a", 1350, 150));
    assert!(p.manifest_summaries(0, &defaults).is_empty());
}

#[test]
fn sealed_manifest_hash_covers_its_zeroed_encoding() {
    let m = plain_manifest([5u8; 32]);
    let sealed = the_block_node::storage::pipeline::seal_manifest(plain_manifest([5u8; 32]));
    let zeroed = plain_manifest([0u8; 32]);
    let bytes = the_block_node::storage::manifest_binary::encode_manifest(&zeroed).expect("encode");
    assert_eq!(sealed.blake3, *blake3::hash(&bytes).as_bytes());
    assert_ne!(sealed.blake3, m.blake3);
    assert_eq!(sealed.total_len, m.total_len);
    assert_eq!(validate_manifest_bytes(&sealed, &bytes), Ok(()));
}

#[test]
fn escrow_record_rejects_bad_layouts() {
    let record = Escrow { depositor: "dora".to_string(), amount: 7, expiry: 0 };
    let mut bytes = encode_escrow(&record);
    bytes.push(0);
    assert!(matches!(decode_escrow(&bytes), Err(DecodeError::TrailingBytes(1))));
    let mut wrong_count = encode_escrow(&record);
    wrong_count[0] = 2;
    assert!(decode_escrow(&wrong_count).is_err());
    assert!(matches!(decode_escrow(&[1, 2, 3]), Err(DecodeError::Cursor(_))));
}

#[test]
fn crc32_matches_the_check_value() {
    assert_eq!(the_block_node::hashing::crc32(b"123456789"), 0xCBF4_3926);
    assert_eq!(the_block_node::hashing::crc32(b""), 0);
    let data: Vec<u8> = (0..300u32).map(|i| (i * 7 % 256) as u8).collect();
    assert_eq!(the_block_node::hashing::crc32(&data), crc32fast::hash(&data));
}
