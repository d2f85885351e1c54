use the_block_node::transaction::binary::{
    decode_blob_tx, decode_raw_payload, decode_signed_transaction, encode_blob_tx, encode_raw_payload,
    encode_signed_transaction,
};
use the_block_node::transaction::signing::{signature_plan, SignaturePlan};
use the_block_node::transaction::{
    canonical_payload_bytes, BlobTx, FeeLane, RawTxPayload, SignedTransaction, TxDidAnchor, TxSignature,
    TxVersion,
};
use the_block_node::tx::web::{FuncTx, SiteManifestTx};
use the_block_node::util::binary_struct::DecodeError;

fn sample_payload() -> RawTxPayload {
    RawTxPayload {
        from_: "alice".to_string(),
        to: "bob".to_string(),
        amount_consumer: 1,
        amount_industrial: 0,
        fee: 100,
        pct_ct: 100,
        nonce: 1,
        memo: Vec::new(),
    }
}

fn payload_eq(a: &RawTxPayload, b: &RawTxPayload) -> bool {
    a.from_ == b.from_
        && a.to == b.to
        && a.amount_consumer == b.amount_consumer
        && a.amount_industrial == b.amount_industrial
        && a.fee == b.fee
        && a.pct_ct == b.pct_ct
        && a.nonce == b.nonce
        && a.memo == b.memo
}

#[test]
fn signed_transaction_new_handles_optional_tip() {
    let payload = sample_payload();
    let public_key = vec![1u8; 32];
    let signature = vec![2u8; 64];
    let tx = SignedTransaction::new(
        RawTxPayload::new(
            payload.from_.clone(),
            payload.to.clone(),
            payload.amount_consumer,
            payload.amount_industrial,
            payload.fee,
            payload.pct_ct,
            payload.nonce,
            payload.memo.clone(),
        ),
        public_key.clone(),
        signature.clone(),
        FeeLane::Consumer,
        None,
    );
    assert_eq!(tx.tip, 0);
    assert_eq!(tx.public_key, public_key);
    assert_eq!(tx.signature.ed25519, signature);
    let tx_with_tip = SignedTransaction::new(payload, public_key, signature, FeeLane::Consumer, Some(42));
    assert_eq!(tx_with_tip.tip, 42);
}

#[test]
fn canonical_payload_bytes_deterministic() {
    let payload = sample_payload();
    let bytes1 = canonical_payload_bytes(&payload);
    let bytes2 = canonical_payload_bytes(&payload);
    assert_eq!(bytes1, bytes2, "canonical encoding must be deterministic");
}

#[test]
fn tx_signature_roundtrip() {
    let sig = TxSignature { ed25519: vec![1, 2, 3, 4] };
    assert_eq!(sig.ed25519, vec![1, 2, 3, 4]);
}

#[test]
fn tx_version_variants() {
    let _ = TxVersion::Ed25519Only;
    let _ = TxVersion::DilithiumOnly;
    let _ = TxVersion::Dual;
}

#[test]
fn fee_lane_variants() {
    assert_ne!(
        format!("{:?}", FeeLane::Consumer),
        format!("{:?}", FeeLane::Industrial),
        "Consumer and Industrial lanes should be distinct"
    );
    assert_eq!(FeeLane::Consumer.as_str(), "consumer");
    assert_eq!(FeeLane::Industrial.as_str(), "industrial");
}

fn binary_sample_payload() -> RawTxPayload {
    RawTxPayload {
        from_: "alice".into(),
        to: "bob".into(),
        amount_consumer: 10,
        amount_industrial: 5,
        fee: 2,
        pct_ct: 75,
        nonce: 9,
        memo: vec![1, 2, 3],
    }
}

fn sample_signed_tx() -> SignedTransaction {
    SignedTransaction {
        payload: binary_sample_payload(),
        public_key: vec![11, 12, 13],
        signature: TxSignature { ed25519: vec![7, 8, 9] },
        tip: 3,
        signer_pubkeys: vec![vec![1, 1], vec![2, 2, 2]],
        aggregate_signature: vec![9, 9],
        threshold: 2,
        lane: FeeLane::Industrial,
        version: TxVersion::Dual,
    }
}

fn sample_blob_tx() -> BlobTx {
    BlobTx {
        owner: "owner".into(),
        blob_id: [1u8; 32],
        blob_root: [2u8; 32],
        blob_size: 2048,
        fractal_lvl: 2,
        expiry: Some(77),
    }
}

#[test]
fn raw_payload_round_trip() {
    let payload = binary_sample_payload();
    let encoded = encode_raw_payload(&payload).expect("encode payload");
    let decoded = decode_raw_payload(&encoded).expect("decode payload");
    assert_eq!(decoded.from_, payload.from_);
    assert_eq!(decoded.to, payload.to);
    assert_eq!(decoded.amount_consumer, payload.amount_consumer);
    assert_eq!(decoded.amount_industrial, payload.amount_industrial);
    assert_eq!(decoded.fee, payload.fee);
    assert_eq!(decoded.pct_ct, payload.pct_ct);
    assert_eq!(decoded.nonce, payload.nonce);
    assert_eq!(decoded.memo, payload.memo);
}

#[test]
fn signed_tx_round_trip() {
    let tx = sample_signed_tx();
    let encoded = encode_signed_transaction(&tx).expect("encode tx");
    let decoded = decode_signed_transaction(&encoded).expect("decode tx");
    assert_eq!(decoded.payload.from_, tx.payload.from_);
    assert_eq!(decoded.public_key, tx.public_key);
    assert_eq!(decoded.signature.ed25519, tx.signature.ed25519);
    assert_eq!(decoded.tip, tx.tip);
    assert_eq!(decoded.signer_pubkeys, tx.signer_pubkeys);
    assert_eq!(decoded.aggregate_signature, tx.aggregate_signature);
    assert_eq!(decoded.threshold, tx.threshold);
    assert_eq!(decoded.lane, tx.lane);
    assert_eq!(decoded.version, tx.version);
}

#[test]
fn blob_tx_round_trip() {
    let tx = sample_blob_tx();
    let encoded = encode_blob_tx(&tx).expect("encode blob");
    let decoded = decode_blob_tx(&encoded).expect("decode blob");
    assert_eq!(decoded.owner, tx.owner);
    assert_eq!(decoded.blob_id, tx.blob_id);
    assert_eq!(decoded.blob_root, tx.blob_root);
    assert_eq!(decoded.blob_size, tx.blob_size);
    assert_eq!(decoded.fractal_lvl, tx.fractal_lvl);
    assert_eq!(decoded.expiry, tx.expiry);
}

#[test]
fn payload_layout_is_exact() {
    let p = sample_payload();
    let bytes = encode_raw_payload(&p).expect("encode");
    // field count, then "from_" and its value
    assert_eq!(&bytes[..8], &8u64.to_le_bytes());
    assert_eq!(&bytes[8..16], &5u64.to_le_bytes());
    assert_eq!(&bytes[16..21], b"from_");
    assert_eq!(&bytes[21..29], &5u64.to_le_bytes());
    assert_eq!(&bytes[29..34], b"alice");
    let decoded = decode_raw_payload(&bytes).expect("decode");
    assert!(payload_eq(&decoded, &p));
}

#[test]
fn decode_errors_are_reported() {
    let p = binary_sample_payload();
    let mut bytes = encode_raw_payload(&p).expect("encode");
    bytes.push(0);
    assert!(matches!(decode_raw_payload(&bytes), Err(DecodeError::TrailingBytes(1))));
    bytes.pop();
    bytes.truncate(bytes.len() - 1);
    assert!(matches!(decode_raw_payload(&bytes), Err(DecodeError::Cursor(_))));
    let mut wrong_count = encode_raw_payload(&p).expect("encode");
    wrong_count[0] = 7;
    assert!(decode_raw_payload(&wrong_count).is_err());
    let mut unknown = Vec::new();
    unknown.extend_from_slice(&1u64.to_le_bytes());
    unknown.extend_from_slice(&3u64.to_le_bytes());
    unknown.extend_from_slice(b"zzz");
    assert!(matches!(decode_raw_payload(&unknown), Err(DecodeError::UnknownField(ref f)) if f == "zzz"));
}

#[test]
fn signature_plan_single_signer() {
    let mut tx = SignedTransaction::new(sample_payload(), vec![1u8; 32], vec![2u8; 64], FeeLane::Consumer, None);
    match signature_plan(&tx) {
        SignaturePlan::CheckAll { payload, pairs } => {
            assert_eq!(payload, canonical_payload_bytes(&tx.payload));
            assert_eq!(pairs, vec![(vec![1u8; 32], vec![2u8; 64])]);
        }
        SignaturePlan::Reject => panic!("expected checks"),
    }
    tx.signature.ed25519.pop();
    assert!(matches!(signature_plan(&tx), SignaturePlan::Reject));
    tx.signature.ed25519.push(0);
    tx.version = TxVersion::Dual;
    assert!(matches!(signature_plan(&tx), SignaturePlan::Reject));
}

#[test]
fn signature_plan_multisig() {
    let mut tx = SignedTransaction::new(sample_payload(), vec![], vec![], FeeLane::Consumer, None);
    tx.signer_pubkeys = vec![vec![3u8; 32], vec![4u8; 32]];
    tx.aggregate_signature = [vec![5u8; 64], vec![6u8; 64]].concat();
    tx.threshold = 2;
    match signature_plan(&tx) {
        SignaturePlan::CheckAll { pairs, .. } => {
            assert_eq!(pairs.len(), 2);
            assert_eq!(pairs[1], (vec![4u8; 32], vec![6u8; 64]));
        }
        SignaturePlan::Reject => panic!("expected checks"),
    }
    tx.threshold = 3;
    assert!(matches!(signature_plan(&tx), SignaturePlan::Reject));
}

#[test]
fn did_anchor_digests_use_their_domain_tags() {
    let anchor = TxDidAnchor {
        address: "addr".to_string(),
        public_key: vec![],
        document: "{}".to_string(),
        nonce: 5,
        signature: vec![],
        remote_attestation: None,
    };
    let doc = blake3::hash(b"{}");
    assert_eq!(anchor.document_hash(), *doc.as_bytes());
    let mut h = blake3::Hasher::new();
    h.update(b"did-anchor:");
    h.update(b"addr");
    h.update(doc.as_bytes());
    h.update(&5u64.to_le_bytes());
    assert_eq!(anchor.owner_digest(), *h.finalize().as_bytes());
    let mut r = blake3::Hasher::new();
    r.update(b"did-anchor-remote:");
    r.update(b"addr");
    r.update(doc.as_bytes());
    r.update(&5u64.to_le_bytes());
    assert_eq!(anchor.remote_digest(), *r.finalize().as_bytes());
}

#[test]
fn web_transactions_use_the_consumer_lane() {
    let site = SiteManifestTx {
        owner: "o".into(),
        domain: "example.block".into(),
        root_blob: [0; 32],
        dyn_entry: None,
        public: true,
    };
    let func = FuncTx { owner: "o".into(), func_id: [1; 32], wasm_root: [2; 32], gas_limit: 10, http_paths: vec![] };
    assert_eq!(site.lane(), FeeLane::Consumer);
    assert_eq!(func.lane(), FeeLane::Consumer);
}

#[test]
fn transaction_id_hashes_the_canonical_payload() {
    let tx = SignedTransaction::new(sample_payload(), vec![7; 32], vec![], FeeLane::Consumer, None);
    let mut h = blake3::Hasher::new();
    h.update(b"TX");
    h.update(&[1]);
    h.update(&canonical_payload_bytes(&tx.payload));
    h.update(&tx.public_key);
    assert_eq!(tx.id(1), *h.finalize().as_bytes());
}
