use sha3::Digest;
use the_block_node::util::decimal::{decimal_i64, decimal_u64};
use the_block_node::util::hex::encode as hex_encode;
use the_block_node::util::versioned_blob::{decode_blob, encode_blob, DecodeErr, MAGIC_PRICE_BOARD};
use the_block_node::utxo::{Ledger, Op, OutPoint, Script, Transaction, TxIn, TxOut};
use the_block_node::vm::abi::{decode_gas, decode_u64, encode_gas, encode_u64};
use the_block_node::vm::contracts::htlc::{HashAlgo, Htlc};
use the_block_node::vm::state::State;
use the_block_node::vm::wasm::gas::{from_fuel, to_fuel};
use the_block_node::telemetry::counters::LabelCounters;

#[test]
fn blob_roundtrip_and_rejections() {
    let blob = encode_blob(MAGIC_PRICE_BOARD, 3, b"payload").expect("encode");
    let (version, payload) = decode_blob(&blob, MAGIC_PRICE_BOARD).expect("decode");
    assert_eq!(version, 3);
    assert_eq!(payload, b"payload");
    assert_eq!(decode_blob(&blob, *b"XXXX"), Err(DecodeErr::BadMagic));
    let mut corrupt = blob.clone();
    let last = corrupt.len() - 1;
    corrupt[last] ^= 1;
    assert_eq!(decode_blob(&corrupt, MAGIC_PRICE_BOARD), Err(DecodeErr::BadCrc));
    let crc = crc32fast::hash(&blob[..blob.len() - 4]);
    assert_eq!(&blob[blob.len() - 4..], &crc.to_le_bytes());
}

#[test]
fn abi_roundtrips() {
    assert_eq!(decode_u64(&encode_u64(0xdead_beef)), Some(0xdead_beef));
    assert_eq!(decode_gas(&encode_gas(10, 20)), Some((10, 20)));
    assert_eq!(decode_u64(&[1, 2, 3]), None);
}

#[test]
fn fuel_conversion() {
    assert_eq!(to_fuel(3), 300);
    assert_eq!(from_fuel(300), 3);
}

#[test]
fn htlc_settles_once() {
    let preimage = b"secret";
    let digest = sha3::Sha3_256::digest(preimage).to_vec();
    let mut h = Htlc::new(digest, HashAlgo::Sha3, 10);
    assert!(!h.redeem(b"wrong", 5));
    assert!(h.redeem(preimage, 5));
    assert!(!h.refund(20));
    assert!(!h.redeem(preimage, 5));
    let mut late = Htlc::new(ripemd::Ripemd160::digest(preimage).to_vec(), HashAlgo::Ripemd160, 10);
    assert!(late.refund(11));
    assert!(!late.redeem(preimage, 5));
}

#[test]
fn contract_storage_reads_what_was_written() {
    let mut s = State::new();
    let id = s.deploy(vec![0]);
    s.set_storage(id, vec![4, 2]);
    assert_eq!(s.storage(id), Some(vec![4, 2]));
}

#[test]
fn ledger_spends_outputs_once() {
    let mut ledger = Ledger::new();
    let mint = Transaction {
        inputs: vec![],
        outputs: vec![TxOut { value: 50, script_pubkey: Script(vec![Op::True]) }],
    };
    ledger.apply_tx(&mint).expect("mint");
    let spend = Transaction {
        inputs: vec![TxIn {
            previous_output: OutPoint { txid: mint.txid(), index: 0 },
            script_sig: Script(vec![]),
        }],
        outputs: vec![TxOut { value: 50, script_pubkey: Script(vec![Op::True]) }],
    };
    ledger.apply_tx(&spend).expect("spend");
    assert_eq!(ledger.apply_tx(&spend), Err("missing utxo".to_string()));
    let mut h = blake3::Hasher::new();
    h.update(&mint.txid());
    h.update(&0u32.to_le_bytes());
    h.update(&50u64.to_le_bytes());
    assert_eq!(spend.txid(), *h.finalize().as_bytes());
}

#[test]
fn decimal_and_hex_text() {
    assert_eq!(decimal_u64(0), "0");
    assert_eq!(decimal_u64(1234567890), "1234567890");
    assert_eq!(decimal_u64(u64::MAX), u64::MAX.to_string());
    assert_eq!(decimal_i64(-42), "-42");
    assert_eq!(decimal_i64(i64::MIN), i64::MIN.to_string());
    assert_eq!(hex_encode(&[0x00, 0xab, 0x7f]), "00ab7f");
}

#[test]
fn label_counters_keep_other_labels() {
    let mut c = LabelCounters::new();
    c.inc("a");
    c.inc_by("b", 5);
    c.set("a", 9);
    assert_eq!(c.get("a"), 9);
    assert_eq!(c.get("b"), 5);
    assert_eq!(c.get("c"), 0);
}
