//! Transaction data structures, their canonical bytes and the decisions of
//! signature verification.


pub mod binary;
pub mod signing;

use vstd::prelude::*;
use crate::hashing::{blake3_hash, spec_blake3};
use crate::le::{push_all, push_u64_le, u64_le};
use vstd::utf8::encode_utf8;

verus! {

/// Signature mode of a transaction.
#[derive(Clone, Copy, Debug, PartialEq, Eq, Structural)]
pub enum TxVersion {
    Ed25519Only,
    Dual,
    DilithiumOnly,
}

impl Default for TxVersion {
    fn default() -> (v: Self)
        ensures
            v == TxVersion::Ed25519Only,
    {
        TxVersion::Ed25519Only
    }
}

/// Signatures carried by a transaction.
#[derive(Debug)]
pub struct TxSignature {
    pub ed25519: Vec<u8>,
}

impl Default for TxSignature {
    fn default() -> (s: Self)
        ensures
            s.ed25519@.len() == 0,
    {
        TxSignature { ed25519: Vec::new() }
    }
}

/// Remote attestation accompanying a DID anchor transaction.
#[derive(Debug)]
pub struct TxDidAnchorAttestation {
    /// Hex-encoded verifying key of the remote signer.
    pub signer: String,
    /// Hex-encoded signature over the attestation message.
    pub signature: String,
}

/// Transaction anchoring a DID document hash on-chain.
#[derive(Debug)]
pub struct TxDidAnchor {
    pub address: String,
    pub public_key: Vec<u8>,
    pub document: String,
    pub nonce: u64,
    pub signature: Vec<u8>,
    pub remote_attestation: Option<TxDidAnchorAttestation>,
}

/// The bytes hashed for a DID anchor digest under a domain tag.
pub open spec fn spec_anchor_preimage(tag: Seq<u8>, address: Seq<u8>, document: Seq<u8>, nonce: u64) -> Seq<u8> {
    tag + address + spec_blake3(document) + u64_le(nonce)
}

impl TxDidAnchor {
    /// BLAKE3 of the document's UTF-8 bytes.
    pub fn document_hash(&self) -> (h: [u8; 32])
        ensures
            h@ == spec_blake3(encode_utf8(self.document@)),
    {
        blake3_hash(self.document.as_str().as_bytes())
    }

    fn digest_with(&self, tag: &[u8]) -> (h: [u8; 32])
        ensures
            h@ == spec_blake3(
                spec_anchor_preimage(tag@, encode_utf8(self.address@), encode_utf8(self.document@), self.nonce),
            ),
    {
        let mut buf: Vec<u8> = Vec::new();
        push_all(&mut buf, tag);
        push_all(&mut buf, self.address.as_str().as_bytes());
        let dh = self.document_hash();
        push_all(&mut buf, &dh);
        push_u64_le(&mut buf, self.nonce);
        assert(buf@ =~= spec_anchor_preimage(
            tag@,
            encode_utf8(self.address@),
            encode_utf8(self.document@),
            self.nonce,
        ));
        blake3_hash(&buf)
    }

    /// Digest signed by the owner: BLAKE3 of `did-anchor:`, the address, the
    /// document hash and the nonce (little-endian).
    pub fn owner_digest(&self) -> (h: [u8; 32])
        ensures
            h@ == spec_blake3(
                spec_anchor_preimage(
                    spec_owner_tag(),
                    encode_utf8(self.address@),
                    encode_utf8(self.document@),
                    self.nonce,
                ),
            ),
    {
        let tag: [u8; 11] = [0x64, 0x69, 0x64, 0x2d, 0x61, 0x6e, 0x63, 0x68, 0x6f, 0x72, 0x3a];
        assert(tag@ =~= spec_owner_tag());
        self.digest_with(&tag)
    }

    /// Digest of remote attestations: as the owner digest, under the tag
    /// `did-anchor-remote:`.
    pub fn remote_digest(&self) -> (h: [u8; 32])
        ensures
            h@ == spec_blake3(
                spec_anchor_preimage(
                    spec_remote_tag(),
                    encode_utf8(self.address@),
                    encode_utf8(self.document@),
                    self.nonce,
                ),
            ),
    {
        let tag: [u8; 18] = [
            0x64, 0x69, 0x64, 0x2d, 0x61, 0x6e, 0x63, 0x68, 0x6f, 0x72, 0x2d, 0x72, 0x65, 0x6d, 0x6f,
            0x74, 0x65, 0x3a,
        ];
        assert(tag@ =~= spec_remote_tag());
        self.digest_with(&tag)
    }
}

/// The ASCII bytes of `did-anchor:`.
pub open spec fn spec_owner_tag() -> Seq<u8> {
    seq![0x64u8, 0x69, 0x64, 0x2d, 0x61, 0x6e, 0x63, 0x68, 0x6f, 0x72, 0x3a]
}

/// The ASCII bytes of `did-anchor-remote:`.
pub open spec fn spec_remote_tag() -> Seq<u8> {
    seq![
        0x64u8, 0x69, 0x64, 0x2d, 0x61, 0x6e, 0x63, 0x68, 0x6f, 0x72, 0x2d, 0x72, 0x65, 0x6d, 0x6f,
        0x74, 0x65, 0x3a,
    ]
}

/// Fee lanes for transaction scheduling.
#[derive(Clone, Copy, Debug, PartialEq, Eq, Hash, PartialOrd, Ord, Structural)]
pub enum FeeLane {
    /// Standard retail transactions sharing the consumer lane.
    Consumer,
    /// High-throughput industrial transactions.
    Industrial,
}

impl FeeLane {
    pub fn as_str(&self) -> (s: &'static str)
        ensures
            s@ == (match self {
                FeeLane::Consumer => "consumer"@,
                FeeLane::Industrial => "industrial"@,
            }),
    {
        match self {
            FeeLane::Consumer => "consumer",
            FeeLane::Industrial => "industrial",
        }
    }
}

impl Default for FeeLane {
    fn default() -> (l: Self)
        ensures
            l == FeeLane::Consumer,
    {
        FeeLane::Consumer
    }
}

/// The unsigned body of a transaction.
#[derive(Debug)]
pub struct RawTxPayload {
    pub from_: String,
    pub to: String,
    pub amount_consumer: u64,
    pub amount_industrial: u64,
    pub fee: u64,
    pub pct_ct: u8,
    pub nonce: u64,
    pub memo: Vec<u8>,
}

/// A payload as a mathematical value.
pub struct RawTxPayloadView {
    pub from_: Seq<char>,
    pub to: Seq<char>,
    pub amount_consumer: u64,
    pub amount_industrial: u64,
    pub fee: u64,
    pub pct_ct: u8,
    pub nonce: u64,
    pub memo: Seq<u8>,
}

impl View for RawTxPayload {
    type V = RawTxPayloadView;

    open spec fn view(&self) -> RawTxPayloadView {
        RawTxPayloadView {
            from_: self.from_@,
            to: self.to@,
            amount_consumer: self.amount_consumer,
            amount_industrial: self.amount_industrial,
            fee: self.fee,
            pct_ct: self.pct_ct,
            nonce: self.nonce,
            memo: self.memo@,
        }
    }
}

impl RawTxPayload {
    pub fn new(
        from_: String,
        to: String,
        amount_consumer: u64,
        amount_industrial: u64,
        fee: u64,
        pct_ct: u8,
        nonce: u64,
        memo: Vec<u8>,
    ) -> (p: Self)
        ensures
            p.from_ == from_,
            p.to == to,
            p.amount_consumer == amount_consumer,
            p.amount_industrial == amount_industrial,
            p.fee == fee,
            p.pct_ct == pct_ct,
            p.nonce == nonce,
            p.memo == memo,
    {
        RawTxPayload { from_, to, amount_consumer, amount_industrial, fee, pct_ct, nonce, memo }
    }
}

/// A signed transaction.
#[derive(Debug)]
pub struct SignedTransaction {
    pub payload: RawTxPayload,
    pub public_key: Vec<u8>,
    pub signature: TxSignature,
    /// Priority fee paid to the miner above the base fee.
    pub tip: u64,
    /// Signer public keys of a multisig.
    pub signer_pubkeys: Vec<Vec<u8>>,
    /// Aggregated signatures concatenated in order.
    pub aggregate_signature: Vec<u8>,
    /// Required number of signatures.
    pub threshold: u8,
    pub lane: FeeLane,
    pub version: TxVersion,
}

/// The views of a list of byte vectors.
pub open spec fn vecs_view(v: Seq<Vec<u8>>) -> Seq<Seq<u8>> {
    Seq::new(v.len(), |i: int| v[i]@)
}

/// A signed transaction as a mathematical value.
pub struct SignedTransactionView {
    pub payload: RawTxPayloadView,
    pub public_key: Seq<u8>,
    pub signature: Seq<u8>,
    pub tip: u64,
    pub signer_pubkeys: Seq<Seq<u8>>,
    pub aggregate_signature: Seq<u8>,
    pub threshold: u8,
    pub lane: FeeLane,
    pub version: TxVersion,
}

impl View for SignedTransaction {
    type V = SignedTransactionView;

    open spec fn view(&self) -> SignedTransactionView {
        SignedTransactionView {
            payload: self.payload@,
            public_key: self.public_key@,
            signature: self.signature.ed25519@,
            tip: self.tip,
            signer_pubkeys: vecs_view(self.signer_pubkeys@),
            aggregate_signature: self.aggregate_signature@,
            threshold: self.threshold,
            lane: self.lane,
            version: self.version,
        }
    }
}

impl SignedTransaction {
    /// A single-signer Ed25519 transaction; no tip is a tip of 0.
    pub fn new(
        payload: RawTxPayload,
        public_key: Vec<u8>,
        signature: Vec<u8>,
        lane: FeeLane,
        tip: Option<u64>,
    ) -> (t: Self)
        ensures
            t.payload == payload,
            t.public_key == public_key,
            t.signature.ed25519 == signature,
            t.tip == (match tip {
                Some(x) => x,
                None => 0,
            }),
            t.signer_pubkeys@.len() == 0,
            t.aggregate_signature@.len() == 0,
            t.threshold == 0,
            t.lane == lane,
            t.version == TxVersion::Ed25519Only,
    {
        let tip = match tip {
            Some(x) => x,
            None => 0,
        };
        SignedTransaction {
            payload,
            public_key,
            signature: TxSignature { ed25519: signature },
            tip,
            signer_pubkeys: Vec::new(),
            aggregate_signature: Vec::new(),
            threshold: 0,
            lane,
            version: TxVersion::Ed25519Only,
        }
    }
}

/// Why a transaction was not admitted.
#[derive(Clone, Copy, Debug, PartialEq, Eq, Structural)]
pub enum TxAdmissionError {
    BadSignature,
    InvalidSelector,
    FeeOverflow,
}

/// Result of attempting to apply a transaction to state.
#[derive(Debug)]
pub enum TransactionResult {
    Applied(SignedTransaction),
    Rejected { tx: SignedTransaction, error: TxAdmissionError },
}

/// Blob transaction committing an opaque data blob by root hash.
#[derive(Debug)]
pub struct BlobTx {
    /// Owner account identifier.
    pub owner: String,
    /// Globally unique blob identifier.
    pub blob_id: [u8; 32],
    /// BLAKE3 commitment to the blob contents or its shards.
    pub blob_root: [u8; 32],
    /// Total uncompressed size of the blob in bytes.
    pub blob_size: u64,
    /// Fractal layer the blob targets (0 = L1, 1 = L2, 2 = L3).
    pub fractal_lvl: u8,
    /// Expiry epoch after which the blob can be pruned.
    pub expiry: Option<u64>,
}

/// A blob transaction as a mathematical value.
pub struct BlobTxView {
    pub owner: Seq<char>,
    pub blob_id: Seq<u8>,
    pub blob_root: Seq<u8>,
    pub blob_size: u64,
    pub fractal_lvl: u8,
    pub expiry: Option<u64>,
}

impl View for BlobTx {
    type V = BlobTxView;

    open spec fn view(&self) -> BlobTxView {
        BlobTxView {
            owner: self.owner@,
            blob_id: self.blob_id@,
            blob_root: self.blob_root@,
            blob_size: self.blob_size,
            fractal_lvl: self.fractal_lvl,
            expiry: self.expiry,
        }
    }
}

impl BlobTx {
    pub fn new(
        owner: String,
        blob_id: [u8; 32],
        blob_root: [u8; 32],
        blob_size: u64,
        fractal_lvl: u8,
        expiry: Option<u64>,
    ) -> (t: Self)
        ensures
            t.owner == owner,
            t.blob_id == blob_id,
            t.blob_root == blob_root,
            t.blob_size == blob_size,
            t.fractal_lvl == fractal_lvl,
            t.expiry == expiry,
    {
        BlobTx { owner, blob_id, blob_root, blob_size, fractal_lvl, expiry }
    }
}

} // verus!

verus! {

/// The canonical bytes of a payload, the message that signatures cover.
pub fn canonical_payload_bytes(payload: &RawTxPayload) -> (b: Vec<u8>)
    ensures
        b@ == binary::enc_raw_payload(payload@),
{
    match binary::encode_raw_payload(payload) {
        Ok(b) => b,
        Err(_) => Vec::new(),
    }
}

/// Canonical payload bytes, for bindings that hand the payload over by value.
pub fn canonical_payload_py(payload: RawTxPayload) -> (b: Vec<u8>)
    ensures
        b@ == binary::enc_raw_payload(payload@),
{
    canonical_payload_bytes(&payload)
}

/// Decodes canonical payload bytes, for bindings.
pub fn decode_payload_py(bytes: Vec<u8>) -> (r: Result<RawTxPayload, crate::util::binary_struct::DecodeError>)
    ensures
        match r {
            Ok(v) => binary::spec_decode_raw_payload(bytes@) == Ok::<RawTxPayloadView, crate::util::binary_struct::DecodeErrorView>(v@),
            Err(e) => binary::spec_decode_raw_payload(bytes@) == Err::<RawTxPayloadView, crate::util::binary_struct::DecodeErrorView>(e@),
        },
{
    binary::decode_raw_payload(bytes.as_slice())
}

} // verus!

verus! {

/// The bytes hashed for a transaction id: `TX`, the transaction format
/// version, the canonical payload bytes and the public key.
pub open spec fn spec_id_preimage(tx_version: u8, payload: RawTxPayloadView, public_key: Seq<u8>) -> Seq<u8> {
    seq![0x54u8, 0x58u8, tx_version] + binary::enc_raw_payload(payload) + public_key
}

impl SignedTransaction {
    /// The transaction id under the chain's transaction format version:
    /// BLAKE3 of `TX`, the version, the canonical payload and the public key.
    pub fn id(&self, tx_version: u8) -> (h: [u8; 32])
        ensures
            h@ == spec_blake3(spec_id_preimage(tx_version, self.payload@, self.public_key@)),
    {
        let mut buf: Vec<u8> = Vec::new();
        buf.push(0x54u8);
        buf.push(0x58u8);
        buf.push(tx_version);
        let payload = canonical_payload_bytes(&self.payload);
        push_all(&mut buf, payload.as_slice());
        push_all(&mut buf, self.public_key.as_slice());
        assert(buf@ =~= spec_id_preimage(tx_version, self.payload@, self.public_key@));
        blake3_hash(&buf)
    }
}

} // verus!
