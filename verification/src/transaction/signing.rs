//! What signature verification of a transaction has to check: which public
//! keys must have signed the canonical payload with which signatures.

use vstd::prelude::*;
use crate::le::copy_range;
use crate::transaction::{canonical_payload_bytes, vecs_view, SignedTransaction, SignedTransactionView,
    TxVersion};
use crate::transaction::binary::enc_raw_payload;

verus! {

/// Length of a public key.
pub const PUBLIC_KEY_LEN: usize = 32;

/// Length of one signature.
pub const SIGNATURE_LEN: usize = 64;

/// How a transaction's signatures are checked.
#[derive(Debug)]
pub enum SignaturePlan {
    /// The transaction fails verification without any signature check.
    Reject,
    /// Every `(public key, signature)` pair must verify over `payload`, the
    /// canonical payload bytes.
    CheckAll { payload: Vec<u8>, pairs: Vec<(Vec<u8>, Vec<u8>)> },
}

/// A multisig transaction: signer keys, an aggregate signature and a
/// positive threshold.
pub open spec fn is_multisig(t: SignedTransactionView) -> bool {
    t.signer_pubkeys.len() > 0 && t.aggregate_signature.len() > 0 && t.threshold > 0
}

/// Number of 64-byte chunks (the last one possibly shorter) of `len` bytes.
pub open spec fn chunk_count(len: int) -> int {
    (len + 63) / 64
}

/// The pairs to check, or `None` when the transaction is rejected outright.
///
/// A multisig transaction cuts its aggregate signature into 64-byte chunks;
/// their number must reach the threshold and equal the number of signer keys,
/// every chunk must be a whole signature and every key 32 bytes. Otherwise an
/// Ed25519-only transaction checks its one key and signature; the other
/// modes need post-quantum signatures, which this build does not verify.
pub open spec fn spec_signature_pairs(t: SignedTransactionView) -> Option<Seq<(Seq<u8>, Seq<u8>)>> {
    if is_multisig(t) {
        let n = chunk_count(t.aggregate_signature.len() as int);
        if n < t.threshold || n != t.signer_pubkeys.len() {
            None
        } else if t.aggregate_signature.len() % 64 != 0 || exists|i: int|
            0 <= i < t.signer_pubkeys.len() && (#[trigger] t.signer_pubkeys[i]).len() != 32 {
            None
        } else {
            Some(
                Seq::new(
                    n as nat,
                    |i: int| (t.signer_pubkeys[i], t.aggregate_signature.subrange(64 * i, 64 * i + 64)),
                ),
            )
        }
    } else {
        match t.version {
            TxVersion::Ed25519Only => if t.public_key.len() == 32 && t.signature.len() == 64 {
                Some(seq![(t.public_key, t.signature)])
            } else {
                None
            },
            _ => None,
        }
    }
}

/// The views of a list of key/signature pairs.
pub open spec fn pairs_view(v: Seq<(Vec<u8>, Vec<u8>)>) -> Seq<(Seq<u8>, Seq<u8>)> {
    Seq::new(v.len(), |i: int| (v[i].0@, v[i].1@))
}

/// The signature checks that decide whether `tx` verifies: it verifies
/// exactly when the plan is `CheckAll` and every pair verifies.
pub fn signature_plan(tx: &SignedTransaction) -> (plan: SignaturePlan)
    ensures
        match plan {
            SignaturePlan::Reject => spec_signature_pairs(tx@) is None,
            SignaturePlan::CheckAll { payload, pairs } => spec_signature_pairs(tx@) == Some(
                pairs_view(pairs@),
            ) && payload@ == enc_raw_payload(tx.payload@),
        },
{
    let agg_len = tx.aggregate_signature.len();
    let nkeys = tx.signer_pubkeys.len();
    let mut pairs: Vec<(Vec<u8>, Vec<u8>)> = Vec::new();
    if nkeys > 0 && agg_len > 0 && tx.threshold > 0 {
        let n = agg_len / 64 + if agg_len % 64 != 0 { 1 } else { 0 };
        assert(n == chunk_count(agg_len as int));
        if n < tx.threshold as usize || n != nkeys {
            return SignaturePlan::Reject;
        }
        if agg_len % 64 != 0 {
            return SignaturePlan::Reject;
        }
        let ghost t = tx@;
        let mut i: usize = 0;
        while i < nkeys
            invariant
                i <= nkeys,
                nkeys == tx.signer_pubkeys@.len(),
                n == nkeys,
                agg_len == tx.aggregate_signature@.len(),
                agg_len == 64 * n,
                t == tx@,
                pairs@.len() == i,
                forall|k: int| 0 <= k < i ==> tx.signer_pubkeys@[k]@.len() == 32,
                is_multisig(t),
                !(n < t.threshold),
                forall|k: int|
                    0 <= k < i ==> (#[trigger] pairs@[k]).0@ == t.signer_pubkeys[k] && pairs@[k].1@
                        == t.aggregate_signature.subrange(64 * k, 64 * k + 64),
            decreases nkeys - i,
        {
            if tx.signer_pubkeys[i].len() != 32 {
                assert(t.signer_pubkeys[i as int].len() != 32);
                assert(is_multisig(t));
                assert(exists|j: int| 0 <= j < t.signer_pubkeys.len() && (#[trigger] t.signer_pubkeys[j]).len() != 32);
                return SignaturePlan::Reject;
            }
            assert(64 * i + 64 <= agg_len) by (nonlinear_arith)
                requires
                    i < n,
                    agg_len == 64 * n,
            ;
            let pk = copy_range(tx.signer_pubkeys[i].as_slice(), 0, 32);
            let sig = copy_range(tx.aggregate_signature.as_slice(), 64 * i, 64 * i + 64);
            let ghost before = pairs@;
            pairs.push((pk, sig));
            proof {
                assert(pk@ =~= t.signer_pubkeys[i as int]);
                assert(sig@ == t.aggregate_signature.subrange(64 * i, 64 * i + 64));
            }
            i = i + 1;
        }
        assert(pairs_view(pairs@) =~= Seq::new(
            n as nat,
            |k: int| (t.signer_pubkeys[k], t.aggregate_signature.subrange(64 * k, 64 * k + 64)),
        ));
        let payload = canonical_payload_bytes(&tx.payload);
        return SignaturePlan::CheckAll { payload, pairs };
    }
    match tx.version {
        TxVersion::Ed25519Only => {
            if tx.public_key.len() == 32 && tx.signature.ed25519.len() == 64 {
                let pk = copy_range(tx.public_key.as_slice(), 0, 32);
                let sig = copy_range(tx.signature.ed25519.as_slice(), 0, 64);
                pairs.push((pk, sig));
                assert(pk@ =~= tx.public_key@);
                assert(sig@ =~= tx.signature.ed25519@);
                assert(pairs_view(pairs@) =~= seq![(tx.public_key@, tx.signature.ed25519@)]);
                let payload = canonical_payload_bytes(&tx.payload);
                SignaturePlan::CheckAll { payload, pairs }
            } else {
                SignaturePlan::Reject
            }
        },
        _ => SignaturePlan::Reject,
    }
}

} // verus!

verus! {

/// A multisig transaction whose aggregate signature is `n` whole 64-byte
/// signatures, with `n` signer keys of 32 bytes each and a threshold between
/// 1 and `n`, is checked pair by pair: key `i` against the `i`-th 64-byte
/// signature, however far `n` exceeds the threshold.
pub proof fn law_multisig_checks_every_signer(t: SignedTransactionView)
    requires
        t.signer_pubkeys.len() > 0,
        t.aggregate_signature.len() == 64 * t.signer_pubkeys.len(),
        forall|i: int| 0 <= i < t.signer_pubkeys.len() ==> (#[trigger] t.signer_pubkeys[i]).len() == 32,
        0 < t.threshold,
        t.threshold <= t.signer_pubkeys.len(),
    ensures
        spec_signature_pairs(t) matches Some(pairs) && pairs.len() == t.signer_pubkeys.len() && forall|i: int|
            0 <= i < pairs.len() ==> #[trigger] pairs[i] == (
                t.signer_pubkeys[i],
                t.aggregate_signature.subrange(64 * i, 64 * i + 64),
            ),
{
    let k = t.signer_pubkeys.len() as int;
    assert((64 * k + 63) / 64 == k) by (nonlinear_arith)
        requires
            k > 0,
    ;
    assert((64 * k) % 64 == 0) by (nonlinear_arith);
    assert(is_multisig(t));
}

/// A multisig transaction carrying `n` whole signatures, fewer than its
/// threshold, is rejected without any check, whatever its keys.
pub proof fn law_multisig_rejects_below_threshold(t: SignedTransactionView, n: nat)
    requires
        t.signer_pubkeys.len() > 0,
        n > 0,
        t.aggregate_signature.len() == 64 * n,
        n < t.threshold,
    ensures
        spec_signature_pairs(t) is None,
{
    assert((64 * n + 63) / 64 == n) by (nonlinear_arith)
        requires
            n > 0,
    ;
}

/// A single-signer Ed25519 transaction with a 32-byte key and a 64-byte
/// signature is checked on exactly that one pair; one with a key or
/// signature of another length is rejected.
pub proof fn law_single_signer(t: SignedTransactionView)
    requires
        t.version == TxVersion::Ed25519Only,
        t.signer_pubkeys.len() == 0,
    ensures
        t.public_key.len() == 32 && t.signature.len() == 64 ==> spec_signature_pairs(t) == Some(
            seq![(t.public_key, t.signature)],
        ),
        !(t.public_key.len() == 32 && t.signature.len() == 64) ==> spec_signature_pairs(t) is None,
{
}

} // verus!
