//! Canonical binary layout of transactions: each struct is a field count
//! followed by named fields in a fixed order; decoding accepts the fields in
//! any order, each at most once.

use vstd::prelude::*;
use vstd::utf8::encode_utf8;
use crate::le::{push_all, u32_le, u64_le};
use crate::text::str_eq;
use crate::transaction::{vecs_view, BlobTx, BlobTxView, FeeLane, RawTxPayload, RawTxPayloadView,
    SignedTransaction, SignedTransactionView, TxSignature, TxVersion};
use crate::util::binary_cursor::{CursorError, lemma_is_at_prefix, lemma_read_u32, read_u32, spec_read_u32, write_u32, enc_option_u64, lemma_read_option_u64, read_option_u64,
    spec_read_option_u64, write_option_u64, 
    enc_bytes, enc_string, enc_u8, is_at, lemma_is_at_split, lemma_read_bytes, lemma_read_string,
    lemma_read_u64, lemma_read_u8, read_bytes, read_string, read_u64, read_u8, spec_read_bytes,
    spec_read_string, spec_read_u64, spec_read_u8, write_bytes, write_string, write_u64, write_u8,
};
use crate::util::binary_struct::{
    assign_once, decoded, enc_field, ensure_exhausted, lemma_field_at, lemma_read_fixed_array, read_fixed_array, spec_read_fixed_array, take_field,
    take_field_d, DecodeError,
    DecodeErrorView,
};

verus! {

/// Error returned by the transaction encoders.
#[derive(Debug)]
pub enum EncodeError {
    /// Collection length exceeded the representable range.
    LengthOverflow(&'static str),
}

// ---------------------------------------------------------------------------
// RawTxPayload
// ---------------------------------------------------------------------------

/// The canonical bytes of a payload.
#[verifier::opaque]
pub open spec fn enc_raw_payload(p: RawTxPayloadView) -> Seq<u8> {
    u64_le(8) + enc_field("from_"@, enc_string(p.from_)) + enc_field("to"@, enc_string(p.to))
        + enc_field("amount_consumer"@, u64_le(p.amount_consumer)) + enc_field(
        "amount_industrial"@,
        u64_le(p.amount_industrial),
    ) + enc_field("fee"@, u64_le(p.fee)) + enc_field("pct"@, enc_u8(p.pct_ct)) + enc_field(
        "nonce"@,
        u64_le(p.nonce),
    ) + enc_field("memo"@, enc_bytes(p.memo))
}

/// The payload fields seen so far while decoding.
pub struct RawSlots {
    pub from_: Option<Seq<char>>,
    pub to: Option<Seq<char>>,
    pub amount_consumer: Option<u64>,
    pub amount_industrial: Option<u64>,
    pub fee: Option<u64>,
    pub pct: Option<u8>,
    pub nonce: Option<u64>,
    pub memo: Option<Seq<u8>>,
}

pub open spec fn raw_slots_empty() -> RawSlots {
    RawSlots {
        from_: None,
        to: None,
        amount_consumer: None,
        amount_industrial: None,
        fee: None,
        pct: None,
        nonce: None,
        memo: None,
    }
}

/// Decoding one payload field at `pos`.
#[verifier::opaque]
pub open spec fn raw_field(data: Seq<u8>, pos: int, s: RawSlots) -> Result<(RawSlots, int), DecodeErrorView> {
    match spec_read_string(data, pos) {
        Err(e) => Err(DecodeErrorView::Cursor(e)),
        Ok((key, p)) => if key == "from_"@ {
            match take_field(s.from_ is Some, spec_read_string(data, p), "from_"@) {
                Ok((v, q)) => Ok((RawSlots { from_: Some(v), ..s }, q)),
                Err(e) => Err(e),
            }
        } else if key == "to"@ {
            match take_field(s.to is Some, spec_read_string(data, p), "to"@) {
                Ok((v, q)) => Ok((RawSlots { to: Some(v), ..s }, q)),
                Err(e) => Err(e),
            }
        } else if key == "amount_consumer"@ {
            match take_field(s.amount_consumer is Some, spec_read_u64(data, p), "amount_consumer"@) {
                Ok((v, q)) => Ok((RawSlots { amount_consumer: Some(v), ..s }, q)),
                Err(e) => Err(e),
            }
        } else if key == "amount_industrial"@ {
            match take_field(s.amount_industrial is Some, spec_read_u64(data, p), "amount_industrial"@) {
                Ok((v, q)) => Ok((RawSlots { amount_industrial: Some(v), ..s }, q)),
                Err(e) => Err(e),
            }
        } else if key == "fee"@ {
            match take_field(s.fee is Some, spec_read_u64(data, p), "fee"@) {
                Ok((v, q)) => Ok((RawSlots { fee: Some(v), ..s }, q)),
                Err(e) => Err(e),
            }
        } else if key == "pct"@ {
            match take_field(s.pct is Some, spec_read_u8(data, p), "pct"@) {
                Ok((v, q)) => Ok((RawSlots { pct: Some(v), ..s }, q)),
                Err(e) => Err(e),
            }
        } else if key == "nonce"@ {
            match take_field(s.nonce is Some, spec_read_u64(data, p), "nonce"@) {
                Ok((v, q)) => Ok((RawSlots { nonce: Some(v), ..s }, q)),
                Err(e) => Err(e),
            }
        } else if key == "memo"@ {
            match take_field(s.memo is Some, spec_read_bytes(data, p), "memo"@) {
                Ok((v, q)) => Ok((RawSlots { memo: Some(v), ..s }, q)),
                Err(e) => Err(e),
            }
        } else {
            Err(DecodeErrorView::UnknownField(key))
        },
    }
}

/// Decoding `n` payload fields from `pos`.
pub open spec fn raw_fields(data: Seq<u8>, pos: int, n: nat, s: RawSlots) -> Result<(RawSlots, int), DecodeErrorView>
    decreases n,
{
    if n == 0 {
        Ok((s, pos))
    } else {
        match raw_field(data, pos, s) {
            Ok((s2, p2)) => raw_fields(data, p2, (n - 1) as nat, s2),
            Err(e) => Err(e),
        }
    }
}

/// The payload once all fields are read: every field but the memo is
/// required; an absent memo is empty.
pub open spec fn raw_finish(s: RawSlots) -> Result<RawTxPayloadView, DecodeErrorView> {
    if s.from_ is None {
        Err(DecodeErrorView::MissingField("from_"@))
    } else if s.to is None {
        Err(DecodeErrorView::MissingField("to"@))
    } else if s.amount_consumer is None {
        Err(DecodeErrorView::MissingField("amount_consumer"@))
    } else if s.amount_industrial is None {
        Err(DecodeErrorView::MissingField("amount_industrial"@))
    } else if s.fee is None {
        Err(DecodeErrorView::MissingField("fee"@))
    } else if s.pct is None {
        Err(DecodeErrorView::MissingField("pct"@))
    } else if s.nonce is None {
        Err(DecodeErrorView::MissingField("nonce"@))
    } else {
        Ok(
            RawTxPayloadView {
                from_: s.from_->Some_0,
                to: s.to->Some_0,
                amount_consumer: s.amount_consumer->Some_0,
                amount_industrial: s.amount_industrial->Some_0,
                fee: s.fee->Some_0,
                pct_ct: s.pct->Some_0,
                nonce: s.nonce->Some_0,
                memo: match s.memo {
                    Some(m) => m,
                    None => Seq::empty(),
                },
            },
        )
    }
}

/// Reading a payload at `pos`: the field count, the fields, then a check
/// that there were exactly 8 of them.
pub open spec fn spec_read_raw_payload(data: Seq<u8>, pos: int) -> Result<(RawTxPayloadView, int), DecodeErrorView> {
    match spec_read_u64(data, pos) {
        Err(e) => Err(DecodeErrorView::Cursor(e)),
        Ok((n, p)) => match raw_fields(data, p, n as nat, raw_slots_empty()) {
            Err(e) => Err(e),
            Ok((s, q)) => if n != 8 {
                Err(DecodeErrorView::InvalidFieldCount { expected: 8, actual: n })
            } else {
                match raw_finish(s) {
                    Ok(v) => Ok((v, q)),
                    Err(e) => Err(e),
                }
            },
        },
    }
}

/// Decoding a whole buffer as one payload.
pub open spec fn spec_decode_raw_payload(data: Seq<u8>) -> Result<RawTxPayloadView, DecodeErrorView> {
    match spec_read_raw_payload(data, 0) {
        Err(e) => Err(e),
        Ok((v, p)) => if p == data.len() {
            Ok(v)
        } else {
            Err(DecodeErrorView::TrailingBytes(data.len() - p))
        },
    }
}

/// The payload's strings and memo have lengths that a `u64` holds.
pub open spec fn raw_payload_fits(p: RawTxPayloadView) -> bool {
    encode_utf8(p.from_).len() <= u64::MAX && encode_utf8(p.to).len() <= u64::MAX && p.memo.len()
        <= u64::MAX
}

struct RawPayloadSlots {
    from_: Option<String>,
    to: Option<String>,
    amount_consumer: Option<u64>,
    amount_industrial: Option<u64>,
    fee: Option<u64>,
    pct: Option<u8>,
    nonce: Option<u64>,
    memo: Option<Vec<u8>>,
}

impl View for RawPayloadSlots {
    type V = RawSlots;

    closed spec fn view(&self) -> RawSlots {
        RawSlots {
            from_: self.from_.deep_view(),
            to: self.to.deep_view(),
            amount_consumer: self.amount_consumer,
            amount_industrial: self.amount_industrial,
            fee: self.fee,
            pct: self.pct,
            nonce: self.nonce,
            memo: match self.memo {
                Some(m) => Some(m@),
                None => None,
            },
        }
    }
}

fn write_string_field(out: &mut Vec<u8>, name: &str, v: &str)
    ensures
        final(out)@ == old(out)@ + enc_field(name@, enc_string(v@)),
{
    write_string(out, name);
    write_string(out, v);
    assert(final(out)@ =~= old(out)@ + enc_field(name@, enc_string(v@)));
}

fn write_u64_field(out: &mut Vec<u8>, name: &str, v: u64)
    ensures
        final(out)@ == old(out)@ + enc_field(name@, u64_le(v)),
{
    write_string(out, name);
    write_u64(out, v);
    assert(final(out)@ =~= old(out)@ + enc_field(name@, u64_le(v)));
}

fn write_u8_field(out: &mut Vec<u8>, name: &str, v: u8)
    ensures
        final(out)@ == old(out)@ + enc_field(name@, enc_u8(v)),
{
    write_string(out, name);
    write_u8(out, v);
    assert(final(out)@ =~= old(out)@ + enc_field(name@, enc_u8(v)));
}

fn write_bytes_field(out: &mut Vec<u8>, name: &str, v: &[u8])
    ensures
        final(out)@ == old(out)@ + enc_field(name@, enc_bytes(v@)),
{
    write_string(out, name);
    write_bytes(out, v);
    assert(final(out)@ =~= old(out)@ + enc_field(name@, enc_bytes(v@)));
}

fn raw_payload_bytes(payload: &RawTxPayload) -> (b: Vec<u8>)
    ensures
        b@ == enc_raw_payload(payload@),
{
    reveal(enc_raw_payload);
    let mut out: Vec<u8> = Vec::new();
    write_u64(&mut out, 8);
    assert(out@ =~= u64_le(8));
    write_string_field(&mut out, "from_", payload.from_.as_str());
    write_string_field(&mut out, "to", payload.to.as_str());
    write_u64_field(&mut out, "amount_consumer", payload.amount_consumer);
    write_u64_field(&mut out, "amount_industrial", payload.amount_industrial);
    write_u64_field(&mut out, "fee", payload.fee);
    write_u8_field(&mut out, "pct", payload.pct_ct);
    write_u64_field(&mut out, "nonce", payload.nonce);
    write_bytes_field(&mut out, "memo", payload.memo.as_slice());
    out
}

pub(crate) fn write_raw_payload(out: &mut Vec<u8>, payload: &RawTxPayload)
    ensures
        final(out)@ == old(out)@ + enc_raw_payload(payload@),
{
    let b = raw_payload_bytes(payload);
    push_all(out, b.as_slice());
}

/// Encodes a payload in the canonical layout.
pub fn encode_raw_payload(payload: &RawTxPayload) -> (r: Result<Vec<u8>, EncodeError>)
    ensures
        r matches Ok(b) && b@ == enc_raw_payload(payload@),
{
    Ok(raw_payload_bytes(payload))
}

fn read_raw_field(data: &[u8], p: usize, s: &mut RawPayloadSlots) -> (r: Result<usize, DecodeError>)
    ensures
        match r {
            Ok(q) => raw_field(data@, p as int, old(s)@) == Ok::<(RawSlots, int), DecodeErrorView>((final(s)@, q as int))
                && q <= data@.len(),
            Err(e) => raw_field(data@, p as int, old(s)@) == Err::<(RawSlots, int), DecodeErrorView>(e@),
        },
{
    reveal(raw_field);
    let (key, q) = match read_string(data, p) {
        Ok(x) => x,
        Err(e) => return Err(DecodeError::Cursor(e)),
    };
    if str_eq(key.as_str(), "from_") {
        let (v, q2) = match read_string(data, q) {
            Ok(x) => x,
            Err(e) => return Err(DecodeError::Cursor(e)),
        };
        assign_once(&mut s.from_, v, "from_")?;
        Ok(q2)
    } else if str_eq(key.as_str(), "to") {
        let (v, q2) = match read_string(data, q) {
            Ok(x) => x,
            Err(e) => return Err(DecodeError::Cursor(e)),
        };
        assign_once(&mut s.to, v, "to")?;
        Ok(q2)
    } else if str_eq(key.as_str(), "amount_consumer") {
        let (v, q2) = match read_u64(data, q) {
            Ok(x) => x,
            Err(e) => return Err(DecodeError::Cursor(e)),
        };
        assign_once(&mut s.amount_consumer, v, "amount_consumer")?;
        Ok(q2)
    } else if str_eq(key.as_str(), "amount_industrial") {
        let (v, q2) = match read_u64(data, q) {
            Ok(x) => x,
            Err(e) => return Err(DecodeError::Cursor(e)),
        };
        assign_once(&mut s.amount_industrial, v, "amount_industrial")?;
        Ok(q2)
    } else if str_eq(key.as_str(), "fee") {
        let (v, q2) = match read_u64(data, q) {
            Ok(x) => x,
            Err(e) => return Err(DecodeError::Cursor(e)),
        };
        assign_once(&mut s.fee, v, "fee")?;
        Ok(q2)
    } else if str_eq(key.as_str(), "pct") {
        let (v, q2) = match read_u8(data, q) {
            Ok(x) => x,
            Err(e) => return Err(DecodeError::Cursor(e)),
        };
        assign_once(&mut s.pct, v, "pct")?;
        Ok(q2)
    } else if str_eq(key.as_str(), "nonce") {
        let (v, q2) = match read_u64(data, q) {
            Ok(x) => x,
            Err(e) => return Err(DecodeError::Cursor(e)),
        };
        assign_once(&mut s.nonce, v, "nonce")?;
        Ok(q2)
    } else if str_eq(key.as_str(), "memo") {
        let (v, q2) = match read_bytes(data, q) {
            Ok(x) => x,
            Err(e) => return Err(DecodeError::Cursor(e)),
        };
        assign_once(&mut s.memo, v, "memo")?;
        Ok(q2)
    } else {
        Err(DecodeError::UnknownField(key))
    }
}

pub(crate) fn read_raw_payload(data: &[u8], pos: usize) -> (r: Result<(RawTxPayload, usize), DecodeError>)
    ensures
        decoded(r) == spec_read_raw_payload(data@, pos as int),
        r matches Ok((_, q)) ==> q <= data@.len(),
{
    let (n, p0) = match read_u64(data, pos) {
        Ok(x) => x,
        Err(e) => return Err(DecodeError::Cursor(e)),
    };
    let mut p = p0;
    let mut s = RawPayloadSlots {
        from_: None,
        to: None,
        amount_consumer: None,
        amount_industrial: None,
        fee: None,
        pct: None,
        nonce: None,
        memo: None,
    };
    assert(s@ == raw_slots_empty());
    let mut i: u64 = 0;
    while i < n
        invariant
            i <= n,
            p <= data@.len(),
            spec_read_u64(data@, pos as int) == Ok::<(u64, int), CursorError>((n, p0 as int)),
            raw_fields(data@, p0 as int, n as nat, raw_slots_empty()) == raw_fields(
                data@,
                p as int,
                (n - i) as nat,
                s@,
            ),
        decreases n - i,
    {
        let ghost sb = s@;
        let ghost pb = p as int;
        match read_raw_field(data, p, &mut s) {
            Ok(q) => {
                p = q;
            },
            Err(e) => {
                assert(raw_fields(data@, pb, (n - i) as nat, sb) == Err::<(RawSlots, int), DecodeErrorView>(e@));
                return Err(e);
            },
        }
        i = i + 1;
    }
    if n != 8 {
        return Err(DecodeError::InvalidFieldCount { expected: 8, actual: n });
    }
    let from_ = match s.from_ {
        Some(v) => v,
        None => return Err(DecodeError::MissingField("from_")),
    };
    let to = match s.to {
        Some(v) => v,
        None => return Err(DecodeError::MissingField("to")),
    };
    let amount_consumer = match s.amount_consumer {
        Some(v) => v,
        None => return Err(DecodeError::MissingField("amount_consumer")),
    };
    let amount_industrial = match s.amount_industrial {
        Some(v) => v,
        None => return Err(DecodeError::MissingField("amount_industrial")),
    };
    let fee = match s.fee {
        Some(v) => v,
        None => return Err(DecodeError::MissingField("fee")),
    };
    let pct_ct = match s.pct {
        Some(v) => v,
        None => return Err(DecodeError::MissingField("pct")),
    };
    let nonce = match s.nonce {
        Some(v) => v,
        None => return Err(DecodeError::MissingField("nonce")),
    };
    let memo = match s.memo {
        Some(v) => v,
        None => Vec::new(),
    };
    let payload = RawTxPayload { from_, to, amount_consumer, amount_industrial, fee, pct_ct, nonce, memo };
    Ok((payload, p))
}

/// Decodes a payload from bytes produced by [`encode_raw_payload`]; trailing
/// bytes are an error.
pub fn decode_raw_payload(bytes: &[u8]) -> (r: Result<RawTxPayload, DecodeError>)
    ensures
        match r {
            Ok(v) => spec_decode_raw_payload(bytes@) == Ok::<RawTxPayloadView, DecodeErrorView>(v@),
            Err(e) => spec_decode_raw_payload(bytes@) == Err::<RawTxPayloadView, DecodeErrorView>(e@),
        },
{
    let (v, p) = read_raw_payload(bytes, 0)?;
    ensure_exhausted(bytes, p)?;
    Ok(v)
}

} // verus!

verus! {

/// Reading where a payload's canonical bytes stand gives the payload and the
/// position right after them.
proof fn lemma_raw_step_from_(data: Seq<u8>, q: int, s: RawSlots, v: Seq<char>)
    requires
        is_at(data, q, enc_field("from_"@, enc_string(v))),
        s.from_ is None,
        encode_utf8(v).len() <= u64::MAX,
    ensures
        raw_field(data, q, s) == Ok::<(RawSlots, int), DecodeErrorView>(
            (RawSlots { from_: Some(v), ..s }, q + enc_field("from_"@, enc_string(v)).len()),
        ),
{
    reveal(raw_field);
    reveal_strlit("from_");
    reveal_strlit("to");
    reveal_strlit("amount_consumer");
    reveal_strlit("amount_industrial");
    reveal_strlit("fee");
    reveal_strlit("pct");
    reveal_strlit("nonce");
    reveal_strlit("memo");
    lemma_field_at(data, q, "from_"@, enc_string(v));
    lemma_read_string(data, q + enc_string("from_"@).len(), v);
}
proof fn lemma_raw_step_to(data: Seq<u8>, q: int, s: RawSlots, v: Seq<char>)
    requires
        is_at(data, q, enc_field("to"@, enc_string(v))),
        s.to is None,
        encode_utf8(v).len() <= u64::MAX,
    ensures
        raw_field(data, q, s) == Ok::<(RawSlots, int), DecodeErrorView>(
            (RawSlots { to: Some(v), ..s }, q + enc_field("to"@, enc_string(v)).len()),
        ),
{
    reveal(raw_field);
    reveal_strlit("from_");
    reveal_strlit("to");
    reveal_strlit("amount_consumer");
    reveal_strlit("amount_industrial");
    reveal_strlit("fee");
    reveal_strlit("pct");
    reveal_strlit("nonce");
    reveal_strlit("memo");
    lemma_field_at(data, q, "to"@, enc_string(v));
    lemma_read_string(data, q + enc_string("to"@).len(), v);
}
proof fn lemma_raw_step_amount_consumer(data: Seq<u8>, q: int, s: RawSlots, v: u64)
    requires
        is_at(data, q, enc_field("amount_consumer"@, u64_le(v))),
        s.amount_consumer is None,
    ensures
        raw_field(data, q, s) == Ok::<(RawSlots, int), DecodeErrorView>(
            (RawSlots { amount_consumer: Some(v), ..s }, q + enc_field("amount_consumer"@, u64_le(v)).len()),
        ),
{
    reveal(raw_field);
    reveal_strlit("from_");
    reveal_strlit("to");
    reveal_strlit("amount_consumer");
    reveal_strlit("amount_industrial");
    reveal_strlit("fee");
    reveal_strlit("pct");
    reveal_strlit("nonce");
    reveal_strlit("memo");
    lemma_field_at(data, q, "amount_consumer"@, u64_le(v));
    lemma_read_u64(data, q + enc_string("amount_consumer"@).len(), v);
}
proof fn lemma_raw_step_amount_industrial(data: Seq<u8>, q: int, s: RawSlots, v: u64)
    requires
        is_at(data, q, enc_field("amount_industrial"@, u64_le(v))),
        s.amount_industrial is None,
    ensures
        raw_field(data, q, s) == Ok::<(RawSlots, int), DecodeErrorView>(
            (RawSlots { amount_industrial: Some(v), ..s }, q + enc_field("amount_industrial"@, u64_le(v)).len()),
        ),
{
    reveal(raw_field);
    reveal_strlit("from_");
    reveal_strlit("to");
    reveal_strlit("amount_consumer");
    reveal_strlit("amount_industrial");
    reveal_strlit("fee");
    reveal_strlit("pct");
    reveal_strlit("nonce");
    reveal_strlit("memo");
    lemma_field_at(data, q, "amount_industrial"@, u64_le(v));
    lemma_read_u64(data, q + enc_string("amount_industrial"@).len(), v);
}
proof fn lemma_raw_step_fee(data: Seq<u8>, q: int, s: RawSlots, v: u64)
    requires
        is_at(data, q, enc_field("fee"@, u64_le(v))),
        s.fee is None,
    ensures
        raw_field(data, q, s) == Ok::<(RawSlots, int), DecodeErrorView>(
            (RawSlots { fee: Some(v), ..s }, q + enc_field("fee"@, u64_le(v)).len()),
        ),
{
    reveal(raw_field);
    reveal_strlit("from_");
    reveal_strlit("to");
    reveal_strlit("amount_consumer");
    reveal_strlit("amount_industrial");
    reveal_strlit("fee");
    reveal_strlit("pct");
    reveal_strlit("nonce");
    reveal_strlit("memo");
    lemma_field_at(data, q, "fee"@, u64_le(v));
    lemma_read_u64(data, q + enc_string("fee"@).len(), v);
}
proof fn lemma_raw_step_pct(data: Seq<u8>, q: int, s: RawSlots, v: u8)
    requires
        is_at(data, q, enc_field("pct"@, enc_u8(v))),
        s.pct is None,
    ensures
        raw_field(data, q, s) == Ok::<(RawSlots, int), DecodeErrorView>(
            (RawSlots { pct: Some(v), ..s }, q + enc_field("pct"@, enc_u8(v)).len()),
        ),
{
    reveal(raw_field);
    reveal_strlit("from_");
    reveal_strlit("to");
    reveal_strlit("amount_consumer");
    reveal_strlit("amount_industrial");
    reveal_strlit("fee");
    reveal_strlit("pct");
    reveal_strlit("nonce");
    reveal_strlit("memo");
    lemma_field_at(data, q, "pct"@, enc_u8(v));
    lemma_read_u8(data, q + enc_string("pct"@).len(), v);
}
proof fn lemma_raw_step_nonce(data: Seq<u8>, q: int, s: RawSlots, v: u64)
    requires
        is_at(data, q, enc_field("nonce"@, u64_le(v))),
        s.nonce is None,
    ensures
        raw_field(data, q, s) == Ok::<(RawSlots, int), DecodeErrorView>(
            (RawSlots { nonce: Some(v), ..s }, q + enc_field("nonce"@, u64_le(v)).len()),
        ),
{
    reveal(raw_field);
    reveal_strlit("from_");
    reveal_strlit("to");
    reveal_strlit("amount_consumer");
    reveal_strlit("amount_industrial");
    reveal_strlit("fee");
    reveal_strlit("pct");
    reveal_strlit("nonce");
    reveal_strlit("memo");
    lemma_field_at(data, q, "nonce"@, u64_le(v));
    lemma_read_u64(data, q + enc_string("nonce"@).len(), v);
}
proof fn lemma_raw_step_memo(data: Seq<u8>, q: int, s: RawSlots, v: Seq<u8>)
    requires
        is_at(data, q, enc_field("memo"@, enc_bytes(v))),
        s.memo is None,
        v.len() <= u64::MAX,
    ensures
        raw_field(data, q, s) == Ok::<(RawSlots, int), DecodeErrorView>(
            (RawSlots { memo: Some(v), ..s }, q + enc_field("memo"@, enc_bytes(v)).len()),
        ),
{
    reveal(raw_field);
    reveal_strlit("from_");
    reveal_strlit("to");
    reveal_strlit("amount_consumer");
    reveal_strlit("amount_industrial");
    reveal_strlit("fee");
    reveal_strlit("pct");
    reveal_strlit("nonce");
    reveal_strlit("memo");
    lemma_field_at(data, q, "memo"@, enc_bytes(v));
    lemma_read_bytes(data, q + enc_string("memo"@).len(), v);
}

/// Reading where a payload's canonical bytes stand gives the payload and the
/// position right after them.
pub proof fn lemma_read_raw_payload_at(data: Seq<u8>, pos: int, p: RawTxPayloadView)
    requires
        is_at(data, pos, enc_raw_payload(p)),
        raw_payload_fits(p),
    ensures
        spec_read_raw_payload(data, pos) == Ok::<(RawTxPayloadView, int), DecodeErrorView>(
            (p, pos + enc_raw_payload(p).len()),
        ),
{
    reveal(enc_raw_payload);
    let h = u64_le(8);
    let f1 = enc_field("from_"@, enc_string(p.from_));
    let f2 = enc_field("to"@, enc_string(p.to));
    let f3 = enc_field("amount_consumer"@, u64_le(p.amount_consumer));
    let f4 = enc_field("amount_industrial"@, u64_le(p.amount_industrial));
    let f5 = enc_field("fee"@, u64_le(p.fee));
    let f6 = enc_field("pct"@, enc_u8(p.pct_ct));
    let f7 = enc_field("nonce"@, u64_le(p.nonce));
    let f8 = enc_field("memo"@, enc_bytes(p.memo));
    let e1 = h + f1;
    let e2 = e1 + f2;
    let e3 = e2 + f3;
    let e4 = e3 + f4;
    let e5 = e4 + f5;
    let e6 = e5 + f6;
    let e7 = e6 + f7;
    lemma_is_at_split(data, pos, e7, f8);
    lemma_is_at_split(data, pos, e6, f7);
    lemma_is_at_split(data, pos, e5, f6);
    lemma_is_at_split(data, pos, e4, f5);
    lemma_is_at_split(data, pos, e3, f4);
    lemma_is_at_split(data, pos, e2, f3);
    lemma_is_at_split(data, pos, e1, f2);
    lemma_is_at_split(data, pos, h, f1);
    lemma_read_u64(data, pos, 8);
    let q0 = pos + 8;
    let q1 = q0 + f1.len();
    let q2 = q1 + f2.len();
    let q3 = q2 + f3.len();
    let q4 = q3 + f4.len();
    let q5 = q4 + f5.len();
    let q6 = q5 + f6.len();
    let q7 = q6 + f7.len();
    let q8 = q7 + f8.len();
    let s0 = raw_slots_empty();
    let s1 = RawSlots { from_: Some(p.from_), ..s0 };
    let s2 = RawSlots { to: Some(p.to), ..s1 };
    let s3 = RawSlots { amount_consumer: Some(p.amount_consumer), ..s2 };
    let s4 = RawSlots { amount_industrial: Some(p.amount_industrial), ..s3 };
    let s5 = RawSlots { fee: Some(p.fee), ..s4 };
    let s6 = RawSlots { pct: Some(p.pct_ct), ..s5 };
    let s7 = RawSlots { nonce: Some(p.nonce), ..s6 };
    let s8 = RawSlots { memo: Some(p.memo), ..s7 };
    lemma_raw_step_from_(data, q0, s0, p.from_);
    lemma_raw_step_to(data, q1, s1, p.to);
    lemma_raw_step_amount_consumer(data, q2, s2, p.amount_consumer);
    lemma_raw_step_amount_industrial(data, q3, s3, p.amount_industrial);
    lemma_raw_step_fee(data, q4, s4, p.fee);
    lemma_raw_step_pct(data, q5, s5, p.pct_ct);
    lemma_raw_step_nonce(data, q6, s6, p.nonce);
    lemma_raw_step_memo(data, q7, s7, p.memo);
    assert(raw_fields(data, q8, 0, s8) == Ok::<(RawSlots, int), DecodeErrorView>((s8, q8)));
    assert(raw_fields(data, q7, 1, s7) == raw_fields(data, q8, 0, s8));
    assert(raw_fields(data, q6, 2, s6) == raw_fields(data, q7, 1, s7));
    assert(raw_fields(data, q5, 3, s5) == raw_fields(data, q6, 2, s6));
    assert(raw_fields(data, q4, 4, s4) == raw_fields(data, q5, 3, s5));
    assert(raw_fields(data, q3, 5, s3) == raw_fields(data, q4, 4, s4));
    assert(raw_fields(data, q2, 6, s2) == raw_fields(data, q3, 5, s3));
    assert(raw_fields(data, q1, 7, s1) == raw_fields(data, q2, 6, s2));
    assert(raw_fields(data, q0, 8, s0) == raw_fields(data, q1, 7, s1));
    assert(raw_finish(s8) == Ok::<RawTxPayloadView, DecodeErrorView>(p));
}

/// Decoding the canonical bytes of a payload gives the payload back.
pub proof fn lemma_raw_payload_roundtrip(p: RawTxPayloadView)
    requires
        raw_payload_fits(p),
    ensures
        spec_decode_raw_payload(enc_raw_payload(p)) == Ok::<RawTxPayloadView, DecodeErrorView>(p),
{
    let data = enc_raw_payload(p);
    assert(data.subrange(0, data.len() as int) =~= data);
    lemma_read_raw_payload_at(data, 0, p);
}

} // verus!

verus! {

// ---------------------------------------------------------------------------
// BlobTx
// ---------------------------------------------------------------------------

/// The canonical bytes of a blob transaction.
pub open spec fn enc_blob_tx(t: BlobTxView) -> Seq<u8> {
    u64_le(6) + enc_field("owner"@, enc_string(t.owner)) + enc_field("blob_id"@, enc_bytes(t.blob_id))
        + enc_field("blob_root"@, enc_bytes(t.blob_root)) + enc_field("blob_size"@, u64_le(t.blob_size))
        + enc_field("fractal_lvl"@, enc_u8(t.fractal_lvl)) + enc_field("expiry"@, enc_option_u64(t.expiry))
}

/// The blob transaction fields seen so far while decoding.
pub struct BlobSlots {
    pub owner: Option<Seq<char>>,
    pub blob_id: Option<Seq<u8>>,
    pub blob_root: Option<Seq<u8>>,
    pub blob_size: Option<u64>,
    pub fractal_lvl: Option<u8>,
    pub expiry: Option<Option<u64>>,
}

pub open spec fn blob_slots_empty() -> BlobSlots {
    BlobSlots { owner: None, blob_id: None, blob_root: None, blob_size: None, fractal_lvl: None, expiry: None }
}

/// Decoding one blob transaction field at `pos`.
#[verifier::opaque]
pub open spec fn blob_field(data: Seq<u8>, pos: int, s: BlobSlots) -> Result<(BlobSlots, int), DecodeErrorView> {
    match spec_read_string(data, pos) {
        Err(e) => Err(DecodeErrorView::Cursor(e)),
        Ok((key, p)) => if key == "owner"@ {
            match take_field(s.owner is Some, spec_read_string(data, p), "owner"@) {
                Ok((v, q)) => Ok((BlobSlots { owner: Some(v), ..s }, q)),
                Err(e) => Err(e),
            }
        } else if key == "blob_id"@ {
            match take_field_d(s.blob_id is Some, spec_read_fixed_array(data, p), "blob_id"@) {
                Ok((v, q)) => Ok((BlobSlots { blob_id: Some(v), ..s }, q)),
                Err(e) => Err(e),
            }
        } else if key == "blob_root"@ {
            match take_field_d(s.blob_root is Some, spec_read_fixed_array(data, p), "blob_root"@) {
                Ok((v, q)) => Ok((BlobSlots { blob_root: Some(v), ..s }, q)),
                Err(e) => Err(e),
            }
        } else if key == "blob_size"@ {
            match take_field(s.blob_size is Some, spec_read_u64(data, p), "blob_size"@) {
                Ok((v, q)) => Ok((BlobSlots { blob_size: Some(v), ..s }, q)),
                Err(e) => Err(e),
            }
        } else if key == "fractal_lvl"@ {
            match take_field(s.fractal_lvl is Some, spec_read_u8(data, p), "fractal_lvl"@) {
                Ok((v, q)) => Ok((BlobSlots { fractal_lvl: Some(v), ..s }, q)),
                Err(e) => Err(e),
            }
        } else if key == "expiry"@ {
            match take_field(s.expiry is Some, spec_read_option_u64(data, p), "expiry"@) {
                Ok((v, q)) => Ok((BlobSlots { expiry: Some(v), ..s }, q)),
                Err(e) => Err(e),
            }
        } else {
            Err(DecodeErrorView::UnknownField(key))
        },
    }
}

/// Decoding `n` blob transaction fields from `pos`.
pub open spec fn blob_fields(data: Seq<u8>, pos: int, n: nat, s: BlobSlots) -> Result<(BlobSlots, int), DecodeErrorView>
    decreases n,
{
    if n == 0 {
        Ok((s, pos))
    } else {
        match blob_field(data, pos, s) {
            Ok((s2, p2)) => blob_fields(data, p2, (n - 1) as nat, s2),
            Err(e) => Err(e),
        }
    }
}

/// The blob transaction once all fields are read: all but the expiry are
/// required; an absent expiry is none.
pub open spec fn blob_finish(s: BlobSlots) -> Result<BlobTxView, DecodeErrorView> {
    if s.owner is None {
        Err(DecodeErrorView::MissingField("owner"@))
    } else if s.blob_id is None {
        Err(DecodeErrorView::MissingField("blob_id"@))
    } else if s.blob_root is None {
        Err(DecodeErrorView::MissingField("blob_root"@))
    } else if s.blob_size is None {
        Err(DecodeErrorView::MissingField("blob_size"@))
    } else if s.fractal_lvl is None {
        Err(DecodeErrorView::MissingField("fractal_lvl"@))
    } else {
        Ok(
            BlobTxView {
                owner: s.owner->Some_0,
                blob_id: s.blob_id->Some_0,
                blob_root: s.blob_root->Some_0,
                blob_size: s.blob_size->Some_0,
                fractal_lvl: s.fractal_lvl->Some_0,
                expiry: match s.expiry {
                    Some(e) => e,
                    None => None,
                },
            },
        )
    }
}

/// Reading a blob transaction at `pos`: exactly 6 fields.
pub open spec fn spec_read_blob_tx(data: Seq<u8>, pos: int) -> Result<(BlobTxView, int), DecodeErrorView> {
    match spec_read_u64(data, pos) {
        Err(e) => Err(DecodeErrorView::Cursor(e)),
        Ok((n, p)) => match blob_fields(data, p, n as nat, blob_slots_empty()) {
            Err(e) => Err(e),
            Ok((s, q)) => if n != 6 {
                Err(DecodeErrorView::InvalidFieldCount { expected: 6, actual: n })
            } else {
                match blob_finish(s) {
                    Ok(v) => Ok((v, q)),
                    Err(e) => Err(e),
                }
            },
        },
    }
}

/// Decoding a whole buffer as one blob transaction.
pub open spec fn spec_decode_blob_tx(data: Seq<u8>) -> Result<BlobTxView, DecodeErrorView> {
    match spec_read_blob_tx(data, 0) {
        Err(e) => Err(e),
        Ok((v, p)) => if p == data.len() {
            Ok(v)
        } else {
            Err(DecodeErrorView::TrailingBytes(data.len() - p))
        },
    }
}

struct BlobTxSlots {
    owner: Option<String>,
    blob_id: Option<[u8; 32]>,
    blob_root: Option<[u8; 32]>,
    blob_size: Option<u64>,
    fractal_lvl: Option<u8>,
    expiry: Option<Option<u64>>,
}

impl View for BlobTxSlots {
    type V = BlobSlots;

    closed spec fn view(&self) -> BlobSlots {
        BlobSlots {
            owner: self.owner.deep_view(),
            blob_id: match self.blob_id {
                Some(a) => Some(a@),
                None => None,
            },
            blob_root: match self.blob_root {
                Some(a) => Some(a@),
                None => None,
            },
            blob_size: self.blob_size,
            fractal_lvl: self.fractal_lvl,
            expiry: self.expiry,
        }
    }
}

fn blob_tx_bytes(tx: &BlobTx) -> (b: Vec<u8>)
    ensures
        b@ == enc_blob_tx(tx@),
{
    let mut out: Vec<u8> = Vec::new();
    write_u64(&mut out, 6);
    assert(out@ =~= u64_le(6));
    write_string_field(&mut out, "owner", tx.owner.as_str());
    write_bytes_field(&mut out, "blob_id", &tx.blob_id);
    write_bytes_field(&mut out, "blob_root", &tx.blob_root);
    write_u64_field(&mut out, "blob_size", tx.blob_size);
    write_u8_field(&mut out, "fractal_lvl", tx.fractal_lvl);
    let ghost before = out@;
    write_string(&mut out, "expiry");
    write_option_u64(&mut out, tx.expiry);
    assert(out@ =~= before + enc_field("expiry"@, enc_option_u64(tx.expiry)));
    out
}

/// Encodes a blob transaction in the canonical layout.
pub fn encode_blob_tx(tx: &BlobTx) -> (r: Result<Vec<u8>, EncodeError>)
    ensures
        r matches Ok(b) && b@ == enc_blob_tx(tx@),
{
    Ok(blob_tx_bytes(tx))
}

fn read_blob_field(data: &[u8], p: usize, s: &mut BlobTxSlots) -> (r: Result<usize, DecodeError>)
    ensures
        match r {
            Ok(q) => blob_field(data@, p as int, old(s)@) == Ok::<(BlobSlots, int), DecodeErrorView>((final(s)@, q as int))
                && q <= data@.len(),
            Err(e) => blob_field(data@, p as int, old(s)@) == Err::<(BlobSlots, int), DecodeErrorView>(e@),
        },
{
    reveal(blob_field);
    let (key, q) = match read_string(data, p) {
        Ok(x) => x,
        Err(e) => return Err(DecodeError::Cursor(e)),
    };
    if str_eq(key.as_str(), "owner") {
        let (v, q2) = match read_string(data, q) {
            Ok(x) => x,
            Err(e) => return Err(DecodeError::Cursor(e)),
        };
        assign_once(&mut s.owner, v, "owner")?;
        Ok(q2)
    } else if str_eq(key.as_str(), "blob_id") {
        let (v, q2) = read_fixed_array(data, q)?;
        assign_once(&mut s.blob_id, v, "blob_id")?;
        Ok(q2)
    } else if str_eq(key.as_str(), "blob_root") {
        let (v, q2) = read_fixed_array(data, q)?;
        assign_once(&mut s.blob_root, v, "blob_root")?;
        Ok(q2)
    } else if str_eq(key.as_str(), "blob_size") {
        let (v, q2) = match read_u64(data, q) {
            Ok(x) => x,
            Err(e) => return Err(DecodeError::Cursor(e)),
        };
        assign_once(&mut s.blob_size, v, "blob_size")?;
        Ok(q2)
    } else if str_eq(key.as_str(), "fractal_lvl") {
        let (v, q2) = match read_u8(data, q) {
            Ok(x) => x,
            Err(e) => return Err(DecodeError::Cursor(e)),
        };
        assign_once(&mut s.fractal_lvl, v, "fractal_lvl")?;
        Ok(q2)
    } else if str_eq(key.as_str(), "expiry") {
        let (v, q2) = match read_option_u64(data, q) {
            Ok(x) => x,
            Err(e) => return Err(DecodeError::Cursor(e)),
        };
        assign_once(&mut s.expiry, v, "expiry")?;
        Ok(q2)
    } else {
        Err(DecodeError::UnknownField(key))
    }
}

pub(crate) fn read_blob_tx(data: &[u8], pos: usize) -> (r: Result<(BlobTx, usize), DecodeError>)
    ensures
        decoded(r) == spec_read_blob_tx(data@, pos as int),
        r matches Ok((_, q)) ==> q <= data@.len(),
{
    let (n, p0) = match read_u64(data, pos) {
        Ok(x) => x,
        Err(e) => return Err(DecodeError::Cursor(e)),
    };
    let mut p = p0;
    let mut s = BlobTxSlots {
        owner: None,
        blob_id: None,
        blob_root: None,
        blob_size: None,
        fractal_lvl: None,
        expiry: None,
    };
    assert(s@ == blob_slots_empty());
    let mut i: u64 = 0;
    while i < n
        invariant
            i <= n,
            p <= data@.len(),
            spec_read_u64(data@, pos as int) == Ok::<(u64, int), CursorError>((n, p0 as int)),
            blob_fields(data@, p0 as int, n as nat, blob_slots_empty()) == blob_fields(
                data@,
                p as int,
                (n - i) as nat,
                s@,
            ),
        decreases n - i,
    {
        let ghost sb = s@;
        let ghost pb = p as int;
        match read_blob_field(data, p, &mut s) {
            Ok(q) => {
                p = q;
            },
            Err(e) => {
                assert(blob_fields(data@, pb, (n - i) as nat, sb) == Err::<(BlobSlots, int), DecodeErrorView>(e@));
                return Err(e);
            },
        }
        i = i + 1;
    }
    if n != 6 {
        return Err(DecodeError::InvalidFieldCount { expected: 6, actual: n });
    }
    let owner = match s.owner {
        Some(v) => v,
        None => return Err(DecodeError::MissingField("owner")),
    };
    let blob_id = match s.blob_id {
        Some(v) => v,
        None => return Err(DecodeError::MissingField("blob_id")),
    };
    let blob_root = match s.blob_root {
        Some(v) => v,
        None => return Err(DecodeError::MissingField("blob_root")),
    };
    let blob_size = match s.blob_size {
        Some(v) => v,
        None => return Err(DecodeError::MissingField("blob_size")),
    };
    let fractal_lvl = match s.fractal_lvl {
        Some(v) => v,
        None => return Err(DecodeError::MissingField("fractal_lvl")),
    };
    let expiry = match s.expiry {
        Some(v) => v,
        None => None,
    };
    Ok((BlobTx { owner, blob_id, blob_root, blob_size, fractal_lvl, expiry }, p))
}

/// Decodes a blob transaction from bytes produced by [`encode_blob_tx`];
/// trailing bytes are an error.
pub fn decode_blob_tx(bytes: &[u8]) -> (r: Result<BlobTx, DecodeError>)
    ensures
        match r {
            Ok(v) => spec_decode_blob_tx(bytes@) == Ok::<BlobTxView, DecodeErrorView>(v@),
            Err(e) => spec_decode_blob_tx(bytes@) == Err::<BlobTxView, DecodeErrorView>(e@),
        },
{
    let (v, p) = read_blob_tx(bytes, 0)?;
    ensure_exhausted(bytes, p)?;
    Ok(v)
}


proof fn lemma_blob_step_owner(data: Seq<u8>, q: int, s: BlobSlots, v: Seq<char>)
    requires
        is_at(data, q, enc_field("owner"@, enc_string(v))),
        s.owner is None,
        encode_utf8(v).len() <= u64::MAX,
    ensures
        blob_field(data, q, s) == Ok::<(BlobSlots, int), DecodeErrorView>(
            (BlobSlots { owner: Some(v), ..s }, q + enc_field("owner"@, enc_string(v)).len()),
        ),
{
    reveal(blob_field);
    reveal_strlit("owner");
    reveal_strlit("blob_id");
    reveal_strlit("blob_root");
    reveal_strlit("blob_size");
    reveal_strlit("fractal_lvl");
    reveal_strlit("expiry");
    lemma_field_at(data, q, "owner"@, enc_string(v));
    lemma_read_string(data, q + enc_string("owner"@).len(), v);
}
proof fn lemma_blob_step_blob_id(data: Seq<u8>, q: int, s: BlobSlots, v: Seq<u8>)
    requires
        is_at(data, q, enc_field("blob_id"@, enc_bytes(v))),
        s.blob_id is None,
        v.len() == 32,
    ensures
        blob_field(data, q, s) == Ok::<(BlobSlots, int), DecodeErrorView>(
            (BlobSlots { blob_id: Some(v), ..s }, q + enc_field("blob_id"@, enc_bytes(v)).len()),
        ),
{
    reveal(blob_field);
    reveal_strlit("owner");
    reveal_strlit("blob_id");
    reveal_strlit("blob_root");
    reveal_strlit("blob_size");
    reveal_strlit("fractal_lvl");
    reveal_strlit("expiry");
    lemma_field_at(data, q, "blob_id"@, enc_bytes(v));
    lemma_read_fixed_array(data, q + enc_string("blob_id"@).len(), v);
}
proof fn lemma_blob_step_blob_root(data: Seq<u8>, q: int, s: BlobSlots, v: Seq<u8>)
    requires
        is_at(data, q, enc_field("blob_root"@, enc_bytes(v))),
        s.blob_root is None,
        v.len() == 32,
    ensures
        blob_field(data, q, s) == Ok::<(BlobSlots, int), DecodeErrorView>(
            (BlobSlots { blob_root: Some(v), ..s }, q + enc_field("blob_root"@, enc_bytes(v)).len()),
        ),
{
    reveal(blob_field);
    reveal_strlit("owner");
    reveal_strlit("blob_id");
    reveal_strlit("blob_root");
    reveal_strlit("blob_size");
    reveal_strlit("fractal_lvl");
    reveal_strlit("expiry");
    lemma_field_at(data, q, "blob_root"@, enc_bytes(v));
    lemma_read_fixed_array(data, q + enc_string("blob_root"@).len(), v);
}
proof fn lemma_blob_step_blob_size(data: Seq<u8>, q: int, s: BlobSlots, v: u64)
    requires
        is_at(data, q, enc_field("blob_size"@, u64_le(v))),
        s.blob_size is None,
    ensures
        blob_field(data, q, s) == Ok::<(BlobSlots, int), DecodeErrorView>(
            (BlobSlots { blob_size: Some(v), ..s }, q + enc_field("blob_size"@, u64_le(v)).len()),
        ),
{
    reveal(blob_field);
    reveal_strlit("owner");
    reveal_strlit("blob_id");
    reveal_strlit("blob_root");
    reveal_strlit("blob_size");
    reveal_strlit("fractal_lvl");
    reveal_strlit("expiry");
    assert("blob_size"@[5] != "blob_root"@[5]);
    lemma_field_at(data, q, "blob_size"@, u64_le(v));
    lemma_read_u64(data, q + enc_string("blob_size"@).len(), v);
}
proof fn lemma_blob_step_fractal_lvl(data: Seq<u8>, q: int, s: BlobSlots, v: u8)
    requires
        is_at(data, q, enc_field("fractal_lvl"@, enc_u8(v))),
        s.fractal_lvl is None,
    ensures
        blob_field(data, q, s) == Ok::<(BlobSlots, int), DecodeErrorView>(
            (BlobSlots { fractal_lvl: Some(v), ..s }, q + enc_field("fractal_lvl"@, enc_u8(v)).len()),
        ),
{
    reveal(blob_field);
    reveal_strlit("owner");
    reveal_strlit("blob_id");
    reveal_strlit("blob_root");
    reveal_strlit("blob_size");
    reveal_strlit("fractal_lvl");
    reveal_strlit("expiry");
    lemma_field_at(data, q, "fractal_lvl"@, enc_u8(v));
    lemma_read_u8(data, q + enc_string("fractal_lvl"@).len(), v);
}
proof fn lemma_blob_step_expiry(data: Seq<u8>, q: int, s: BlobSlots, v: Option<u64>)
    requires
        is_at(data, q, enc_field("expiry"@, enc_option_u64(v))),
        s.expiry is None,
    ensures
        blob_field(data, q, s) == Ok::<(BlobSlots, int), DecodeErrorView>(
            (BlobSlots { expiry: Some(v), ..s }, q + enc_field("expiry"@, enc_option_u64(v)).len()),
        ),
{
    reveal(blob_field);
    reveal_strlit("owner");
    reveal_strlit("blob_id");
    reveal_strlit("blob_root");
    reveal_strlit("blob_size");
    reveal_strlit("fractal_lvl");
    reveal_strlit("expiry");
    lemma_field_at(data, q, "expiry"@, enc_option_u64(v));
    lemma_read_option_u64(data, q + enc_string("expiry"@).len(), v);
}

/// Reading where a blob transaction's canonical bytes stand gives it back
/// and the position right after them.
pub proof fn lemma_read_blob_tx_at(data: Seq<u8>, pos: int, t: BlobTxView)
    requires
        is_at(data, pos, enc_blob_tx(t)),
        blob_tx_fits(t),
    ensures
        spec_read_blob_tx(data, pos) == Ok::<(BlobTxView, int), DecodeErrorView>(
            (t, pos + enc_blob_tx(t).len()),
        ),
{
    let h = u64_le(6);
    let f1 = enc_field("owner"@, enc_string(t.owner));
    let f2 = enc_field("blob_id"@, enc_bytes(t.blob_id));
    let f3 = enc_field("blob_root"@, enc_bytes(t.blob_root));
    let f4 = enc_field("blob_size"@, u64_le(t.blob_size));
    let f5 = enc_field("fractal_lvl"@, enc_u8(t.fractal_lvl));
    let f6 = enc_field("expiry"@, enc_option_u64(t.expiry));
    let e1 = h + f1;
    let e2 = e1 + f2;
    let e3 = e2 + f3;
    let e4 = e3 + f4;
    let e5 = e4 + f5;
    lemma_is_at_split(data, pos, e5, f6);
    lemma_is_at_split(data, pos, e4, f5);
    lemma_is_at_split(data, pos, e3, f4);
    lemma_is_at_split(data, pos, e2, f3);
    lemma_is_at_split(data, pos, e1, f2);
    lemma_is_at_split(data, pos, h, f1);
    lemma_read_u64(data, pos, 6);
    let q0 = pos + 8;
    let q1 = q0 + f1.len();
    let q2 = q1 + f2.len();
    let q3 = q2 + f3.len();
    let q4 = q3 + f4.len();
    let q5 = q4 + f5.len();
    let q6 = q5 + f6.len();
    let s0 = blob_slots_empty();
    let s1 = BlobSlots { owner: Some(t.owner), ..s0 };
    let s2 = BlobSlots { blob_id: Some(t.blob_id), ..s1 };
    let s3 = BlobSlots { blob_root: Some(t.blob_root), ..s2 };
    let s4 = BlobSlots { blob_size: Some(t.blob_size), ..s3 };
    let s5 = BlobSlots { fractal_lvl: Some(t.fractal_lvl), ..s4 };
    let s6 = BlobSlots { expiry: Some(t.expiry), ..s5 };
    lemma_blob_step_owner(data, q0, s0, t.owner);
    lemma_blob_step_blob_id(data, q1, s1, t.blob_id);
    lemma_blob_step_blob_root(data, q2, s2, t.blob_root);
    lemma_blob_step_blob_size(data, q3, s3, t.blob_size);
    lemma_blob_step_fractal_lvl(data, q4, s4, t.fractal_lvl);
    lemma_blob_step_expiry(data, q5, s5, t.expiry);
    assert(blob_fields(data, q6, 0, s6) == Ok::<(BlobSlots, int), DecodeErrorView>((s6, q6)));
    assert(blob_fields(data, q5, 1, s5) == blob_fields(data, q6, 0, s6));
    assert(blob_fields(data, q4, 2, s4) == blob_fields(data, q5, 1, s5));
    assert(blob_fields(data, q3, 3, s3) == blob_fields(data, q4, 2, s4));
    assert(blob_fields(data, q2, 4, s2) == blob_fields(data, q3, 3, s3));
    assert(blob_fields(data, q1, 5, s1) == blob_fields(data, q2, 4, s2));
    assert(blob_fields(data, q0, 6, s0) == blob_fields(data, q1, 5, s1));
    assert(blob_finish(s6) == Ok::<BlobTxView, DecodeErrorView>(t));
}

/// Decoding the canonical bytes of a blob transaction gives it back.
pub proof fn lemma_blob_tx_roundtrip(t: BlobTxView)
    requires
        blob_tx_fits(t),
    ensures
        spec_decode_blob_tx(enc_blob_tx(t)) == Ok::<BlobTxView, DecodeErrorView>(t),
{
    let data = enc_blob_tx(t);
    assert(data.subrange(0, data.len() as int) =~= data);
    lemma_read_blob_tx_at(data, 0, t);
}

/// The blob transaction's owner has a length that a `u64` holds and both
/// identifiers are 32 bytes (as every `BlobTx` has).
pub open spec fn blob_tx_fits(t: BlobTxView) -> bool {
    encode_utf8(t.owner).len() <= u64::MAX && t.blob_id.len() == 32 && t.blob_root.len() == 32
}

} // verus!

verus! {

// ---------------------------------------------------------------------------
// Pieces of a signed transaction
// ---------------------------------------------------------------------------

/// The signature struct: one field, the Ed25519 signature bytes.
#[verifier::opaque]
pub open spec fn enc_signature(sig: Seq<u8>) -> Seq<u8> {
    u64_le(1) + enc_field("ed25519"@, enc_bytes(sig))
}

/// Decoding one signature field.
pub open spec fn sig_field(data: Seq<u8>, pos: int, s: Option<Seq<u8>>) -> Result<(Option<Seq<u8>>, int), DecodeErrorView> {
    match spec_read_string(data, pos) {
        Err(e) => Err(DecodeErrorView::Cursor(e)),
        Ok((key, p)) => if key == "ed25519"@ {
            match take_field(s is Some, spec_read_bytes(data, p), "ed25519"@) {
                Ok((v, q)) => Ok((Some(v), q)),
                Err(e) => Err(e),
            }
        } else {
            Err(DecodeErrorView::UnknownField(key))
        },
    }
}

pub open spec fn sig_fields(data: Seq<u8>, pos: int, n: nat, s: Option<Seq<u8>>) -> Result<(Option<Seq<u8>>, int), DecodeErrorView>
    decreases n,
{
    if n == 0 {
        Ok((s, pos))
    } else {
        match sig_field(data, pos, s) {
            Ok((s2, p2)) => sig_fields(data, p2, (n - 1) as nat, s2),
            Err(e) => Err(e),
        }
    }
}

/// Reading a signature struct: any number of fields; an absent signature is
/// empty.
pub open spec fn spec_read_signature(data: Seq<u8>, pos: int) -> Result<(Seq<u8>, int), DecodeErrorView> {
    match spec_read_u64(data, pos) {
        Err(e) => Err(DecodeErrorView::Cursor(e)),
        Ok((n, p)) => match sig_fields(data, p, n as nat, None) {
            Err(e) => Err(e),
            Ok((s, q)) => Ok(
                (
                    match s {
                        Some(v) => v,
                        None => Seq::empty(),
                    },
                    q,
                ),
            ),
        },
    }
}

fn write_signature(out: &mut Vec<u8>, sig: &[u8])
    ensures
        final(out)@ == old(out)@ + enc_signature(sig@),
{
    reveal(enc_signature);
    let ghost before = out@;
    write_u64(out, 1);
    write_bytes_field(out, "ed25519", sig);
    assert(final(out)@ =~= before + enc_signature(sig@));
}

/// The view of an optional byte vector.
pub open spec fn opt_bytes(o: Option<Vec<u8>>) -> Option<Seq<u8>> {
    match o {
        Some(v) => Some(v@),
        None => None,
    }
}

fn read_signature(data: &[u8], pos: usize) -> (r: Result<(Vec<u8>, usize), DecodeError>)
    ensures
        match r {
            Ok((v, p)) => spec_read_signature(data@, pos as int) == Ok::<(Seq<u8>, int), DecodeErrorView>((v@, p as int))
                && p <= data@.len(),
            Err(e) => spec_read_signature(data@, pos as int) == Err::<(Seq<u8>, int), DecodeErrorView>(e@),
        },
{
    let (n, p0) = match read_u64(data, pos) {
        Ok(x) => x,
        Err(e) => return Err(DecodeError::Cursor(e)),
    };
    let mut p = p0;
    let mut slot: Option<Vec<u8>> = None;
    let mut i: u64 = 0;
    while i < n
        invariant
            i <= n,
            p <= data@.len(),
            spec_read_u64(data@, pos as int) == Ok::<(u64, int), CursorError>((n, p0 as int)),
            sig_fields(data@, p0 as int, n as nat, None) == sig_fields(
                data@,
                p as int,
                (n - i) as nat,
                opt_bytes(slot),
            ),
        decreases n - i,
    {
        let ghost sb = opt_bytes(slot);
        let (key, q) = match read_string(data, p) {
            Ok(x) => x,
            Err(e) => return Err(DecodeError::Cursor(e)),
        };
        if str_eq(key.as_str(), "ed25519") {
            let (v, q2) = match read_bytes(data, q) {
                Ok(x) => x,
                Err(e) => return Err(DecodeError::Cursor(e)),
            };
            if let Err(e) = assign_once(&mut slot, v, "ed25519") {
                assert(sig_fields(data@, p as int, (n - i) as nat, sb) == Err::<(Option<Seq<u8>>, int), DecodeErrorView>(e@));
                return Err(e);
            }
            p = q2;
        } else {
            return Err(DecodeError::UnknownField(key));
        }
        i = i + 1;
    }
    match slot {
        Some(v) => Ok((v, p)),
        None => Ok((Vec::new(), p)),
    }
}

/// The item encodings of a list of byte strings, one after the other.
pub open spec fn enc_bytes_items(v: Seq<Seq<u8>>) -> Seq<u8>
    decreases v.len(),
{
    if v.len() == 0 {
        Seq::empty()
    } else {
        enc_bytes_items(v.drop_last()) + enc_bytes(v.last())
    }
}

/// A list of byte strings: its length as `u64`, then each item.
#[verifier::opaque]
pub open spec fn enc_bytes_vec(v: Seq<Seq<u8>>) -> Seq<u8> {
    u64_le(v.len() as u64) + enc_bytes_items(v)
}

/// Reading `n` more byte strings after those in `acc`.
pub open spec fn bytes_items(data: Seq<u8>, pos: int, n: nat, acc: Seq<Seq<u8>>) -> Result<(Seq<Seq<u8>>, int), DecodeErrorView>
    decreases n,
{
    if n == 0 {
        Ok((acc, pos))
    } else {
        match spec_read_bytes(data, pos) {
            Err(e) => Err(DecodeErrorView::Cursor(e)),
            Ok((b, p)) => bytes_items(data, p, (n - 1) as nat, acc.push(b)),
        }
    }
}

/// Reading a list of byte strings; a count beyond `usize` is a length
/// overflow.
pub open spec fn spec_read_bytes_vec(data: Seq<u8>, pos: int) -> Result<(Seq<Seq<u8>>, int), DecodeErrorView> {
    match spec_read_u64(data, pos) {
        Err(e) => Err(DecodeErrorView::Cursor(e)),
        Ok((n, p)) => if n > usize::MAX {
            Err(DecodeErrorView::Cursor(CursorError::LengthOverflow(n)))
        } else {
            bytes_items(data, p, n as nat, Seq::empty())
        },
    }
}

fn write_bytes_vec(out: &mut Vec<u8>, v: &Vec<Vec<u8>>)
    ensures
        final(out)@ == old(out)@ + enc_bytes_vec(vecs_view(v@)),
{
    reveal(enc_bytes_vec);
    let ghost before = out@;
    write_u64(out, v.len() as u64);
    let mut i: usize = 0;
    while i < v.len()
        invariant
            i <= v@.len(),
            out@ == before + u64_le(v@.len() as u64) + enc_bytes_items(vecs_view(v@).take(i as int)),
        decreases v@.len() - i,
    {
        write_bytes(out, v[i].as_slice());
        proof {
            let dv = vecs_view(v@);
            assert(dv.take(i + 1).drop_last() =~= dv.take(i as int));
            assert(dv.take(i + 1).last() == v@[i as int]@);
        }
        i = i + 1;
    }
    assert(vecs_view(v@).take(v@.len() as int) =~= vecs_view(v@));
}

fn read_bytes_vec(data: &[u8], pos: usize) -> (r: Result<(Vec<Vec<u8>>, usize), DecodeError>)
    ensures
        match r {
            Ok((v, p)) => spec_read_bytes_vec(data@, pos as int) == Ok::<(Seq<Seq<u8>>, int), DecodeErrorView>(
                (vecs_view(v@), p as int),
            ) && p <= data@.len(),
            Err(e) => spec_read_bytes_vec(data@, pos as int) == Err::<(Seq<Seq<u8>>, int), DecodeErrorView>(e@),
        },
{
    let (n, p0) = match read_u64(data, pos) {
        Ok(x) => x,
        Err(e) => return Err(DecodeError::Cursor(e)),
    };
    if n > usize::MAX as u64 {
        return Err(DecodeError::Cursor(CursorError::LengthOverflow(n)));
    }
    let mut out: Vec<Vec<u8>> = Vec::new();
    assert(vecs_view(out@) =~= Seq::<Seq<u8>>::empty());
    let mut p = p0;
    let mut i: u64 = 0;
    while i < n
        invariant
            i <= n,
            p <= data@.len(),
            n <= usize::MAX,
            spec_read_u64(data@, pos as int) == Ok::<(u64, int), CursorError>((n, p0 as int)),
            bytes_items(data@, p0 as int, n as nat, Seq::empty()) == bytes_items(
                data@,
                p as int,
                (n - i) as nat,
                vecs_view(out@),
            ),
        decreases n - i,
    {
        let (b, q) = match read_bytes(data, p) {
            Ok(x) => x,
            Err(e) => return Err(DecodeError::Cursor(e)),
        };
        let ghost before = vecs_view(out@);
        let ghost bv = b@;
        out.push(b);
        assert(vecs_view(out@) =~= before.push(bv));
        p = q;
        i = i + 1;
    }
    Ok((out, p))
}

/// Index of a fee lane in the layout.
pub open spec fn lane_index(l: FeeLane) -> u32 {
    match l {
        FeeLane::Consumer => 0,
        FeeLane::Industrial => 1,
    }
}

/// Index of a signature mode in the layout.
pub open spec fn version_index(v: TxVersion) -> u32 {
    match v {
        TxVersion::Ed25519Only => 0,
        TxVersion::Dual => 1,
        TxVersion::DilithiumOnly => 2,
    }
}

pub open spec fn spec_read_fee_lane(data: Seq<u8>, pos: int) -> Result<(FeeLane, int), DecodeErrorView> {
    match spec_read_u32(data, pos) {
        Err(e) => Err(DecodeErrorView::Cursor(e)),
        Ok((v, p)) => if v == 0 {
            Ok((FeeLane::Consumer, p))
        } else if v == 1 {
            Ok((FeeLane::Industrial, p))
        } else {
            Err(DecodeErrorView::InvalidEnumDiscriminant { ty: "FeeLane"@, value: v })
        },
    }
}

pub open spec fn spec_read_tx_version(data: Seq<u8>, pos: int) -> Result<(TxVersion, int), DecodeErrorView> {
    match spec_read_u32(data, pos) {
        Err(e) => Err(DecodeErrorView::Cursor(e)),
        Ok((v, p)) => if v == 0 {
            Ok((TxVersion::Ed25519Only, p))
        } else if v == 1 {
            Ok((TxVersion::Dual, p))
        } else if v == 2 {
            Ok((TxVersion::DilithiumOnly, p))
        } else {
            Err(DecodeErrorView::InvalidEnumDiscriminant { ty: "TxVersion"@, value: v })
        },
    }
}

fn read_fee_lane(data: &[u8], pos: usize) -> (r: Result<(FeeLane, usize), DecodeError>)
    ensures
        match r {
            Ok((v, p)) => spec_read_fee_lane(data@, pos as int) == Ok::<(FeeLane, int), DecodeErrorView>((v, p as int)),
            Err(e) => spec_read_fee_lane(data@, pos as int) == Err::<(FeeLane, int), DecodeErrorView>(e@),
        },
{
    let (v, p) = match read_u32(data, pos) {
        Ok(x) => x,
        Err(e) => return Err(DecodeError::Cursor(e)),
    };
    if v == 0 {
        Ok((FeeLane::Consumer, p))
    } else if v == 1 {
        Ok((FeeLane::Industrial, p))
    } else {
        Err(DecodeError::InvalidEnumDiscriminant { ty: "FeeLane", value: v })
    }
}

fn read_tx_version(data: &[u8], pos: usize) -> (r: Result<(TxVersion, usize), DecodeError>)
    ensures
        match r {
            Ok((v, p)) => spec_read_tx_version(data@, pos as int) == Ok::<(TxVersion, int), DecodeErrorView>((v, p as int)),
            Err(e) => spec_read_tx_version(data@, pos as int) == Err::<(TxVersion, int), DecodeErrorView>(e@),
        },
{
    let (v, p) = match read_u32(data, pos) {
        Ok(x) => x,
        Err(e) => return Err(DecodeError::Cursor(e)),
    };
    if v == 0 {
        Ok((TxVersion::Ed25519Only, p))
    } else if v == 1 {
        Ok((TxVersion::Dual, p))
    } else if v == 2 {
        Ok((TxVersion::DilithiumOnly, p))
    } else {
        Err(DecodeError::InvalidEnumDiscriminant { ty: "TxVersion", value: v })
    }
}

} // verus!

verus! {

// ---------------------------------------------------------------------------
// SignedTransaction
// ---------------------------------------------------------------------------

/// The canonical bytes of a signed transaction.
pub open spec fn enc_signed_tx(t: SignedTransactionView) -> Seq<u8> {
    u64_le(9) + enc_field("payload"@, enc_raw_payload(t.payload)) + enc_field("public_key"@, enc_bytes(t.public_key))
        + enc_field("signature"@, enc_signature(t.signature)) + enc_field("tip"@, u64_le(t.tip)) + enc_field(
        "signer_pubkeys"@,
        enc_bytes_vec(t.signer_pubkeys),
    ) + enc_field("aggregate_signature"@, enc_bytes(t.aggregate_signature)) + enc_field(
        "threshold"@,
        enc_u8(t.threshold),
    ) + enc_field("lane"@, u32_le(lane_index(t.lane))) + enc_field("version"@, u32_le(version_index(t.version)))
}

/// The signed transaction fields seen so far while decoding.
pub struct SignedSlots {
    pub payload: Option<RawTxPayloadView>,
    pub public_key: Option<Seq<u8>>,
    pub signature: Option<Seq<u8>>,
    pub tip: Option<u64>,
    pub signer_pubkeys: Option<Seq<Seq<u8>>>,
    pub aggregate_signature: Option<Seq<u8>>,
    pub threshold: Option<u8>,
    pub lane: Option<FeeLane>,
    pub version: Option<TxVersion>,
}

pub open spec fn signed_slots_empty() -> SignedSlots {
    SignedSlots {
        payload: None,
        public_key: None,
        signature: None,
        tip: None,
        signer_pubkeys: None,
        aggregate_signature: None,
        threshold: None,
        lane: None,
        version: None,
    }
}

/// Decoding one signed transaction field at `pos`.
#[verifier::opaque]
pub open spec fn signed_field(data: Seq<u8>, pos: int, s: SignedSlots) -> Result<(SignedSlots, int), DecodeErrorView> {
    match spec_read_string(data, pos) {
        Err(e) => Err(DecodeErrorView::Cursor(e)),
        Ok((key, p)) => if key == "payload"@ {
            match take_field_d(s.payload is Some, spec_read_raw_payload(data, p), "payload"@) {
                Ok((v, q)) => Ok((SignedSlots { payload: Some(v), ..s }, q)),
                Err(e) => Err(e),
            }
        } else if key == "public_key"@ {
            match take_field(s.public_key is Some, spec_read_bytes(data, p), "public_key"@) {
                Ok((v, q)) => Ok((SignedSlots { public_key: Some(v), ..s }, q)),
                Err(e) => Err(e),
            }
        } else if key == "signature"@ {
            match take_field_d(s.signature is Some, spec_read_signature(data, p), "signature"@) {
                Ok((v, q)) => Ok((SignedSlots { signature: Some(v), ..s }, q)),
                Err(e) => Err(e),
            }
        } else if key == "tip"@ {
            match take_field(s.tip is Some, spec_read_u64(data, p), "tip"@) {
                Ok((v, q)) => Ok((SignedSlots { tip: Some(v), ..s }, q)),
                Err(e) => Err(e),
            }
        } else if key == "signer_pubkeys"@ {
            match take_field_d(s.signer_pubkeys is Some, spec_read_bytes_vec(data, p), "signer_pubkeys"@) {
                Ok((v, q)) => Ok((SignedSlots { signer_pubkeys: Some(v), ..s }, q)),
                Err(e) => Err(e),
            }
        } else if key == "aggregate_signature"@ {
            match take_field(s.aggregate_signature is Some, spec_read_bytes(data, p), "aggregate_signature"@) {
                Ok((v, q)) => Ok((SignedSlots { aggregate_signature: Some(v), ..s }, q)),
                Err(e) => Err(e),
            }
        } else if key == "threshold"@ {
            match take_field(s.threshold is Some, spec_read_u8(data, p), "threshold"@) {
                Ok((v, q)) => Ok((SignedSlots { threshold: Some(v), ..s }, q)),
                Err(e) => Err(e),
            }
        } else if key == "lane"@ {
            match take_field_d(s.lane is Some, spec_read_fee_lane(data, p), "lane"@) {
                Ok((v, q)) => Ok((SignedSlots { lane: Some(v), ..s }, q)),
                Err(e) => Err(e),
            }
        } else if key == "version"@ {
            match take_field_d(s.version is Some, spec_read_tx_version(data, p), "version"@) {
                Ok((v, q)) => Ok((SignedSlots { version: Some(v), ..s }, q)),
                Err(e) => Err(e),
            }
        } else {
            Err(DecodeErrorView::UnknownField(key))
        },
    }
}

pub open spec fn signed_fields(data: Seq<u8>, pos: int, n: nat, s: SignedSlots) -> Result<(SignedSlots, int), DecodeErrorView>
    decreases n,
{
    if n == 0 {
        Ok((s, pos))
    } else {
        match signed_field(data, pos, s) {
            Ok((s2, p2)) => signed_fields(data, p2, (n - 1) as nat, s2),
            Err(e) => Err(e),
        }
    }
}

/// The signed transaction once all fields are read: the payload is
/// required; any other absent field takes its default (empty, zero, the
/// consumer lane, Ed25519 only).
pub open spec fn signed_finish(s: SignedSlots) -> Result<SignedTransactionView, DecodeErrorView> {
    if s.payload is None {
        Err(DecodeErrorView::MissingField("payload"@))
    } else {
        Ok(
            SignedTransactionView {
                payload: s.payload->Some_0,
                public_key: match s.public_key {
                    Some(v) => v,
                    None => Seq::empty(),
                },
                signature: match s.signature {
                    Some(v) => v,
                    None => Seq::empty(),
                },
                tip: match s.tip {
                    Some(v) => v,
                    None => 0,
                },
                signer_pubkeys: match s.signer_pubkeys {
                    Some(v) => v,
                    None => Seq::empty(),
                },
                aggregate_signature: match s.aggregate_signature {
                    Some(v) => v,
                    None => Seq::empty(),
                },
                threshold: match s.threshold {
                    Some(v) => v,
                    None => 0,
                },
                lane: match s.lane {
                    Some(v) => v,
                    None => FeeLane::Consumer,
                },
                version: match s.version {
                    Some(v) => v,
                    None => TxVersion::Ed25519Only,
                },
            },
        )
    }
}

/// Reading a signed transaction at `pos`: any number of fields.
pub open spec fn spec_read_signed_tx(data: Seq<u8>, pos: int) -> Result<(SignedTransactionView, int), DecodeErrorView> {
    match spec_read_u64(data, pos) {
        Err(e) => Err(DecodeErrorView::Cursor(e)),
        Ok((n, p)) => match signed_fields(data, p, n as nat, signed_slots_empty()) {
            Err(e) => Err(e),
            Ok((s, q)) => match signed_finish(s) {
                Ok(v) => Ok((v, q)),
                Err(e) => Err(e),
            },
        },
    }
}

/// Decoding a whole buffer as one signed transaction.
pub open spec fn spec_decode_signed_tx(data: Seq<u8>) -> Result<SignedTransactionView, DecodeErrorView> {
    match spec_read_signed_tx(data, 0) {
        Err(e) => Err(e),
        Ok((v, p)) => if p == data.len() {
            Ok(v)
        } else {
            Err(DecodeErrorView::TrailingBytes(data.len() - p))
        },
    }
}

struct SignedTxSlots {
    payload: Option<RawTxPayload>,
    public_key: Option<Vec<u8>>,
    signature: Option<Vec<u8>>,
    tip: Option<u64>,
    signer_pubkeys: Option<Vec<Vec<u8>>>,
    aggregate_signature: Option<Vec<u8>>,
    threshold: Option<u8>,
    lane: Option<FeeLane>,
    version: Option<TxVersion>,
}

impl View for SignedTxSlots {
    type V = SignedSlots;

    closed spec fn view(&self) -> SignedSlots {
        SignedSlots {
            payload: match self.payload {
                Some(p) => Some(p@),
                None => None,
            },
            public_key: opt_bytes(self.public_key),
            signature: opt_bytes(self.signature),
            tip: self.tip,
            signer_pubkeys: match self.signer_pubkeys {
                Some(v) => Some(vecs_view(v@)),
                None => None,
            },
            aggregate_signature: opt_bytes(self.aggregate_signature),
            threshold: self.threshold,
            lane: self.lane,
            version: self.version,
        }
    }
}

fn write_payload_field(out: &mut Vec<u8>, payload: &RawTxPayload)
    ensures
        final(out)@ == old(out)@ + enc_field("payload"@, enc_raw_payload(payload@)),
{
    let ghost b0 = out@;
    write_string(out, "payload");
    write_raw_payload(out, payload);
    assert(final(out)@ =~= b0 + enc_field("payload"@, enc_raw_payload(payload@)));
}

fn write_signature_field(out: &mut Vec<u8>, sig: &[u8])
    ensures
        final(out)@ == old(out)@ + enc_field("signature"@, enc_signature(sig@)),
{
    let ghost b0 = out@;
    write_string(out, "signature");
    write_signature(out, sig);
    assert(final(out)@ =~= b0 + enc_field("signature"@, enc_signature(sig@)));
}

fn write_bytes_vec_field(out: &mut Vec<u8>, v: &Vec<Vec<u8>>)
    ensures
        final(out)@ == old(out)@ + enc_field("signer_pubkeys"@, enc_bytes_vec(vecs_view(v@))),
{
    let ghost b0 = out@;
    write_string(out, "signer_pubkeys");
    write_bytes_vec(out, v);
    assert(final(out)@ =~= b0 + enc_field("signer_pubkeys"@, enc_bytes_vec(vecs_view(v@))));
}

fn write_u32_field(out: &mut Vec<u8>, name: &str, v: u32)
    ensures
        final(out)@ == old(out)@ + enc_field(name@, u32_le(v)),
{
    let ghost b0 = out@;
    write_string(out, name);
    write_u32(out, v);
    assert(final(out)@ =~= b0 + enc_field(name@, u32_le(v)));
}

fn signed_tx_bytes(tx: &SignedTransaction) -> (b: Vec<u8>)
    ensures
        b@ == enc_signed_tx(tx@),
{
    let mut out: Vec<u8> = Vec::new();
    write_u64(&mut out, 9);
    assert(out@ =~= u64_le(9));
    write_payload_field(&mut out, &tx.payload);
    write_bytes_field(&mut out, "public_key", tx.public_key.as_slice());
    write_signature_field(&mut out, tx.signature.ed25519.as_slice());
    write_u64_field(&mut out, "tip", tx.tip);
    write_bytes_vec_field(&mut out, &tx.signer_pubkeys);
    write_bytes_field(&mut out, "aggregate_signature", tx.aggregate_signature.as_slice());
    write_u8_field(&mut out, "threshold", tx.threshold);
    let lane: u32 = match tx.lane {
        FeeLane::Consumer => 0,
        FeeLane::Industrial => 1,
    };
    write_u32_field(&mut out, "lane", lane);
    let version: u32 = match tx.version {
        TxVersion::Ed25519Only => 0,
        TxVersion::Dual => 1,
        TxVersion::DilithiumOnly => 2,
    };
    write_u32_field(&mut out, "version", version);
    out
}

/// Encodes a signed transaction in the canonical layout.
pub fn encode_signed_transaction(tx: &SignedTransaction) -> (r: Result<Vec<u8>, EncodeError>)
    ensures
        r matches Ok(b) && b@ == enc_signed_tx(tx@),
{
    Ok(signed_tx_bytes(tx))
}

fn read_signed_field(data: &[u8], p: usize, s: &mut SignedTxSlots) -> (r: Result<usize, DecodeError>)
    ensures
        match r {
            Ok(q) => signed_field(data@, p as int, old(s)@) == Ok::<(SignedSlots, int), DecodeErrorView>((final(s)@, q as int))
                && q <= data@.len(),
            Err(e) => signed_field(data@, p as int, old(s)@) == Err::<(SignedSlots, int), DecodeErrorView>(e@),
        },
{
    reveal(signed_field);
    let (key, q) = match read_string(data, p) {
        Ok(x) => x,
        Err(e) => return Err(DecodeError::Cursor(e)),
    };
    if str_eq(key.as_str(), "payload") {
        let (v, q2) = read_raw_payload(data, q)?;
        assign_once(&mut s.payload, v, "payload")?;
        Ok(q2)
    } else if str_eq(key.as_str(), "public_key") {
        let (v, q2) = match read_bytes(data, q) {
            Ok(x) => x,
            Err(e) => return Err(DecodeError::Cursor(e)),
        };
        assign_once(&mut s.public_key, v, "public_key")?;
        Ok(q2)
    } else if str_eq(key.as_str(), "signature") {
        let (v, q2) = read_signature(data, q)?;
        assign_once(&mut s.signature, v, "signature")?;
        Ok(q2)
    } else if str_eq(key.as_str(), "tip") {
        let (v, q2) = match read_u64(data, q) {
            Ok(x) => x,
            Err(e) => return Err(DecodeError::Cursor(e)),
        };
        assign_once(&mut s.tip, v, "tip")?;
        Ok(q2)
    } else if str_eq(key.as_str(), "signer_pubkeys") {
        let (v, q2) = read_bytes_vec(data, q)?;
        assign_once(&mut s.signer_pubkeys, v, "signer_pubkeys")?;
        Ok(q2)
    } else if str_eq(key.as_str(), "aggregate_signature") {
        let (v, q2) = match read_bytes(data, q) {
            Ok(x) => x,
            Err(e) => return Err(DecodeError::Cursor(e)),
        };
        assign_once(&mut s.aggregate_signature, v, "aggregate_signature")?;
        Ok(q2)
    } else if str_eq(key.as_str(), "threshold") {
        let (v, q2) = match read_u8(data, q) {
            Ok(x) => x,
            Err(e) => return Err(DecodeError::Cursor(e)),
        };
        assign_once(&mut s.threshold, v, "threshold")?;
        Ok(q2)
    } else if str_eq(key.as_str(), "lane") {
        let (v, q2) = read_fee_lane(data, q)?;
        assign_once(&mut s.lane, v, "lane")?;
        Ok(q2)
    } else if str_eq(key.as_str(), "version") {
        let (v, q2) = read_tx_version(data, q)?;
        assign_once(&mut s.version, v, "version")?;
        Ok(q2)
    } else {
        Err(DecodeError::UnknownField(key))
    }
}

pub(crate) fn read_signed_transaction(data: &[u8], pos: usize) -> (r: Result<(SignedTransaction, usize), DecodeError>)
    ensures
        decoded(r) == spec_read_signed_tx(data@, pos as int),
        r matches Ok((_, q)) ==> q <= data@.len(),
{
    let (n, p0) = match read_u64(data, pos) {
        Ok(x) => x,
        Err(e) => return Err(DecodeError::Cursor(e)),
    };
    let mut p = p0;
    let mut s = SignedTxSlots {
        payload: None,
        public_key: None,
        signature: None,
        tip: None,
        signer_pubkeys: None,
        aggregate_signature: None,
        threshold: None,
        lane: None,
        version: None,
    };
    assert(s@ == signed_slots_empty());
    let mut i: u64 = 0;
    while i < n
        invariant
            i <= n,
            p <= data@.len(),
            spec_read_u64(data@, pos as int) == Ok::<(u64, int), CursorError>((n, p0 as int)),
            signed_fields(data@, p0 as int, n as nat, signed_slots_empty()) == signed_fields(
                data@,
                p as int,
                (n - i) as nat,
                s@,
            ),
        decreases n - i,
    {
        let ghost sb = s@;
        let ghost pb = p as int;
        match read_signed_field(data, p, &mut s) {
            Ok(q) => {
                p = q;
            },
            Err(e) => {
                assert(signed_fields(data@, pb, (n - i) as nat, sb) == Err::<(SignedSlots, int), DecodeErrorView>(e@));
                return Err(e);
            },
        }
        i = i + 1;
    }
    let payload = match s.payload {
        Some(v) => v,
        None => return Err(DecodeError::MissingField("payload")),
    };
    let public_key = match s.public_key {
        Some(v) => v,
        None => Vec::new(),
    };
    let signature = match s.signature {
        Some(v) => v,
        None => Vec::new(),
    };
    let tip = match s.tip {
        Some(v) => v,
        None => 0,
    };
    let signer_pubkeys = match s.signer_pubkeys {
        Some(v) => v,
        None => Vec::new(),
    };
    let aggregate_signature = match s.aggregate_signature {
        Some(v) => v,
        None => Vec::new(),
    };
    let threshold = match s.threshold {
        Some(v) => v,
        None => 0,
    };
    let lane = match s.lane {
        Some(v) => v,
        None => FeeLane::Consumer,
    };
    let version = match s.version {
        Some(v) => v,
        None => TxVersion::Ed25519Only,
    };
    let tx = SignedTransaction {
        payload,
        public_key,
        signature: TxSignature { ed25519: signature },
        tip,
        signer_pubkeys,
        aggregate_signature,
        threshold,
        lane,
        version,
    };
    assert(vecs_view(tx.signer_pubkeys@) =~= match s@.signer_pubkeys {
        Some(v) => v,
        None => Seq::<Seq<u8>>::empty(),
    });
    Ok((tx, p))
}

/// Decodes a signed transaction from bytes produced by
/// [`encode_signed_transaction`]; trailing bytes are an error.
pub fn decode_signed_transaction(bytes: &[u8]) -> (r: Result<SignedTransaction, DecodeError>)
    ensures
        match r {
            Ok(v) => spec_decode_signed_tx(bytes@) == Ok::<SignedTransactionView, DecodeErrorView>(v@),
            Err(e) => spec_decode_signed_tx(bytes@) == Err::<SignedTransactionView, DecodeErrorView>(e@),
        },
{
    let (v, p) = read_signed_transaction(bytes, 0)?;
    ensure_exhausted(bytes, p)?;
    Ok(v)
}

} // verus!

verus! {

proof fn lemma_items_prefix(v: Seq<Seq<u8>>, j: int)
    requires
        0 <= j <= v.len(),
    ensures
        enc_bytes_items(v.take(j)).len() <= enc_bytes_items(v).len(),
        enc_bytes_items(v).subrange(0, enc_bytes_items(v.take(j)).len() as int) == enc_bytes_items(v.take(j)),
    decreases v.len(),
{
    if j == v.len() {
        assert(v.take(j) =~= v);
        assert(enc_bytes_items(v).subrange(0, enc_bytes_items(v).len() as int) =~= enc_bytes_items(v));
    } else {
        let d = v.drop_last();
        lemma_items_prefix(d, j);
        assert(d.take(j) =~= v.take(j));
        let a = enc_bytes_items(d);
        let m = enc_bytes_items(v.take(j)).len() as int;
        assert(enc_bytes_items(v) == a + enc_bytes(v.last()));
        assert((a + enc_bytes(v.last())).subrange(0, m) =~= a.subrange(0, m));
    }
}

proof fn lemma_bytes_items_read(data: Seq<u8>, start: int, v: Seq<Seq<u8>>, k: int)
    requires
        is_at(data, start, enc_bytes_items(v)),
        0 <= k <= v.len(),
        forall|i: int| 0 <= i < v.len() ==> (#[trigger] v[i]).len() <= u64::MAX,
    ensures
        bytes_items(data, start + enc_bytes_items(v.take(k)).len(), (v.len() - k) as nat, v.take(k))
            == Ok::<(Seq<Seq<u8>>, int), DecodeErrorView>((v, start + enc_bytes_items(v).len())),
    decreases v.len() - k,
{
    if k == v.len() {
        assert(v.take(k) =~= v);
    } else {
        let t = v.take(k + 1);
        lemma_items_prefix(v, k + 1);
        lemma_is_at_prefix(data, start, enc_bytes_items(v), enc_bytes_items(t).len() as int);
        assert(t.drop_last() =~= v.take(k));
        assert(t.last() == v[k]);
        assert(enc_bytes_items(t) == enc_bytes_items(v.take(k)) + enc_bytes(v[k]));
        lemma_is_at_split(data, start, enc_bytes_items(v.take(k)), enc_bytes(v[k]));
        let pk = start + enc_bytes_items(v.take(k)).len();
        lemma_read_bytes(data, pk, v[k]);
        assert(v.take(k).push(v[k]) =~= t);
        lemma_bytes_items_read(data, start, v, k + 1);
    }
}

/// Reading where a list of byte strings was written gives it back.
pub proof fn lemma_read_bytes_vec_at(data: Seq<u8>, pos: int, v: Seq<Seq<u8>>)
    requires
        is_at(data, pos, enc_bytes_vec(v)),
        v.len() <= usize::MAX,
        forall|i: int| 0 <= i < v.len() ==> (#[trigger] v[i]).len() <= u64::MAX,
    ensures
        spec_read_bytes_vec(data, pos) == Ok::<(Seq<Seq<u8>>, int), DecodeErrorView>(
            (v, pos + enc_bytes_vec(v).len()),
        ),
{
    reveal(enc_bytes_vec);
    lemma_is_at_split(data, pos, u64_le(v.len() as u64), enc_bytes_items(v));
    lemma_read_u64(data, pos, v.len() as u64);
    assert(v.take(0) =~= Seq::<Seq<u8>>::empty());
    lemma_bytes_items_read(data, pos + 8, v, 0);
}

/// Reading where a signature struct was written gives the signature back.
pub proof fn lemma_read_signature_at(data: Seq<u8>, pos: int, sig: Seq<u8>)
    requires
        is_at(data, pos, enc_signature(sig)),
        sig.len() <= u64::MAX,
    ensures
        spec_read_signature(data, pos) == Ok::<(Seq<u8>, int), DecodeErrorView>(
            (sig, pos + enc_signature(sig).len()),
        ),
{
    reveal(enc_signature);
    reveal_strlit("ed25519");
    let f = enc_field("ed25519"@, enc_bytes(sig));
    lemma_is_at_split(data, pos, u64_le(1), f);
    lemma_read_u64(data, pos, 1);
    lemma_field_at(data, pos + 8, "ed25519"@, enc_bytes(sig));
    lemma_read_bytes(data, pos + 8 + enc_string("ed25519"@).len(), sig);
    let q = pos + 8 + f.len();
    assert(sig_fields(data, q, 0, Some(sig)) == Ok::<(Option<Seq<u8>>, int), DecodeErrorView>((Some(sig), q)));
    assert(sig_fields(data, pos + 8, 1, None) == sig_fields(data, q, 0, Some(sig)));
}


proof fn lemma_signed_step_payload(data: Seq<u8>, q: int, s: SignedSlots, v: RawTxPayloadView)
    requires
        is_at(data, q, enc_field("payload"@, enc_raw_payload(v))),
        s.payload is None,
        raw_payload_fits(v),
    ensures
        signed_field(data, q, s) == Ok::<(SignedSlots, int), DecodeErrorView>(
            (SignedSlots { payload: Some(v), ..s }, q + enc_field("payload"@, enc_raw_payload(v)).len()),
        ),
{
    reveal(signed_field);
    reveal_strlit("payload");
    reveal_strlit("public_key");
    reveal_strlit("signature");
    reveal_strlit("tip");
    reveal_strlit("signer_pubkeys");
    reveal_strlit("aggregate_signature");
    reveal_strlit("threshold");
    reveal_strlit("lane");
    reveal_strlit("version");
    lemma_field_at(data, q, "payload"@, enc_raw_payload(v));
    lemma_read_raw_payload_at(data, q + enc_string("payload"@).len(), v);
}
proof fn lemma_signed_step_public_key(data: Seq<u8>, q: int, s: SignedSlots, v: Seq<u8>)
    requires
        is_at(data, q, enc_field("public_key"@, enc_bytes(v))),
        s.public_key is None,
        v.len() <= u64::MAX,
    ensures
        signed_field(data, q, s) == Ok::<(SignedSlots, int), DecodeErrorView>(
            (SignedSlots { public_key: Some(v), ..s }, q + enc_field("public_key"@, enc_bytes(v)).len()),
        ),
{
    reveal(signed_field);
    reveal_strlit("payload");
    reveal_strlit("public_key");
    reveal_strlit("signature");
    reveal_strlit("tip");
    reveal_strlit("signer_pubkeys");
    reveal_strlit("aggregate_signature");
    reveal_strlit("threshold");
    reveal_strlit("lane");
    reveal_strlit("version");
    lemma_field_at(data, q, "public_key"@, enc_bytes(v));
    lemma_read_bytes(data, q + enc_string("public_key"@).len(), v);
}
proof fn lemma_signed_step_signature(data: Seq<u8>, q: int, s: SignedSlots, v: Seq<u8>)
    requires
        is_at(data, q, enc_field("signature"@, enc_signature(v))),
        s.signature is None,
        v.len() <= u64::MAX,
    ensures
        signed_field(data, q, s) == Ok::<(SignedSlots, int), DecodeErrorView>(
            (SignedSlots { signature: Some(v), ..s }, q + enc_field("signature"@, enc_signature(v)).len()),
        ),
{
    reveal(signed_field);
    reveal_strlit("payload");
    reveal_strlit("public_key");
    reveal_strlit("signature");
    reveal_strlit("tip");
    reveal_strlit("signer_pubkeys");
    reveal_strlit("aggregate_signature");
    reveal_strlit("threshold");
    reveal_strlit("lane");
    reveal_strlit("version");
    lemma_field_at(data, q, "signature"@, enc_signature(v));
    lemma_read_signature_at(data, q + enc_string("signature"@).len(), v);
}
proof fn lemma_signed_step_tip(data: Seq<u8>, q: int, s: SignedSlots, v: u64)
    requires
        is_at(data, q, enc_field("tip"@, u64_le(v))),
        s.tip is None,
    ensures
        signed_field(data, q, s) == Ok::<(SignedSlots, int), DecodeErrorView>(
            (SignedSlots { tip: Some(v), ..s }, q + enc_field("tip"@, u64_le(v)).len()),
        ),
{
    reveal(signed_field);
    reveal_strlit("payload");
    reveal_strlit("public_key");
    reveal_strlit("signature");
    reveal_strlit("tip");
    reveal_strlit("signer_pubkeys");
    reveal_strlit("aggregate_signature");
    reveal_strlit("threshold");
    reveal_strlit("lane");
    reveal_strlit("version");
    lemma_field_at(data, q, "tip"@, u64_le(v));
    lemma_read_u64(data, q + enc_string("tip"@).len(), v);
}
proof fn lemma_signed_step_signer_pubkeys(data: Seq<u8>, q: int, s: SignedSlots, v: Seq<Seq<u8>>)
    requires
        is_at(data, q, enc_field("signer_pubkeys"@, enc_bytes_vec(v))),
        s.signer_pubkeys is None,
        v.len() <= usize::MAX,
        forall|i: int| 0 <= i < v.len() ==> (#[trigger] v[i]).len() <= u64::MAX,
    ensures
        signed_field(data, q, s) == Ok::<(SignedSlots, int), DecodeErrorView>(
            (SignedSlots { signer_pubkeys: Some(v), ..s }, q + enc_field("signer_pubkeys"@, enc_bytes_vec(v)).len()),
        ),
{
    reveal(signed_field);
    reveal_strlit("payload");
    reveal_strlit("public_key");
    reveal_strlit("signature");
    reveal_strlit("tip");
    reveal_strlit("signer_pubkeys");
    reveal_strlit("aggregate_signature");
    reveal_strlit("threshold");
    reveal_strlit("lane");
    reveal_strlit("version");
    lemma_field_at(data, q, "signer_pubkeys"@, enc_bytes_vec(v));
    lemma_read_bytes_vec_at(data, q + enc_string("signer_pubkeys"@).len(), v);
}
proof fn lemma_signed_step_aggregate_signature(data: Seq<u8>, q: int, s: SignedSlots, v: Seq<u8>)
    requires
        is_at(data, q, enc_field("aggregate_signature"@, enc_bytes(v))),
        s.aggregate_signature is None,
        v.len() <= u64::MAX,
    ensures
        signed_field(data, q, s) == Ok::<(SignedSlots, int), DecodeErrorView>(
            (SignedSlots { aggregate_signature: Some(v), ..s }, q + enc_field("aggregate_signature"@, enc_bytes(v)).len()),
        ),
{
    reveal(signed_field);
    reveal_strlit("payload");
    reveal_strlit("public_key");
    reveal_strlit("signature");
    reveal_strlit("tip");
    reveal_strlit("signer_pubkeys");
    reveal_strlit("aggregate_signature");
    reveal_strlit("threshold");
    reveal_strlit("lane");
    reveal_strlit("version");
    lemma_field_at(data, q, "aggregate_signature"@, enc_bytes(v));
    lemma_read_bytes(data, q + enc_string("aggregate_signature"@).len(), v);
}
proof fn lemma_signed_step_threshold(data: Seq<u8>, q: int, s: SignedSlots, v: u8)
    requires
        is_at(data, q, enc_field("threshold"@, enc_u8(v))),
        s.threshold is None,
    ensures
        signed_field(data, q, s) == Ok::<(SignedSlots, int), DecodeErrorView>(
            (SignedSlots { threshold: Some(v), ..s }, q + enc_field("threshold"@, enc_u8(v)).len()),
        ),
{
    reveal(signed_field);
    reveal_strlit("payload");
    reveal_strlit("public_key");
    reveal_strlit("signature");
    reveal_strlit("tip");
    reveal_strlit("signer_pubkeys");
    reveal_strlit("aggregate_signature");
    reveal_strlit("threshold");
    reveal_strlit("lane");
    reveal_strlit("version");
    lemma_field_at(data, q, "threshold"@, enc_u8(v));
    lemma_read_u8(data, q + enc_string("threshold"@).len(), v);
}
proof fn lemma_signed_step_lane(data: Seq<u8>, q: int, s: SignedSlots, v: FeeLane)
    requires
        is_at(data, q, enc_field("lane"@, u32_le(lane_index(v)))),
        s.lane is None,
    ensures
        signed_field(data, q, s) == Ok::<(SignedSlots, int), DecodeErrorView>(
            (SignedSlots { lane: Some(v), ..s }, q + enc_field("lane"@, u32_le(lane_index(v))).len()),
        ),
{
    reveal(signed_field);
    reveal_strlit("payload");
    reveal_strlit("public_key");
    reveal_strlit("signature");
    reveal_strlit("tip");
    reveal_strlit("signer_pubkeys");
    reveal_strlit("aggregate_signature");
    reveal_strlit("threshold");
    reveal_strlit("lane");
    reveal_strlit("version");
    lemma_field_at(data, q, "lane"@, u32_le(lane_index(v)));
    lemma_read_u32(data, q + enc_string("lane"@).len(), lane_index(v));
}
proof fn lemma_signed_step_version(data: Seq<u8>, q: int, s: SignedSlots, v: TxVersion)
    requires
        is_at(data, q, enc_field("version"@, u32_le(version_index(v)))),
        s.version is None,
    ensures
        signed_field(data, q, s) == Ok::<(SignedSlots, int), DecodeErrorView>(
            (SignedSlots { version: Some(v), ..s }, q + enc_field("version"@, u32_le(version_index(v))).len()),
        ),
{
    reveal(signed_field);
    reveal_strlit("payload");
    reveal_strlit("public_key");
    reveal_strlit("signature");
    reveal_strlit("tip");
    reveal_strlit("signer_pubkeys");
    reveal_strlit("aggregate_signature");
    reveal_strlit("threshold");
    reveal_strlit("lane");
    reveal_strlit("version");
    lemma_field_at(data, q, "version"@, u32_le(version_index(v)));
    lemma_read_u32(data, q + enc_string("version"@).len(), version_index(v));
}

/// Every length in the transaction fits its prefix (as in every
/// `SignedTransaction`).
pub open spec fn signed_tx_fits(t: SignedTransactionView) -> bool {
    raw_payload_fits(t.payload) && t.public_key.len() <= u64::MAX && t.signature.len() <= u64::MAX
        && t.signer_pubkeys.len() <= usize::MAX && (forall|i: int|
        0 <= i < t.signer_pubkeys.len() ==> (#[trigger] t.signer_pubkeys[i]).len() <= u64::MAX)
        && t.aggregate_signature.len() <= u64::MAX
}

/// Reading where a signed transaction's canonical bytes stand gives it back
/// and the position right after them.
pub proof fn lemma_read_signed_tx_at(data: Seq<u8>, pos: int, t: SignedTransactionView)
    requires
        is_at(data, pos, enc_signed_tx(t)),
        signed_tx_fits(t),
    ensures
        spec_read_signed_tx(data, pos) == Ok::<(SignedTransactionView, int), DecodeErrorView>(
            (t, pos + enc_signed_tx(t).len()),
        ),
{
    let h = u64_le(9);
    let f1 = enc_field("payload"@, enc_raw_payload(t.payload));
    let f2 = enc_field("public_key"@, enc_bytes(t.public_key));
    let f3 = enc_field("signature"@, enc_signature(t.signature));
    let f4 = enc_field("tip"@, u64_le(t.tip));
    let f5 = enc_field("signer_pubkeys"@, enc_bytes_vec(t.signer_pubkeys));
    let f6 = enc_field("aggregate_signature"@, enc_bytes(t.aggregate_signature));
    let f7 = enc_field("threshold"@, enc_u8(t.threshold));
    let f8 = enc_field("lane"@, u32_le(lane_index(t.lane)));
    let f9 = enc_field("version"@, u32_le(version_index(t.version)));
    let e1 = h + f1;
    let e2 = e1 + f2;
    let e3 = e2 + f3;
    let e4 = e3 + f4;
    let e5 = e4 + f5;
    let e6 = e5 + f6;
    let e7 = e6 + f7;
    let e8 = e7 + f8;
    lemma_is_at_split(data, pos, e8, f9);
    lemma_is_at_split(data, pos, e7, f8);
    lemma_is_at_split(data, pos, e6, f7);
    lemma_is_at_split(data, pos, e5, f6);
    lemma_is_at_split(data, pos, e4, f5);
    lemma_is_at_split(data, pos, e3, f4);
    lemma_is_at_split(data, pos, e2, f3);
    lemma_is_at_split(data, pos, e1, f2);
    lemma_is_at_split(data, pos, h, f1);
    lemma_read_u64(data, pos, 9);
    let q0 = pos + 8;
    let q1 = q0 + f1.len();
    let q2 = q1 + f2.len();
    let q3 = q2 + f3.len();
    let q4 = q3 + f4.len();
    let q5 = q4 + f5.len();
    let q6 = q5 + f6.len();
    let q7 = q6 + f7.len();
    let q8 = q7 + f8.len();
    let q9 = q8 + f9.len();
    let s0 = signed_slots_empty();
    let s1 = SignedSlots { payload: Some(t.payload), ..s0 };
    let s2 = SignedSlots { public_key: Some(t.public_key), ..s1 };
    let s3 = SignedSlots { signature: Some(t.signature), ..s2 };
    let s4 = SignedSlots { tip: Some(t.tip), ..s3 };
    let s5 = SignedSlots { signer_pubkeys: Some(t.signer_pubkeys), ..s4 };
    let s6 = SignedSlots { aggregate_signature: Some(t.aggregate_signature), ..s5 };
    let s7 = SignedSlots { threshold: Some(t.threshold), ..s6 };
    let s8 = SignedSlots { lane: Some(t.lane), ..s7 };
    let s9 = SignedSlots { version: Some(t.version), ..s8 };
    lemma_signed_step_payload(data, q0, s0, t.payload);
    lemma_signed_step_public_key(data, q1, s1, t.public_key);
    lemma_signed_step_signature(data, q2, s2, t.signature);
    lemma_signed_step_tip(data, q3, s3, t.tip);
    lemma_signed_step_signer_pubkeys(data, q4, s4, t.signer_pubkeys);
    lemma_signed_step_aggregate_signature(data, q5, s5, t.aggregate_signature);
    lemma_signed_step_threshold(data, q6, s6, t.threshold);
    lemma_signed_step_lane(data, q7, s7, t.lane);
    lemma_signed_step_version(data, q8, s8, t.version);
    assert(signed_fields(data, q9, 0, s9) == Ok::<(SignedSlots, int), DecodeErrorView>((s9, q9)));
    assert(signed_fields(data, q8, 1, s8) == signed_fields(data, q9, 0, s9));
    assert(signed_fields(data, q7, 2, s7) == signed_fields(data, q8, 1, s8));
    assert(signed_fields(data, q6, 3, s6) == signed_fields(data, q7, 2, s7));
    assert(signed_fields(data, q5, 4, s5) == signed_fields(data, q6, 3, s6));
    assert(signed_fields(data, q4, 5, s4) == signed_fields(data, q5, 4, s5));
    assert(signed_fields(data, q3, 6, s3) == signed_fields(data, q4, 5, s4));
    assert(signed_fields(data, q2, 7, s2) == signed_fields(data, q3, 6, s3));
    assert(signed_fields(data, q1, 8, s1) == signed_fields(data, q2, 7, s2));
    assert(signed_fields(data, q0, 9, s0) == signed_fields(data, q1, 8, s1));
    assert(signed_finish(s9) == Ok::<SignedTransactionView, DecodeErrorView>(t));
}

/// Decoding the canonical bytes of a signed transaction gives it back.
pub proof fn lemma_signed_tx_roundtrip(t: SignedTransactionView)
    requires
        signed_tx_fits(t),
    ensures
        spec_decode_signed_tx(enc_signed_tx(t)) == Ok::<SignedTransactionView, DecodeErrorView>(t),
{
    let data = enc_signed_tx(t);
    assert(data.subrange(0, data.len() as int) =~= data);
    lemma_read_signed_tx_at(data, 0, t);
}

} // verus!
