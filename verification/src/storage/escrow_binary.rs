//! The binary record of one rent deposit: a struct of three named fields,
//! `depositor` (a string), `amount` and `expiry` (both `u64`).

use vstd::prelude::*;
use crate::le::u64_le;
use crate::storage::fs::Escrow;
use crate::storage::manifest_laws::string_fits;
use crate::text::str_eq;
use crate::util::binary_cursor::{
    enc_string, is_at, lemma_is_at_split, lemma_read_string, lemma_read_u64, read_string, read_u64,
    spec_read_string, spec_read_u64, write_string, write_u64, CursorError,
};
use crate::util::binary_struct::{
    assign_once, enc_field, ensure_exhausted, lemma_field_at, take_field, DecodeError, DecodeErrorView,
};

verus! {

/// The bytes of a deposit record: the field count 3, then the three fields.
pub open spec fn enc_escrow(depositor: Seq<char>, amount: u64, expiry: u64) -> Seq<u8> {
    u64_le(3) + enc_field("depositor"@, enc_string(depositor)) + enc_field("amount"@, u64_le(amount))
        + enc_field("expiry"@, u64_le(expiry))
}

/// The fields of a deposit record read so far.
pub struct EscrowSlots {
    pub depositor: Option<Seq<char>>,
    pub amount: Option<u64>,
    pub expiry: Option<u64>,
}

pub open spec fn escrow_slots_empty() -> EscrowSlots {
    EscrowSlots { depositor: None, amount: None, expiry: None }
}

/// Reading one named field of a deposit record into its slot.
#[verifier::opaque]
pub open spec fn escrow_field(data: Seq<u8>, pos: int, s: EscrowSlots) -> Result<(EscrowSlots, int), DecodeErrorView> {
    match spec_read_string(data, pos) {
        Err(e) => Err(DecodeErrorView::Cursor(e)),
        Ok((key, p)) => if key == "depositor"@ {
            match take_field(s.depositor is Some, spec_read_string(data, p), "depositor"@) {
                Ok((v, q)) => Ok((EscrowSlots { depositor: Some(v), ..s }, q)),
                Err(e) => Err(e),
            }
        } else if key == "amount"@ {
            match take_field(s.amount is Some, spec_read_u64(data, p), "amount"@) {
                Ok((v, q)) => Ok((EscrowSlots { amount: Some(v), ..s }, q)),
                Err(e) => Err(e),
            }
        } else if key == "expiry"@ {
            match take_field(s.expiry is Some, spec_read_u64(data, p), "expiry"@) {
                Ok((v, q)) => Ok((EscrowSlots { expiry: Some(v), ..s }, q)),
                Err(e) => Err(e),
            }
        } else {
            Err(DecodeErrorView::UnknownField(key))
        },
    }
}

/// Reading `n` fields in turn.
pub open spec fn escrow_fields(data: Seq<u8>, pos: int, n: nat, s: EscrowSlots) -> Result<(EscrowSlots, int), DecodeErrorView>
    decreases n,
{
    if n == 0 {
        Ok((s, pos))
    } else {
        match escrow_field(data, pos, s) {
            Ok((s2, p2)) => escrow_fields(data, p2, (n - 1) as nat, s2),
            Err(e) => Err(e),
        }
    }
}

/// Decoding a whole buffer as a deposit record: exactly three fields, all
/// required, and no trailing bytes; the result is depositor, amount and
/// expiry.
pub open spec fn spec_decode_escrow(data: Seq<u8>) -> Result<(Seq<char>, u64, u64), DecodeErrorView> {
    match spec_read_u64(data, 0) {
        Err(e) => Err(DecodeErrorView::Cursor(e)),
        Ok((n, p)) => match escrow_fields(data, p, n as nat, escrow_slots_empty()) {
            Err(e) => Err(e),
            Ok((s, q)) => if n != 3 {
                Err(DecodeErrorView::InvalidFieldCount { expected: 3, actual: n })
            } else if q != data.len() {
                Err(DecodeErrorView::TrailingBytes(data.len() - q))
            } else if s.depositor is None {
                Err(DecodeErrorView::MissingField("depositor"@))
            } else if s.amount is None {
                Err(DecodeErrorView::MissingField("amount"@))
            } else if s.expiry is None {
                Err(DecodeErrorView::MissingField("expiry"@))
            } else {
                Ok((s.depositor->Some_0, s.amount->Some_0, s.expiry->Some_0))
            },
        },
    }
}

struct EscrowExecSlots {
    depositor: Option<String>,
    amount: Option<u64>,
    expiry: Option<u64>,
}

impl View for EscrowExecSlots {
    type V = EscrowSlots;

    closed spec fn view(&self) -> EscrowSlots {
        EscrowSlots {
            depositor: match self.depositor {
                Some(d) => Some(d@),
                None => None,
            },
            amount: self.amount,
            expiry: self.expiry,
        }
    }
}

/// Encodes a deposit record.
pub fn encode_escrow(record: &Escrow) -> (r: Vec<u8>)
    ensures
        r@ == enc_escrow(record.depositor@, record.amount, record.expiry),
{
    let mut out: Vec<u8> = Vec::new();
    write_u64(&mut out, 3);
    write_string(&mut out, "depositor");
    write_string(&mut out, record.depositor.as_str());
    write_string(&mut out, "amount");
    write_u64(&mut out, record.amount);
    write_string(&mut out, "expiry");
    write_u64(&mut out, record.expiry);
    assert(out@ =~= enc_escrow(record.depositor@, record.amount, record.expiry));
    out
}

fn read_escrow_field(data: &[u8], p: usize, s: &mut EscrowExecSlots) -> (r: Result<usize, DecodeError>)
    ensures
        match r {
            Ok(q) => escrow_field(data@, p as int, old(s)@) == Ok::<(EscrowSlots, int), DecodeErrorView>((final(s)@, q as int))
                && q <= data@.len(),
            Err(e) => escrow_field(data@, p as int, old(s)@) == Err::<(EscrowSlots, int), DecodeErrorView>(e@),
        },
{
    reveal(escrow_field);
    let (key, q) = match read_string(data, p) {
        Ok(x) => x,
        Err(e) => return Err(DecodeError::Cursor(e)),
    };
    if str_eq(key.as_str(), "depositor") {
        let (v, q2) = match read_string(data, q) {
            Ok(x) => x,
            Err(e) => return Err(DecodeError::Cursor(e)),
        };
        assign_once(&mut s.depositor, v, "depositor")?;
        Ok(q2)
    } else if str_eq(key.as_str(), "amount") {
        let (v, q2) = match read_u64(data, q) {
            Ok(x) => x,
            Err(e) => return Err(DecodeError::Cursor(e)),
        };
        assign_once(&mut s.amount, v, "amount")?;
        Ok(q2)
    } else if str_eq(key.as_str(), "expiry") {
        let (v, q2) = match read_u64(data, q) {
            Ok(x) => x,
            Err(e) => return Err(DecodeError::Cursor(e)),
        };
        assign_once(&mut s.expiry, v, "expiry")?;
        Ok(q2)
    } else {
        Err(DecodeError::UnknownField(key))
    }
}

/// Decodes a deposit record: exactly three fields, all required; trailing
/// bytes are an error.
pub fn decode_escrow(bytes: &[u8]) -> (r: Result<Escrow, DecodeError>)
    ensures
        match r {
            Ok(v) => spec_decode_escrow(bytes@) == Ok::<(Seq<char>, u64, u64), DecodeErrorView>(
                (v.depositor@, v.amount, v.expiry),
            ),
            Err(e) => spec_decode_escrow(bytes@) == Err::<(Seq<char>, u64, u64), DecodeErrorView>(e@),
        },
{
    let (n, p0) = match read_u64(bytes, 0) {
        Ok(x) => x,
        Err(e) => return Err(DecodeError::Cursor(e)),
    };
    let mut p = p0;
    let mut s = EscrowExecSlots { depositor: None, amount: None, expiry: None };
    assert(s@ == escrow_slots_empty());
    let mut i: u64 = 0;
    while i < n
        invariant
            i <= n,
            p <= bytes@.len(),
            spec_read_u64(bytes@, 0) == Ok::<(u64, int), CursorError>((n, p0 as int)),
            escrow_fields(bytes@, p0 as int, n as nat, escrow_slots_empty()) == escrow_fields(
                bytes@,
                p as int,
                (n - i) as nat,
                s@,
            ),
        decreases n - i,
    {
        let ghost sb = s@;
        let ghost pb = p as int;
        match read_escrow_field(bytes, p, &mut s) {
            Ok(q) => {
                p = q;
            },
            Err(e) => {
                assert(escrow_fields(bytes@, pb, (n - i) as nat, sb) == Err::<(EscrowSlots, int), DecodeErrorView>(e@));
                return Err(e);
            },
        }
        i = i + 1;
    }
    if n != 3 {
        return Err(DecodeError::InvalidFieldCount { expected: 3, actual: n });
    }
    ensure_exhausted(bytes, p)?;
    let depositor = match s.depositor {
        Some(v) => v,
        None => return Err(DecodeError::MissingField("depositor")),
    };
    let amount = match s.amount {
        Some(v) => v,
        None => return Err(DecodeError::MissingField("amount")),
    };
    let expiry = match s.expiry {
        Some(v) => v,
        None => return Err(DecodeError::MissingField("expiry")),
    };
    Ok(Escrow { depositor, amount, expiry })
}

proof fn lemma_step_depositor(data: Seq<u8>, q: int, s: EscrowSlots, v: Seq<char>)
    requires
        is_at(data, q, enc_field("depositor"@, enc_string(v))),
        s.depositor is None,
        string_fits(v),
    ensures
        escrow_field(data, q, s) == Ok::<(EscrowSlots, int), DecodeErrorView>(
            (EscrowSlots { depositor: Some(v), ..s }, q + enc_field("depositor"@, enc_string(v)).len()),
        ),
{
    reveal(escrow_field);
    reveal_strlit("depositor");
    reveal_strlit("amount");
    reveal_strlit("expiry");
    lemma_field_at(data, q, "depositor"@, enc_string(v));
    lemma_read_string(data, q + enc_string("depositor"@).len(), v);
}

proof fn lemma_step_amount(data: Seq<u8>, q: int, s: EscrowSlots, v: u64)
    requires
        is_at(data, q, enc_field("amount"@, u64_le(v))),
        s.amount is None,
    ensures
        escrow_field(data, q, s) == Ok::<(EscrowSlots, int), DecodeErrorView>(
            (EscrowSlots { amount: Some(v), ..s }, q + enc_field("amount"@, u64_le(v)).len()),
        ),
{
    reveal(escrow_field);
    reveal_strlit("depositor");
    reveal_strlit("amount");
    reveal_strlit("expiry");
    lemma_field_at(data, q, "amount"@, u64_le(v));
    lemma_read_u64(data, q + enc_string("amount"@).len(), v);
}

proof fn lemma_step_expiry(data: Seq<u8>, q: int, s: EscrowSlots, v: u64)
    requires
        is_at(data, q, enc_field("expiry"@, u64_le(v))),
        s.expiry is None,
    ensures
        escrow_field(data, q, s) == Ok::<(EscrowSlots, int), DecodeErrorView>(
            (EscrowSlots { expiry: Some(v), ..s }, q + enc_field("expiry"@, u64_le(v)).len()),
        ),
{
    reveal(escrow_field);
    reveal_strlit("depositor");
    reveal_strlit("amount");
    reveal_strlit("expiry");
    lemma_field_at(data, q, "expiry"@, u64_le(v));
    lemma_read_u64(data, q + enc_string("expiry"@).len(), v);
}

/// Decoding the bytes of a deposit record gives the record back (for a
/// depositor whose UTF-8 length fits a `u64`).
pub proof fn lemma_escrow_roundtrip(depositor: Seq<char>, amount: u64, expiry: u64)
    requires
        string_fits(depositor),
    ensures
        spec_decode_escrow(enc_escrow(depositor, amount, expiry)) == Ok::<(Seq<char>, u64, u64), DecodeErrorView>(
            (depositor, amount, expiry),
        ),
{
    let data = enc_escrow(depositor, amount, expiry);
    assert(data.subrange(0, data.len() as int) =~= data);
    let h = u64_le(3);
    let f1 = enc_field("depositor"@, enc_string(depositor));
    let f2 = enc_field("amount"@, u64_le(amount));
    let f3 = enc_field("expiry"@, u64_le(expiry));
    lemma_is_at_split(data, 0, h + f1 + f2, f3);
    lemma_is_at_split(data, 0, h + f1, f2);
    lemma_is_at_split(data, 0, h, f1);
    lemma_read_u64(data, 0, 3);
    let q0 = 8int;
    let q1 = q0 + f1.len();
    let q2 = q1 + f2.len();
    let q3 = q2 + f3.len();
    let s0 = escrow_slots_empty();
    let s1 = EscrowSlots { depositor: Some(depositor), ..s0 };
    let s2 = EscrowSlots { amount: Some(amount), ..s1 };
    let s3 = EscrowSlots { expiry: Some(expiry), ..s2 };
    lemma_step_depositor(data, q0, s0, depositor);
    lemma_step_amount(data, q1, s1, amount);
    lemma_step_expiry(data, q2, s2, expiry);
    assert(escrow_fields(data, q3, 0, s3) == Ok::<(EscrowSlots, int), DecodeErrorView>((s3, q3)));
    assert(escrow_fields(data, q2, 1, s2) == escrow_fields(data, q3, 0, s3));
    assert(escrow_fields(data, q1, 2, s1) == escrow_fields(data, q2, 1, s2));
    assert(escrow_fields(data, q0, 3, s0) == escrow_fields(data, q1, 2, s1));
    assert(q3 == data.len());
}

} // verus!
