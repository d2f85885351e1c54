//! Laws of the manifest layout: reading what was written gives it back.

use vstd::prelude::*;
use vstd::utf8::encode_utf8;
use crate::le::{u16_le, u32_le, u64_le};
use crate::storage::manifest_binary::{
    ChunkSlots, EntrySlots, ManifestSlots, ReceiptSlots, chunk_field, chunk_fields, chunk_items, chunk_slots_empty, enc_chunk, enc_chunk_items, enc_chunk_vec, enc_entry, enc_entry_items, enc_entry_vec, enc_manifest, enc_option_i32, enc_option_string, enc_redundancy, enc_store_receipt, enc_string_items, enc_string_vec, enc_u32_items, enc_u32_vec, entry_field, entry_fields, entry_items, entry_slots_empty, manifest_field, manifest_fields, manifest_finish, manifest_slots_empty, receipt_field, receipt_fields, receipt_slots_empty, rs_field, rs_fields, spec_decode_manifest, spec_decode_store_receipt, spec_read_chunk, spec_read_chunk_vec, spec_read_entry, spec_read_entry_vec, spec_read_fixed_u8_array, spec_read_manifest, spec_read_option_i32, spec_read_option_string, spec_read_redundancy, spec_read_string_vec, spec_read_u32_vec, string_items, u32_items,
};
use crate::storage::types::{ChunkRefView, ObjectManifestView, ProviderChunkEntryView, Redundancy, StoreReceiptView};
use crate::util::binary_cursor::{
    enc_bytes, enc_i64, enc_string, enc_u8, is_at, lemma_is_at_prefix, lemma_is_at_split, lemma_read_bytes,
    lemma_read_i64, lemma_read_option_tag, lemma_read_string, lemma_read_u16, lemma_read_u32, lemma_read_u64,
    lemma_read_u8, enc_option,
};
use crate::util::binary_struct::{enc_field, lemma_field_at, DecodeErrorView};

verus! {

/// A string whose UTF-8 length a `u64` holds.
pub open spec fn string_fits(s: Seq<char>) -> bool {
    encode_utf8(s).len() <= u64::MAX
}

/// A list of strings that can be written and read back.
pub open spec fn strings_fit(v: Seq<Seq<char>>) -> bool {
    v.len() <= usize::MAX && forall|i: int| 0 <= i < v.len() ==> string_fits(#[trigger] v[i])
}

/// A provider entry whose lengths fit their prefixes.
pub open spec fn entry_fits(e: ProviderChunkEntryView) -> bool {
    string_fits(e.provider) && e.chunk_indices.len() <= usize::MAX && e.chunk_lens.len() <= usize::MAX
        && e.encryption_key.len() <= u64::MAX
}

/// A list of provider entries that can be written and read back.
pub open spec fn entries_fit(v: Seq<ProviderChunkEntryView>) -> bool {
    v.len() <= usize::MAX && forall|i: int| 0 <= i < v.len() ==> entry_fits(#[trigger] v[i])
}

/// A chunk reference that can be written and read back.
pub open spec fn chunk_fits(c: ChunkRefView) -> bool {
    c.id.len() == 32 && strings_fit(c.nodes) && entries_fit(c.provider_chunks)
}

/// An optional string that can be written and read back.
pub open spec fn opt_string_fits(o: Option<Seq<char>>) -> bool {
    match o {
        Some(s) => string_fits(s),
        None => true,
    }
}

/// A manifest that can be written and read back: every length fits its
/// prefix and both hashes are 32 bytes (as in every `ObjectManifest`).
pub open spec fn manifest_fits(m: ObjectManifestView) -> bool {
    &&& m.chunks.len() <= usize::MAX
    &&& forall|i: int| 0 <= i < m.chunks.len() ==> chunk_fits(#[trigger] m.chunks[i])
    &&& m.content_key_enc.len() <= u64::MAX
    &&& m.blake3.len() == 32
    &&& m.chunk_lens.len() <= usize::MAX
    &&& m.chunk_compressed_lens.len() <= usize::MAX
    &&& m.chunk_cipher_lens.len() <= usize::MAX
    &&& opt_string_fits(m.compression_alg)
    &&& opt_string_fits(m.encryption_alg)
    &&& opt_string_fits(m.erasure_alg)
    &&& entries_fit(m.provider_chunks)
}

proof fn lemma_u32_item(data: Seq<u8>, pos: int, x: u32)
    requires
        is_at(data, pos, u32_le(x)),
    ensures
        spec_read_u32_ok(data, pos, x),
{
    lemma_read_u32(data, pos, x);
}

/// Every `u32` can be written and read back.
pub open spec fn u32_fits(x: u32) -> bool {
    true
}

/// `spec_read_u32` gives `x` and the position after it.
pub open spec fn spec_read_u32_ok(data: Seq<u8>, pos: int, x: u32) -> bool {
    crate::util::binary_cursor::spec_read_u32(data, pos) == Ok::<(u32, int), crate::util::binary_cursor::CursorError>((x, pos + 4))
}

proof fn lemma_string_item(data: Seq<u8>, pos: int, s: Seq<char>)
    requires
        is_at(data, pos, enc_string(s)),
        string_fits(s),
    ensures
        crate::util::binary_cursor::spec_read_string(data, pos) == Ok::<(Seq<char>, int), crate::util::binary_cursor::CursorError>(
            (s, pos + enc_string(s).len()),
        ),
{
    lemma_read_string(data, pos, s);
}

} // verus!

verus! {

proof fn lemma_u32_items_prefix(v: Seq<u32>, j: int)
    requires
        0 <= j <= v.len(),
    ensures
        enc_u32_items(v.take(j)).len() <= enc_u32_items(v).len(),
        enc_u32_items(v).subrange(0, enc_u32_items(v.take(j)).len() as int) == enc_u32_items(v.take(j)),
    decreases v.len(),
{
    if j == v.len() {
        assert(v.take(j) =~= v);
        assert(enc_u32_items(v).subrange(0, enc_u32_items(v).len() as int) =~= enc_u32_items(v));
    } else {
        let d = v.drop_last();
        lemma_u32_items_prefix(d, j);
        assert(d.take(j) =~= v.take(j));
        let a = enc_u32_items(d);
        let m = enc_u32_items(v.take(j)).len() as int;
        assert(enc_u32_items(v) == a + u32_le(v.last()));
        assert((a + u32_le(v.last())).subrange(0, m) =~= a.subrange(0, m));
    }
}

proof fn lemma_u32_items_read(data: Seq<u8>, start: int, v: Seq<u32>, k: int)
    requires
        is_at(data, start, enc_u32_items(v)),
        0 <= k <= v.len(),
        forall|i: int| 0 <= i < v.len() ==> u32_fits(#[trigger] v[i]),
    ensures
        u32_items(data, start + enc_u32_items(v.take(k)).len(), (v.len() - k) as nat, v.take(k))
            == Ok::<(Seq<u32>, int), DecodeErrorView>((v, start + enc_u32_items(v).len())),
    decreases v.len() - k,
{
    if k == v.len() {
        assert(v.take(k) =~= v);
    } else {
        let t = v.take(k + 1);
        lemma_u32_items_prefix(v, k + 1);
        lemma_is_at_prefix(data, start, enc_u32_items(v), enc_u32_items(t).len() as int);
        assert(t.drop_last() =~= v.take(k));
        assert(t.last() == v[k]);
        assert(enc_u32_items(t) == enc_u32_items(v.take(k)) + u32_le(v[k]));
        lemma_is_at_split(data, start, enc_u32_items(v.take(k)), u32_le(v[k]));
        let pk = start + enc_u32_items(v.take(k)).len();
        lemma_u32_item(data, pk, v[k]);
        assert(v.take(k).push(v[k]) =~= t);
        lemma_u32_items_read(data, start, v, k + 1);
    }
}

/// Reading where a list was written gives it back.
pub proof fn lemma_read_u32_vec_at(data: Seq<u8>, pos: int, v: Seq<u32>)
    requires
        is_at(data, pos, enc_u32_vec(v)),
        v.len() <= usize::MAX,
        forall|i: int| 0 <= i < v.len() ==> u32_fits(#[trigger] v[i]),
    ensures
        spec_read_u32_vec(data, pos) == Ok::<(Seq<u32>, int), DecodeErrorView>(
            (v, pos + enc_u32_vec(v).len()),
        ),
{
    lemma_is_at_split(data, pos, u64_le(v.len() as u64), enc_u32_items(v));
    lemma_read_u64(data, pos, v.len() as u64);
    assert(v.take(0) =~= Seq::<u32>::empty());
    lemma_u32_items_read(data, pos + 8, v, 0);
}

proof fn lemma_string_items_prefix(v: Seq<Seq<char>>, j: int)
    requires
        0 <= j <= v.len(),
    ensures
        enc_string_items(v.take(j)).len() <= enc_string_items(v).len(),
        enc_string_items(v).subrange(0, enc_string_items(v.take(j)).len() as int) == enc_string_items(v.take(j)),
    decreases v.len(),
{
    if j == v.len() {
        assert(v.take(j) =~= v);
        assert(enc_string_items(v).subrange(0, enc_string_items(v).len() as int) =~= enc_string_items(v));
    } else {
        let d = v.drop_last();
        lemma_string_items_prefix(d, j);
        assert(d.take(j) =~= v.take(j));
        let a = enc_string_items(d);
        let m = enc_string_items(v.take(j)).len() as int;
        assert(enc_string_items(v) == a + enc_string(v.last()));
        assert((a + enc_string(v.last())).subrange(0, m) =~= a.subrange(0, m));
    }
}

proof fn lemma_string_items_read(data: Seq<u8>, start: int, v: Seq<Seq<char>>, k: int)
    requires
        is_at(data, start, enc_string_items(v)),
        0 <= k <= v.len(),
        forall|i: int| 0 <= i < v.len() ==> string_fits(#[trigger] v[i]),
    ensures
        string_items(data, start + enc_string_items(v.take(k)).len(), (v.len() - k) as nat, v.take(k))
            == Ok::<(Seq<Seq<char>>, int), DecodeErrorView>((v, start + enc_string_items(v).len())),
    decreases v.len() - k,
{
    if k == v.len() {
        assert(v.take(k) =~= v);
    } else {
        let t = v.take(k + 1);
        lemma_string_items_prefix(v, k + 1);
        lemma_is_at_prefix(data, start, enc_string_items(v), enc_string_items(t).len() as int);
        assert(t.drop_last() =~= v.take(k));
        assert(t.last() == v[k]);
        assert(enc_string_items(t) == enc_string_items(v.take(k)) + enc_string(v[k]));
        lemma_is_at_split(data, start, enc_string_items(v.take(k)), enc_string(v[k]));
        let pk = start + enc_string_items(v.take(k)).len();
        assert(string_fits(v[k]));
        lemma_string_item(data, pk, v[k]);
        assert(v.take(k).push(v[k]) =~= t);
        lemma_string_items_read(data, start, v, k + 1);
    }
}

/// Reading where a list was written gives it back.
pub proof fn lemma_read_string_vec_at(data: Seq<u8>, pos: int, v: Seq<Seq<char>>)
    requires
        is_at(data, pos, enc_string_vec(v)),
        v.len() <= usize::MAX,
        forall|i: int| 0 <= i < v.len() ==> string_fits(#[trigger] v[i]),
    ensures
        spec_read_string_vec(data, pos) == Ok::<(Seq<Seq<char>>, int), DecodeErrorView>(
            (v, pos + enc_string_vec(v).len()),
        ),
{
    lemma_is_at_split(data, pos, u64_le(v.len() as u64), enc_string_items(v));
    lemma_read_u64(data, pos, v.len() as u64);
    assert(v.take(0) =~= Seq::<Seq<char>>::empty());
    lemma_string_items_read(data, pos + 8, v, 0);
}

proof fn lemma_entry_items_prefix(v: Seq<ProviderChunkEntryView>, j: int)
    requires
        0 <= j <= v.len(),
    ensures
        enc_entry_items(v.take(j)).len() <= enc_entry_items(v).len(),
        enc_entry_items(v).subrange(0, enc_entry_items(v.take(j)).len() as int) == enc_entry_items(v.take(j)),
    decreases v.len(),
{
    if j == v.len() {
        assert(v.take(j) =~= v);
        assert(enc_entry_items(v).subrange(0, enc_entry_items(v).len() as int) =~= enc_entry_items(v));
    } else {
        let d = v.drop_last();
        lemma_entry_items_prefix(d, j);
        assert(d.take(j) =~= v.take(j));
        let a = enc_entry_items(d);
        let m = enc_entry_items(v.take(j)).len() as int;
        assert(enc_entry_items(v) == a + enc_entry(v.last()));
        assert((a + enc_entry(v.last())).subrange(0, m) =~= a.subrange(0, m));
    }
}

proof fn lemma_entry_items_read(data: Seq<u8>, start: int, v: Seq<ProviderChunkEntryView>, k: int)
    requires
        is_at(data, start, enc_entry_items(v)),
        0 <= k <= v.len(),
        forall|i: int| 0 <= i < v.len() ==> entry_fits(#[trigger] v[i]),
    ensures
        entry_items(data, start + enc_entry_items(v.take(k)).len(), (v.len() - k) as nat, v.take(k))
            == Ok::<(Seq<ProviderChunkEntryView>, int), DecodeErrorView>((v, start + enc_entry_items(v).len())),
    decreases v.len() - k,
{
    if k == v.len() {
        assert(v.take(k) =~= v);
    } else {
        let t = v.take(k + 1);
        lemma_entry_items_prefix(v, k + 1);
        lemma_is_at_prefix(data, start, enc_entry_items(v), enc_entry_items(t).len() as int);
        assert(t.drop_last() =~= v.take(k));
        assert(t.last() == v[k]);
        assert(enc_entry_items(t) == enc_entry_items(v.take(k)) + enc_entry(v[k]));
        lemma_is_at_split(data, start, enc_entry_items(v.take(k)), enc_entry(v[k]));
        let pk = start + enc_entry_items(v.take(k)).len();
        assert(entry_fits(v[k]));
        lemma_read_entry_at(data, pk, v[k]);
        assert(v.take(k).push(v[k]) =~= t);
        lemma_entry_items_read(data, start, v, k + 1);
    }
}

/// Reading where a list was written gives it back.
pub proof fn lemma_read_entry_vec_at(data: Seq<u8>, pos: int, v: Seq<ProviderChunkEntryView>)
    requires
        is_at(data, pos, enc_entry_vec(v)),
        v.len() <= usize::MAX,
        forall|i: int| 0 <= i < v.len() ==> entry_fits(#[trigger] v[i]),
    ensures
        spec_read_entry_vec(data, pos) == Ok::<(Seq<ProviderChunkEntryView>, int), DecodeErrorView>(
            (v, pos + enc_entry_vec(v).len()),
        ),
{
    lemma_is_at_split(data, pos, u64_le(v.len() as u64), enc_entry_items(v));
    lemma_read_u64(data, pos, v.len() as u64);
    assert(v.take(0) =~= Seq::<ProviderChunkEntryView>::empty());
    lemma_entry_items_read(data, pos + 8, v, 0);
}

proof fn lemma_chunk_items_prefix(v: Seq<ChunkRefView>, j: int)
    requires
        0 <= j <= v.len(),
    ensures
        enc_chunk_items(v.take(j)).len() <= enc_chunk_items(v).len(),
        enc_chunk_items(v).subrange(0, enc_chunk_items(v.take(j)).len() as int) == enc_chunk_items(v.take(j)),
    decreases v.len(),
{
    if j == v.len() {
        assert(v.take(j) =~= v);
        assert(enc_chunk_items(v).subrange(0, enc_chunk_items(v).len() as int) =~= enc_chunk_items(v));
    } else {
        let d = v.drop_last();
        lemma_chunk_items_prefix(d, j);
        assert(d.take(j) =~= v.take(j));
        let a = enc_chunk_items(d);
        let m = enc_chunk_items(v.take(j)).len() as int;
        assert(enc_chunk_items(v) == a + enc_chunk(v.last()));
        assert((a + enc_chunk(v.last())).subrange(0, m) =~= a.subrange(0, m));
    }
}

proof fn lemma_chunk_items_read(data: Seq<u8>, start: int, v: Seq<ChunkRefView>, k: int)
    requires
        is_at(data, start, enc_chunk_items(v)),
        0 <= k <= v.len(),
        forall|i: int| 0 <= i < v.len() ==> chunk_fits(#[trigger] v[i]),
    ensures
        chunk_items(data, start + enc_chunk_items(v.take(k)).len(), (v.len() - k) as nat, v.take(k))
            == Ok::<(Seq<ChunkRefView>, int), DecodeErrorView>((v, start + enc_chunk_items(v).len())),
    decreases v.len() - k,
{
    if k == v.len() {
        assert(v.take(k) =~= v);
    } else {
        let t = v.take(k + 1);
        lemma_chunk_items_prefix(v, k + 1);
        lemma_is_at_prefix(data, start, enc_chunk_items(v), enc_chunk_items(t).len() as int);
        assert(t.drop_last() =~= v.take(k));
        assert(t.last() == v[k]);
        assert(enc_chunk_items(t) == enc_chunk_items(v.take(k)) + enc_chunk(v[k]));
        lemma_is_at_split(data, start, enc_chunk_items(v.take(k)), enc_chunk(v[k]));
        let pk = start + enc_chunk_items(v.take(k)).len();
        assert(chunk_fits(v[k]));
        lemma_read_chunk_at(data, pk, v[k]);
        assert(v.take(k).push(v[k]) =~= t);
        lemma_chunk_items_read(data, start, v, k + 1);
    }
}

/// Reading where a list was written gives it back.
pub proof fn lemma_read_chunk_vec_at(data: Seq<u8>, pos: int, v: Seq<ChunkRefView>)
    requires
        is_at(data, pos, enc_chunk_vec(v)),
        v.len() <= usize::MAX,
        forall|i: int| 0 <= i < v.len() ==> chunk_fits(#[trigger] v[i]),
    ensures
        spec_read_chunk_vec(data, pos) == Ok::<(Seq<ChunkRefView>, int), DecodeErrorView>(
            (v, pos + enc_chunk_vec(v).len()),
        ),
{
    lemma_is_at_split(data, pos, u64_le(v.len() as u64), enc_chunk_items(v));
    lemma_read_u64(data, pos, v.len() as u64);
    assert(v.take(0) =~= Seq::<ChunkRefView>::empty());
    lemma_chunk_items_read(data, pos + 8, v, 0);
}

} // verus!

verus! {

proof fn lemma_entry_step_provider(data: Seq<u8>, q: int, s: EntrySlots, v: Seq<char>)
    requires
        is_at(data, q, enc_field("provider"@, enc_string(v))),
        s.provider is None,
        string_fits(v),
    ensures
        entry_field(data, q, s) == Ok::<(EntrySlots, int), DecodeErrorView>(
            (EntrySlots { provider: Some(v), ..s }, q + enc_field("provider"@, enc_string(v)).len()),
        ),
{
    reveal(entry_field);
    reveal_strlit("provider");
    reveal_strlit("chunk_indices");
    reveal_strlit("chunk_lens");
    reveal_strlit("encryption_key");
    lemma_field_at(data, q, "provider"@, enc_string(v));
    lemma_read_string(data, q + enc_string("provider"@).len(), v);
}

proof fn lemma_entry_step_chunk_indices(data: Seq<u8>, q: int, s: EntrySlots, v: Seq<u32>)
    requires
        is_at(data, q, enc_field("chunk_indices"@, enc_u32_vec(v))),
        s.chunk_indices is None,
        v.len() <= usize::MAX,
    ensures
        entry_field(data, q, s) == Ok::<(EntrySlots, int), DecodeErrorView>(
            (EntrySlots { chunk_indices: Some(v), ..s }, q + enc_field("chunk_indices"@, enc_u32_vec(v)).len()),
        ),
{
    reveal(entry_field);
    reveal_strlit("provider");
    reveal_strlit("chunk_indices");
    reveal_strlit("chunk_lens");
    reveal_strlit("encryption_key");
    lemma_field_at(data, q, "chunk_indices"@, enc_u32_vec(v));
    lemma_read_u32_vec_at(data, q + enc_string("chunk_indices"@).len(), v);
}

proof fn lemma_entry_step_chunk_lens(data: Seq<u8>, q: int, s: EntrySlots, v: Seq<u32>)
    requires
        is_at(data, q, enc_field("chunk_lens"@, enc_u32_vec(v))),
        s.chunk_lens is None,
        v.len() <= usize::MAX,
    ensures
        entry_field(data, q, s) == Ok::<(EntrySlots, int), DecodeErrorView>(
            (EntrySlots { chunk_lens: Some(v), ..s }, q + enc_field("chunk_lens"@, enc_u32_vec(v)).len()),
        ),
{
    reveal(entry_field);
    reveal_strlit("provider");
    reveal_strlit("chunk_indices");
    reveal_strlit("chunk_lens");
    reveal_strlit("encryption_key");
    lemma_field_at(data, q, "chunk_lens"@, enc_u32_vec(v));
    lemma_read_u32_vec_at(data, q + enc_string("chunk_lens"@).len(), v);
}

proof fn lemma_entry_step_encryption_key(data: Seq<u8>, q: int, s: EntrySlots, v: Seq<u8>)
    requires
        is_at(data, q, enc_field("encryption_key"@, enc_bytes(v))),
        s.encryption_key is None,
        v.len() <= u64::MAX,
    ensures
        entry_field(data, q, s) == Ok::<(EntrySlots, int), DecodeErrorView>(
            (EntrySlots { encryption_key: Some(v), ..s }, q + enc_field("encryption_key"@, enc_bytes(v)).len()),
        ),
{
    reveal(entry_field);
    reveal_strlit("provider");
    reveal_strlit("chunk_indices");
    reveal_strlit("chunk_lens");
    reveal_strlit("encryption_key");
    lemma_field_at(data, q, "encryption_key"@, enc_bytes(v));
    lemma_read_bytes(data, q + enc_string("encryption_key"@).len(), v);
}

/// Reading where `enc_entry` of a value stands gives it back.
pub proof fn lemma_read_entry_at(data: Seq<u8>, pos: int, t: ProviderChunkEntryView)
    requires
        is_at(data, pos, enc_entry(t)),
        entry_fits(t),
    ensures
        spec_read_entry(data, pos) == Ok::<(ProviderChunkEntryView, int), DecodeErrorView>((t, pos + enc_entry(t).len())),
{

    let h = u64_le(4);
    let f1 = enc_field("provider"@, enc_string(t.provider));
    let f2 = enc_field("chunk_indices"@, enc_u32_vec(t.chunk_indices));
    let f3 = enc_field("chunk_lens"@, enc_u32_vec(t.chunk_lens));
    let f4 = enc_field("encryption_key"@, enc_bytes(t.encryption_key));
    let e1 = h + f1;
    let e2 = e1 + f2;
    let e3 = e2 + f3;
    lemma_is_at_split(data, pos, e3, f4);
    lemma_is_at_split(data, pos, e2, f3);
    lemma_is_at_split(data, pos, e1, f2);
    lemma_is_at_split(data, pos, h, f1);
    lemma_read_u64(data, pos, 4);
    let q0 = pos + 8;
    let q1 = q0 + f1.len();
    let q2 = q1 + f2.len();
    let q3 = q2 + f3.len();
    let q4 = q3 + f4.len();
    let s0 = entry_slots_empty();
    let s1 = EntrySlots { provider: Some(t.provider), ..s0 };
    let s2 = EntrySlots { chunk_indices: Some(t.chunk_indices), ..s1 };
    let s3 = EntrySlots { chunk_lens: Some(t.chunk_lens), ..s2 };
    let s4 = EntrySlots { encryption_key: Some(t.encryption_key), ..s3 };
    lemma_entry_step_provider(data, q0, s0, t.provider);
    lemma_entry_step_chunk_indices(data, q1, s1, t.chunk_indices);
    lemma_entry_step_chunk_lens(data, q2, s2, t.chunk_lens);
    lemma_entry_step_encryption_key(data, q3, s3, t.encryption_key);
    assert(entry_fields(data, q4, 0, s4) == Ok::<(EntrySlots, int), DecodeErrorView>((s4, q4)));
    assert(entry_fields(data, q3, 1, s3) == entry_fields(data, q4, 0, s4));
    assert(entry_fields(data, q2, 2, s2) == entry_fields(data, q3, 1, s3));
    assert(entry_fields(data, q1, 3, s1) == entry_fields(data, q2, 2, s2));
    assert(entry_fields(data, q0, 4, s0) == entry_fields(data, q1, 3, s1));
}

proof fn lemma_chunk_step_id(data: Seq<u8>, q: int, s: ChunkSlots, v: Seq<u8>)
    requires
        is_at(data, q, enc_field("id"@, enc_bytes(v))),
        s.id is None,
        v.len() == 32,
    ensures
        chunk_field(data, q, s) == Ok::<(ChunkSlots, int), DecodeErrorView>(
            (ChunkSlots { id: Some(v), ..s }, q + enc_field("id"@, enc_bytes(v)).len()),
        ),
{
    reveal(chunk_field);
    reveal_strlit("id");
    reveal_strlit("nodes");
    reveal_strlit("provider_chunks");
    lemma_field_at(data, q, "id"@, enc_bytes(v));
    lemma_read_fixed_u8_array_at(data, q + enc_string("id"@).len(), v);
}

proof fn lemma_chunk_step_nodes(data: Seq<u8>, q: int, s: ChunkSlots, v: Seq<Seq<char>>)
    requires
        is_at(data, q, enc_field("nodes"@, enc_string_vec(v))),
        s.nodes is None,
        strings_fit(v),
    ensures
        chunk_field(data, q, s) == Ok::<(ChunkSlots, int), DecodeErrorView>(
            (ChunkSlots { nodes: Some(v), ..s }, q + enc_field("nodes"@, enc_string_vec(v)).len()),
        ),
{
    reveal(chunk_field);
    reveal_strlit("id");
    reveal_strlit("nodes");
    reveal_strlit("provider_chunks");
    lemma_field_at(data, q, "nodes"@, enc_string_vec(v));
    lemma_read_string_vec_at(data, q + enc_string("nodes"@).len(), v);
}

proof fn lemma_chunk_step_provider_chunks(data: Seq<u8>, q: int, s: ChunkSlots, v: Seq<ProviderChunkEntryView>)
    requires
        is_at(data, q, enc_field("provider_chunks"@, enc_entry_vec(v))),
        s.provider_chunks is None,
        entries_fit(v),
    ensures
        chunk_field(data, q, s) == Ok::<(ChunkSlots, int), DecodeErrorView>(
            (ChunkSlots { provider_chunks: Some(v), ..s }, q + enc_field("provider_chunks"@, enc_entry_vec(v)).len()),
        ),
{
    reveal(chunk_field);
    reveal_strlit("id");
    reveal_strlit("nodes");
    reveal_strlit("provider_chunks");
    lemma_field_at(data, q, "provider_chunks"@, enc_entry_vec(v));
    lemma_read_entry_vec_at(data, q + enc_string("provider_chunks"@).len(), v);
}

/// Reading where `enc_chunk` of a value stands gives it back.
pub proof fn lemma_read_chunk_at(data: Seq<u8>, pos: int, t: ChunkRefView)
    requires
        is_at(data, pos, enc_chunk(t)),
        chunk_fits(t),
    ensures
        spec_read_chunk(data, pos) == Ok::<(ChunkRefView, int), DecodeErrorView>((t, pos + enc_chunk(t).len())),
{

    let h = u64_le(3);
    let f1 = enc_field("id"@, enc_bytes(t.id));
    let f2 = enc_field("nodes"@, enc_string_vec(t.nodes));
    let f3 = enc_field("provider_chunks"@, enc_entry_vec(t.provider_chunks));
    let e1 = h + f1;
    let e2 = e1 + f2;
    lemma_is_at_split(data, pos, e2, f3);
    lemma_is_at_split(data, pos, e1, f2);
    lemma_is_at_split(data, pos, h, f1);
    lemma_read_u64(data, pos, 3);
    let q0 = pos + 8;
    let q1 = q0 + f1.len();
    let q2 = q1 + f2.len();
    let q3 = q2 + f3.len();
    let s0 = chunk_slots_empty();
    let s1 = ChunkSlots { id: Some(t.id), ..s0 };
    let s2 = ChunkSlots { nodes: Some(t.nodes), ..s1 };
    let s3 = ChunkSlots { provider_chunks: Some(t.provider_chunks), ..s2 };
    lemma_chunk_step_id(data, q0, s0, t.id);
    lemma_chunk_step_nodes(data, q1, s1, t.nodes);
    lemma_chunk_step_provider_chunks(data, q2, s2, t.provider_chunks);
    assert(chunk_fields(data, q3, 0, s3) == Ok::<(ChunkSlots, int), DecodeErrorView>((s3, q3)));
    assert(chunk_fields(data, q2, 1, s2) == chunk_fields(data, q3, 0, s3));
    assert(chunk_fields(data, q1, 2, s1) == chunk_fields(data, q2, 1, s2));
    assert(chunk_fields(data, q0, 3, s0) == chunk_fields(data, q1, 2, s1));
}

proof fn lemma_manifest_step_version(data: Seq<u8>, q: int, s: ManifestSlots, v: u16)
    requires
        is_at(data, q, enc_field("version"@, u16_le(v))),
        s.version is None,
    ensures
        manifest_field(data, q, s) == Ok::<(ManifestSlots, int), DecodeErrorView>(
            (ManifestSlots { version: Some(v), ..s }, q + enc_field("version"@, u16_le(v)).len()),
        ),
{
    reveal(manifest_field);
    reveal_strlit("version");
    reveal_strlit("total_len");
    reveal_strlit("chunk_len");
    reveal_strlit("chunks");
    reveal_strlit("redundancy");
    reveal_strlit("content_key_enc");
    reveal_strlit("blake3");
    reveal_strlit("chunk_lens");
    reveal_strlit("chunk_compressed_lens");
    reveal_strlit("chunk_cipher_lens");
    reveal_strlit("compression_alg");
    reveal_strlit("compression_level");
    reveal_strlit("encryption_alg");
    reveal_strlit("erasure_alg");
    reveal_strlit("provider_chunks");
    lemma_field_at(data, q, "version"@, u16_le(v));
    lemma_read_u16(data, q + enc_string("version"@).len(), v);
}

proof fn lemma_manifest_step_total_len(data: Seq<u8>, q: int, s: ManifestSlots, v: u64)
    requires
        is_at(data, q, enc_field("total_len"@, u64_le(v))),
        s.total_len is None,
    ensures
        manifest_field(data, q, s) == Ok::<(ManifestSlots, int), DecodeErrorView>(
            (ManifestSlots { total_len: Some(v), ..s }, q + enc_field("total_len"@, u64_le(v)).len()),
        ),
{
    reveal(manifest_field);
    reveal_strlit("version");
    reveal_strlit("total_len");
    reveal_strlit("chunk_len");
    reveal_strlit("chunks");
    reveal_strlit("redundancy");
    reveal_strlit("content_key_enc");
    reveal_strlit("blake3");
    reveal_strlit("chunk_lens");
    reveal_strlit("chunk_compressed_lens");
    reveal_strlit("chunk_cipher_lens");
    reveal_strlit("compression_alg");
    reveal_strlit("compression_level");
    reveal_strlit("encryption_alg");
    reveal_strlit("erasure_alg");
    reveal_strlit("provider_chunks");
    lemma_field_at(data, q, "total_len"@, u64_le(v));
    lemma_read_u64(data, q + enc_string("total_len"@).len(), v);
}

proof fn lemma_manifest_step_chunk_len(data: Seq<u8>, q: int, s: ManifestSlots, v: u32)
    requires
        is_at(data, q, enc_field("chunk_len"@, u32_le(v))),
        s.chunk_len is None,
    ensures
        manifest_field(data, q, s) == Ok::<(ManifestSlots, int), DecodeErrorView>(
            (ManifestSlots { chunk_len: Some(v), ..s }, q + enc_field("chunk_len"@, u32_le(v)).len()),
        ),
{
    reveal(manifest_field);
    reveal_strlit("version");
    reveal_strlit("total_len");
    reveal_strlit("chunk_len");
    reveal_strlit("chunks");
    reveal_strlit("redundancy");
    reveal_strlit("content_key_enc");
    reveal_strlit("blake3");
    reveal_strlit("chunk_lens");
    reveal_strlit("chunk_compressed_lens");
    reveal_strlit("chunk_cipher_lens");
    reveal_strlit("compression_alg");
    reveal_strlit("compression_level");
    reveal_strlit("encryption_alg");
    reveal_strlit("erasure_alg");
    reveal_strlit("provider_chunks");
    lemma_field_at(data, q, "chunk_len"@, u32_le(v));
    lemma_read_u32(data, q + enc_string("chunk_len"@).len(), v);
}

proof fn lemma_manifest_step_chunks(data: Seq<u8>, q: int, s: ManifestSlots, v: Seq<ChunkRefView>)
    requires
        is_at(data, q, enc_field("chunks"@, enc_chunk_vec(v))),
        s.chunks is None,
        v.len() <= usize::MAX,
        forall|i: int| 0 <= i < v.len() ==> chunk_fits(#[trigger] v[i]),
    ensures
        manifest_field(data, q, s) == Ok::<(ManifestSlots, int), DecodeErrorView>(
            (ManifestSlots { chunks: Some(v), ..s }, q + enc_field("chunks"@, enc_chunk_vec(v)).len()),
        ),
{
    reveal(manifest_field);
    reveal_strlit("version");
    reveal_strlit("total_len");
    reveal_strlit("chunk_len");
    reveal_strlit("chunks");
    reveal_strlit("redundancy");
    reveal_strlit("content_key_enc");
    reveal_strlit("blake3");
    reveal_strlit("chunk_lens");
    reveal_strlit("chunk_compressed_lens");
    reveal_strlit("chunk_cipher_lens");
    reveal_strlit("compression_alg");
    reveal_strlit("compression_level");
    reveal_strlit("encryption_alg");
    reveal_strlit("erasure_alg");
    reveal_strlit("provider_chunks");
    lemma_field_at(data, q, "chunks"@, enc_chunk_vec(v));
    lemma_read_chunk_vec_at(data, q + enc_string("chunks"@).len(), v);
}

proof fn lemma_manifest_step_redundancy(data: Seq<u8>, q: int, s: ManifestSlots, v: Redundancy)
    requires
        is_at(data, q, enc_field("redundancy"@, enc_redundancy(v))),
        s.redundancy is None,
    ensures
        manifest_field(data, q, s) == Ok::<(ManifestSlots, int), DecodeErrorView>(
            (ManifestSlots { redundancy: Some(v), ..s }, q + enc_field("redundancy"@, enc_redundancy(v)).len()),
        ),
{
    reveal(manifest_field);
    reveal_strlit("version");
    reveal_strlit("total_len");
    reveal_strlit("chunk_len");
    reveal_strlit("chunks");
    reveal_strlit("redundancy");
    reveal_strlit("content_key_enc");
    reveal_strlit("blake3");
    reveal_strlit("chunk_lens");
    reveal_strlit("chunk_compressed_lens");
    reveal_strlit("chunk_cipher_lens");
    reveal_strlit("compression_alg");
    reveal_strlit("compression_level");
    reveal_strlit("encryption_alg");
    reveal_strlit("erasure_alg");
    reveal_strlit("provider_chunks");
    lemma_field_at(data, q, "redundancy"@, enc_redundancy(v));
    lemma_read_redundancy_at(data, q + enc_string("redundancy"@).len(), v);
}

proof fn lemma_manifest_step_content_key_enc(data: Seq<u8>, q: int, s: ManifestSlots, v: Seq<u8>)
    requires
        is_at(data, q, enc_field("content_key_enc"@, enc_bytes(v))),
        s.content_key_enc is None,
        v.len() <= u64::MAX,
    ensures
        manifest_field(data, q, s) == Ok::<(ManifestSlots, int), DecodeErrorView>(
            (ManifestSlots { content_key_enc: Some(v), ..s }, q + enc_field("content_key_enc"@, enc_bytes(v)).len()),
        ),
{
    reveal(manifest_field);
    reveal_strlit("version");
    reveal_strlit("total_len");
    reveal_strlit("chunk_len");
    reveal_strlit("chunks");
    reveal_strlit("redundancy");
    reveal_strlit("content_key_enc");
    reveal_strlit("blake3");
    reveal_strlit("chunk_lens");
    reveal_strlit("chunk_compressed_lens");
    reveal_strlit("chunk_cipher_lens");
    reveal_strlit("compression_alg");
    reveal_strlit("compression_level");
    reveal_strlit("encryption_alg");
    reveal_strlit("erasure_alg");
    reveal_strlit("provider_chunks");
    lemma_field_at(data, q, "content_key_enc"@, enc_bytes(v));
    lemma_read_bytes(data, q + enc_string("content_key_enc"@).len(), v);
}

proof fn lemma_manifest_step_blake3(data: Seq<u8>, q: int, s: ManifestSlots, v: Seq<u8>)
    requires
        is_at(data, q, enc_field("blake3"@, enc_bytes(v))),
        s.blake3 is None,
        v.len() == 32,
    ensures
        manifest_field(data, q, s) == Ok::<(ManifestSlots, int), DecodeErrorView>(
            (ManifestSlots { blake3: Some(v), ..s }, q + enc_field("blake3"@, enc_bytes(v)).len()),
        ),
{
    reveal(manifest_field);
    reveal_strlit("version");
    reveal_strlit("total_len");
    reveal_strlit("chunk_len");
    reveal_strlit("chunks");
    reveal_strlit("redundancy");
    reveal_strlit("content_key_enc");
    reveal_strlit("blake3");
    reveal_strlit("chunk_lens");
    reveal_strlit("chunk_compressed_lens");
    reveal_strlit("chunk_cipher_lens");
    reveal_strlit("compression_alg");
    reveal_strlit("compression_level");
    reveal_strlit("encryption_alg");
    reveal_strlit("erasure_alg");
    reveal_strlit("provider_chunks");
    lemma_field_at(data, q, "blake3"@, enc_bytes(v));
    lemma_read_fixed_u8_array_at(data, q + enc_string("blake3"@).len(), v);
}

proof fn lemma_manifest_step_chunk_lens(data: Seq<u8>, q: int, s: ManifestSlots, v: Seq<u32>)
    requires
        is_at(data, q, enc_field("chunk_lens"@, enc_u32_vec(v))),
        s.chunk_lens is None,
        v.len() <= usize::MAX,
    ensures
        manifest_field(data, q, s) == Ok::<(ManifestSlots, int), DecodeErrorView>(
            (ManifestSlots { chunk_lens: Some(v), ..s }, q + enc_field("chunk_lens"@, enc_u32_vec(v)).len()),
        ),
{
    reveal(manifest_field);
    reveal_strlit("version");
    reveal_strlit("total_len");
    reveal_strlit("chunk_len");
    reveal_strlit("chunks");
    reveal_strlit("redundancy");
    reveal_strlit("content_key_enc");
    reveal_strlit("blake3");
    reveal_strlit("chunk_lens");
    reveal_strlit("chunk_compressed_lens");
    reveal_strlit("chunk_cipher_lens");
    reveal_strlit("compression_alg");
    reveal_strlit("compression_level");
    reveal_strlit("encryption_alg");
    reveal_strlit("erasure_alg");
    reveal_strlit("provider_chunks");
    lemma_field_at(data, q, "chunk_lens"@, enc_u32_vec(v));
    lemma_read_u32_vec_at(data, q + enc_string("chunk_lens"@).len(), v);
}

proof fn lemma_manifest_step_chunk_compressed_lens(data: Seq<u8>, q: int, s: ManifestSlots, v: Seq<u32>)
    requires
        is_at(data, q, enc_field("chunk_compressed_lens"@, enc_u32_vec(v))),
        s.chunk_compressed_lens is None,
        v.len() <= usize::MAX,
    ensures
        manifest_field(data, q, s) == Ok::<(ManifestSlots, int), DecodeErrorView>(
            (ManifestSlots { chunk_compressed_lens: Some(v), ..s }, q + enc_field("chunk_compressed_lens"@, enc_u32_vec(v)).len()),
        ),
{
    reveal(manifest_field);
    reveal_strlit("version");
    reveal_strlit("total_len");
    reveal_strlit("chunk_len");
    reveal_strlit("chunks");
    reveal_strlit("redundancy");
    reveal_strlit("content_key_enc");
    reveal_strlit("blake3");
    reveal_strlit("chunk_lens");
    reveal_strlit("chunk_compressed_lens");
    reveal_strlit("chunk_cipher_lens");
    reveal_strlit("compression_alg");
    reveal_strlit("compression_level");
    reveal_strlit("encryption_alg");
    reveal_strlit("erasure_alg");
    reveal_strlit("provider_chunks");
    lemma_field_at(data, q, "chunk_compressed_lens"@, enc_u32_vec(v));
    lemma_read_u32_vec_at(data, q + enc_string("chunk_compressed_lens"@).len(), v);
}

proof fn lemma_manifest_step_chunk_cipher_lens(data: Seq<u8>, q: int, s: ManifestSlots, v: Seq<u32>)
    requires
        is_at(data, q, enc_field("chunk_cipher_lens"@, enc_u32_vec(v))),
        s.chunk_cipher_lens is None,
        v.len() <= usize::MAX,
    ensures
        manifest_field(data, q, s) == Ok::<(ManifestSlots, int), DecodeErrorView>(
            (ManifestSlots { chunk_cipher_lens: Some(v), ..s }, q + enc_field("chunk_cipher_lens"@, enc_u32_vec(v)).len()),
        ),
{
    reveal(manifest_field);
    reveal_strlit("version");
    reveal_strlit("total_len");
    reveal_strlit("chunk_len");
    reveal_strlit("chunks");
    reveal_strlit("redundancy");
    reveal_strlit("content_key_enc");
    reveal_strlit("blake3");
    reveal_strlit("chunk_lens");
    reveal_strlit("chunk_compressed_lens");
    reveal_strlit("chunk_cipher_lens");
    reveal_strlit("compression_alg");
    reveal_strlit("compression_level");
    reveal_strlit("encryption_alg");
    reveal_strlit("erasure_alg");
    reveal_strlit("provider_chunks");
    lemma_field_at(data, q, "chunk_cipher_lens"@, enc_u32_vec(v));
    lemma_read_u32_vec_at(data, q + enc_string("chunk_cipher_lens"@).len(), v);
}

proof fn lemma_manifest_step_compression_alg(data: Seq<u8>, q: int, s: ManifestSlots, v: Option<Seq<char>>)
    requires
        is_at(data, q, enc_field("compression_alg"@, enc_option_string(v))),
        s.compression_alg is None,
        opt_string_fits(v),
    ensures
        manifest_field(data, q, s) == Ok::<(ManifestSlots, int), DecodeErrorView>(
            (ManifestSlots { compression_alg: Some(v), ..s }, q + enc_field("compression_alg"@, enc_option_string(v)).len()),
        ),
{
    reveal(manifest_field);
    reveal_strlit("version");
    reveal_strlit("total_len");
    reveal_strlit("chunk_len");
    reveal_strlit("chunks");
    reveal_strlit("redundancy");
    reveal_strlit("content_key_enc");
    reveal_strlit("blake3");
    reveal_strlit("chunk_lens");
    reveal_strlit("chunk_compressed_lens");
    reveal_strlit("chunk_cipher_lens");
    reveal_strlit("compression_alg");
    reveal_strlit("compression_level");
    reveal_strlit("encryption_alg");
    reveal_strlit("erasure_alg");
    reveal_strlit("provider_chunks");
    assert("compression_alg"@[2] != "content_key_enc"@[2]);
    lemma_field_at(data, q, "compression_alg"@, enc_option_string(v));
    lemma_read_option_string_at(data, q + enc_string("compression_alg"@).len(), v);
}

proof fn lemma_manifest_step_compression_level(data: Seq<u8>, q: int, s: ManifestSlots, v: Option<i32>)
    requires
        is_at(data, q, enc_field("compression_level"@, enc_option_i32(v))),
        s.compression_level is None,
    ensures
        manifest_field(data, q, s) == Ok::<(ManifestSlots, int), DecodeErrorView>(
            (ManifestSlots { compression_level: Some(v), ..s }, q + enc_field("compression_level"@, enc_option_i32(v)).len()),
        ),
{
    reveal(manifest_field);
    reveal_strlit("version");
    reveal_strlit("total_len");
    reveal_strlit("chunk_len");
    reveal_strlit("chunks");
    reveal_strlit("redundancy");
    reveal_strlit("content_key_enc");
    reveal_strlit("blake3");
    reveal_strlit("chunk_lens");
    reveal_strlit("chunk_compressed_lens");
    reveal_strlit("chunk_cipher_lens");
    reveal_strlit("compression_alg");
    reveal_strlit("compression_level");
    reveal_strlit("encryption_alg");
    reveal_strlit("erasure_alg");
    reveal_strlit("provider_chunks");
    assert("compression_level"@[1] != "chunk_cipher_lens"@[1]);
    lemma_field_at(data, q, "compression_level"@, enc_option_i32(v));
    lemma_read_option_i32_at(data, q + enc_string("compression_level"@).len(), v);
}

proof fn lemma_manifest_step_encryption_alg(data: Seq<u8>, q: int, s: ManifestSlots, v: Option<Seq<char>>)
    requires
        is_at(data, q, enc_field("encryption_alg"@, enc_option_string(v))),
        s.encryption_alg is None,
        opt_string_fits(v),
    ensures
        manifest_field(data, q, s) == Ok::<(ManifestSlots, int), DecodeErrorView>(
            (ManifestSlots { encryption_alg: Some(v), ..s }, q + enc_field("encryption_alg"@, enc_option_string(v)).len()),
        ),
{
    reveal(manifest_field);
    reveal_strlit("version");
    reveal_strlit("total_len");
    reveal_strlit("chunk_len");
    reveal_strlit("chunks");
    reveal_strlit("redundancy");
    reveal_strlit("content_key_enc");
    reveal_strlit("blake3");
    reveal_strlit("chunk_lens");
    reveal_strlit("chunk_compressed_lens");
    reveal_strlit("chunk_cipher_lens");
    reveal_strlit("compression_alg");
    reveal_strlit("compression_level");
    reveal_strlit("encryption_alg");
    reveal_strlit("erasure_alg");
    reveal_strlit("provider_chunks");
    lemma_field_at(data, q, "encryption_alg"@, enc_option_string(v));
    lemma_read_option_string_at(data, q + enc_string("encryption_alg"@).len(), v);
}

proof fn lemma_manifest_step_erasure_alg(data: Seq<u8>, q: int, s: ManifestSlots, v: Option<Seq<char>>)
    requires
        is_at(data, q, enc_field("erasure_alg"@, enc_option_string(v))),
        s.erasure_alg is None,
        opt_string_fits(v),
    ensures
        manifest_field(data, q, s) == Ok::<(ManifestSlots, int), DecodeErrorView>(
            (ManifestSlots { erasure_alg: Some(v), ..s }, q + enc_field("erasure_alg"@, enc_option_string(v)).len()),
        ),
{
    reveal(manifest_field);
    reveal_strlit("version");
    reveal_strlit("total_len");
    reveal_strlit("chunk_len");
    reveal_strlit("chunks");
    reveal_strlit("redundancy");
    reveal_strlit("content_key_enc");
    reveal_strlit("blake3");
    reveal_strlit("chunk_lens");
    reveal_strlit("chunk_compressed_lens");
    reveal_strlit("chunk_cipher_lens");
    reveal_strlit("compression_alg");
    reveal_strlit("compression_level");
    reveal_strlit("encryption_alg");
    reveal_strlit("erasure_alg");
    reveal_strlit("provider_chunks");
    lemma_field_at(data, q, "erasure_alg"@, enc_option_string(v));
    lemma_read_option_string_at(data, q + enc_string("erasure_alg"@).len(), v);
}

proof fn lemma_manifest_step_provider_chunks(data: Seq<u8>, q: int, s: ManifestSlots, v: Seq<ProviderChunkEntryView>)
    requires
        is_at(data, q, enc_field("provider_chunks"@, enc_entry_vec(v))),
        s.provider_chunks is None,
        entries_fit(v),
    ensures
        manifest_field(data, q, s) == Ok::<(ManifestSlots, int), DecodeErrorView>(
            (ManifestSlots { provider_chunks: Some(v), ..s }, q + enc_field("provider_chunks"@, enc_entry_vec(v)).len()),
        ),
{
    reveal(manifest_field);
    reveal_strlit("version");
    reveal_strlit("total_len");
    reveal_strlit("chunk_len");
    reveal_strlit("chunks");
    reveal_strlit("redundancy");
    reveal_strlit("content_key_enc");
    reveal_strlit("blake3");
    reveal_strlit("chunk_lens");
    reveal_strlit("chunk_compressed_lens");
    reveal_strlit("chunk_cipher_lens");
    reveal_strlit("compression_alg");
    reveal_strlit("compression_level");
    reveal_strlit("encryption_alg");
    reveal_strlit("erasure_alg");
    reveal_strlit("provider_chunks");
    lemma_field_at(data, q, "provider_chunks"@, enc_entry_vec(v));
    lemma_read_entry_vec_at(data, q + enc_string("provider_chunks"@).len(), v);
}

/// Reading where `enc_manifest` of a value stands gives it back.
#[verifier::rlimit(100)]
pub proof fn lemma_read_manifest_at(data: Seq<u8>, pos: int, t: ObjectManifestView)
    requires
        is_at(data, pos, enc_manifest(t)),
        manifest_fits(t),
    ensures
        spec_read_manifest(data, pos) == Ok::<(ObjectManifestView, int), DecodeErrorView>((t, pos + enc_manifest(t).len())),
{
    reveal(enc_manifest);
    let h = u64_le(15);
    let f1 = enc_field("version"@, u16_le(t.version));
    let f2 = enc_field("total_len"@, u64_le(t.total_len));
    let f3 = enc_field("chunk_len"@, u32_le(t.chunk_len));
    let f4 = enc_field("chunks"@, enc_chunk_vec(t.chunks));
    let f5 = enc_field("redundancy"@, enc_redundancy(t.redundancy));
    let f6 = enc_field("content_key_enc"@, enc_bytes(t.content_key_enc));
    let f7 = enc_field("blake3"@, enc_bytes(t.blake3));
    let f8 = enc_field("chunk_lens"@, enc_u32_vec(t.chunk_lens));
    let f9 = enc_field("chunk_compressed_lens"@, enc_u32_vec(t.chunk_compressed_lens));
    let f10 = enc_field("chunk_cipher_lens"@, enc_u32_vec(t.chunk_cipher_lens));
    let f11 = enc_field("compression_alg"@, enc_option_string(t.compression_alg));
    let f12 = enc_field("compression_level"@, enc_option_i32(t.compression_level));
    let f13 = enc_field("encryption_alg"@, enc_option_string(t.encryption_alg));
    let f14 = enc_field("erasure_alg"@, enc_option_string(t.erasure_alg));
    let f15 = enc_field("provider_chunks"@, enc_entry_vec(t.provider_chunks));
    let e1 = h + f1;
    let e2 = e1 + f2;
    let e3 = e2 + f3;
    let e4 = e3 + f4;
    let e5 = e4 + f5;
    let e6 = e5 + f6;
    let e7 = e6 + f7;
    let e8 = e7 + f8;
    let e9 = e8 + f9;
    let e10 = e9 + f10;
    let e11 = e10 + f11;
    let e12 = e11 + f12;
    let e13 = e12 + f13;
    let e14 = e13 + f14;
    lemma_is_at_split(data, pos, e14, f15);
    lemma_is_at_split(data, pos, e13, f14);
    lemma_is_at_split(data, pos, e12, f13);
    lemma_is_at_split(data, pos, e11, f12);
    lemma_is_at_split(data, pos, e10, f11);
    lemma_is_at_split(data, pos, e9, f10);
    lemma_is_at_split(data, pos, e8, f9);
    lemma_is_at_split(data, pos, e7, f8);
    lemma_is_at_split(data, pos, e6, f7);
    lemma_is_at_split(data, pos, e5, f6);
    lemma_is_at_split(data, pos, e4, f5);
    lemma_is_at_split(data, pos, e3, f4);
    lemma_is_at_split(data, pos, e2, f3);
    lemma_is_at_split(data, pos, e1, f2);
    lemma_is_at_split(data, pos, h, f1);
    lemma_read_u64(data, pos, 15);
    let q0 = pos + 8;
    let q1 = q0 + f1.len();
    let q2 = q1 + f2.len();
    let q3 = q2 + f3.len();
    let q4 = q3 + f4.len();
    let q5 = q4 + f5.len();
    let q6 = q5 + f6.len();
    let q7 = q6 + f7.len();
    let q8 = q7 + f8.len();
    let q9 = q8 + f9.len();
    let q10 = q9 + f10.len();
    let q11 = q10 + f11.len();
    let q12 = q11 + f12.len();
    let q13 = q12 + f13.len();
    let q14 = q13 + f14.len();
    let q15 = q14 + f15.len();
    let s0 = manifest_slots_empty();
    let s1 = ManifestSlots { version: Some(t.version), ..s0 };
    let s2 = ManifestSlots { total_len: Some(t.total_len), ..s1 };
    let s3 = ManifestSlots { chunk_len: Some(t.chunk_len), ..s2 };
    let s4 = ManifestSlots { chunks: Some(t.chunks), ..s3 };
    let s5 = ManifestSlots { redundancy: Some(t.redundancy), ..s4 };
    let s6 = ManifestSlots { content_key_enc: Some(t.content_key_enc), ..s5 };
    let s7 = ManifestSlots { blake3: Some(t.blake3), ..s6 };
    let s8 = ManifestSlots { chunk_lens: Some(t.chunk_lens), ..s7 };
    let s9 = ManifestSlots { chunk_compressed_lens: Some(t.chunk_compressed_lens), ..s8 };
    let s10 = ManifestSlots { chunk_cipher_lens: Some(t.chunk_cipher_lens), ..s9 };
    let s11 = ManifestSlots { compression_alg: Some(t.compression_alg), ..s10 };
    let s12 = ManifestSlots { compression_level: Some(t.compression_level), ..s11 };
    let s13 = ManifestSlots { encryption_alg: Some(t.encryption_alg), ..s12 };
    let s14 = ManifestSlots { erasure_alg: Some(t.erasure_alg), ..s13 };
    let s15 = ManifestSlots { provider_chunks: Some(t.provider_chunks), ..s14 };
    lemma_manifest_step_version(data, q0, s0, t.version);
    lemma_manifest_step_total_len(data, q1, s1, t.total_len);
    lemma_manifest_step_chunk_len(data, q2, s2, t.chunk_len);
    lemma_manifest_step_chunks(data, q3, s3, t.chunks);
    lemma_manifest_step_redundancy(data, q4, s4, t.redundancy);
    lemma_manifest_step_content_key_enc(data, q5, s5, t.content_key_enc);
    lemma_manifest_step_blake3(data, q6, s6, t.blake3);
    lemma_manifest_step_chunk_lens(data, q7, s7, t.chunk_lens);
    lemma_manifest_step_chunk_compressed_lens(data, q8, s8, t.chunk_compressed_lens);
    lemma_manifest_step_chunk_cipher_lens(data, q9, s9, t.chunk_cipher_lens);
    lemma_manifest_step_compression_alg(data, q10, s10, t.compression_alg);
    lemma_manifest_step_compression_level(data, q11, s11, t.compression_level);
    lemma_manifest_step_encryption_alg(data, q12, s12, t.encryption_alg);
    lemma_manifest_step_erasure_alg(data, q13, s13, t.erasure_alg);
    lemma_manifest_step_provider_chunks(data, q14, s14, t.provider_chunks);
    assert(manifest_fields(data, q15, 0, s15) == Ok::<(ManifestSlots, int), DecodeErrorView>((s15, q15)));
    assert(manifest_fields(data, q14, 1, s14) == manifest_fields(data, q15, 0, s15));
    assert(manifest_fields(data, q13, 2, s13) == manifest_fields(data, q14, 1, s14));
    assert(manifest_fields(data, q12, 3, s12) == manifest_fields(data, q13, 2, s13));
    assert(manifest_fields(data, q11, 4, s11) == manifest_fields(data, q12, 3, s12));
    assert(manifest_fields(data, q10, 5, s10) == manifest_fields(data, q11, 4, s11));
    assert(manifest_fields(data, q9, 6, s9) == manifest_fields(data, q10, 5, s10));
    assert(manifest_fields(data, q8, 7, s8) == manifest_fields(data, q9, 6, s9));
    assert(manifest_fields(data, q7, 8, s7) == manifest_fields(data, q8, 7, s8));
    assert(manifest_fields(data, q6, 9, s6) == manifest_fields(data, q7, 8, s7));
    assert(manifest_fields(data, q5, 10, s5) == manifest_fields(data, q6, 9, s6));
    assert(manifest_fields(data, q4, 11, s4) == manifest_fields(data, q5, 10, s5));
    assert(manifest_fields(data, q3, 12, s3) == manifest_fields(data, q4, 11, s4));
    assert(manifest_fields(data, q2, 13, s2) == manifest_fields(data, q3, 12, s3));
    assert(manifest_fields(data, q1, 14, s1) == manifest_fields(data, q2, 13, s2));
    assert(manifest_fields(data, q0, 15, s0) == manifest_fields(data, q1, 14, s1));
    assert(manifest_finish(s15) == Ok::<ObjectManifestView, DecodeErrorView>(t));
}

proof fn lemma_receipt_step_manifest_hash(data: Seq<u8>, q: int, s: ReceiptSlots, v: Seq<u8>)
    requires
        is_at(data, q, enc_field("manifest_hash"@, enc_bytes(v))),
        s.manifest_hash is None,
        v.len() == 32,
    ensures
        receipt_field(data, q, s) == Ok::<(ReceiptSlots, int), DecodeErrorView>(
            (ReceiptSlots { manifest_hash: Some(v), ..s }, q + enc_field("manifest_hash"@, enc_bytes(v)).len()),
        ),
{
    reveal(receipt_field);
    reveal_strlit("manifest_hash");
    reveal_strlit("chunk_count");
    reveal_strlit("redundancy");
    reveal_strlit("lane");
    lemma_field_at(data, q, "manifest_hash"@, enc_bytes(v));
    lemma_read_fixed_u8_array_at(data, q + enc_string("manifest_hash"@).len(), v);
}

proof fn lemma_receipt_step_chunk_count(data: Seq<u8>, q: int, s: ReceiptSlots, v: u32)
    requires
        is_at(data, q, enc_field("chunk_count"@, u32_le(v))),
        s.chunk_count is None,
    ensures
        receipt_field(data, q, s) == Ok::<(ReceiptSlots, int), DecodeErrorView>(
            (ReceiptSlots { chunk_count: Some(v), ..s }, q + enc_field("chunk_count"@, u32_le(v)).len()),
        ),
{
    reveal(receipt_field);
    reveal_strlit("manifest_hash");
    reveal_strlit("chunk_count");
    reveal_strlit("redundancy");
    reveal_strlit("lane");
    lemma_field_at(data, q, "chunk_count"@, u32_le(v));
    lemma_read_u32(data, q + enc_string("chunk_count"@).len(), v);
}

proof fn lemma_receipt_step_redundancy(data: Seq<u8>, q: int, s: ReceiptSlots, v: Redundancy)
    requires
        is_at(data, q, enc_field("redundancy"@, enc_redundancy(v))),
        s.redundancy is None,
    ensures
        receipt_field(data, q, s) == Ok::<(ReceiptSlots, int), DecodeErrorView>(
            (ReceiptSlots { redundancy: Some(v), ..s }, q + enc_field("redundancy"@, enc_redundancy(v)).len()),
        ),
{
    reveal(receipt_field);
    reveal_strlit("manifest_hash");
    reveal_strlit("chunk_count");
    reveal_strlit("redundancy");
    reveal_strlit("lane");
    lemma_field_at(data, q, "redundancy"@, enc_redundancy(v));
    lemma_read_redundancy_at(data, q + enc_string("redundancy"@).len(), v);
}

proof fn lemma_receipt_step_lane(data: Seq<u8>, q: int, s: ReceiptSlots, v: Seq<char>)
    requires
        is_at(data, q, enc_field("lane"@, enc_string(v))),
        s.lane is None,
        string_fits(v),
    ensures
        receipt_field(data, q, s) == Ok::<(ReceiptSlots, int), DecodeErrorView>(
            (ReceiptSlots { lane: Some(v), ..s }, q + enc_field("lane"@, enc_string(v)).len()),
        ),
{
    reveal(receipt_field);
    reveal_strlit("manifest_hash");
    reveal_strlit("chunk_count");
    reveal_strlit("redundancy");
    reveal_strlit("lane");
    lemma_field_at(data, q, "lane"@, enc_string(v));
    lemma_read_string(data, q + enc_string("lane"@).len(), v);
}

} // verus!

verus! {

/// Reading a 32-byte array where its bytes were written gives them back.
pub proof fn lemma_read_fixed_u8_array_at(data: Seq<u8>, pos: int, b: Seq<u8>)
    requires
        is_at(data, pos, enc_bytes(b)),
        b.len() == 32,
    ensures
        spec_read_fixed_u8_array(data, pos) == Ok::<(Seq<u8>, int), DecodeErrorView>((b, pos + enc_bytes(b).len())),
{
    lemma_read_bytes(data, pos, b);
}

/// Reading where a redundancy was written gives it back.
pub proof fn lemma_read_redundancy_at(data: Seq<u8>, pos: int, r: Redundancy)
    requires
        is_at(data, pos, enc_redundancy(r)),
    ensures
        spec_read_redundancy(data, pos) == Ok::<(Redundancy, int), DecodeErrorView>((r, pos + enc_redundancy(r).len())),
{
    match r {
        Redundancy::Disabled => {
            lemma_read_u32(data, pos, 0);
        },
        Redundancy::ReedSolomon { data: d, parity } => {
            reveal_strlit("data");
            reveal_strlit("parity");
            let a = u32_le(1);
            let b = u64_le(2);
            let f1 = enc_field("data"@, enc_u8(d));
            let f2 = enc_field("parity"@, enc_u8(parity));
            lemma_is_at_split(data, pos, a + b + f1, f2);
            lemma_is_at_split(data, pos, a + b, f1);
            lemma_is_at_split(data, pos, a, b);
            lemma_read_u32(data, pos, 1);
            lemma_read_u64(data, pos + 4, 2);
            let q0 = pos + 12;
            let q1 = q0 + f1.len();
            let q2 = q1 + f2.len();
            lemma_field_at(data, q0, "data"@, enc_u8(d));
            lemma_read_u8(data, q0 + enc_string("data"@).len(), d);
            lemma_field_at(data, q1, "parity"@, enc_u8(parity));
            lemma_read_u8(data, q1 + enc_string("parity"@).len(), parity);
            let s0: (Option<u8>, Option<u8>) = (None, None);
            let s1: (Option<u8>, Option<u8>) = (Some(d), None);
            let s2: (Option<u8>, Option<u8>) = (Some(d), Some(parity));
            assert(rs_field(data, q0, s0) == Ok::<((Option<u8>, Option<u8>), int), DecodeErrorView>((s1, q1)));
            assert(rs_field(data, q1, s1) == Ok::<((Option<u8>, Option<u8>), int), DecodeErrorView>((s2, q2)));
            assert(rs_fields(data, q2, 0, s2) == Ok::<((Option<u8>, Option<u8>), int), DecodeErrorView>((s2, q2)));
            assert(rs_fields(data, q1, 1, s1) == rs_fields(data, q2, 0, s2));
            assert(rs_fields(data, q0, 2, s0) == rs_fields(data, q1, 1, s1));
        },
    }
}

/// Reading where an optional string was written gives it back.
pub proof fn lemma_read_option_string_at(data: Seq<u8>, pos: int, o: Option<Seq<char>>)
    requires
        is_at(data, pos, enc_option_string(o)),
        opt_string_fits(o),
    ensures
        spec_read_option_string(data, pos) == Ok::<(Option<Seq<char>>, int), DecodeErrorView>(
            (o, pos + enc_option_string(o).len()),
        ),
{
    match o {
        None => {
            lemma_read_option_tag(data, pos, None);
        },
        Some(s) => {
            assert(enc_option_string(o) == enc_option(Some(enc_string(s))));
            lemma_read_option_tag(data, pos, Some(enc_string(s)));
            lemma_read_string(data, pos + 1, s);
        },
    }
}

/// Reading where an optional `i32` was written gives it back.
pub proof fn lemma_read_option_i32_at(data: Seq<u8>, pos: int, o: Option<i32>)
    ensures
        is_at(data, pos, enc_option_i32(o)) ==> spec_read_option_i32(data, pos) == Ok::<(Option<i32>, int), DecodeErrorView>(
            (o, pos + enc_option_i32(o).len()),
        ),
{
    if is_at(data, pos, enc_option_i32(o)) {
        match o {
            None => {
                lemma_read_option_tag(data, pos, None);
            },
            Some(x) => {
                assert(enc_option_i32(o) == enc_option(Some(enc_i64(x as i64))));
                lemma_read_option_tag(data, pos, Some(enc_i64(x as i64)));
                lemma_read_i64(data, pos + 1, x as i64);
            },
        }
    }
}

/// Reading where a receipt's bytes stand gives it back.
proof fn lemma_receipt_fields_at(data: Seq<u8>, t: StoreReceiptView)
    requires
        data == enc_store_receipt(t),
        t.manifest_hash.len() == 32,
        string_fits(t.lane),
    ensures
        receipt_fields(data, 8, 4, receipt_slots_empty()) == Ok::<(ReceiptSlots, int), DecodeErrorView>(
            (ReceiptSlots {
                manifest_hash: Some(t.manifest_hash),
                chunk_count: Some(t.chunk_count),
                redundancy: Some(t.redundancy),
                lane: Some(t.lane),
            }, data.len() as int),
        ),
        crate::util::binary_cursor::spec_read_u64(data, 0) == Ok::<(u64, int), crate::util::binary_cursor::CursorError>((4, 8)),
{
    let pos = 0int;
    assert(data.subrange(0, data.len() as int) =~= data);
    let h = u64_le(4);
    let f1 = enc_field("manifest_hash"@, enc_bytes(t.manifest_hash));
    let f2 = enc_field("chunk_count"@, u32_le(t.chunk_count));
    let f3 = enc_field("redundancy"@, enc_redundancy(t.redundancy));
    let f4 = enc_field("lane"@, enc_string(t.lane));
    lemma_is_at_split(data, pos, h + f1 + f2 + f3, f4);
    lemma_is_at_split(data, pos, h + f1 + f2, f3);
    lemma_is_at_split(data, pos, h + f1, f2);
    lemma_is_at_split(data, pos, h, f1);
    lemma_read_u64(data, pos, 4);
    let q0 = 8int;
    let q1 = q0 + f1.len();
    let q2 = q1 + f2.len();
    let q3 = q2 + f3.len();
    let q4 = q3 + f4.len();
    let s0 = receipt_slots_empty();
    let s1 = ReceiptSlots { manifest_hash: Some(t.manifest_hash), ..s0 };
    let s2 = ReceiptSlots { chunk_count: Some(t.chunk_count), ..s1 };
    let s3 = ReceiptSlots { redundancy: Some(t.redundancy), ..s2 };
    let s4 = ReceiptSlots { lane: Some(t.lane), ..s3 };
    lemma_receipt_step_manifest_hash(data, q0, s0, t.manifest_hash);
    lemma_receipt_step_chunk_count(data, q1, s1, t.chunk_count);
    lemma_receipt_step_redundancy(data, q2, s2, t.redundancy);
    lemma_receipt_step_lane(data, q3, s3, t.lane);
    assert(receipt_fields(data, q4, 0, s4) == Ok::<(ReceiptSlots, int), DecodeErrorView>((s4, q4)));
    assert(receipt_fields(data, q3, 1, s3) == receipt_fields(data, q4, 0, s4));
    assert(receipt_fields(data, q2, 2, s2) == receipt_fields(data, q3, 1, s3));
    assert(receipt_fields(data, q1, 3, s1) == receipt_fields(data, q2, 2, s2));
    assert(receipt_fields(data, q0, 4, s0) == receipt_fields(data, q1, 3, s1));
}

/// Decoding the bytes of a store receipt gives the receipt back.
pub proof fn lemma_store_receipt_roundtrip(t: StoreReceiptView)
    requires
        t.manifest_hash.len() == 32,
        string_fits(t.lane),
    ensures
        spec_decode_store_receipt(enc_store_receipt(t)) == Ok::<StoreReceiptView, DecodeErrorView>(t),
{
    lemma_receipt_fields_at(enc_store_receipt(t), t);
}

/// Decoding the bytes of a manifest gives the manifest back.
pub proof fn lemma_manifest_roundtrip(m: ObjectManifestView)
    requires
        manifest_fits(m),
    ensures
        spec_decode_manifest(enc_manifest(m)) == Ok::<ObjectManifestView, DecodeErrorView>(m),
{
    let data = enc_manifest(m);
    assert(data.subrange(0, data.len() as int) =~= data);
    lemma_read_manifest_at(data, 0, m);
}

} // verus!
