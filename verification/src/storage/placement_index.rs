//! The per-provider index built while shards are placed: which chunks each
//! provider holds, kept in the order of the providers' names (byte-wise).

use vstd::prelude::*;
use vstd::utf8::encode_utf8;
use vstd::string::StringSliceAdditionalSpecFns;
use crate::storage::types::{ChunkRef, ChunkRefView, ProviderChunkEntry, ProviderChunkEntryView, entries_view};

verus! {

/// Byte-wise lexicographic order, as `str` and `String` compare.
pub open spec fn bytes_lt(a: Seq<u8>, b: Seq<u8>) -> bool
    decreases a.len(),
{
    if a.len() == 0 {
        b.len() > 0
    } else if b.len() == 0 {
        false
    } else if a[0] < b[0] {
        true
    } else if a[0] > b[0] {
        false
    } else {
        bytes_lt(a.drop_first(), b.drop_first())
    }
}

pub proof fn lemma_bytes_lt_irreflexive(a: Seq<u8>)
    ensures
        !bytes_lt(a, a),
    decreases a.len(),
{
    if a.len() > 0 {
        lemma_bytes_lt_irreflexive(a.drop_first());
    }
}

pub proof fn lemma_bytes_lt_total(a: Seq<u8>, b: Seq<u8>)
    ensures
        a == b || bytes_lt(a, b) || bytes_lt(b, a),
        !(bytes_lt(a, b) && bytes_lt(b, a)),
    decreases a.len(),
{
    if a.len() > 0 && b.len() > 0 && a[0] == b[0] {
        lemma_bytes_lt_total(a.drop_first(), b.drop_first());
        if a.drop_first() == b.drop_first() {
            assert(a =~= seq![a[0]] + a.drop_first());
            assert(b =~= seq![b[0]] + b.drop_first());
        }
    } else if a.len() == 0 && b.len() == 0 {
        assert(a =~= b);
    }
}

pub proof fn lemma_bytes_lt_transitive(a: Seq<u8>, b: Seq<u8>, c: Seq<u8>)
    requires
        bytes_lt(a, b),
        bytes_lt(b, c),
    ensures
        bytes_lt(a, c),
    decreases a.len(),
{
    if a.len() > 0 && b.len() > 0 && c.len() > 0 && a[0] == b[0] && b[0] == c[0] {
        lemma_bytes_lt_transitive(a.drop_first(), b.drop_first(), c.drop_first());
    }
}

fn str_lt(a: &str, b: &str) -> (lt: bool)
    ensures
        lt == bytes_lt(encode_utf8(a@), encode_utf8(b@)),
{
    let x = a.as_bytes();
    let y = b.as_bytes();
    let mut i: usize = 0;
    assert(x@.skip(0) =~= x@);
    assert(y@.skip(0) =~= y@);
    while i < x.len() && i < y.len()
        invariant
            i <= x@.len(),
            i <= y@.len(),
            x@ == encode_utf8(a@),
            y@ == encode_utf8(b@),
            bytes_lt(x@, y@) == bytes_lt(x@.skip(i as int), y@.skip(i as int)),
        decreases x@.len() - i,
    {
        proof {
            assert(x@.skip(i as int).drop_first() =~= x@.skip(i + 1));
            assert(y@.skip(i as int).drop_first() =~= y@.skip(i + 1));
        }
        if x[i] < y[i] {
            return true;
        }
        if x[i] > y[i] {
            return false;
        }
        i = i + 1;
    }
    proof {
        if i == x@.len() {
            assert(x@.skip(i as int).len() == 0);
        } else {
            assert(y@.skip(i as int).len() == 0);
        }
    }
    i < y.len()
}

fn apply_shard(e: &mut ProviderChunkEntry, idx: u32, len: u32, key: &[u8])
    ensures
        final(e)@ == entry_after(old(e)@, idx, len, key@),
{
    let last = if e.chunk_indices.len() > 0 { e.chunk_indices[e.chunk_indices.len() - 1] } else { u32::MAX };
    if last != idx {
        e.chunk_indices.push(idx);
        e.chunk_lens.push(len);
    }
    if e.encryption_key.len() == 0 {
        e.encryption_key = crate::le::copy_range(key, 0, key.len());
        assert(e.encryption_key@ =~= key@);
    }
}

/// A provider's name as bytes.
pub open spec fn key_of(e: ProviderChunkEntryView) -> Seq<u8> {
    encode_utf8(e.provider)
}

/// Entries strictly ordered by provider name.
pub open spec fn sorted_by_provider(s: Seq<ProviderChunkEntryView>) -> bool {
    forall|i: int, j: int| 0 <= i < j < s.len() ==> bytes_lt(key_of(s[i]), key_of(s[j]))
}

/// An entry after one more shard of chunk `idx` (of `len` plaintext
/// bytes) was placed with its provider: the chunk is appended unless it is
/// the last one listed (an empty list counts `u32::MAX` as last), and an
/// empty key takes the provider key.
pub open spec fn entry_after(e: ProviderChunkEntryView, idx: u32, len: u32, key: Seq<u8>) -> ProviderChunkEntryView {
    let last = if e.chunk_indices.len() > 0 { e.chunk_indices.last() } else { u32::MAX };
    ProviderChunkEntryView {
        provider: e.provider,
        chunk_indices: if last != idx { e.chunk_indices.push(idx) } else { e.chunk_indices },
        chunk_lens: if last != idx { e.chunk_lens.push(len) } else { e.chunk_lens },
        encryption_key: if e.encryption_key.len() == 0 { key } else { e.encryption_key },
    }
}

/// A provider's entry before anything was placed with it.
pub open spec fn fresh_entry(provider: Seq<char>) -> ProviderChunkEntryView {
    ProviderChunkEntryView { provider, chunk_indices: Seq::empty(), chunk_lens: Seq::empty(), encryption_key: Seq::empty() }
}

/// The chunk index of each provider, in the order of their names.
pub struct ProviderIndex {
    entries: Vec<ProviderChunkEntry>,
}

impl ProviderIndex {
    pub closed spec fn spec_entries(&self) -> Seq<ProviderChunkEntryView> {
        entries_view(self.entries@)
    }

    pub open spec fn wf(&self) -> bool {
        sorted_by_provider(self.spec_entries())
    }

    /// No provider yet.
    pub fn new() -> (x: Self)
        ensures
            x.wf(),
            x.spec_entries().len() == 0,
    {
        let x = ProviderIndex { entries: Vec::new() };
        assert(x.spec_entries() =~= Seq::<ProviderChunkEntryView>::empty());
        x
    }

    /// Records that a shard of chunk `chunk_idx` was placed with
    /// `provider`, whose key for this object is `key`.
    pub fn record(&mut self, provider: &str, chunk_idx: usize, plain_len: usize, key: &[u8])
        requires
            old(self).wf(),
        ensures
            final(self).wf(),
            ({
                let old_s = old(self).spec_entries();
                let new_s = final(self).spec_entries();
                let idx = chunk_idx as u32;
                let len = plain_len as u32;
                (exists|i: int|
                    0 <= i < old_s.len() && old_s[i].provider == provider@ && new_s == old_s.update(
                        i,
                        entry_after(old_s[i], idx, len, key@),
                    )) || ((forall|i: int| 0 <= i < old_s.len() ==> old_s[i].provider != provider@) && exists|k: int|
                    0 <= k <= old_s.len() && new_s == old_s.insert(k, entry_after(fresh_entry(provider@), idx, len, key@)))
            }),
    {
        let ghost old_s = self.spec_entries();
        let idx = chunk_idx as u32;
        let len = plain_len as u32;
        let mut i: usize = 0;
        while i < self.entries.len() && str_lt(self.entries[i].provider.as_str(), provider)
            invariant
                i <= self.entries@.len(),
                self.spec_entries() == old_s,
                sorted_by_provider(old_s),
                forall|k: int| 0 <= k < i ==> bytes_lt(key_of(old_s[k]), encode_utf8(provider@)),
            decreases self.entries@.len() - i,
        {
            i = i + 1;
        }
        let found = i < self.entries.len() && crate::text::str_eq(self.entries[i].provider.as_str(), provider);
        if found {
            let mut e = self.entries.remove(i);
            let ghost ev = e@;
            apply_shard(&mut e, idx, len, key);
            self.entries.insert(i, e);
            proof {
                assert(self.spec_entries() =~= old_s.update(i as int, entry_after(old_s[i as int], idx, len, key@)));
                assert(key_of(self.spec_entries()[i as int]) == key_of(old_s[i as int]));
                assert forall|a: int, b: int| 0 <= a < b < self.spec_entries().len() implies bytes_lt(
                    key_of(self.spec_entries()[a]),
                    key_of(self.spec_entries()[b]),
                ) by {
                    assert(key_of(self.spec_entries()[a]) == key_of(old_s[a]));
                    assert(key_of(self.spec_entries()[b]) == key_of(old_s[b]));
                }
            }
        } else {
            let mut fresh = ProviderChunkEntry {
                provider: provider.to_owned(),
                chunk_indices: Vec::new(),
                chunk_lens: Vec::new(),
                encryption_key: Vec::new(),
            };
            assert(fresh@ == fresh_entry(provider@));
            apply_shard(&mut fresh, idx, len, key);
            let ghost fv = fresh@;
            self.entries.insert(i, fresh);
            proof {
                assert(self.spec_entries() =~= old_s.insert(i as int, fv));
                if i < old_s.len() {
                    lemma_bytes_lt_total(key_of(old_s[i as int]), encode_utf8(provider@));
                    if key_of(old_s[i as int]) == encode_utf8(provider@) {
                        vstd::utf8::encode_utf8_decode_utf8(old_s[i as int].provider);
                        vstd::utf8::encode_utf8_decode_utf8(provider@);
                    }
                }
                assert forall|k: int| 0 <= k < old_s.len() implies old_s[k].provider != provider@ by {
                    if old_s[k].provider == provider@ {
                        if k < i {
                            lemma_bytes_lt_irreflexive(encode_utf8(provider@));
                        } else if k > i {
                            lemma_bytes_lt_transitive(encode_utf8(provider@), key_of(old_s[i as int]), key_of(old_s[k]));
                            lemma_bytes_lt_irreflexive(encode_utf8(provider@));
                        }
                    }
                }
                let ns = self.spec_entries();
                assert forall|a: int, b: int| 0 <= a < b < ns.len() implies bytes_lt(key_of(ns[a]), key_of(ns[b])) by {
                    if b < i {
                    } else if b == i {
                        assert(key_of(ns[b]) == encode_utf8(provider@));
                    } else if a == i {
                        assert(ns[b] == old_s[b - 1]);
                        if b - 1 > i {
                            lemma_bytes_lt_transitive(encode_utf8(provider@), key_of(old_s[i as int]), key_of(old_s[b - 1]));
                        }
                    } else if a < i {
                        assert(ns[b] == old_s[b - 1]);
                    } else {
                        assert(ns[a] == old_s[a - 1]);
                        assert(ns[b] == old_s[b - 1]);
                    }
                }
            }
        }
    }

    /// The entries, in the order of the providers' names.
    pub fn entries(&self) -> (v: &Vec<ProviderChunkEntry>)
        ensures
            entries_view(v@) == self.spec_entries(),
    {
        &self.entries
    }
}

/// The key under which a provider's shards of an object are indexed: the
/// keyed BLAKE3 of the provider's name under the object's content key.
pub fn provider_key(key: &[u8; 32], provider: &str) -> (k: [u8; 32])
    ensures
        k@ == crate::hashing::spec_blake3_keyed(key@, provider.spec_bytes()),
{
    crate::hashing::blake3_keyed_hash(key, provider.as_bytes())
}

/// The reference of a shard placed with one provider: its id, the provider
/// as its only node, and the provider's entry for this chunk.
pub open spec fn spec_shard_ref(id: Seq<u8>, provider: Seq<char>, chunk_idx: u32, plain_len: u32, key: Seq<u8>) -> ChunkRefView {
    ChunkRefView {
        id,
        nodes: seq![provider],
        provider_chunks: seq![
            ProviderChunkEntryView {
                provider,
                chunk_indices: seq![chunk_idx],
                chunk_lens: seq![plain_len],
                encryption_key: key,
            },
        ],
    }
}

/// The reference of a shard placed with one provider.
pub fn shard_ref(id: [u8; 32], provider: &str, chunk_idx: usize, plain_len: usize, key: &[u8]) -> (c: ChunkRef)
    ensures
        c@ == spec_shard_ref(id@, provider@, chunk_idx as u32, plain_len as u32, key@),
{
    let entry = ProviderChunkEntry {
        provider: provider.to_owned(),
        chunk_indices: vec![chunk_idx as u32],
        chunk_lens: vec![plain_len as u32],
        encryption_key: crate::le::copy_range(key, 0, key.len()),
    };
    proof {
        assert(entry.chunk_indices@ =~= seq![chunk_idx as u32]);
        assert(entry.chunk_lens@ =~= seq![plain_len as u32]);
        assert(entry.encryption_key@ =~= key@);
    }
    let ghost ev = entry@;
    let name = provider.to_owned();
    let ghost nv = name@;
    let mut nodes: Vec<String> = Vec::new();
    nodes.push(name);
    let mut pcs: Vec<ProviderChunkEntry> = Vec::new();
    pcs.push(entry);
    let c = ChunkRef { id, nodes, provider_chunks: pcs };
    proof {
        assert(crate::storage::types::strings_view(c.nodes@) =~= seq![nv]);
        assert(entries_view(c.provider_chunks@) =~= seq![ev]);
    }
    c
}

} // verus!
