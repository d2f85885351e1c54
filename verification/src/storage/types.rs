//! Object manifests and receipts.

use vstd::prelude::*;

verus! {

/// Nonce length of ChaCha20-Poly1305.
pub const CHACHA20_POLY1305_NONCE_LEN: usize = 12;

/// Authentication tag length of ChaCha20-Poly1305.
pub const CHACHA20_POLY1305_TAG_LEN: usize = 16;

/// Total overhead added to each encrypted chunk (nonce + tag).
pub const ENCRYPTED_CHUNK_OVERHEAD: usize = 28;

/// How an object's chunks are made redundant.
#[derive(Clone, Copy, PartialEq, Eq, Debug, Structural)]
pub enum Redundancy {
    /// No parity shards.
    Disabled,
    ReedSolomon { data: u8, parity: u8 },
}

/// The chunks one provider holds.
#[derive(Clone, Debug, Default)]
pub struct ProviderChunkEntry {
    pub provider: String,
    pub chunk_indices: Vec<u32>,
    pub chunk_lens: Vec<u32>,
    pub encryption_key: Vec<u8>,
}

/// One stored chunk and where it lives.
#[derive(Clone, Debug)]
pub struct ChunkRef {
    pub id: [u8; 32],
    pub nodes: Vec<String>,
    pub provider_chunks: Vec<ProviderChunkEntry>,
}

/// Everything needed to reassemble a stored object.
#[derive(Clone, Debug)]
pub struct ObjectManifest {
    pub version: u16,
    pub total_len: u64,
    pub chunk_len: u32,
    pub chunks: Vec<ChunkRef>,
    pub redundancy: Redundancy,
    pub content_key_enc: Vec<u8>,
    pub blake3: [u8; 32],
    pub chunk_lens: Vec<u32>,
    pub chunk_compressed_lens: Vec<u32>,
    pub chunk_cipher_lens: Vec<u32>,
    pub compression_alg: Option<String>,
    pub compression_level: Option<i32>,
    pub encryption_alg: Option<String>,
    pub erasure_alg: Option<String>,
    pub provider_chunks: Vec<ProviderChunkEntry>,
}

/// A provider entry as a mathematical value.
pub struct ProviderChunkEntryView {
    pub provider: Seq<char>,
    pub chunk_indices: Seq<u32>,
    pub chunk_lens: Seq<u32>,
    pub encryption_key: Seq<u8>,
}

impl View for ProviderChunkEntry {
    type V = ProviderChunkEntryView;

    open spec fn view(&self) -> ProviderChunkEntryView {
        ProviderChunkEntryView {
            provider: self.provider@,
            chunk_indices: self.chunk_indices@,
            chunk_lens: self.chunk_lens@,
            encryption_key: self.encryption_key@,
        }
    }
}

/// The views of a list of provider entries.
pub open spec fn entries_view(v: Seq<ProviderChunkEntry>) -> Seq<ProviderChunkEntryView> {
    Seq::new(v.len(), |i: int| v[i]@)
}

/// The views of a list of strings.
pub open spec fn strings_view(v: Seq<String>) -> Seq<Seq<char>> {
    Seq::new(v.len(), |i: int| v[i]@)
}

/// A chunk reference as a mathematical value.
pub struct ChunkRefView {
    pub id: Seq<u8>,
    pub nodes: Seq<Seq<char>>,
    pub provider_chunks: Seq<ProviderChunkEntryView>,
}

impl View for ChunkRef {
    type V = ChunkRefView;

    open spec fn view(&self) -> ChunkRefView {
        ChunkRefView {
            id: self.id@,
            nodes: strings_view(self.nodes@),
            provider_chunks: entries_view(self.provider_chunks@),
        }
    }
}

/// The views of a list of chunk references.
pub open spec fn chunks_view(v: Seq<ChunkRef>) -> Seq<ChunkRefView> {
    Seq::new(v.len(), |i: int| v[i]@)
}

/// The view of an optional string.
pub open spec fn opt_string_view(o: Option<String>) -> Option<Seq<char>> {
    match o {
        Some(s) => Some(s@),
        None => None,
    }
}

/// A manifest as a mathematical value.
pub struct ObjectManifestView {
    pub version: u16,
    pub total_len: u64,
    pub chunk_len: u32,
    pub chunks: Seq<ChunkRefView>,
    pub redundancy: Redundancy,
    pub content_key_enc: Seq<u8>,
    pub blake3: Seq<u8>,
    pub chunk_lens: Seq<u32>,
    pub chunk_compressed_lens: Seq<u32>,
    pub chunk_cipher_lens: Seq<u32>,
    pub compression_alg: Option<Seq<char>>,
    pub compression_level: Option<i32>,
    pub encryption_alg: Option<Seq<char>>,
    pub erasure_alg: Option<Seq<char>>,
    pub provider_chunks: Seq<ProviderChunkEntryView>,
}

impl View for ObjectManifest {
    type V = ObjectManifestView;

    open spec fn view(&self) -> ObjectManifestView {
        ObjectManifestView {
            version: self.version,
            total_len: self.total_len,
            chunk_len: self.chunk_len,
            chunks: chunks_view(self.chunks@),
            redundancy: self.redundancy,
            content_key_enc: self.content_key_enc@,
            blake3: self.blake3@,
            chunk_lens: self.chunk_lens@,
            chunk_compressed_lens: self.chunk_compressed_lens@,
            chunk_cipher_lens: self.chunk_cipher_lens@,
            compression_alg: opt_string_view(self.compression_alg),
            compression_level: self.compression_level,
            encryption_alg: opt_string_view(self.encryption_alg),
            erasure_alg: opt_string_view(self.erasure_alg),
            provider_chunks: entries_view(self.provider_chunks@),
        }
    }
}

/// `ceil(a / b)` for a positive `b`.
pub open spec fn spec_div_ceil(a: int, b: int) -> int {
    (a + b - 1) / b
}

/// The entry at `index` of a length table, or 0 past its end.
pub open spec fn spec_table_len(table: Seq<u32>, index: int) -> int {
    if 0 <= index < table.len() {
        table[index] as int
    } else {
        0
    }
}

/// Number of plaintext chunks: the length table's size when there is one,
/// else the total length divided by the chunk length, rounded up (an empty
/// object with chunk references counts one chunk).
pub open spec fn spec_chunk_count(m: ObjectManifest) -> int {
    if m.chunk_lens@.len() > 0 {
        m.chunk_lens@.len() as int
    } else if m.chunk_len == 0 {
        0
    } else if m.total_len == 0 {
        if m.chunks@.len() == 0 { 0 } else { 1 }
    } else {
        spec_div_ceil(m.total_len as int, m.chunk_len as int)
    }
}

/// Plaintext length of chunk `index`: from the length table when there is
/// one, else the part of the object that falls in the chunk.
pub open spec fn spec_chunk_plain_len(m: ObjectManifest, index: int) -> int {
    if m.chunk_lens@.len() > 0 {
        spec_table_len(m.chunk_lens@, index)
    } else if m.chunk_len == 0 {
        0
    } else {
        let total = spec_capped_total(m);
        let start = m.chunk_len * index;
        if start >= total {
            0
        } else if total - start < m.chunk_len {
            total - start
        } else {
            m.chunk_len as int
        }
    }
}

/// The object length, capped at `usize::MAX`.
pub open spec fn spec_capped_total(m: ObjectManifest) -> int {
    if m.total_len > usize::MAX {
        usize::MAX as int
    } else {
        m.total_len as int
    }
}

impl ObjectManifest {
    /// Number of plaintext chunks represented by the manifest.
    pub fn chunk_count(&self) -> (n: usize)
        ensures
            n == spec_chunk_count(*self) as usize,
    {
        if self.chunk_lens.len() > 0 {
            return self.chunk_lens.len();
        }
        let chunk_len = self.chunk_len as u64;
        if chunk_len == 0 {
            return 0;
        }
        if self.total_len == 0 {
            return if self.chunks.len() == 0 { 0 } else { 1 };
        }
        let q = self.total_len / chunk_len;
        assert(self.total_len % chunk_len != 0 ==> q < u64::MAX) by (nonlinear_arith)
            requires
                q == self.total_len / chunk_len,
                chunk_len > 0,
        {
            if self.total_len % chunk_len != 0 && q == u64::MAX {
                assert(chunk_len >= 2);
                assert(q * chunk_len <= self.total_len);
            }
        }
        let n = if self.total_len % chunk_len == 0 { q } else { q + 1 };
        assert(n == spec_div_ceil(self.total_len as int, chunk_len as int)) by (nonlinear_arith)
            requires
                q == self.total_len / chunk_len,
                chunk_len > 0,
                n == (if self.total_len % chunk_len == 0 { q as int } else { q + 1 }),
        {
            let t = self.total_len as int;
            let c = chunk_len as int;
            assert(t == c * q + t % c);
        }
        n as usize
    }

    /// Plaintext length of the `index`-th chunk prior to encryption.
    pub fn chunk_plain_len(&self, index: usize) -> (n: usize)
        ensures
            n == spec_chunk_plain_len(*self, index as int),
    {
        if self.chunk_lens.len() > 0 {
            return if index < self.chunk_lens.len() { self.chunk_lens[index] as usize } else { 0 };
        }
        let chunk_len = self.chunk_len as usize;
        if chunk_len == 0 {
            return 0;
        }
        let total: usize = if self.total_len > usize::MAX as u64 {
            usize::MAX
        } else {
            self.total_len as usize
        };
        let start = match chunk_len.checked_mul(index) {
            Some(s) => s,
            None => usize::MAX,
        };
        if start >= total {
            return 0;
        }
        let rest = total - start;
        if rest < chunk_len { rest } else { chunk_len }
    }

    /// Ciphertext length (nonce + ciphertext) stored for the `index`-th chunk.
    pub fn chunk_cipher_len(&self, index: usize) -> (n: usize)
        ensures
            n == if self.chunk_cipher_lens@.len() > 0 {
                spec_table_len(self.chunk_cipher_lens@, index as int)
            } else {
                (spec_chunk_plain_len(*self, index as int) + ENCRYPTED_CHUNK_OVERHEAD) as usize as int
            },
    {
        if self.chunk_cipher_lens.len() > 0 {
            return if index < self.chunk_cipher_lens.len() {
                self.chunk_cipher_lens[index] as usize
            } else {
                0
            };
        }
        let plain = self.chunk_plain_len(index);
        (plain as u64 + ENCRYPTED_CHUNK_OVERHEAD as u64) as usize
    }

    /// Compressed length stored for the `index`-th chunk prior to encryption.
    pub fn chunk_compressed_len(&self, index: usize) -> (n: usize)
        ensures
            n == if self.chunk_compressed_lens@.len() > 0 {
                spec_table_len(self.chunk_compressed_lens@, index as int)
            } else {
                spec_chunk_plain_len(*self, index as int)
            },
    {
        if self.chunk_compressed_lens.len() > 0 {
            return if index < self.chunk_compressed_lens.len() {
                self.chunk_compressed_lens[index] as usize
            } else {
                0
            };
        }
        self.chunk_plain_len(index)
    }
}

/// Without a length table, the chunks' plaintext lengths add up to the
/// object's length: each of the first `k` chunks covers its share of it.
pub proof fn lemma_chunks_cover_object(m: ObjectManifest, k: int)
    requires
        m.chunk_lens@.len() == 0,
        m.chunk_len > 0,
        0 <= k,
    ensures
        spec_chunks_total(m, k) == if m.chunk_len * k <= spec_capped_total(m) {
            m.chunk_len * k
        } else {
            spec_capped_total(m)
        },
    decreases k,
{
    if k > 0 {
        lemma_chunks_cover_object(m, k - 1);
        let c = m.chunk_len as int;
        assert(c * k == c * (k - 1) + c) by (nonlinear_arith);
        assert(c * (k - 1) >= 0) by (nonlinear_arith)
            requires
                c > 0,
                k >= 1,
        ;
        let t = spec_capped_total(m);
        let st = c * (k - 1);
        assert(spec_chunk_plain_len(m, k - 1) == if st >= t {
            0
        } else if t - st < c {
            t - st
        } else {
            c
        });
        assert(spec_chunks_total(m, k) == spec_chunks_total(m, k - 1) + spec_chunk_plain_len(m, k - 1));
    } else {
        assert(m.chunk_len * k == 0) by (nonlinear_arith)
            requires
                k == 0,
        ;
    }
}

/// Sum of the plaintext lengths of the first `k` chunks.
pub open spec fn spec_chunks_total(m: ObjectManifest, k: int) -> int
    decreases k,
{
    if k <= 0 {
        0
    } else {
        spec_chunks_total(m, k - 1) + spec_chunk_plain_len(m, k - 1)
    }
}

/// Receipt for a stored object.
#[derive(Clone, Debug)]
pub struct StoreReceipt {
    pub manifest_hash: [u8; 32],
    pub chunk_count: u32,
    pub redundancy: Redundancy,
    pub lane: String,
}

/// A receipt as a mathematical value.
pub struct StoreReceiptView {
    pub manifest_hash: Seq<u8>,
    pub chunk_count: u32,
    pub redundancy: Redundancy,
    pub lane: Seq<char>,
}

impl View for StoreReceipt {
    type V = StoreReceiptView;

    open spec fn view(&self) -> StoreReceiptView {
        StoreReceiptView {
            manifest_hash: self.manifest_hash@,
            chunk_count: self.chunk_count,
            redundancy: self.redundancy,
            lane: self.lane@,
        }
    }
}

} // verus!
