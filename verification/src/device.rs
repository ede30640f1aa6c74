//! Metadata for blobs and chunks, and the I/O descriptor types.

use vstd::prelude::*;

use crate::compressor::CompressAlgo;
use crate::digester::DigestAlgo;

verus! {

/// Feature bit of [`BlobInfo::features`]: the blob is a legacy gzip-stargz
/// image, whose per-chunk compressed sizes are not recorded exactly.
pub const BLOB_FEATURE_LEGACY_STARGZ: u32 = 0x1;

/// Feature bit of [`BlobInfo::features`]: the blob carries no extended blob
/// table.
pub const BLOB_FEATURE_V5_NO_EXT_BLOB_TABLE: u32 = 0x2;

/// Immutable metadata for one chunk of a blob.
///
/// A chunk is the unit of read and integrity: a contiguous byte range of the
/// uncompressed blob with its own digest, stored at a fixed compressed
/// offset in the blob.
#[derive(Clone, Copy, Debug)]
pub struct ChunkInfo {
    /// Index of the chunk within its blob.
    pub index: u32,
    /// Index of the owning blob.
    pub blob_index: u32,
    /// Offset of the chunk's compressed data in the blob.
    pub compressed_offset: u64,
    /// Size of the chunk's compressed data.
    pub compressed_size: u32,
    /// Offset of the chunk's data in the uncompressed stream.
    pub uncompressed_offset: u64,
    /// Size of the chunk's uncompressed data.
    pub uncompressed_size: u32,
    /// Whether the stored data is compressed.
    pub is_compressed: bool,
    /// Digest of the chunk's uncompressed data.
    pub digest: [u8; 32],
}

impl ChunkInfo {
    /// The chunk's compressed region lies within the addressable range of a
    /// blob.
    pub open spec fn wf(self) -> bool {
        self.compressed_offset + self.compressed_size <= u64::MAX
    }
}

/// Immutable metadata for one blob: created at mount, shared read-only.
#[derive(Debug)]
pub struct BlobInfo {
    /// Index of the blob in the image's blob table.
    pub blob_index: u32,
    /// Content-hash identifier of the blob.
    pub blob_id: String,
    /// Size of the uncompressed blob.
    pub uncompressed_size: u64,
    /// Size of the compressed blob.
    pub compressed_size: u64,
    /// Nominal chunk size the blob was built with.
    pub chunk_size: u32,
    /// Number of chunks in the blob.
    pub chunk_count: u32,
    /// Feature bitset, see the `BLOB_FEATURE_` constants.
    pub features: u32,
    /// Compression algorithm applied to the blob's chunks.
    pub compressor: CompressAlgo,
    /// Digest algorithm of the blob's chunk digests.
    pub digester: DigestAlgo,
}

impl BlobInfo {
    /// Create metadata for one blob.  The compressor defaults to raw data
    /// and the digester to blake3; see [`BlobInfo::set_compressor`] and
    /// [`BlobInfo::set_digester`].
    pub fn new(
        blob_index: u32,
        blob_id: String,
        uncompressed_size: u64,
        compressed_size: u64,
        chunk_size: u32,
        chunk_count: u32,
        features: u32,
    ) -> (r: BlobInfo)
        ensures
            r.blob_index == blob_index,
            r.blob_id@ == blob_id@,
            r.uncompressed_size == uncompressed_size,
            r.compressed_size == compressed_size,
            r.chunk_size == chunk_size,
            r.chunk_count == chunk_count,
            r.features == features,
            r.compressor is NoCompress,
            r.digester is Blake3,
    {
        BlobInfo {
            blob_index,
            blob_id,
            uncompressed_size,
            compressed_size,
            chunk_size,
            chunk_count,
            features,
            compressor: CompressAlgo::NoCompress,
            digester: DigestAlgo::Blake3,
        }
    }

    /// Record the compression algorithm of the blob's chunks.
    pub fn set_compressor(&mut self, compressor: CompressAlgo)
        ensures
            *final(self) == (BlobInfo { compressor, ..*old(self) }),
    {
        self.compressor = compressor;
    }

    /// Record the digest algorithm of the blob's chunk digests.
    pub fn set_digester(&mut self, digester: DigestAlgo)
        ensures
            *final(self) == (BlobInfo { digester, ..*old(self) }),
    {
        self.digester = digester;
    }

    /// Whether the blob is a legacy gzip-stargz image.
    pub fn is_legacy_stargz(&self) -> (r: bool)
        ensures
            r == (self.features & BLOB_FEATURE_LEGACY_STARGZ != 0),
    {
        self.features & BLOB_FEATURE_LEGACY_STARGZ != 0
    }
}

/// One filesystem-level read request: a byte range within one chunk.
#[derive(Clone, Copy, Debug)]
pub struct BlobIoDesc {
    /// Index of the blob the chunk belongs to.
    pub blob_index: u32,
    /// Metadata of the chunk to read from.
    pub chunkinfo: ChunkInfo,
    /// Offset of the requested bytes within the uncompressed chunk.
    pub offset: u32,
    /// Number of requested bytes.
    pub size: u32,
    /// Whether a user initiated the request (as opposed to prefetch).
    pub user_io: bool,
}

/// Two descriptors are continuous when they reference the same blob and the
/// second's compressed region begins where the first's ends, up to a gap of
/// at most `max_gap` bytes.
pub open spec fn continuous_spec(prev: BlobIoDesc, next: BlobIoDesc, max_gap: int) -> bool {
    let prev_end = prev.chunkinfo.compressed_offset + prev.chunkinfo.compressed_size;
    &&& prev.blob_index == next.blob_index
    &&& next.chunkinfo.compressed_offset >= prev_end
    &&& next.chunkinfo.compressed_offset - prev_end <= max_gap
}

impl BlobIoDesc {
    /// Whether `next`'s compressed data follows this descriptor's in the
    /// blob, with a gap of at most `max_gap` bytes.
    pub fn is_continuous(&self, next: &BlobIoDesc, max_gap: u64) -> (r: bool)
        requires
            self.chunkinfo.wf(),
        ensures
            r == continuous_spec(*self, *next, max_gap as int),
    {
        let prev_end = self.chunkinfo.compressed_offset + self.chunkinfo.compressed_size as u64;
        self.blob_index == next.blob_index && next.chunkinfo.compressed_offset >= prev_end
            && next.chunkinfo.compressed_offset - prev_end <= max_gap
    }
}

/// A merged, backend-ready request: one compressed span of one blob and the
/// ordered chunks it exactly covers.
#[derive(Debug)]
pub struct BlobIoRange {
    /// Index of the blob the span belongs to.
    pub blob_index: u32,
    /// Offset of the span in the compressed blob.
    pub blob_offset: u64,
    /// Length of the span.
    pub blob_size: u64,
    /// The chunks covered, in blob order.
    pub chunks: Vec<ChunkInfo>,
}

impl BlobIoRange {
    /// The span begins at the first chunk and the listed chunks tile it
    /// end-to-end with no gaps.
    pub open spec fn wf(self) -> bool {
        &&& self.chunks@.len() > 0
        &&& self.blob_offset == self.chunks@[0].compressed_offset
        &&& forall|k: int|
            0 < k < self.chunks@.len() ==> (#[trigger] self.chunks@[k]).compressed_offset
                == self.chunks@[k - 1].compressed_offset + self.chunks@[k - 1].compressed_size
        &&& self.blob_size == self.chunks@.last().compressed_offset
            + self.chunks@.last().compressed_size - self.blob_offset
    }

    /// Start a range covering `bio`'s chunk, with room for `capacity` chunks.
    pub fn new(bio: &BlobIoDesc, capacity: usize) -> (r: BlobIoRange)
        ensures
            r.blob_index == bio.blob_index,
            r.blob_offset == bio.chunkinfo.compressed_offset,
            r.blob_size == bio.chunkinfo.compressed_size,
            r.chunks@ == seq![bio.chunkinfo],
            r.wf(),
    {
        let mut chunks: Vec<ChunkInfo> = Vec::with_capacity(capacity);
        chunks.push(bio.chunkinfo);
        proof {
            assert(chunks@ =~= seq![bio.chunkinfo]);
        }
        BlobIoRange {
            blob_index: bio.blob_index,
            blob_offset: bio.chunkinfo.compressed_offset,
            blob_size: bio.chunkinfo.compressed_size as u64,
            chunks,
        }
    }

    /// Append a chunk whose compressed data starts exactly at the end of the
    /// span.
    pub fn merge(&mut self, bio: &BlobIoDesc)
        requires
            bio.chunkinfo.wf(),
            old(self).wf(),
            bio.blob_index == old(self).blob_index,
            bio.chunkinfo.compressed_offset == old(self).blob_offset + old(self).blob_size,
        ensures
            final(self).blob_index == old(self).blob_index,
            final(self).blob_offset == old(self).blob_offset,
            final(self).blob_size == old(self).blob_size + bio.chunkinfo.compressed_size,
            final(self).chunks@ == old(self).chunks@.push(bio.chunkinfo),
            final(self).wf(),
    {
        self.blob_size = self.blob_size + bio.chunkinfo.compressed_size as u64;
        self.chunks.push(bio.chunkinfo);
    }
}

} // verus!
