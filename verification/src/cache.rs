//! The cached-file engine's shared read path: fetch a merged compressed
//! span from the backend, slice out each chunk's compressed bytes,
//! decompress them and validate their digest before anything enters the
//! cache.

use vstd::prelude::*;

use crate::backend::BlobReader;
use crate::compressor::{
    compute_compressed_gzip_size, decompress, decompress_of, decompress_ok, gzip_size_bound_spec,
    CompressAlgo,
};
use crate::device::{BlobInfo, BlobIoRange, ChunkInfo, BLOB_FEATURE_LEGACY_STARGZ};
use crate::digester::{check_digest, digest_of, DigestAlgo};
use crate::error::CacheError;
use crate::RAFS_MAX_CHUNK_SIZE;

verus! {

/// Allocate a zeroed buffer of `size` bytes.
pub fn alloc_buf(size: usize) -> (r: Vec<u8>)
    ensures
        r@.len() == size,
        forall|k: int| 0 <= k < size ==> r@[k] == 0u8,
{
    let mut v: Vec<u8> = Vec::with_capacity(size);
    let mut i: usize = 0;
    while i < size
        invariant
            0 <= i <= size,
            v@.len() == i,
            forall|k: int| 0 <= k < i ==> v@[k] == 0u8,
        decreases size - i,
    {
        v.push(0);
        i += 1;
    }
    v
}

/// Copy the bytes `v[start..end]` into a fresh buffer.
pub fn vec_subrange(v: &Vec<u8>, start: usize, end: usize) -> (r: Vec<u8>)
    requires
        start <= end <= v@.len(),
    ensures
        r@ == v@.subrange(start as int, end as int),
{
    let mut r: Vec<u8> = Vec::with_capacity(end - start);
    let mut i: usize = start;
    while i < end
        invariant
            start <= i <= end,
            end <= v@.len(),
            r@.len() == i - start,
            forall|k: int| 0 <= k < r@.len() ==> r@[k] == v@[start + k],
        decreases end - i,
    {
        let b = v[i];
        r.push(b);
        i += 1;
    }
    proof {
        assert(r@ =~= v@.subrange(start as int, end as int));
    }
    r
}

/// The compressed region of chunk `c` lies inside a span of `buf_len`
/// bytes fetched from blob offset `blob_offset`, and the chunk's
/// uncompressed size is within bounds.
pub open spec fn chunk_in_bounds(c: ChunkInfo, blob_offset: int, buf_len: int) -> bool {
    &&& c.compressed_offset - blob_offset <= usize::MAX
    &&& c.compressed_offset + c.compressed_size <= u64::MAX
    &&& c.compressed_offset + c.compressed_size - blob_offset <= buf_len
    &&& c.uncompressed_size <= RAFS_MAX_CHUNK_SIZE
}

/// The compressed bytes of chunk `c` within a span fetched from blob
/// offset `blob_offset`.
pub open spec fn chunk_raw(c: ChunkInfo, c_buf: Seq<u8>, blob_offset: int) -> Seq<u8> {
    c_buf.subrange(
        c.compressed_offset - blob_offset,
        c.compressed_offset + c.compressed_size - blob_offset,
    )
}

/// The uncompressed bytes of chunk `c` recovered from a span fetched from
/// blob offset `blob_offset`: the chunk's compressed slice, decoded if the
/// chunk is compressed.
pub open spec fn chunk_plain(c: ChunkInfo, c_buf: Seq<u8>, blob_offset: int, algo: CompressAlgo) -> Seq<
    u8,
> {
    if c.is_compressed {
        decompress_of(chunk_raw(c, c_buf, blob_offset), algo, c.uncompressed_size as int)
    } else {
        chunk_raw(c, c_buf, blob_offset)
    }
}

/// A cache object for one blob on backend storage: the blob's immutable
/// metadata, its chunk table, and a reader for the blob's compressed data.
pub struct BlobCache<R: BlobReader> {
    /// The blob's immutable metadata.
    pub blob_info: BlobInfo,
    /// The blob's chunk table, by chunk index.
    pub chunks: Vec<ChunkInfo>,
    /// The reader for the blob on backend storage.
    pub reader: R,
    /// Whether every chunk is digest-validated as it enters the cache.
    pub validate: bool,
}

impl<R: BlobReader> BlobCache<R> {
    /// The blob is a legacy gzip-stargz image.
    pub open spec fn spec_is_legacy_stargz(self) -> bool {
        self.blob_info.features & BLOB_FEATURE_LEGACY_STARGZ != 0
    }

    /// A batch of chunks the engine may recover from one span: each chunk
    /// starts at or after the span's offset, uncompressed chunks store
    /// their data unchanged, and a blob without a compressor holds no
    /// compressed chunk.
    pub open spec fn chunks_well_formed(self, chunks: Seq<ChunkInfo>, blob_offset: int) -> bool {
        &&& (forall|k: int|
            0 <= k < chunks.len() ==> (#[trigger] chunks[k]).compressed_offset >= blob_offset)
        &&& (forall|k: int|
            0 <= k < chunks.len() ==> (!(#[trigger] chunks[k]).is_compressed
                ==> chunks[k].compressed_size == chunks[k].uncompressed_size))
        &&& (self.blob_info.compressor is NoCompress ==> forall|k: int|
            0 <= k < chunks.len() ==> !(#[trigger] chunks[k]).is_compressed)
    }

    /// Chunk `c`'s compressed slice of the span decodes successfully, to
    /// exactly the chunk's uncompressed size.  An uncompressed chunk is
    /// always recoverable.
    pub open spec fn chunk_recoverable(self, c: ChunkInfo, c_buf: Seq<u8>, blob_offset: int) -> bool {
        c.is_compressed ==> (decompress_ok(
            chunk_raw(c, c_buf, blob_offset),
            self.blob_info.compressor,
            c.uncompressed_size as int,
        ) && decompress_of(
            chunk_raw(c, c_buf, blob_offset),
            self.blob_info.compressor,
            c.uncompressed_size as int,
        ).len() == c.uncompressed_size)
    }

    /// Every chunk of the batch lies inside the span, decodes to its
    /// uncompressed size, and (when validation is on) digests to its
    /// recorded digest: exactly the condition under which the engine's
    /// span processing succeeds.
    pub open spec fn chunks_all_good(self, chunks: Seq<ChunkInfo>, blob_offset: int, c_buf: Seq<
        u8,
    >) -> bool {
        forall|k: int|
            0 <= k < chunks.len() ==> {
                &&& chunk_in_bounds(#[trigger] chunks[k], blob_offset, c_buf.len() as int)
                &&& self.chunk_recoverable(chunks[k], c_buf, blob_offset)
                &&& (self.validate ==> digest_of(
                    chunk_plain(chunks[k], c_buf, blob_offset, self.blob_info.compressor),
                    self.blob_info.digester,
                ) == chunks[k].digest@)
            }
    }

    /// What the engine guarantees of the buffers it hands back: one buffer
    /// per chunk, each holding exactly that chunk's uncompressed bytes as
    /// recovered from the fetched span, digest-validated when validation
    /// is on.
    pub open spec fn chunks_outcome(
        self,
        chunks: Seq<ChunkInfo>,
        blob_offset: int,
        c_buf: Seq<u8>,
        bufs: Seq<Vec<u8>>,
    ) -> bool {
        &&& bufs.len() == chunks.len()
        &&& (forall|k: int|
            0 <= k < chunks.len() ==> chunk_in_bounds(
                #[trigger] chunks[k],
                blob_offset,
                c_buf.len() as int,
            ))
        &&& (forall|k: int|
            0 <= k < chunks.len() ==> (#[trigger] bufs[k])@ == chunk_plain(
                chunks[k],
                c_buf,
                blob_offset,
                self.blob_info.compressor,
            ))
        &&& (forall|k: int|
            0 <= k < chunks.len() ==> (#[trigger] bufs[k])@.len() == chunks[k].uncompressed_size)
        &&& (self.validate ==> forall|k: int|
            0 <= k < chunks.len() ==> digest_of((#[trigger] bufs[k])@, self.blob_info.digester)
                == chunks[k].digest@)
    }

    /// Build a cache object for one blob.
    pub fn new(blob_info: BlobInfo, chunks: Vec<ChunkInfo>, reader: R, validate: bool) -> (r: Self)
        ensures
            r.blob_info == blob_info,
            r.chunks@ == chunks@,
            r.reader == reader,
            r.validate == validate,
    {
        BlobCache { blob_info, chunks, reader, validate }
    }

    /// Id of the blob object.
    pub fn blob_id(&self) -> (r: &String)
        ensures
            r@ == self.blob_info.blob_id@,
    {
        &self.blob_info.blob_id
    }

    /// Size of the decompressed blob object.
    pub fn blob_uncompressed_size(&self) -> (r: u64)
        ensures
            r == self.blob_info.uncompressed_size,
    {
        self.blob_info.uncompressed_size
    }

    /// Size of the compressed blob object.
    pub fn blob_compressed_size(&self) -> (r: u64)
        ensures
            r == self.blob_info.compressed_size,
    {
        self.blob_info.compressed_size
    }

    /// Compression algorithm applied to the blob's chunks.
    pub fn compressor(&self) -> (r: CompressAlgo)
        ensures
            r == self.blob_info.compressor,
    {
        self.blob_info.compressor
    }

    /// Digest algorithm of the blob's chunk digests.
    pub fn digester(&self) -> (r: DigestAlgo)
        ensures
            r == self.blob_info.digester,
    {
        self.blob_info.digester
    }

    /// Whether the blob is a legacy gzip-stargz image.
    pub fn is_legacy_stargz(&self) -> (r: bool)
        ensures
            r == self.spec_is_legacy_stargz(),
    {
        self.blob_info.is_legacy_stargz()
    }

    /// Whether every chunk must be digest-validated on every read.
    pub fn need_validate(&self) -> (r: bool)
        ensures
            r == self.validate,
    {
        self.validate
    }

    /// The reader for the blob on backend storage.
    pub fn reader(&self) -> (r: &R)
        ensures
            r == &self.reader,
    {
        &self.reader
    }

    /// The chunk metadata for `chunk_index`, if the blob has such a chunk.
    pub fn get_chunk_info(&self, chunk_index: u32) -> (r: Option<ChunkInfo>)
        ensures
            chunk_index < self.chunks@.len() ==> r == Some(self.chunks@[chunk_index as int]),
            chunk_index >= self.chunks@.len() ==> r is None,
    {
        if (chunk_index as usize) < self.chunks.len() {
            Some(self.chunks[chunk_index as usize])
        } else {
            None
        }
    }

    /// Synchronous fetch of an already-merged range: the generic engine
    /// does not run prefetch itself, so the capability is refused.
    pub fn prefetch_range(&self, _range: &BlobIoRange) -> (r: Result<usize, CacheError>)
        ensures
            r == Err::<usize, CacheError>(CacheError::NotSupported),
    {
        Err(CacheError::NotSupported)
    }

    /// Worst-case compressed size of a chunk of a legacy gzip-stargz blob,
    /// whose exact compressed sizes are not recorded: the gzip envelope
    /// around `uncomp_size` bytes, capped by what remains of the blob
    /// after `offset`.
    pub fn get_legacy_stargz_size(&self, offset: u64, uncomp_size: usize) -> (r: Result<
        usize,
        CacheError,
    >)
        requires
            uncomp_size <= RAFS_MAX_CHUNK_SIZE,
        ensures
            r is Ok <==> offset <= self.blob_info.compressed_size,
            r is Err ==> r == Err::<usize, CacheError>(CacheError::InvalidArgument),
            r matches Ok(n) ==> n as int == gzip_size_bound_spec(
                uncomp_size as int,
                if self.blob_info.compressed_size - offset <= usize::MAX {
                    self.blob_info.compressed_size - offset
                } else {
                    usize::MAX as int
                },
            ),
    {
        let blob_size = self.blob_info.compressed_size;
        if offset > blob_size {
            return Err(CacheError::InvalidArgument);
        }
        let remaining = blob_size - offset;
        let max_size: usize = if remaining <= usize::MAX as u64 {
            remaining as usize
        } else {
            usize::MAX
        };
        Ok(compute_compressed_gzip_size(uncomp_size, max_size))
    }

    /// Decompress one chunk's raw bytes into `buffer`, which must hold
    /// exactly the chunk's uncompressed size; for an uncompressed chunk
    /// the raw bytes are copied as they are.
    pub fn decompress_chunk_data(
        &self,
        raw_buffer: &Vec<u8>,
        buffer: &mut Vec<u8>,
        is_compressed: bool,
    ) -> (r: Result<(), CacheError>)
        requires
            !is_compressed ==> raw_buffer@.len() == old(buffer)@.len(),
        ensures
            final(buffer)@.len() == old(buffer)@.len(),
            r is Ok ==> (!is_compressed ==> final(buffer)@ == raw_buffer@),
            r is Ok ==> (is_compressed && self.blob_info.compressor is NoCompress
                ==> final(buffer)@ == old(buffer)@),
            r is Ok ==> (is_compressed && !(self.blob_info.compressor is NoCompress)
                ==> final(buffer)@ == decompress_of(
                raw_buffer@,
                self.blob_info.compressor,
                old(buffer)@.len() as int,
            )),
            is_compressed && !(self.blob_info.compressor is NoCompress) ==> (r is Ok
                <==> (decompress_ok(raw_buffer@, self.blob_info.compressor, old(buffer)@.len() as int)
                && decompress_of(
                raw_buffer@,
                self.blob_info.compressor,
                old(buffer)@.len() as int,
            ).len() == old(buffer)@.len())),
            !is_compressed ==> r is Ok,
            r is Err ==> r == Err::<(), CacheError>(CacheError::Decompress) && is_compressed,
    {
        if is_compressed {
            let ret = match decompress(raw_buffer, buffer, self.blob_info.compressor) {
                Ok(n) => n,
                Err(e) => {
                    return Err(e);
                },
            };
            if ret != buffer.len() {
                return Err(CacheError::Decompress);
            }
            proof {
                if !(self.blob_info.compressor is NoCompress) {
                    assert(buffer@.subrange(0, ret as int) =~= buffer@);
                }
            }
            Ok(())
        } else {
            let n = raw_buffer.len();
            let mut i: usize = 0;
            while i < n
                invariant
                    0 <= i <= n,
                    n == raw_buffer@.len(),
                    n == buffer@.len(),
                    forall|k: int| 0 <= k < i ==> buffer@[k] == raw_buffer@[k],
                decreases n - i,
            {
                let b = raw_buffer[i];
                buffer.set(i, b);
                i += 1;
            }
            proof {
                assert(buffer@ =~= raw_buffer@);
            }
            Ok(())
        }
    }

    /// Check one chunk's uncompressed bytes: the buffer must hold exactly
    /// the chunk's uncompressed size, and when validation is configured or
    /// forced its digest must equal the chunk's recorded digest.
    pub fn validate_chunk_data(&self, chunk: &ChunkInfo, buffer: &Vec<u8>, force_validation: bool) -> (r:
        Result<usize, CacheError>)
        ensures
            r matches Ok(n) ==> n == chunk.uncompressed_size,
            r is Ok <==> (buffer@.len() == chunk.uncompressed_size && ((self.validate
                || force_validation) ==> digest_of(buffer@, self.blob_info.digester)
                == chunk.digest@)),
            r == Err::<usize, CacheError>(CacheError::InvalidArgument) <==> buffer@.len()
                != chunk.uncompressed_size,
            r == Err::<usize, CacheError>(CacheError::DigestMismatch) <==> (buffer@.len()
                == chunk.uncompressed_size && (self.validate || force_validation) && digest_of(
                buffer@,
                self.blob_info.digester,
            ) != chunk.digest@),
            r is Err ==> (r == Err::<usize, CacheError>(CacheError::InvalidArgument) || r == Err::<
                usize,
                CacheError,
            >(CacheError::DigestMismatch)),
    {
        let d_size = chunk.uncompressed_size as usize;
        if buffer.len() != d_size {
            return Err(CacheError::InvalidArgument);
        }
        if self.validate || force_validation {
            if !check_digest(buffer, &chunk.digest, self.blob_info.digester) {
                return Err(CacheError::DigestMismatch);
            }
        }
        Ok(d_size)
    }

    /// Slice each chunk's compressed bytes out of the fetched span
    /// `c_buf`, decompress and validate them, and hand back one buffer per
    /// chunk together with the span.
    pub fn decompress_normal_chunks(
        &self,
        blob_offset: u64,
        chunks: &Vec<ChunkInfo>,
        c_buf: Vec<u8>,
    ) -> (r: Result<(Vec<Vec<u8>>, Vec<u8>), CacheError>)
        requires
            self.chunks_well_formed(chunks@, blob_offset as int),
        ensures
            r matches Ok(p) ==> p.1@ == c_buf@ && self.chunks_outcome(
                chunks@,
                blob_offset as int,
                c_buf@,
                p.0@,
            ),
            r matches Err(e) ==> (e is InvalidArgument || e is Decompress || e is DigestMismatch),
            r matches Err(e) ==> (e is InvalidArgument ==> exists|k: int|
                0 <= k < chunks@.len() && !chunk_in_bounds(
                    #[trigger] chunks@[k],
                    blob_offset as int,
                    c_buf@.len() as int,
                )),
            r matches Err(e) ==> (e is DigestMismatch ==> self.validate && exists|k: int|
                0 <= k < chunks@.len() && digest_of(
                    chunk_plain(
                        #[trigger] chunks@[k],
                        c_buf@,
                        blob_offset as int,
                        self.blob_info.compressor,
                    ),
                    self.blob_info.digester,
                ) != chunks@[k].digest@),
            r matches Err(e) ==> (e is Decompress ==> exists|k: int|
                0 <= k < chunks@.len() && (#[trigger] chunks@[k]).is_compressed),
            r is Ok <==> self.chunks_all_good(chunks@, blob_offset as int, c_buf@),
    {
        let n = chunks.len();
        let mut buffers: Vec<Vec<u8>> = Vec::with_capacity(n);
        let mut idx: usize = 0;
        while idx < n
            invariant
                0 <= idx <= n,
                n == chunks@.len(),
                self.chunks_well_formed(chunks@, blob_offset as int),
                buffers@.len() == idx,
                forall|k: int|
                    0 <= k < idx ==> chunk_in_bounds(
                        #[trigger] chunks@[k],
                        blob_offset as int,
                        c_buf@.len() as int,
                    ),
                forall|k: int|
                    0 <= k < idx ==> self.chunk_recoverable(
                        #[trigger] chunks@[k],
                        c_buf@,
                        blob_offset as int,
                    ),
                forall|k: int|
                    0 <= k < idx ==> (#[trigger] buffers@[k])@ == chunk_plain(
                        chunks@[k],
                        c_buf@,
                        blob_offset as int,
                        self.blob_info.compressor,
                    ),
                forall|k: int|
                    0 <= k < idx ==> (#[trigger] buffers@[k])@.len()
                        == chunks@[k].uncompressed_size,
                self.validate ==> forall|k: int|
                    0 <= k < idx ==> digest_of((#[trigger] buffers@[k])@, self.blob_info.digester)
                        == chunks@[k].digest@,
            decreases n - idx,
        {
            let chunk = chunks[idx];
            let offset = chunk.compressed_offset;
            let size = chunk.compressed_size;
            let d_size = chunk.uncompressed_size as usize;
            proof {
                assert(chunks@[idx as int].compressed_offset >= blob_offset);
            }
            if offset - blob_offset > usize::MAX as u64 || offset.checked_add(size as u64).is_none()
                || offset + size as u64 - blob_offset > c_buf.len() as u64 || d_size as u64
                > RAFS_MAX_CHUNK_SIZE {
                proof {
                    assert(!chunk_in_bounds(
                        chunks@[idx as int],
                        blob_offset as int,
                        c_buf@.len() as int,
                    ));
                    assert(!self.chunks_all_good(chunks@, blob_offset as int, c_buf@));
                }
                return Err(CacheError::InvalidArgument);
            }
            let offset_merged = (offset - blob_offset) as usize;
            let end_merged = offset_merged + size as usize;
            let buf = vec_subrange(&c_buf, offset_merged, end_merged);
            proof {
                assert(buf@ == chunk_raw(chunk, c_buf@, blob_offset as int));
            }
            let mut buffer = alloc_buf(d_size);
            match self.decompress_chunk_data(&buf, &mut buffer, chunk.is_compressed) {
                Ok(u) => u,
                Err(e) => {
                    proof {
                        assert(!self.chunk_recoverable(
                            chunks@[idx as int],
                            c_buf@,
                            blob_offset as int,
                        ));
                        assert(!self.chunks_all_good(chunks@, blob_offset as int, c_buf@));
                    }
                    return Err(e);
                },
            }
            match self.validate_chunk_data(&chunk, &buffer, self.validate) {
                Ok(_) => {},
                Err(e) => {
                    proof {
                        assert(buffer@ == chunk_plain(
                            chunks@[idx as int],
                            c_buf@,
                            blob_offset as int,
                            self.blob_info.compressor,
                        ));
                        assert(!self.chunks_all_good(chunks@, blob_offset as int, c_buf@));
                    }
                    return Err(e);
                },
            }
            buffers.push(buffer);
            idx += 1;
        }
        proof {
            assert forall|k: int| 0 <= k < chunks@.len() implies {
                &&& chunk_in_bounds(#[trigger] chunks@[k], blob_offset as int, c_buf@.len() as int)
                &&& self.chunk_recoverable(chunks@[k], c_buf@, blob_offset as int)
                &&& (self.validate ==> digest_of(
                    chunk_plain(chunks@[k], c_buf@, blob_offset as int, self.blob_info.compressor),
                    self.blob_info.digester,
                ) == chunks@[k].digest@)
            } by {
                assert((buffers@[k])@ == chunk_plain(
                    chunks@[k],
                    c_buf@,
                    blob_offset as int,
                    self.blob_info.compressor,
                ));
            }
            assert(self.chunks_all_good(chunks@, blob_offset as int, c_buf@));
        }
        Ok((buffers, c_buf))
    }

    /// Decide what a span fetch yielded, given the byte count the backend
    /// reported for it: a short read is fatal and fails the call with a
    /// backend error; a full read is recovered chunk by chunk.
    pub fn process_fetched_span(
        &self,
        nr_read: usize,
        blob_size: usize,
        blob_offset: u64,
        chunks: &Vec<ChunkInfo>,
        c_buf: Vec<u8>,
    ) -> (r: Result<(Vec<Vec<u8>>, Vec<u8>), CacheError>)
        requires
            self.chunks_well_formed(chunks@, blob_offset as int),
        ensures
            nr_read != blob_size ==> r == Err::<(Vec<Vec<u8>>, Vec<u8>), CacheError>(
                CacheError::Backend,
            ),
            nr_read == blob_size ==> {
                &&& (r is Ok <==> self.chunks_all_good(chunks@, blob_offset as int, c_buf@))
                &&& (r matches Ok(p) ==> p.1@ == c_buf@ && self.chunks_outcome(
                    chunks@,
                    blob_offset as int,
                    c_buf@,
                    p.0@,
                ))
                &&& (r matches Err(e) ==> (e is InvalidArgument || e is Decompress
                    || e is DigestMismatch))
            },
    {
        if nr_read != blob_size {
            return Err(CacheError::Backend);
        }
        self.decompress_normal_chunks(blob_offset, chunks, c_buf)
    }

    /// Fetch the compressed span `[blob_offset, blob_offset + blob_size)`
    /// from the backend in one read and recover every covered chunk from
    /// it.  Succeeds only if all requested bytes arrive and every chunk
    /// decompresses and validates; what is owed for every count the
    /// backend can report stands at [`BlobCache::process_fetched_span`].
    pub fn read_chunks_from_backend(
        &self,
        blob_offset: u64,
        blob_size: usize,
        chunks: &Vec<ChunkInfo>,
    ) -> (r: Result<(Vec<Vec<u8>>, Vec<u8>), CacheError>)
        requires
            self.chunks_well_formed(chunks@, blob_offset as int),
        ensures
            r matches Ok(p) ==> p.1@.len() == blob_size && self.chunks_outcome(
                chunks@,
                blob_offset as int,
                p.1@,
                p.0@,
            ),
            r matches Err(e) ==> (e is Backend || e is InvalidArgument || e is Decompress
                || e is DigestMismatch),
    {
        let mut c_buf = alloc_buf(blob_size);
        let nr_read = match self.reader.read(&mut c_buf, blob_offset) {
            Ok(nr) => nr,
            Err(_) => {
                return Err(CacheError::Backend);
            },
        };
        self.process_fetched_span(nr_read, blob_size, blob_offset, chunks, c_buf)
    }

    /// Decide what a compressed chunk's fetch yielded, given the byte
    /// count the backend reported: a short read is fatal and fails the
    /// call with a backend error; a full read is decompressed into
    /// `buffer`, and the raw bytes are handed back on success.
    pub fn process_fetched_chunk(&self, nr_read: usize, raw_buffer: Vec<u8>, buffer: &mut Vec<
        u8,
    >) -> (r: Result<Vec<u8>, CacheError>)
        requires
            !(self.blob_info.compressor is NoCompress),
        ensures
            final(buffer)@.len() == old(buffer)@.len(),
            nr_read != raw_buffer@.len() ==> r == Err::<Vec<u8>, CacheError>(CacheError::Backend)
                && final(buffer)@ == old(buffer)@,
            nr_read == raw_buffer@.len() ==> (r is Ok <==> (decompress_ok(
                raw_buffer@,
                self.blob_info.compressor,
                old(buffer)@.len() as int,
            ) && decompress_of(
                raw_buffer@,
                self.blob_info.compressor,
                old(buffer)@.len() as int,
            ).len() == old(buffer)@.len())),
            r matches Ok(rb) ==> rb@ == raw_buffer@ && final(buffer)@ == decompress_of(
                raw_buffer@,
                self.blob_info.compressor,
                old(buffer)@.len() as int,
            ),
            r is Err ==> (r == Err::<Vec<u8>, CacheError>(CacheError::Backend) || r == Err::<
                Vec<u8>,
                CacheError,
            >(CacheError::Decompress)),
    {
        if nr_read != raw_buffer.len() {
            return Err(CacheError::Backend);
        }
        match self.decompress_chunk_data(&raw_buffer, buffer, true) {
            Ok(u) => u,
            Err(e) => {
                return Err(e);
            },
        }
        Ok(raw_buffer)
    }

    /// Read one whole chunk directly from the backend into `buffer`,
    /// decompressing it if it is stored compressed and validating it per
    /// configuration.  On success the raw compressed bytes are handed back
    /// for a compressed chunk.  What is owed for every byte count the
    /// backend can report stands at [`BlobCache::process_fetched_chunk`]
    /// and [`ensure_full_read`].
    pub fn read_chunk_from_backend(
        &self,
        chunk: &ChunkInfo,
        buffer: &mut Vec<u8>,
        force_validation: bool,
    ) -> (r: Result<Option<Vec<u8>>, CacheError>)
        requires
            self.blob_info.compressor is NoCompress ==> !chunk.is_compressed,
            chunk.is_compressed && self.spec_is_legacy_stargz() ==> old(buffer)@.len()
                <= RAFS_MAX_CHUNK_SIZE,
        ensures
            final(buffer)@.len() == old(buffer)@.len(),
            r matches Ok(c) ==> {
                &&& old(buffer)@.len() == chunk.uncompressed_size
                &&& ((self.validate || force_validation) ==> digest_of(
                    final(buffer)@,
                    self.blob_info.digester,
                ) == chunk.digest@)
                &&& (chunk.is_compressed <==> c is Some)
                &&& (chunk.is_compressed ==> final(buffer)@ == decompress_of(
                    c.unwrap()@,
                    self.blob_info.compressor,
                    old(buffer)@.len() as int,
                ))
            },
            r matches Err(e) ==> (e is Backend || e is Decompress || e is DigestMismatch
                || e is InvalidArgument),
            r == Err::<Option<Vec<u8>>, CacheError>(CacheError::DigestMismatch) ==> (self.validate
                || force_validation),
            chunk.is_compressed && self.spec_is_legacy_stargz() && chunk.compressed_offset
                > self.blob_info.compressed_size ==> r == Err::<Option<Vec<u8>>, CacheError>(
                CacheError::InvalidArgument,
            ),
    {
        let offset = chunk.compressed_offset;
        let mut c_buf: Option<Vec<u8>> = None;
        if chunk.is_compressed {
            let c_size = if self.is_legacy_stargz() {
                match self.get_legacy_stargz_size(offset, buffer.len()) {
                    Ok(sz) => sz,
                    Err(e) => {
                        return Err(e);
                    },
                }
            } else {
                chunk.compressed_size as usize
            };
            let mut raw_buffer = alloc_buf(c_size);
            let nr_read = match self.reader.read(&mut raw_buffer, offset) {
                Ok(nr) => nr,
                Err(_) => {
                    return Err(CacheError::Backend);
                },
            };
            let raw = match self.process_fetched_chunk(nr_read, raw_buffer, buffer) {
                Ok(rb) => rb,
                Err(e) => {
                    return Err(e);
                },
            };
            c_buf = Some(raw);
        } else {
            let nr_read = match self.reader.read(buffer, offset) {
                Ok(nr) => nr,
                Err(_) => {
                    return Err(CacheError::Backend);
                },
            };
            match ensure_full_read(nr_read, buffer.len()) {
                Ok(u) => u,
                Err(e) => {
                    return Err(e);
                },
            }
        }
        match self.validate_chunk_data(chunk, buffer, force_validation) {
            Ok(_) => {},
            Err(e) => {
                return Err(e);
            },
        }
        Ok(c_buf)
    }
}

/// Decide whether a backend read delivered everything that was requested:
/// anything short of `requested` bytes is fatal for the call that issued
/// the read.
pub fn ensure_full_read(nr_read: usize, requested: usize) -> (r: Result<(), CacheError>)
    ensures
        r is Ok <==> nr_read == requested,
        r is Err ==> r == Err::<(), CacheError>(CacheError::Backend),
{
    if nr_read == requested {
        Ok(())
    } else {
        Err(CacheError::Backend)
    }
}

/// Law: the read path is deterministic.  Two successful reads that fetch
/// the same compressed span for the same chunks deliver identical bytes;
/// repeating a read cannot change what the caller sees.
pub proof fn lemma_read_outcome_deterministic<R: BlobReader>(
    cache: BlobCache<R>,
    chunks: Seq<ChunkInfo>,
    blob_offset: int,
    c_buf: Seq<u8>,
    bufs1: Seq<Vec<u8>>,
    bufs2: Seq<Vec<u8>>,
)
    requires
        cache.chunks_outcome(chunks, blob_offset, c_buf, bufs1),
        cache.chunks_outcome(chunks, blob_offset, c_buf, bufs2),
    ensures
        bufs1.len() == bufs2.len(),
        forall|k: int| 0 <= k < chunks.len() ==> (#[trigger] bufs1[k])@ == bufs2[k]@,
{
}

} // verus!
