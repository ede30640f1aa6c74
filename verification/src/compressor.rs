//! Compression algorithms and the decompression primitive.

use vstd::prelude::*;

use crate::error::CacheError;

verus! {

/// Data compression algorithms that may have been applied to a chunk.
#[derive(Clone, Copy, Debug, PartialEq, Eq, Structural)]
pub enum CompressAlgo {
    /// Chunk data is stored raw.
    NoCompress,
    /// LZ4 block format.
    Lz4Block,
    /// Gzip stream format.
    GZip,
    /// Zstd frame format.
    Zstd,
}

/// The bytes that decoding `src` with `algo` into a destination buffer of
/// `out_len` bytes yields.  Decoding is a function of the compressed bytes,
/// the algorithm and the destination size alone, so the result only has a
/// name here; what the library guarantees about decompressed data rests on
/// the digest validation that follows it.
pub uninterp spec fn decompress_of(src: Seq<u8>, algo: CompressAlgo, out_len: int) -> Seq<u8>;

/// Whether decoding `src` with `algo` into a destination buffer of
/// `out_len` bytes succeeds.  Like the decoded bytes themselves, success is
/// a function of these three values alone, so it only has a name here.
pub uninterp spec fn decompress_ok(src: Seq<u8>, algo: CompressAlgo, out_len: int) -> bool;

/// Relies on `nydus_utils::compress::decompress` called without a file
/// source: it decodes `src` into `dst` and returns the number of bytes
/// written; whether it succeeds is determined by the source bytes, the
/// algorithm and the destination length; the gzip path fills the whole
/// buffer or fails; the raw path touches nothing and reports the buffer as
/// written.
#[verifier::external_body]
pub(crate) fn decompress(src: &Vec<u8>, dst: &mut Vec<u8>, algo: CompressAlgo) -> (r: Result<
    usize,
    CacheError,
>)
    ensures
        final(dst)@.len() == old(dst)@.len(),
        r is Ok <==> decompress_ok(src@, algo, old(dst)@.len() as int),
        algo is NoCompress ==> r == Ok::<usize, CacheError>(old(dst)@.len() as usize)
            && final(dst)@ == old(dst)@,
        r matches Ok(n) ==> (!(algo is NoCompress) ==> {
            &&& n <= old(dst)@.len()
            &&& decompress_of(src@, algo, old(dst)@.len() as int).len() == n as int
            &&& final(dst)@.subrange(0, n as int) == decompress_of(
                src@,
                algo,
                old(dst)@.len() as int,
            )
        }),
        r matches Ok(n) ==> (algo is GZip ==> n == old(dst)@.len()),
        r matches Err(e) ==> e == CacheError::Decompress,
{
    let outside = match algo {
        CompressAlgo::NoCompress => nydus_utils::compress::Algorithm::None,
        CompressAlgo::Lz4Block => nydus_utils::compress::Algorithm::Lz4Block,
        CompressAlgo::GZip => nydus_utils::compress::Algorithm::GZip,
        CompressAlgo::Zstd => nydus_utils::compress::Algorithm::Zstd,
    };
    match nydus_utils::compress::decompress(src.as_slice(), None, dst.as_mut_slice(), outside) {
        Ok(n) => Ok(n),
        Err(_) => Err(CacheError::Decompress),
    }
}

/// Worst-case size of the gzip envelope around `size` uncompressed bytes,
/// capped at `max`.
pub open spec fn gzip_size_bound_spec(size: int, max: int) -> int {
    let est = size + 10 + 8 + 5 + (size / 16384) * 5 + 128;
    if est <= max {
        est
    } else {
        max
    }
}

/// Worst-case size of the gzip envelope around `size` uncompressed bytes,
/// capped at `max_size`: a fixed header, footer and flush-block overhead
/// plus five bytes per started 16 KiB block.
pub(crate) fn compute_compressed_gzip_size(size: usize, max_size: usize) -> (r: usize)
    requires
        size as int + 10 + 8 + 5 + (size as int / 16384) * 5 + 128 <= usize::MAX as int,
    ensures
        r as int == gzip_size_bound_spec(size as int, max_size as int),
{
    let est = size + 10 + 8 + 5 + (size / 16384) * 5 + 128;
    if est <= max_size {
        est
    } else {
        max_size
    }
}

} // verus!
