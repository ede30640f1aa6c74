//! Tests for the cached-file engine against the real compression and
//! digest primitives.

use blobcache::backend::{BlobReader, MemoryReader};
use blobcache::cache::BlobCache;
use blobcache::compressor::CompressAlgo;
use blobcache::device::{BlobInfo, ChunkInfo};
use blobcache::digester::{check_digest, DigestAlgo};
use blobcache::error::CacheError;
use blobcache::SINGLE_INFLIGHT_WAIT_TIMEOUT;

fn blake3_digest(data: &[u8]) -> [u8; 32] {
    nydus_utils::digest::RafsDigest::from_buf(data, nydus_utils::digest::Algorithm::Blake3).data
}

fn lz4_compress(data: &[u8]) -> Vec<u8> {
    let (bytes, compressed) =
        nydus_utils::compress::compress(data, nydus_utils::compress::Algorithm::Lz4Block).unwrap();
    assert!(compressed);
    bytes.into_owned()
}

fn blob_info(compressed_size: u64, compressor: CompressAlgo) -> BlobInfo {
    let mut info = BlobInfo::new(1, "blob1".to_owned(), 0x2000, compressed_size, 0x1000, 2, 0);
    info.set_compressor(compressor);
    info
}

fn plain_chunk(data: &[u8], compressed_offset: u64, uncompressed_offset: u64) -> ChunkInfo {
    ChunkInfo {
        index: 0,
        blob_index: 1,
        compressed_offset,
        compressed_size: data.len() as u32,
        uncompressed_offset,
        uncompressed_size: data.len() as u32,
        is_compressed: false,
        digest: blake3_digest(data),
    }
}

#[test]
fn test_read_chunk_uncompressed_ok() {
    let data: Vec<u8> = (0u8..=255).collect();
    let chunk = plain_chunk(&data, 0, 0);
    let cache = BlobCache::new(
        blob_info(data.len() as u64, CompressAlgo::NoCompress),
        vec![chunk],
        MemoryReader::new(data.clone()),
        true,
    );
    let mut buffer = vec![0u8; data.len()];
    let r = cache.read_chunk_from_backend(&chunk, &mut buffer, false);
    assert_eq!(r.unwrap(), None);
    assert_eq!(buffer, data);
}

#[test]
fn test_read_chunk_digest_mismatch() {
    let data: Vec<u8> = vec![7u8; 0x100];
    let mut chunk = plain_chunk(&data, 0, 0);
    chunk.digest[0] ^= 0xff;
    let cache = BlobCache::new(
        blob_info(data.len() as u64, CompressAlgo::NoCompress),
        vec![chunk],
        MemoryReader::new(data.clone()),
        true,
    );
    let mut buffer = vec![0u8; data.len()];
    let r = cache.read_chunk_from_backend(&chunk, &mut buffer, false);
    assert_eq!(r.unwrap_err(), CacheError::DigestMismatch);
    // The failure is persistent: a retry must fetch and fail again, not
    // serve stale data as a success.
    let r = cache.read_chunk_from_backend(&chunk, &mut buffer, false);
    assert_eq!(r.unwrap_err(), CacheError::DigestMismatch);
}

#[test]
fn test_read_chunk_lz4_roundtrip() {
    let data: Vec<u8> = vec![42u8; 0x1000];
    let compressed = lz4_compress(&data);
    let chunk = ChunkInfo {
        index: 0,
        blob_index: 1,
        compressed_offset: 0,
        compressed_size: compressed.len() as u32,
        uncompressed_offset: 0,
        uncompressed_size: data.len() as u32,
        is_compressed: true,
        digest: blake3_digest(&data),
    };
    let cache = BlobCache::new(
        blob_info(compressed.len() as u64, CompressAlgo::Lz4Block),
        vec![chunk],
        MemoryReader::new(compressed.clone()),
        true,
    );
    let mut buffer = vec![0u8; data.len()];
    let r = cache.read_chunk_from_backend(&chunk, &mut buffer, false);
    assert_eq!(r.unwrap(), Some(compressed));
    assert_eq!(buffer, data);
}

#[test]
fn test_read_chunk_decompress_error() {
    let garbage: Vec<u8> = vec![0xaa; 0x80];
    let chunk = ChunkInfo {
        index: 0,
        blob_index: 1,
        compressed_offset: 0,
        compressed_size: garbage.len() as u32,
        uncompressed_offset: 0,
        uncompressed_size: 0x1000,
        is_compressed: true,
        digest: [0u8; 32],
    };
    let cache = BlobCache::new(
        blob_info(garbage.len() as u64, CompressAlgo::Lz4Block),
        vec![chunk],
        MemoryReader::new(garbage),
        false,
    );
    let mut buffer = vec![0u8; 0x1000];
    let r = cache.read_chunk_from_backend(&chunk, &mut buffer, false);
    assert_eq!(r.unwrap_err(), CacheError::Decompress);
}

#[test]
fn test_read_chunk_short_read_is_backend_error() {
    let data: Vec<u8> = vec![1u8; 0x40];
    let mut chunk = plain_chunk(&data, 0, 0);
    chunk.compressed_size = 0x100;
    chunk.uncompressed_size = 0x100;
    let cache = BlobCache::new(
        blob_info(0x100, CompressAlgo::NoCompress),
        vec![chunk],
        MemoryReader::new(data),
        false,
    );
    let mut buffer = vec![0u8; 0x100];
    let r = cache.read_chunk_from_backend(&chunk, &mut buffer, false);
    assert_eq!(r.unwrap_err(), CacheError::Backend);
}

#[test]
fn test_read_chunk_wrong_buffer_size_is_invalid_argument() {
    let data: Vec<u8> = vec![9u8; 0x100];
    let chunk = plain_chunk(&data, 0, 0);
    let cache = BlobCache::new(
        blob_info(data.len() as u64, CompressAlgo::NoCompress),
        vec![chunk],
        MemoryReader::new(data),
        false,
    );
    let mut buffer = vec![0u8; 0x80];
    let r = cache.read_chunk_from_backend(&chunk, &mut buffer, false);
    assert_eq!(r.unwrap_err(), CacheError::InvalidArgument);
}

#[test]
fn test_read_chunks_from_backend_two_chunks() {
    let data1: Vec<u8> = vec![3u8; 0x1000];
    let data2: Vec<u8> = vec![5u8; 0x800];
    let c1 = lz4_compress(&data1);
    let c2 = lz4_compress(&data2);
    let mut blob = c1.clone();
    blob.extend_from_slice(&c2);
    let chunk1 = ChunkInfo {
        index: 0,
        blob_index: 1,
        compressed_offset: 0,
        compressed_size: c1.len() as u32,
        uncompressed_offset: 0,
        uncompressed_size: data1.len() as u32,
        is_compressed: true,
        digest: blake3_digest(&data1),
    };
    let chunk2 = ChunkInfo {
        index: 1,
        blob_index: 1,
        compressed_offset: c1.len() as u64,
        compressed_size: c2.len() as u32,
        uncompressed_offset: data1.len() as u64,
        uncompressed_size: data2.len() as u32,
        is_compressed: true,
        digest: blake3_digest(&data2),
    };
    let blob_len = blob.len();
    let cache = BlobCache::new(
        blob_info(blob_len as u64, CompressAlgo::Lz4Block),
        vec![chunk1, chunk2],
        MemoryReader::new(blob),
        true,
    );
    let chunks = vec![chunk1, chunk2];
    let (buffers, c_buf) = cache.read_chunks_from_backend(0, blob_len, &chunks).unwrap();
    assert_eq!(buffers.len(), 2);
    assert_eq!(buffers[0], data1);
    assert_eq!(buffers[1], data2);
    assert_eq!(c_buf.len(), blob_len);

    // A second identical call returns identical bytes.
    let (again, _) = cache.read_chunks_from_backend(0, blob_len, &chunks).unwrap();
    assert_eq!(again, buffers);
}

#[test]
fn test_read_chunks_short_read_is_backend_error() {
    let data: Vec<u8> = vec![8u8; 0x40];
    let chunk = plain_chunk(&data, 0, 0);
    let cache = BlobCache::new(
        blob_info(0x100, CompressAlgo::NoCompress),
        vec![chunk],
        MemoryReader::new(data),
        false,
    );
    // The span asks for more bytes than the backend holds: the short read
    // is fatal for the whole call.
    let chunks = vec![chunk];
    let r = cache.read_chunks_from_backend(0, 0x100, &chunks);
    assert_eq!(r.unwrap_err(), CacheError::Backend);
}

#[test]
fn test_zero_size_chunk_reads_no_data() {
    let empty: Vec<u8> = Vec::new();
    let chunk = plain_chunk(&empty, 0, 0);
    let cache = BlobCache::new(
        blob_info(0, CompressAlgo::NoCompress),
        vec![chunk],
        MemoryReader::new(Vec::new()),
        true,
    );
    // A zero-size chunk needs zero bytes from the backend: the call
    // succeeds with the empty buffer even over an empty blob.
    let mut buffer: Vec<u8> = Vec::new();
    let r = cache.read_chunk_from_backend(&chunk, &mut buffer, false);
    assert_eq!(r.unwrap(), None);
    assert!(buffer.is_empty());
}

#[test]
fn test_get_legacy_stargz_size_formula() {
    let cache = BlobCache::new(
        blob_info(0x100000, CompressAlgo::GZip),
        Vec::new(),
        MemoryReader::new(Vec::new()),
        false,
    );
    // 0x1000 + 10 + 8 + 5 + (0x1000 / 16384) * 5 + 128 = 0x1000 + 151.
    assert_eq!(cache.get_legacy_stargz_size(0, 0x1000).unwrap(), 0x1000 + 151);
    // Capped by what remains of the blob after the offset.
    assert_eq!(cache.get_legacy_stargz_size(0x100000 - 16, 0x1000).unwrap(), 16);
    // An offset beyond the blob is rejected.
    assert_eq!(
        cache.get_legacy_stargz_size(0x100001, 0x1000).unwrap_err(),
        CacheError::InvalidArgument
    );
}

#[test]
fn test_prefetch_range_not_supported() {
    let cache = BlobCache::new(
        blob_info(0x100, CompressAlgo::NoCompress),
        Vec::new(),
        MemoryReader::new(Vec::new()),
        false,
    );
    let data: Vec<u8> = vec![1u8; 0x10];
    let chunk = plain_chunk(&data, 0, 0);
    let desc = blobcache::device::BlobIoDesc {
        blob_index: 1,
        chunkinfo: chunk,
        offset: 0,
        size: 0x10,
        user_io: true,
    };
    let range = blobcache::device::BlobIoRange::new(&desc, 1);
    assert_eq!(cache.prefetch_range(&range).unwrap_err(), CacheError::NotSupported);
}

#[test]
fn test_memory_reader_bounds() {
    let reader = MemoryReader::new(vec![1, 2, 3, 4]);
    let mut buf = vec![0u8; 8];
    // Only the available tail is copied.
    assert_eq!(reader.read(&mut buf, 2).unwrap(), 2);
    assert_eq!(&buf[..2], &[3, 4]);
    // Reads past the end deliver nothing.
    assert_eq!(reader.read(&mut buf, 100).unwrap(), 0);
}

#[test]
fn test_check_digest_matches() {
    let data = vec![0x61u8; 64];
    let good = blake3_digest(&data);
    assert!(check_digest(&data, &good, DigestAlgo::Blake3));
    let mut bad = good;
    bad[31] ^= 1;
    assert!(!check_digest(&data, &bad, DigestAlgo::Blake3));
    let sha = nydus_utils::digest::RafsDigest::from_buf(&data, nydus_utils::digest::Algorithm::Sha256)
        .data;
    assert!(check_digest(&data, &sha, DigestAlgo::Sha256));
    assert!(!check_digest(&data, &sha, DigestAlgo::Blake3));
}

#[test]
fn test_cache_accessors() {
    let mut info = blob_info(0x100000, CompressAlgo::Zstd);
    info.set_digester(DigestAlgo::Sha256);
    let data: Vec<u8> = vec![1u8; 0x10];
    let chunk = plain_chunk(&data, 0, 0);
    let cache = BlobCache::new(info, vec![chunk], MemoryReader::new(Vec::new()), true);
    assert_eq!(cache.blob_id(), "blob1");
    assert_eq!(cache.blob_compressed_size(), 0x100000);
    assert_eq!(cache.blob_uncompressed_size(), 0x2000);
    assert_eq!(cache.compressor(), CompressAlgo::Zstd);
    assert_eq!(cache.digester(), DigestAlgo::Sha256);
    assert!(!cache.is_legacy_stargz());
    assert!(cache.need_validate());
    assert_eq!(cache.get_chunk_info(0).unwrap().compressed_size, 0x10);
    assert!(cache.get_chunk_info(1).is_none());
    assert_eq!(SINGLE_INFLIGHT_WAIT_TIMEOUT, 2000);
}
