//! A blob cache layer over a storage backend.
//!
//! A content-addressed image filesystem satisfies chunk-granular reads from a
//! remote blob backend.  Fetching every chunk remotely is slow, so a cache
//! layer sits between the filesystem and the backend: it coalesces small
//! adjacent chunk requests into bigger backend reads, verifies the digest of
//! the data it admits, and keeps decompressed chunk data locally.
//!
//! This crate holds the core of that layer: the I/O merge planner that turns
//! descriptor lists into backend requests, and the shared engine that fetches
//! compressed spans, decompresses each covered chunk and validates it against
//! its recorded digest.

use vstd::prelude::*;

pub mod backend;
pub mod cache;
pub mod compressor;
pub mod device;
pub mod digester;
pub mod error;
pub mod merge;
pub mod state;

verus! {

/// Timeout in milliseconds for a single-flight wait: a reader that finds a
/// chunk already being fetched by a peer waits at most this long for the
/// peer's fetch to finish.
pub const SINGLE_INFLIGHT_WAIT_TIMEOUT: u64 = 2000;

/// Upper bound on the uncompressed size of a single chunk.
pub const RAFS_MAX_CHUNK_SIZE: u64 = 0x100000;

} // verus!
