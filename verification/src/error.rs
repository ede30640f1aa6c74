//! Error kinds surfaced by the cache core.

use vstd::prelude::*;

verus! {

/// What went wrong while serving a cache request.
///
/// The core never retries: transport retries belong to the backend and
/// semantic retries to the caller.
#[derive(Clone, Copy, Debug, PartialEq, Eq, Structural)]
pub enum CacheError {
    /// Transport failure or short read from the storage backend.
    Backend,
    /// Corrupt compressed bytes, or the decompressed size does not match the
    /// chunk's recorded uncompressed size.
    Decompress,
    /// The digest of the data does not match the chunk's recorded digest.
    DigestMismatch,
    /// A single-flight wait for a peer's in-flight fetch exceeded its timeout.
    Timeout,
    /// Malformed argument: a buffer of the wrong size, or a chunk that does
    /// not lie inside the span it was said to lie in.
    InvalidArgument,
    /// The driver lacks the requested capability.
    NotSupported,
}

} // verus!
