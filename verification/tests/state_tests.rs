//! Tests for the chunk state map's single-flight semantics.

use blobcache::error::CacheError;
use blobcache::state::{ChunkMap, ChunkPending};
use blobcache::SINGLE_INFLIGHT_WAIT_TIMEOUT;

#[test]
fn test_single_flight_acquire_once() {
    let mut map = ChunkMap::new(4);
    assert!(!map.is_ready(0));
    assert!(!map.is_pending(0));
    // The first caller acquires the fetch; every other caller is told to
    // wait until the owner finishes or releases.
    assert_eq!(map.mark_pending(0), ChunkPending::Acquired);
    assert!(map.is_pending(0));
    assert_eq!(map.mark_pending(0), ChunkPending::AlreadyPending);
    assert_eq!(map.mark_pending(0), ChunkPending::AlreadyPending);
    // Other chunks are untouched.
    assert_eq!(map.mark_pending(1), ChunkPending::Acquired);
    // Once the owner finishes, the chunk is ready and nobody fetches it.
    map.set_ready(0);
    assert!(map.is_ready(0));
    assert_eq!(map.mark_pending(0), ChunkPending::AlreadyReady);
}

#[test]
fn test_wait_ready_timeout_never_succeeds_while_pending() {
    let mut map = ChunkMap::new(2);
    assert_eq!(map.mark_pending(0), ChunkPending::Acquired);
    // A waiter that reaches the timeout gets the timeout error, never
    // success.
    assert_eq!(map.wait_ready(0, SINGLE_INFLIGHT_WAIT_TIMEOUT).unwrap_err(), CacheError::Timeout);
    assert_eq!(map.wait_ready(0, 0).unwrap_err(), CacheError::Timeout);
    map.set_ready(0);
    assert!(map.wait_ready(0, SINGLE_INFLIGHT_WAIT_TIMEOUT).is_ok());
}

#[test]
fn test_invalid_chunk_is_fetched_again() {
    let mut map = ChunkMap::new(1);
    assert_eq!(map.mark_pending(0), ChunkPending::Acquired);
    // Digest validation failed: the chunk is marked invalid, and the next
    // request re-issues the backend fetch.
    map.set_invalid(0);
    assert!(!map.is_ready(0));
    assert_eq!(map.mark_pending(0), ChunkPending::Acquired);
}

#[test]
fn test_clear_pending_releases_the_fetch() {
    let mut map = ChunkMap::new(1);
    assert_eq!(map.mark_pending(0), ChunkPending::Acquired);
    // A backend error does not invalidate the chunk; it only releases the
    // fetch so another caller may retry.
    map.clear_pending(0);
    assert!(!map.is_pending(0));
    assert_eq!(map.mark_pending(0), ChunkPending::Acquired);
}
