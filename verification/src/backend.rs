//! The storage backend interface the cache consumes.

use vstd::prelude::*;

use crate::error::CacheError;

verus! {

/// A reader over one blob on backend storage.
///
/// The cache only relies on what holds of every implementation: a read
/// never grows the buffer and never reports more bytes than the buffer
/// holds.  Everything else — which bytes come back, and whether the call
/// fails — is the backend's business; the cache validates digests before
/// trusting any of it.
pub trait BlobReader {
    /// Fill `buf` with the blob's data starting at `offset` and return the
    /// number of bytes read; fewer than `buf.len()` bytes is a short read
    /// the caller must treat as an error.
    fn read(&self, buf: &mut Vec<u8>, offset: u64) -> (r: Result<usize, CacheError>)
        ensures
            final(buf)@.len() == old(buf)@.len(),
            r matches Ok(n) ==> n <= old(buf)@.len(),
    ;
}

/// A blob held in memory, readable as a backend: the realization used by
/// tests and by the dummy driver.
pub struct MemoryReader {
    /// The blob's bytes.
    pub data: Vec<u8>,
}

impl MemoryReader {
    /// Wrap a blob held in memory.
    pub fn new(data: Vec<u8>) -> (r: MemoryReader)
        ensures
            r.data@ == data@,
    {
        MemoryReader { data }
    }
}

impl BlobReader for MemoryReader {
    /// Copy as much of the blob's tail from `offset` as fits into `buf`.
    fn read(&self, buf: &mut Vec<u8>, offset: u64) -> (r: Result<usize, CacheError>)
        ensures
            r matches Ok(n) ==> {
                &&& n == if offset as int <= self.data@.len() {
                    if self.data@.len() - offset as int <= old(buf)@.len() {
                        self.data@.len() - offset as int
                    } else {
                        old(buf)@.len() as int
                    }
                } else {
                    0int
                }
                &&& forall|k: int|
                    0 <= k < n ==> final(buf)@[k] == self.data@[offset as int + k]
                &&& forall|k: int| n <= k < old(buf)@.len() ==> final(buf)@[k] == old(buf)@[k]
            },
            r is Ok,
    {
        let dlen = self.data.len();
        let off: usize = if offset <= dlen as u64 {
            offset as usize
        } else {
            0
        };
        let avail: usize = if offset <= dlen as u64 {
            dlen - off
        } else {
            0
        };
        let count = if avail <= buf.len() {
            avail
        } else {
            buf.len()
        };
        let mut i: usize = 0;
        while i < count
            invariant
                0 <= i <= count,
                count <= buf@.len(),
                dlen == self.data@.len(),
                count == 0 || (off + count <= dlen && off == offset as int),
                buf@.len() == old(buf)@.len(),
                forall|k: int| 0 <= k < i ==> buf@[k] == self.data@[offset as int + k],
                forall|k: int| i <= k < buf@.len() ==> buf@[k] == old(buf)@[k],
            decreases count - i,
        {
            let b = self.data[off + i];
            buf.set(i, b);
            i += 1;
        }
        Ok(count)
    }
}

} // verus!
