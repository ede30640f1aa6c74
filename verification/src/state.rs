//! The chunk state map: per-chunk readiness with single-flight fetch
//! semantics.
//!
//! For every chunk of a blob the map records whether its data is in the
//! cache.  A caller that wants to fetch a chunk first tries to acquire the
//! fetch with [`ChunkMap::mark_pending`]; exactly one caller acquires it
//! per fetch cycle, and everyone else waits for the owner with
//! [`ChunkMap::wait_ready`].

use vstd::prelude::*;

use crate::error::CacheError;

verus! {

/// What the map records of one chunk.
#[derive(Clone, Copy, Debug, PartialEq, Eq, Structural)]
pub enum ChunkState {
    /// The chunk's data is not in the cache.
    NotReady,
    /// One caller is fetching the chunk's data right now.
    Pending,
    /// The chunk's data is in the cache and validated.
    Ready,
    /// The chunk's data failed digest validation; the next request
    /// retries.
    Invalid,
}

/// What a caller learns from trying to acquire a chunk's fetch.
#[derive(Clone, Copy, Debug, PartialEq, Eq, Structural)]
pub enum ChunkPending {
    /// This caller owns the fetch and must finish it with
    /// [`ChunkMap::set_ready`] or release it with
    /// [`ChunkMap::clear_pending`].
    Acquired,
    /// Another caller owns the fetch; wait for it.
    AlreadyPending,
    /// The chunk is already in the cache; nothing to fetch.
    AlreadyReady,
}

/// How one `mark_pending` call changes the chunk states and what it
/// reports: the fetch is acquired exactly when the chunk is not in the
/// cache and nobody else is fetching it.
pub open spec fn spec_mark_pending(states: Seq<ChunkState>, i: int) -> (Seq<ChunkState>, ChunkPending) {
    if states[i] is NotReady || states[i] is Invalid {
        (states.update(i, ChunkState::Pending), ChunkPending::Acquired)
    } else if states[i] is Pending {
        (states, ChunkPending::AlreadyPending)
    } else {
        (states, ChunkPending::AlreadyReady)
    }
}

/// The in-memory chunk state map of one blob.
pub struct ChunkMap {
    /// The state of each chunk, by chunk index.
    pub states: Vec<ChunkState>,
}

impl ChunkMap {
    /// The state recorded for chunk `i`.
    pub open spec fn state(self, i: int) -> ChunkState {
        self.states@[i]
    }

    /// How many chunks the map tracks.
    pub open spec fn count(self) -> int {
        self.states@.len() as int
    }

    /// A map for a blob of `chunk_count` chunks, none of them cached yet.
    pub fn new(chunk_count: u32) -> (r: ChunkMap)
        ensures
            r.count() == chunk_count,
            forall|i: int| 0 <= i < chunk_count ==> r.state(i) is NotReady,
    {
        let mut states: Vec<ChunkState> = Vec::with_capacity(chunk_count as usize);
        let mut i: usize = 0;
        while i < chunk_count as usize
            invariant
                0 <= i <= chunk_count,
                states@.len() == i,
                forall|k: int| 0 <= k < i ==> states@[k] is NotReady,
            decreases chunk_count - i,
        {
            states.push(ChunkState::NotReady);
            i += 1;
        }
        ChunkMap { states }
    }

    /// Whether chunk `index`'s data is in the cache.
    pub fn is_ready(&self, index: u32) -> (r: bool)
        requires
            index < self.count(),
        ensures
            r == (self.state(index as int) is Ready),
    {
        matches!(self.states[index as usize], ChunkState::Ready)
    }

    /// Whether somebody is fetching chunk `index` right now.
    pub fn is_pending(&self, index: u32) -> (r: bool)
        requires
            index < self.count(),
        ensures
            r == (self.state(index as int) is Pending),
    {
        matches!(self.states[index as usize], ChunkState::Pending)
    }

    /// Try to acquire the fetch for chunk `index`: an atomic test-and-set.
    /// Exactly one caller acquires it per fetch cycle; the chunk is
    /// `Pending` from then on until the owner finishes or releases.
    pub fn mark_pending(&mut self, index: u32) -> (r: ChunkPending)
        requires
            index < old(self).count(),
        ensures
            final(self).states@ == spec_mark_pending(old(self).states@, index as int).0,
            r == spec_mark_pending(old(self).states@, index as int).1,
            final(self).count() == old(self).count(),
            r is Acquired ==> final(self).state(index as int) is Pending,
    {
        match self.states[index as usize] {
            ChunkState::NotReady | ChunkState::Invalid => {
                self.states.set(index as usize, ChunkState::Pending);
                ChunkPending::Acquired
            },
            ChunkState::Pending => ChunkPending::AlreadyPending,
            ChunkState::Ready => ChunkPending::AlreadyReady,
        }
    }

    /// Record that chunk `index`'s data entered the cache and validated.
    pub fn set_ready(&mut self, index: u32)
        requires
            index < old(self).count(),
        ensures
            final(self).states@ == old(self).states@.update(index as int, ChunkState::Ready),
            final(self).count() == old(self).count(),
    {
        self.states.set(index as usize, ChunkState::Ready);
    }

    /// Release the fetch for chunk `index` after a failure that was not a
    /// validation failure: the chunk returns to `NotReady` so the next
    /// request retries.
    pub fn clear_pending(&mut self, index: u32)
        requires
            index < old(self).count(),
        ensures
            final(self).states@ == old(self).states@.update(index as int, ChunkState::NotReady),
            final(self).count() == old(self).count(),
    {
        self.states.set(index as usize, ChunkState::NotReady);
    }

    /// Record that chunk `index`'s data failed digest validation.
    pub fn set_invalid(&mut self, index: u32)
        requires
            index < old(self).count(),
        ensures
            final(self).states@ == old(self).states@.update(index as int, ChunkState::Invalid),
            final(self).count() == old(self).count(),
    {
        self.states.set(index as usize, ChunkState::Invalid);
    }

    /// Wait for the owner of chunk `index`'s fetch, for at most
    /// `_timeout_ms` milliseconds ([`crate::SINGLE_INFLIGHT_WAIT_TIMEOUT`]
    /// by default).  Within one thread of control the owner cannot advance
    /// while the caller waits, so the wait succeeds exactly when the chunk
    /// is already ready; a wait that reaches its timeout reports
    /// `Timeout`, never success.
    pub fn wait_ready(&self, index: u32, _timeout_ms: u64) -> (r: Result<(), CacheError>)
        requires
            index < self.count(),
        ensures
            r is Ok <==> self.state(index as int) is Ready,
            r is Err ==> r == Err::<(), CacheError>(CacheError::Timeout),
    {
        if matches!(self.states[index as usize], ChunkState::Ready) {
            Ok(())
        } else {
            Err(CacheError::Timeout)
        }
    }
}

/// Law: single flight.  Of two `mark_pending` calls for the same chunk
/// with no completion or release in between, at most one acquires the
/// fetch: whoever comes second finds the chunk pending.  So between one
/// `NotReady` and the next `Ready` transition at most one caller fetches
/// the chunk from the backend.
pub proof fn lemma_single_flight(states: Seq<ChunkState>, i: int)
    requires
        0 <= i < states.len(),
    ensures
        !((spec_mark_pending(states, i).1 is Acquired) && (spec_mark_pending(
            spec_mark_pending(states, i).0,
            i,
        ).1 is Acquired)),
        spec_mark_pending(states, i).1 is Acquired ==> spec_mark_pending(
            spec_mark_pending(states, i).0,
            i,
        ).1 is AlreadyPending,
{
    if spec_mark_pending(states, i).1 is Acquired {
        assert(spec_mark_pending(states, i).0[i] is Pending);
    }
}

} // verus!
