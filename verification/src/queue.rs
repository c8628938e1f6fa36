//! Work distribution: a fixed vector of tiles behind an atomically
//! advancing cursor, claimed concurrently by worker threads.

use vstd::prelude::*;
use crate::config::Tile;

verus! {

/// Worker queue for one resolution level.
///
/// The tile vector is fixed at construction and never mutated; the cursor
/// only advances. Claims made through the shared cursor are mutually
/// exclusive: the underlying fetch-and-increment hands every caller a
/// distinct index, so no two threads ever receive the same tile. That
/// exclusivity is a property of the atomic counter itself; the contract
/// here pins down what any single claim can return.
pub struct Queue<const N: usize> {
    index: core::sync::atomic::AtomicUsize,
    tiles: Vec<Tile<N>>,
}

impl<const N: usize> Queue<N> {
    /// The tiles this queue was built over, in claim order.
    pub closed spec fn tile_seq(&self) -> Seq<Tile<N>> {
        self.tiles@
    }

    /// Takes ownership of a fixed tile vector and starts the cursor at zero.
    pub fn new(tiles: Vec<Tile<N>>) -> (r: Self)
        ensures
            r.tile_seq() == tiles@,
    {
        Self { index: core::sync::atomic::AtomicUsize::new(0), tiles }
    }

    /// Resolves a claimed cursor position to its tile: the tile at `index`
    /// while the position is in bounds, and `None` from any position at or
    /// past the end, forever.
    pub fn claim_at(&self, index: usize) -> (r: Option<Tile<N>>)
        ensures
            index < self.tile_seq().len() ==> r == Some(self.tile_seq()[index as int]),
            index >= self.tile_seq().len() ==> r is None,
    {
        if index < self.tiles.len() {
            Some(self.tiles[index])
        } else {
            None
        }
    }

    /// Claims the next unclaimed tile, or returns `None` once the queue is
    /// exhausted.
    ///
    /// Callable from any number of threads without locking. The cursor is
    /// shared mutable state, so which position a particular call receives
    /// depends on the other threads; [`Self::claim_at`] pins down the tile
    /// returned for whatever position came back. Every returned tile is one
    /// of the queue's own, and an empty queue never yields anything.
    pub fn next(&self) -> (r: Option<Tile<N>>)
        ensures
            r matches Some(t) ==> self.tile_seq().contains(t),
            self.tile_seq().len() == 0 ==> r is None,
    {
        let index = self.index.fetch_add(1, core::sync::atomic::Ordering::Relaxed);
        let r = self.claim_at(index);
        proof {
            if index < self.tile_seq().len() {
                let t = self.tile_seq()[index as int];
                assert(self.tile_seq().contains(t));
            }
        }
        r
    }
}

} // verus!
