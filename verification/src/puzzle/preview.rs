//! The upcoming-tile preview: a queue of the next tiles, refilled with
//! random draws so that it always shows a fixed number.

use vstd::prelude::*;
use super::tile::TileType;

verus! {

/// How many upcoming tiles the preview shows.
pub const PREVIEW_SIZE: usize = 3;

/// The queue of upcoming tiles, always `PREVIEW_SIZE` long between calls.
pub struct TilePreview {
    queue: Vec<TileType>,
}

impl TilePreview {
    /// The tiles on display, front first.
    pub closed spec fn view(self) -> Seq<TileType> {
        self.queue@
    }

    /// Tops the queue up to the preview size with random tiles.
    fn fill_queue(&mut self)
        ensures
            final(self)@.len() == if old(self)@.len() >= 3 { old(self)@.len() as int } else { 3int },
            forall|i: int| 0 <= i < old(self)@.len() ==> #[trigger] final(self)@[i]
                == old(self)@[i],
    {
        while self.queue.len() < PREVIEW_SIZE
            invariant
                forall|i: int| 0 <= i < old(self)@.len() ==> #[trigger] self.queue@[i]
                    == old(self)@[i],
                self.queue@.len() >= old(self)@.len(),
                self.queue@.len() <= 3 || self.queue@.len() == old(self)@.len(),
            decreases 3 - self.queue@.len(),
        {
            self.queue.push(TileType::random());
        }
    }

    /// A preview holding its full complement of random tiles.
    pub fn new() -> (p: TilePreview)
        ensures
            p@.len() == 3,
    {
        let mut p = TilePreview { queue: Vec::new() };
        p.fill_queue();
        p
    }

    /// All queued tiles, front first.
    pub fn peek_all(&self) -> (ts: Vec<TileType>)
        ensures
            ts@ == self@,
    {
        let mut ts: Vec<TileType> = Vec::new();
        let mut i: usize = 0;
        while i < self.queue.len()
            invariant
                i <= self.queue@.len(),
                ts@ == self.queue@.subrange(0, i as int),
            decreases self.queue@.len() - i,
        {
            proof {
                assert(self.queue@.subrange(0, i as int + 1)
                    =~= self.queue@.subrange(0, i as int).push(self.queue@[i as int]));
            }
            ts.push(self.queue[i]);
            i = i + 1;
        }
        proof {
            assert(self.queue@.subrange(0, self.queue@.len() as int) =~= self.queue@);
        }
        ts
    }

    /// Hands out the front tile and refills the queue to its full size.
    pub fn consume_next(&mut self) -> (t: TileType)
        requires
            old(self)@.len() > 0,
        ensures
            t == old(self)@[0],
            final(self)@.len() == if old(self)@.len() - 1 >= 3 {
                old(self)@.len() - 1
            } else {
                3int
            },
            forall|i: int| 0 <= i < old(self)@.len() - 1 ==> #[trigger] final(self)@[i]
                == old(self)@[i + 1],
    {
        let t: TileType = self.queue.remove(0);
        self.fill_queue();
        t
    }

    pub fn len(&self) -> (n: usize)
        ensures
            n == self@.len(),
    {
        self.queue.len()
    }

    pub fn is_empty(&self) -> (b: bool)
        ensures
            b == (self@.len() == 0),
    {
        self.queue.len() == 0
    }
}

impl Default for TilePreview {
    /// A freshly filled preview.
    fn default() -> (p: TilePreview)
        ensures
            p@.len() == 3,
    {
        TilePreview::new()
    }
}

} // verus!
