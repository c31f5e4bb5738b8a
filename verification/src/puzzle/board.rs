//! The 8x8 match-three board: tile occupancy by entity id, obstacle layer,
//! core cells, and the swap primitive. Rendering geometry is left to the
//! presentation layer.

use vstd::prelude::*;
use crate::battle::hex_grid::abs_val;
use super::tile::ObstacleType;

verus! {

/// Side length of the square puzzle board.
pub const PUZZLE_BOARD_SIZE: usize = 8;

pub open spec fn spec_in_bounds(x: int, y: int) -> bool {
    0 <= x < 8 && 0 <= y < 8
}

/// The four central cells around which core-adjacent matches trigger
/// core abilities.
pub open spec fn spec_core_position(x: int, y: int) -> bool {
    (x == 3 || x == 4) && (y == 3 || y == 4)
}

/// Orthogonally adjacent (Manhattan distance one) to one of the core cells.
pub open spec fn spec_adjacent_to_core(x: int, y: int) -> bool {
    ||| abs_val(x - 3) + abs_val(y - 3) == 1
    ||| abs_val(x - 3) + abs_val(y - 4) == 1
    ||| abs_val(x - 4) + abs_val(y - 3) == 1
    ||| abs_val(x - 4) + abs_val(y - 4) == 1
}

/// Tile occupancy and obstacle layer of the puzzle board, keyed by cell.
pub struct PuzzleBoard {
    grid: Vec<Option<u64>>,
    obstacles: Vec<Option<ObstacleType>>,
}

impl PuzzleBoard {
    /// One slot per cell in both layers.
    pub closed spec fn wf(self) -> bool {
        self.grid@.len() == 64 && self.obstacles@.len() == 64
    }

    spec fn idx_of(x: int, y: int) -> int {
        y * 8 + x
    }

    /// The tile entity at `(x, y)`, `None` off the board.
    pub closed spec fn spec_tile(self, x: int, y: int) -> Option<u64> {
        if spec_in_bounds(x, y) && self.grid@.len() == 64 {
            self.grid@[Self::idx_of(x, y)]
        } else {
            None
        }
    }

    /// The obstacle at `(x, y)`, `None` off the board.
    pub closed spec fn spec_obstacle(self, x: int, y: int) -> Option<ObstacleType> {
        if spec_in_bounds(x, y) && self.obstacles@.len() == 64 {
            self.obstacles@[Self::idx_of(x, y)]
        } else {
            None
        }
    }

    proof fn lemma_idx_distinct(x1: int, y1: int, x2: int, y2: int)
        requires
            spec_in_bounds(x1, y1),
            spec_in_bounds(x2, y2),
            !(x1 == x2 && y1 == y2),
        ensures
            Self::idx_of(x1, y1) != Self::idx_of(x2, y2),
    {
    }

    pub fn new() -> (b: PuzzleBoard)
        ensures
            b.wf(),
            forall|x: int, y: int| #[trigger] b.spec_tile(x, y) is None,
            forall|x: int, y: int| #[trigger] b.spec_obstacle(x, y) is None,
    {
        let mut grid: Vec<Option<u64>> = Vec::new();
        let mut obstacles: Vec<Option<ObstacleType>> = Vec::new();
        let mut i: usize = 0;
        while i < 64
            invariant
                i <= 64,
                grid@.len() == i,
                obstacles@.len() == i,
                forall|j: int| 0 <= j < i ==> grid@[j] is None,
                forall|j: int| 0 <= j < i ==> obstacles@[j] is None,
            decreases 64 - i,
        {
            grid.push(None);
            obstacles.push(None);
            i = i + 1;
        }
        PuzzleBoard { grid, obstacles }
    }

    pub fn is_core_position(x: usize, y: usize) -> (b: bool)
        ensures
            b == spec_core_position(x as int, y as int),
    {
        (x == 3 || x == 4) && (y == 3 || y == 4)
    }

    pub fn is_adjacent_to_core(x: usize, y: usize) -> (b: bool)
        ensures
            b == spec_adjacent_to_core(x as int, y as int),
    {
        ((x == 2 || x == 5) && (y == 3 || y == 4))
            || ((x == 3 || x == 4) && (y == 2 || y == 5))
            || ((x == 3 || x == 4) && (y == 3 || y == 4))
    }

    pub fn get(&self, x: usize, y: usize) -> (t: Option<u64>)
        requires
            self.wf(),
        ensures
            t == self.spec_tile(x as int, y as int),
    {
        if x < PUZZLE_BOARD_SIZE && y < PUZZLE_BOARD_SIZE {
            self.grid[y * 8 + x]
        } else {
            None
        }
    }

    /// Writes the tile slot at `(x, y)`; out-of-bounds writes are dropped.
    pub fn set(&mut self, x: usize, y: usize, entity: Option<u64>)
        requires
            old(self).wf(),
        ensures
            final(self).wf(),
            spec_in_bounds(x as int, y as int)
                ==> final(self).spec_tile(x as int, y as int) == entity,
            !spec_in_bounds(x as int, y as int) ==> *final(self) == *old(self),
            forall|x2: int, y2: int| !(x2 == x as int && y2 == y as int)
                ==> final(self).spec_tile(x2, y2) == old(self).spec_tile(x2, y2),
            forall|x2: int, y2: int|
                final(self).spec_obstacle(x2, y2) == old(self).spec_obstacle(x2, y2),
    {
        if x < PUZZLE_BOARD_SIZE && y < PUZZLE_BOARD_SIZE {
            self.grid.set(y * 8 + x, entity);
            proof {
                assert forall|x2: int, y2: int| !(x2 == x as int && y2 == y as int)
                    implies self.spec_tile(x2, y2) == old(self).spec_tile(x2, y2) by {
                    if spec_in_bounds(x2, y2) {
                        Self::lemma_idx_distinct(x2, y2, x as int, y as int);
                    }
                }
            }
        }
    }

    /// Swaps both the tiles and the obstacles of two cells (bombs travel
    /// with their tile).
    pub fn swap(&mut self, a: (usize, usize), b: (usize, usize))
        requires
            old(self).wf(),
            spec_in_bounds(a.0 as int, a.1 as int),
            spec_in_bounds(b.0 as int, b.1 as int),
        ensures
            final(self).wf(),
            final(self).spec_tile(a.0 as int, a.1 as int)
                == old(self).spec_tile(b.0 as int, b.1 as int),
            final(self).spec_tile(b.0 as int, b.1 as int)
                == old(self).spec_tile(a.0 as int, a.1 as int),
            final(self).spec_obstacle(a.0 as int, a.1 as int)
                == old(self).spec_obstacle(b.0 as int, b.1 as int),
            final(self).spec_obstacle(b.0 as int, b.1 as int)
                == old(self).spec_obstacle(a.0 as int, a.1 as int),
            forall|x2: int, y2: int| !(x2 == a.0 as int && y2 == a.1 as int)
                && !(x2 == b.0 as int && y2 == b.1 as int)
                ==> final(self).spec_tile(x2, y2) == old(self).spec_tile(x2, y2)
                    && final(self).spec_obstacle(x2, y2) == old(self).spec_obstacle(x2, y2),
    {
        let (ax, ay) = a;
        let (bx, by) = b;
        let tile_a: Option<u64> = self.grid[ay * 8 + ax];
        let tile_b: Option<u64> = self.grid[by * 8 + bx];
        self.grid.set(ay * 8 + ax, tile_b);
        self.grid.set(by * 8 + bx, tile_a);
        let obst_a: Option<ObstacleType> = self.obstacles[ay * 8 + ax];
        let obst_b: Option<ObstacleType> = self.obstacles[by * 8 + bx];
        self.obstacles.set(ay * 8 + ax, obst_b);
        self.obstacles.set(by * 8 + bx, obst_a);
        proof {
            assert forall|x2: int, y2: int| !(x2 == a.0 as int && y2 == a.1 as int)
                && !(x2 == b.0 as int && y2 == b.1 as int)
                implies self.spec_tile(x2, y2) == old(self).spec_tile(x2, y2)
                    && self.spec_obstacle(x2, y2) == old(self).spec_obstacle(x2, y2) by {
                if spec_in_bounds(x2, y2) {
                    Self::lemma_idx_distinct(x2, y2, a.0 as int, a.1 as int);
                    Self::lemma_idx_distinct(x2, y2, b.0 as int, b.1 as int);
                }
            }
            if !(a.0 == b.0 && a.1 == b.1) {
                Self::lemma_idx_distinct(a.0 as int, a.1 as int, b.0 as int, b.1 as int);
            }
        }
    }

    pub fn get_obstacle(&self, x: usize, y: usize) -> (o: Option<ObstacleType>)
        requires
            self.wf(),
        ensures
            o == self.spec_obstacle(x as int, y as int),
    {
        if x < PUZZLE_BOARD_SIZE && y < PUZZLE_BOARD_SIZE {
            self.obstacles[y * 8 + x]
        } else {
            None
        }
    }

    /// Writes the obstacle slot at `(x, y)`; out-of-bounds writes are dropped.
    pub fn set_obstacle(&mut self, x: usize, y: usize, obstacle: Option<ObstacleType>)
        requires
            old(self).wf(),
        ensures
            final(self).wf(),
            spec_in_bounds(x as int, y as int)
                ==> final(self).spec_obstacle(x as int, y as int) == obstacle,
            !spec_in_bounds(x as int, y as int) ==> *final(self) == *old(self),
            forall|x2: int, y2: int| !(x2 == x as int && y2 == y as int)
                ==> final(self).spec_obstacle(x2, y2) == old(self).spec_obstacle(x2, y2),
            forall|x2: int, y2: int|
                final(self).spec_tile(x2, y2) == old(self).spec_tile(x2, y2),
    {
        if x < PUZZLE_BOARD_SIZE && y < PUZZLE_BOARD_SIZE {
            self.obstacles.set(y * 8 + x, obstacle);
            proof {
                assert forall|x2: int, y2: int| !(x2 == x as int && y2 == y as int)
                    implies self.spec_obstacle(x2, y2) == old(self).spec_obstacle(x2, y2) by {
                    if spec_in_bounds(x2, y2) {
                        Self::lemma_idx_distinct(x2, y2, x as int, y as int);
                    }
                }
            }
        }
    }

    pub fn has_ice(&self, x: usize, y: usize) -> (b: bool)
        requires
            self.wf(),
        ensures
            b == (self.spec_obstacle(x as int, y as int) == Some(ObstacleType::Ice)),
    {
        match self.get_obstacle(x, y) {
            Some(o) => o == ObstacleType::Ice,
            None => false,
        }
    }

    pub fn has_bomb(&self, x: usize, y: usize) -> (b: bool)
        requires
            self.wf(),
        ensures
            b == (self.spec_obstacle(x as int, y as int) == Some(ObstacleType::Bomb)),
    {
        match self.get_obstacle(x, y) {
            Some(o) => o == ObstacleType::Bomb,
            None => false,
        }
    }

    pub fn clear_obstacle(&mut self, x: usize, y: usize)
        requires
            old(self).wf(),
        ensures
            final(self).wf(),
            final(self).spec_obstacle(x as int, y as int) is None,
            forall|x2: int, y2: int| !(x2 == x as int && y2 == y as int)
                ==> final(self).spec_obstacle(x2, y2) == old(self).spec_obstacle(x2, y2),
            forall|x2: int, y2: int|
                final(self).spec_tile(x2, y2) == old(self).spec_tile(x2, y2),
    {
        self.set_obstacle(x, y, None);
    }
}

impl Default for PuzzleBoard {
    /// An empty board: no tiles, no obstacles.
    fn default() -> (b: PuzzleBoard)
        ensures
            b.wf(),
            forall|x: int, y: int| #[trigger] b.spec_tile(x, y) is None,
            forall|x: int, y: int| #[trigger] b.spec_obstacle(x, y) is None,
    {
        PuzzleBoard::new()
    }
}

} // verus!
