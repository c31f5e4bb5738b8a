//! Match detection on the tile board: three or more equal tiles in a row or
//! column, and the swap pre-check that rejects moves which create no match.

use vstd::prelude::*;
use super::tile::TileType;
use super::tile::GridPosition;

verus! {

/// The color at `(x, y)` of a row-major 64-cell board; `None` off the
/// board or on an empty cell.
pub open spec fn spec_cell(s: Seq<Option<TileType>>, x: int, y: int) -> Option<TileType> {
    if 0 <= x < 8 && 0 <= y < 8 && s.len() == 64 {
        s[y * 8 + x]
    } else {
        None
    }
}

/// `(x, y)` sits inside a horizontal run of three equal tiles.
pub open spec fn spec_h_match_at(s: Seq<Option<TileType>>, x: int, y: int) -> bool {
    exists|w: int| 0 <= w && w + 2 < 8 && w <= x <= w + 2
        && spec_cell(s, x, y) is Some
        && #[trigger] spec_cell(s, w, y) == spec_cell(s, x, y)
        && spec_cell(s, w + 1, y) == spec_cell(s, x, y)
        && spec_cell(s, w + 2, y) == spec_cell(s, x, y)
}

/// `(x, y)` sits inside a vertical run of three equal tiles.
pub open spec fn spec_v_match_at(s: Seq<Option<TileType>>, x: int, y: int) -> bool {
    exists|w: int| 0 <= w && w + 2 < 8 && w <= y <= w + 2
        && spec_cell(s, x, y) is Some
        && #[trigger] spec_cell(s, x, w) == spec_cell(s, x, y)
        && spec_cell(s, x, w + 1) == spec_cell(s, x, y)
        && spec_cell(s, x, w + 2) == spec_cell(s, x, y)
}

/// `(x, y)` belongs to some match of three or more.
pub open spec fn spec_match_at(s: Seq<Option<TileType>>, x: int, y: int) -> bool {
    spec_h_match_at(s, x, y) || spec_v_match_at(s, x, y)
}

/// The board with the contents of two in-bounds cells exchanged.
pub open spec fn spec_swapped(s: Seq<Option<TileType>>, p1: (usize, usize), p2: (usize, usize))
    -> Seq<Option<TileType>> {
    s.update(p1.1 * 8 + p1.0, s[p2.1 * 8 + p2.0]).update(p2.1 * 8 + p2.0, s[p1.1 * 8 + p1.0])
}

/// The tile colors of the 8x8 board, row-major.
pub struct TileGrid {
    cells: Vec<Option<TileType>>,
}

impl TileGrid {
    /// The 64 cells, row-major.
    pub closed spec fn view(self) -> Seq<Option<TileType>> {
        self.cells@
    }

    pub open spec fn wf(self) -> bool {
        self@.len() == 64
    }

    pub fn empty() -> (g: TileGrid)
        ensures
            g.wf(),
            forall|x: int, y: int| #[trigger] spec_cell(g@, x, y) is None,
    {
        let mut cells: Vec<Option<TileType>> = Vec::new();
        let mut i: usize = 0;
        while i < 64
            invariant
                i <= 64,
                cells@.len() == i,
                forall|j: int| 0 <= j < i ==> cells@[j] is None,
            decreases 64 - i,
        {
            cells.push(None);
            i = i + 1;
        }
        TileGrid { cells }
    }

    pub fn get(&self, x: usize, y: usize) -> (t: Option<TileType>)
        requires
            self.wf(),
        ensures
            t == spec_cell(self@, x as int, y as int),
    {
        if x < 8 && y < 8 {
            self.cells[y * 8 + x]
        } else {
            None
        }
    }

    /// Writes the color of one cell; out-of-bounds writes are dropped.
    pub fn set(&mut self, x: usize, y: usize, t: Option<TileType>)
        requires
            old(self).wf(),
        ensures
            final(self).wf(),
            x < 8 && y < 8 ==> spec_cell(final(self)@, x as int, y as int) == t,
            forall|x2: int, y2: int| !(x2 == x as int && y2 == y as int)
                ==> spec_cell(final(self)@, x2, y2) == spec_cell(old(self)@, x2, y2),
            x < 8 && y < 8 ==> final(self)@ == old(self)@.update(y as int * 8 + x, t),
            !(x < 8 && y < 8) ==> final(self)@ == old(self)@,
    {
        if x < 8 && y < 8 {
            self.cells.set(y * 8 + x, t);
        }
    }

    /// A cell-for-cell copy.
    pub fn duplicate(&self) -> (g: TileGrid)
        requires
            self.wf(),
        ensures
            g.wf(),
            g@ == self@,
    {
        let mut cells: Vec<Option<TileType>> = Vec::new();
        let mut i: usize = 0;
        while i < 64
            invariant
                self.wf(),
                i <= 64,
                cells@.len() == i,
                forall|j: int| 0 <= j < i ==> cells@[j] == self@[j],
            decreases 64 - i,
        {
            cells.push(self.cells[i]);
            i = i + 1;
        }
        proof {
            assert(cells@ =~= self@);
        }
        TileGrid { cells }
    }
}

/// Whether this cell holds exactly the color `c`.
fn cell_is(t: Option<TileType>, c: TileType) -> (b: bool)
    ensures
        b == (t == Some(c)),
{
    match t {
        Some(tt) => tt.index() == c.index(),
        None => false,
    }
}

/// Whether the tile at `(x, y)` sits inside a row or column run of three
/// or more equal tiles; empty cells never match.
#[verifier::rlimit(30)]
pub fn check_match_at_position(grid: &TileGrid, x: usize, y: usize) -> (m: bool)
    requires
        grid.wf(),
        x < 8,
        y < 8,
    ensures
        m == spec_match_at(grid@, x as int, y as int),
{
    let ghost s = grid@;
    let t: Option<TileType> = grid.get(x, y);
    let tile_type: TileType = match t {
        Some(tt) => tt,
        None => {
            return false;
        },
    };
    let mut left: usize = 0;
    while x - left > 0 && cell_is(grid.get(x - left - 1, y), tile_type)
        invariant
            grid.wf(),
            s == grid@,
            x < 8 && y < 8,
            left <= x,
            spec_cell(s, x as int, y as int) == Some(tile_type),
            forall|k: int| x - left <= k <= x
                ==> #[trigger] spec_cell(s, k, y as int) == Some(tile_type),
        decreases x - left,
    {
        left = left + 1;
    }
    let mut right: usize = 0;
    while x + right + 1 < 8 && cell_is(grid.get(x + right + 1, y), tile_type)
        invariant
            grid.wf(),
            s == grid@,
            x < 8 && y < 8,
            x + right < 8,
            spec_cell(s, x as int, y as int) == Some(tile_type),
            forall|k: int| x <= k <= x + right
                ==> #[trigger] spec_cell(s, k, y as int) == Some(tile_type),
        decreases 8 - right,
    {
        right = right + 1;
    }
    if left + right + 1 >= 3 {
        proof {
            let w: int = if left >= 2 { x - 2 } else { x - left };
            assert(w + 2 <= x + right);
            assert(spec_cell(s, w, y as int) == Some(tile_type));
            assert(spec_cell(s, w + 1, y as int) == Some(tile_type));
            assert(spec_cell(s, w + 2, y as int) == Some(tile_type));
            assert(spec_h_match_at(s, x as int, y as int));
        }
        return true;
    }
    let mut down: usize = 0;
    while y - down > 0 && cell_is(grid.get(x, y - down - 1), tile_type)
        invariant
            grid.wf(),
            s == grid@,
            x < 8 && y < 8,
            down <= y,
            spec_cell(s, x as int, y as int) == Some(tile_type),
            forall|k: int| y - down <= k <= y
                ==> #[trigger] spec_cell(s, x as int, k) == Some(tile_type),
        decreases y - down,
    {
        down = down + 1;
    }
    let mut up: usize = 0;
    while y + up + 1 < 8 && cell_is(grid.get(x, y + up + 1), tile_type)
        invariant
            grid.wf(),
            s == grid@,
            x < 8 && y < 8,
            y + up < 8,
            spec_cell(s, x as int, y as int) == Some(tile_type),
            forall|k: int| y <= k <= y + up
                ==> #[trigger] spec_cell(s, x as int, k) == Some(tile_type),
        decreases 8 - up,
    {
        up = up + 1;
    }
    if down + up + 1 >= 3 {
        proof {
            let w: int = if down >= 2 { y - 2 } else { y - down };
            assert(w + 2 <= y + up);
            assert(spec_cell(s, x as int, w) == Some(tile_type));
            assert(spec_cell(s, x as int, w + 1) == Some(tile_type));
            assert(spec_cell(s, x as int, w + 2) == Some(tile_type));
            assert(spec_v_match_at(s, x as int, y as int));
        }
        true
    } else {
        proof {
            assert(!spec_h_match_at(s, x as int, y as int)) by {
                if spec_h_match_at(s, x as int, y as int) {
                    let w = choose|w: int| 0 <= w && w + 2 < 8 && w <= x as int <= w + 2
                        && spec_cell(s, x as int, y as int) is Some
                        && #[trigger] spec_cell(s, w, y as int)
                            == spec_cell(s, x as int, y as int)
                        && spec_cell(s, w + 1, y as int) == spec_cell(s, x as int, y as int)
                        && spec_cell(s, w + 2, y as int) == spec_cell(s, x as int, y as int);
                    assert(w >= x - left) by {
                        if w < x - left {
                            assert(x - left - 1 >= w && x - left - 1 <= w + 2);
                            assert(x - left > 0);
                            assert(spec_cell(s, x - left - 1, y as int) == Some(tile_type));
                        }
                    }
                    assert(w + 2 <= x + right) by {
                        if w + 2 > x + right {
                            assert(x + right + 1 >= w && x + right + 1 <= w + 2);
                            assert(x + right + 1 < 8);
                            assert(spec_cell(s, x + right + 1, y as int) == Some(tile_type));
                        }
                    }
                }
            }
            assert(!spec_v_match_at(s, x as int, y as int)) by {
                if spec_v_match_at(s, x as int, y as int) {
                    let w = choose|w: int| 0 <= w && w + 2 < 8 && w <= y as int <= w + 2
                        && spec_cell(s, x as int, y as int) is Some
                        && #[trigger] spec_cell(s, x as int, w)
                            == spec_cell(s, x as int, y as int)
                        && spec_cell(s, x as int, w + 1) == spec_cell(s, x as int, y as int)
                        && spec_cell(s, x as int, w + 2) == spec_cell(s, x as int, y as int);
                    assert(w >= y - down) by {
                        if w < y - down {
                            assert(y - down - 1 >= w && y - down - 1 <= w + 2);
                            assert(y - down > 0);
                            assert(spec_cell(s, x as int, y - down - 1) == Some(tile_type));
                        }
                    }
                    assert(w + 2 <= y + up) by {
                        if w + 2 > y + up {
                            assert(y + up + 1 >= w && y + up + 1 <= w + 2);
                            assert(y + up + 1 < 8);
                            assert(spec_cell(s, x as int, y + up + 1) == Some(tile_type));
                        }
                    }
                }
            }
        }
        false
    }
}

/// Whether swapping `pos1` and `pos2` would leave a match of three or more
/// at either swapped position; the board itself is untouched.
pub fn would_match_after_swap(
    grid: &TileGrid,
    pos1: (usize, usize),
    pos2: (usize, usize),
) -> (m: bool)
    requires
        grid.wf(),
        pos1.0 < 8 && pos1.1 < 8,
        pos2.0 < 8 && pos2.1 < 8,
    ensures
        m == (spec_match_at(spec_swapped(grid@, pos1, pos2), pos1.0 as int, pos1.1 as int)
            || spec_match_at(spec_swapped(grid@, pos1, pos2), pos2.0 as int, pos2.1 as int)),
{
    let mut virtual_grid: TileGrid = grid.duplicate();
    let t1: Option<TileType> = virtual_grid.get(pos1.0, pos1.1);
    let t2: Option<TileType> = virtual_grid.get(pos2.0, pos2.1);
    virtual_grid.set(pos1.0, pos1.1, t2);
    virtual_grid.set(pos2.0, pos2.1, t1);
    proof {
        assert(t1 == grid@[pos1.1 * 8 + pos1.0]);
        assert(t2 == grid@[pos2.1 * 8 + pos2.0]);
        assert(virtual_grid@ == spec_swapped(grid@, pos1, pos2));
    }
    let m1: bool = check_match_at_position(&virtual_grid, pos1.0, pos1.1);
    let m2: bool = check_match_at_position(&virtual_grid, pos2.0, pos2.1);
    m1 || m2
}

/// Builds the color grid from a list of positioned tiles; later entries
/// win a cell, and out-of-board positions are dropped.
pub fn build_tile_grid(tiles: &Vec<(GridPosition, TileType)>) -> (g: TileGrid)
    ensures
        g.wf(),
{
    let mut g: TileGrid = TileGrid::empty();
    let mut i: usize = 0;
    while i < tiles.len()
        invariant
            g.wf(),
            i <= tiles@.len(),
        decreases tiles@.len() - i,
    {
        let (pos, t): (GridPosition, TileType) = tiles[i];
        if pos.x < 8 && pos.y < 8 {
            g.set(pos.x, pos.y, Some(t));
        }
        i = i + 1;
    }
    g
}


/// Finds every matched cell of the board: exactly those tiles sitting in a
/// row or column run of three or more equal colors, scanned row-major.
pub fn detect_matches(grid: &TileGrid) -> (matched: Vec<GridPosition>)
    requires
        grid.wf(),
    ensures
        forall|k: int| 0 <= k < matched@.len()
            ==> spec_match_at(grid@, (#[trigger] matched@[k]).x as int, matched@[k].y as int),
        forall|x: int, y: int| 0 <= x < 8 && 0 <= y < 8 && spec_match_at(grid@, x, y)
            ==> exists|k: int| 0 <= k < matched@.len()
                && (#[trigger] matched@[k]).x == x && matched@[k].y == y,
{
    let mut matched: Vec<GridPosition> = Vec::new();
    let mut y: usize = 0;
    while y < 8
        invariant
            grid.wf(),
            y <= 8,
            forall|k: int| 0 <= k < matched@.len()
                ==> spec_match_at(grid@, (#[trigger] matched@[k]).x as int,
                    matched@[k].y as int),
            forall|x2: int, y2: int| 0 <= x2 < 8 && 0 <= y2 < y
                && spec_match_at(grid@, x2, y2)
                ==> exists|k: int| 0 <= k < matched@.len()
                    && (#[trigger] matched@[k]).x == x2 && matched@[k].y == y2,
        decreases 8 - y,
    {
        let mut x: usize = 0;
        while x < 8
            invariant
                grid.wf(),
                y < 8,
                x <= 8,
                forall|k: int| 0 <= k < matched@.len()
                    ==> spec_match_at(grid@, (#[trigger] matched@[k]).x as int,
                        matched@[k].y as int),
                forall|x2: int, y2: int| 0 <= x2 < 8 && 0 <= y2 < y
                    && spec_match_at(grid@, x2, y2)
                    ==> exists|k: int| 0 <= k < matched@.len()
                        && (#[trigger] matched@[k]).x == x2 && matched@[k].y == y2,
                forall|x2: int| 0 <= x2 < x && spec_match_at(grid@, x2, y as int)
                    ==> exists|k: int| 0 <= k < matched@.len()
                        && (#[trigger] matched@[k]).x == x2 && matched@[k].y == y as int,
            decreases 8 - x,
        {
            let ghost m0 = matched@;
            let hit: bool = check_match_at_position(grid, x, y);
            if hit {
                matched.push(GridPosition::new(x, y));
                proof {
                    let k = matched@.len() - 1;
                    assert(matched@[k].x == x as int && matched@[k].y == y as int);
                }
            }
            proof {
                assert(m0.len() <= matched@.len());
                assert forall|b: int| 0 <= b < m0.len()
                    implies #[trigger] matched@[b] == m0[b] by {
                }
                assert forall|x2: int, y2: int| 0 <= x2 < 8 && 0 <= y2 < y as int
                    && spec_match_at(grid@, x2, y2)
                    implies exists|k: int| 0 <= k < matched@.len()
                        && (#[trigger] matched@[k]).x == x2 && matched@[k].y == y2 by {
                    let k = choose|k: int| 0 <= k < m0.len()
                        && (#[trigger] m0[k]).x == x2 && m0[k].y == y2;
                    assert(matched@[k] == m0[k]);
                }
                assert forall|x2: int| 0 <= x2 < x + 1
                    && spec_match_at(grid@, x2, y as int)
                    implies exists|k: int| 0 <= k < matched@.len()
                        && (#[trigger] matched@[k]).x == x2
                        && matched@[k].y == y as int by {
                    if x2 == x as int {
                        assert(hit);
                        assert(matched@[matched@.len() - 1].x == x2
                            && matched@[matched@.len() - 1].y == y as int);
                    } else {
                        let k = choose|k: int| 0 <= k < m0.len()
                            && (#[trigger] m0[k]).x == x2 && m0[k].y == y as int;
                        assert(matched@[k] == m0[k]);
                    }
                }
            }
            x = x + 1;
        }
        y = y + 1;
    }
    matched
}

} // verus!
