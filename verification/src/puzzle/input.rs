//! Swap-input rules of the puzzle board: orthogonal adjacency and the swap
//! event. Cursor handling stays with the presentation layer.

use vstd::prelude::*;
use super::board::PuzzleBoard;
use super::board::spec_in_bounds;

verus! {

/// Cells one orthogonal step apart.
pub open spec fn spec_adjacent(a: (usize, usize), b: (usize, usize)) -> bool {
    ||| (a.0 == b.0 + 1 && a.1 == b.1)
    ||| (b.0 == a.0 + 1 && a.1 == b.1)
    ||| (a.0 == b.0 && a.1 == b.1 + 1)
    ||| (a.0 == b.0 && b.1 == a.1 + 1)
}

/// Whether two board cells are orthogonally adjacent; diagonals are not.
pub fn is_adjacent(a: (usize, usize), b: (usize, usize)) -> (r: bool)
    ensures
        r == spec_adjacent(a, b),
{
    let dx_one: bool = (a.0 > b.0 && a.0 - b.0 == 1) || (b.0 > a.0 && b.0 - a.0 == 1);
    let dy_one: bool = (a.1 > b.1 && a.1 - b.1 == 1) || (b.1 > a.1 && b.1 - a.1 == 1);
    (dx_one && a.1 == b.1) || (a.0 == b.0 && dy_one)
}

/// Request to swap the tiles of two adjacent cells.
#[derive(Clone, Copy, Debug)]
pub struct SwapTilesEvent {
    pub from: (usize, usize),
    pub to: (usize, usize),
}

/// Marker for a tile in flight between two cells.
pub struct SwapAnimation;

/// The cell the player has picked, if any.
#[derive(Clone, Copy, Debug, Default)]
pub struct SelectedTile(pub Option<(usize, usize)>);

/// Carries out a swap event on the board: both cells' tiles and obstacles
/// change places.
pub fn handle_tile_swap(board: &mut PuzzleBoard, event: &SwapTilesEvent)
    requires
        old(board).wf(),
        spec_in_bounds(event.from.0 as int, event.from.1 as int),
        spec_in_bounds(event.to.0 as int, event.to.1 as int),
    ensures
        final(board).wf(),
        final(board).spec_tile(event.from.0 as int, event.from.1 as int)
            == old(board).spec_tile(event.to.0 as int, event.to.1 as int),
        final(board).spec_tile(event.to.0 as int, event.to.1 as int)
            == old(board).spec_tile(event.from.0 as int, event.from.1 as int),
        final(board).spec_obstacle(event.from.0 as int, event.from.1 as int)
            == old(board).spec_obstacle(event.to.0 as int, event.to.1 as int),
        final(board).spec_obstacle(event.to.0 as int, event.to.1 as int)
            == old(board).spec_obstacle(event.from.0 as int, event.from.1 as int),
        forall|x: int, y: int| !(x == event.from.0 as int && y == event.from.1 as int)
            && !(x == event.to.0 as int && y == event.to.1 as int)
            ==> final(board).spec_tile(x, y) == old(board).spec_tile(x, y)
                && final(board).spec_obstacle(x, y) == old(board).spec_obstacle(x, y),
{
    board.swap(event.from, event.to);
}

/// What a click during play should do, decided from the board state and the
/// current selection.
#[derive(Clone, Copy, PartialEq, Eq, Structural, Debug)]
pub enum ClickOutcome {
    /// Clicking an iced or otherwise unusable cell does nothing.
    Ignore,
    /// Select the clicked cell.
    Select,
    /// Clear the selection without swapping.
    Deselect,
    /// Swap the previously selected cell with the clicked one.
    Swap,
}

/// The click rule during play: an iced cell is inert; a
/// click with an ice-free selection swaps when adjacent, else deselects;
/// a click without a selection selects.
pub fn handle_tile_click(
    board: &PuzzleBoard,
    selected: Option<(usize, usize)>,
    clicked: (usize, usize),
) -> (out: ClickOutcome)
    requires
        board.wf(),
    ensures
        out == if board.spec_obstacle(clicked.0 as int, clicked.1 as int)
                == Some(crate::puzzle::tile::ObstacleType::Ice) {
            ClickOutcome::Ignore
        } else {
            match selected {
                Some(prev) => if board.spec_obstacle(prev.0 as int, prev.1 as int)
                        == Some(crate::puzzle::tile::ObstacleType::Ice) {
                    ClickOutcome::Deselect
                } else if spec_adjacent(prev, clicked) {
                    ClickOutcome::Swap
                } else {
                    ClickOutcome::Deselect
                },
                None => ClickOutcome::Select,
            }
        },
{
    if board.has_ice(clicked.0, clicked.1) {
        return ClickOutcome::Ignore;
    }
    match selected {
        Some(prev) => {
            if board.has_ice(prev.0, prev.1) {
                ClickOutcome::Deselect
            } else if is_adjacent(prev, clicked) {
                ClickOutcome::Swap
            } else {
                ClickOutcome::Deselect
            }
        },
        None => ClickOutcome::Select,
    }
}

} // verus!
