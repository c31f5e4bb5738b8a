//! Obstacle bookkeeping on the puzzle board: placing ice and bombs, and the
//! melt/defuse events the board reports back.

use vstd::prelude::*;
use super::board::PuzzleBoard;
use super::board::spec_in_bounds;
use super::tile::ObstacleType;
use crate::bridge::ObstacleSpawnEvent;

verus! {

/// Marker for the countdown text shown on a bomb.
pub struct BombCountdownText;

/// An ice overlay's visual state.
#[derive(Clone, Copy, PartialEq, Eq, Structural, Debug)]
pub struct IceOverlay {
    pub melting: bool,
    /// Remaining opacity in hundredths.
    pub alpha: u32,
}

impl Default for IceOverlay {
    /// A fresh, opaque ice overlay.
    fn default() -> (o: IceOverlay)
        ensures
            !o.melting && o.alpha == 70,
    {
        IceOverlay { melting: false, alpha: 70 }
    }
}

/// An iced cell melted.
#[derive(Clone, Copy, Debug)]
pub struct IceMeltEvent {
    pub position: (usize, usize),
}

/// A bomb was defused by an adjacent match.
#[derive(Clone, Copy, Debug)]
pub struct BombDefuseEvent {
    pub position: (usize, usize),
}

/// Books an obstacle request on the board: off-board requests are dropped,
/// ice lands anywhere, and a bomb only attaches where a tile stands.
pub fn handle_obstacle_spawn(board: &mut PuzzleBoard, event: &ObstacleSpawnEvent)
    requires
        old(board).wf(),
    ensures
        final(board).wf(),
        !spec_in_bounds(event.position.0 as int, event.position.1 as int)
            ==> *final(board) == *old(board),
        spec_in_bounds(event.position.0 as int, event.position.1 as int) ==> {
            let x = event.position.0 as int;
            let y = event.position.1 as int;
            &&& (event.obstacle_type == ObstacleType::Ice
                ==> final(board).spec_obstacle(x, y) == Some(ObstacleType::Ice))
            &&& (event.obstacle_type == ObstacleType::Bomb
                ==> final(board).spec_obstacle(x, y)
                    == if old(board).spec_tile(x, y) is Some {
                        Some(ObstacleType::Bomb)
                    } else {
                        old(board).spec_obstacle(x, y)
                    })
            &&& forall|x2: int, y2: int| !(x2 == x && y2 == y)
                ==> final(board).spec_obstacle(x2, y2) == old(board).spec_obstacle(x2, y2)
            &&& forall|x2: int, y2: int|
                final(board).spec_tile(x2, y2) == old(board).spec_tile(x2, y2)
        },
{
    let (x, y): (usize, usize) = event.position;
    if x >= 8 || y >= 8 {
        return;
    }
    match event.obstacle_type {
        ObstacleType::Ice => {
            board.set_obstacle(x, y, Some(ObstacleType::Ice));
        },
        ObstacleType::Bomb => {
            if board.get(x, y).is_some() {
                board.set_obstacle(x, y, Some(ObstacleType::Bomb));
            }
        },
    }
}

} // verus!
