//! Unit repositioning during the wave break: selection markers, the
//! placement events, and the click rule that selects, deselects or moves.

use vstd::prelude::*;
use crate::battle::hex_grid::BattleGrid;
use crate::battle::hex_grid::HexPosition;
use crate::battle::hex_grid::spec_valid_position;
use crate::battle::unit::BattleUnit;
use crate::battle::unit::Team;

verus! {

/// Marker for the currently selected unit.
pub struct Selected;

/// Marker for a unit the player may select (player units only).
pub struct SelectableUnit;

/// Marker for a highlighted cell the selected unit may move to.
pub struct MovementHighlight;

/// A unit was selected.
#[derive(Clone, Copy, PartialEq, Eq, Structural, Debug)]
pub struct UnitSelectEvent {
    pub entity: u64,
}

/// Request to move a unit to a cell.
#[derive(Clone, Copy, PartialEq, Eq, Structural, Debug)]
pub struct UnitMoveEvent {
    pub entity: u64,
    pub target_pos: HexPosition,
}

/// What a wave-break click does, decided from the grid, the selection and
/// the clicked cell.
#[derive(Clone, Copy, PartialEq, Eq, Structural, Debug)]
pub enum PlacementAction {
    /// Nothing selectable or usable was clicked.
    Ignore,
    /// Select the clicked player unit.
    Select(u64),
    /// Deselect the already selected unit.
    Deselect(u64),
    /// Move the selected unit to the clicked empty cell.
    Move(u64, HexPosition),
}

/// The first player unit standing on `clicked`, scanned in unit order.
pub open spec fn spec_clicked_unit(units: Seq<BattleUnit>, clicked: HexPosition, upto: int)
    -> Option<int>
    decreases upto,
{
    if upto <= 0 {
        None
    } else {
        let prev = spec_clicked_unit(units, clicked, upto - 1);
        if prev is Some {
            prev
        } else if units[upto - 1].pos == clicked && units[upto - 1].team == Team::Player {
            Some(upto - 1)
        } else {
            None
        }
    }
}

/// A hit stays the result of every longer scan.
proof fn lemma_clicked_unit_stable(units: Seq<BattleUnit>, clicked: HexPosition, m: int, n: int)
    requires
        0 <= m <= n,
        spec_clicked_unit(units, clicked, m) is Some,
    ensures
        spec_clicked_unit(units, clicked, n) == spec_clicked_unit(units, clicked, m),
    decreases n - m,
{
    if m < n {
        lemma_clicked_unit_stable(units, clicked, m, n - 1);
    }
}

/// The wave-break click rule: clicking a player unit toggles its
/// selection (the first such unit in scan order decides); with a unit
/// selected, clicking an empty in-bounds cell asks to move it there;
/// anything else is ignored.
pub fn placement_click(
    grid: &BattleGrid,
    units: &Vec<BattleUnit>,
    selected: Option<u64>,
    clicked: HexPosition,
) -> (act: PlacementAction)
    requires
        grid.wf(),
    ensures
        act == match spec_clicked_unit(units@, clicked, units@.len() as int) {
            Some(i) => if selected == Some(units@[i].id) {
                PlacementAction::Deselect(units@[i].id)
            } else {
                PlacementAction::Select(units@[i].id)
            },
            None => match selected {
                Some(sid) => if spec_valid_position(clicked.q as int, clicked.r as int)
                        && !grid.spec_occupied(clicked) {
                    PlacementAction::Move(sid, clicked)
                } else {
                    PlacementAction::Ignore
                },
                None => PlacementAction::Ignore,
            },
        },
{
    let ghost u = units@;
    let n: usize = units.len();
    let mut i: usize = 0;
    while i < n
        invariant
            u == units@,
            n == u.len(),
            i <= n,
            spec_clicked_unit(u, clicked, i as int) is None,
        decreases n - i,
    {
        let cand = &units[i];
        if cand.pos.q == clicked.q && cand.pos.r == clicked.r
            && matches!(cand.team, Team::Player) {
            proof {
                assert(u[i as int].pos == clicked && u[i as int].team == Team::Player);
                assert(spec_clicked_unit(u, clicked, i as int + 1) == Some(i as int));
                lemma_clicked_unit_stable(u, clicked, i as int + 1, u.len() as int);
            }
            let uid: u64 = cand.id;
            match selected {
                Some(sid) => {
                    if sid == uid {
                        return PlacementAction::Deselect(sid);
                    }
                },
                None => {},
            }
            return PlacementAction::Select(uid);
        }
        i = i + 1;
    }
    match selected {
        Some(sid) => {
            if grid.is_valid_position(&clicked) && !grid.is_occupied(&clicked) {
                PlacementAction::Move(sid, clicked)
            } else {
                PlacementAction::Ignore
            }
        },
        None => PlacementAction::Ignore,
    }
}

} // verus!
