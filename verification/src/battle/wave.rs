//! Wave spawning: the break/active state machine, per-wave enemy counts and
//! star-rank odds, and the timed spawner that places enemies on the grid.

use vstd::prelude::*;
use crate::rng::roll_below;
use crate::puzzle::tile::TileType;
use crate::battle::hex_grid::BattleGrid;
use crate::battle::hex_grid::HexPosition;
use crate::battle::hex_grid::spec_enemy_half;
use crate::battle::unit::BattleUnit;
use crate::battle::unit::Team;
use crate::battle::combat::spec_grid_coherent;
use crate::battle::game_result::spec_enemy_count;
use crate::state::PhaseState;
use crate::state::WaveBreakTimer;

verus! {

/// Break/active state of the enemy waves.
#[derive(Clone, Copy, PartialEq, Eq, Structural, Debug)]
pub struct WaveManager {
    pub current_wave: u32,
    pub enemies_remaining: u32,
    /// Countdown to the next wave while on break, in milliseconds.
    pub wave_timer: u32,
    /// Countdown to the next single spawn while active, in milliseconds.
    pub spawn_delay: u32,
    pub wave_active: bool,
}

/// Enemies fielded by wave `w`: `3 + 2w`, capped at twelve.
pub open spec fn spec_enemies_for_wave(wave: int) -> int {
    if 3 + 2 * wave < 12 { 3 + 2 * wave } else { 12 }
}

/// The star rank a spawn roll yields: rank one through wave two, then a
/// 30% chance of rank two through wave five, then a 50% chance.
pub open spec fn spec_star_rank_for_roll(wave: int, roll: int) -> int {
    if wave <= 2 {
        1
    } else if wave <= 5 {
        if roll < 3000 { 2 } else { 1 }
    } else {
        if roll < 5000 { 2 } else { 1 }
    }
}

impl WaveManager {
    /// Enters the given wave: active, a first spawn half a second out, and
    /// the wave's full enemy budget.
    pub fn start_wave(&mut self, wave_number: u32)
        ensures
            final(self).current_wave == wave_number,
            final(self).wave_active,
            final(self).spawn_delay == 500,
            final(self).enemies_remaining == spec_enemies_for_wave(wave_number as int),
            final(self).wave_timer == old(self).wave_timer,
    {
        self.current_wave = wave_number;
        self.wave_active = true;
        self.spawn_delay = 500;
        self.enemies_remaining = self.enemies_for_wave(wave_number);
    }

    /// How many enemies wave `wave` fields.
    pub fn enemies_for_wave(&self, wave: u32) -> (n: u32)
        ensures
            n == spec_enemies_for_wave(wave as int),
    {
        if wave >= 5 {
            12
        } else {
            3 + wave * 2
        }
    }

    /// The star rank a given spawn roll yields under the wave's odds.
    pub fn star_rank_for_roll(wave: u32, roll: u32) -> (rank: u8)
        ensures
            rank == spec_star_rank_for_roll(wave as int, roll as int),
    {
        if wave <= 2 {
            1
        } else if wave <= 5 {
            if roll < 3000 { 2 } else { 1 }
        } else {
            if roll < 5000 { 2 } else { 1 }
        }
    }

    /// Rolls the star rank of one spawn under the wave's odds; always one
    /// or two, and always one through wave two.
    pub fn enemy_star_rank(&self, wave: u32) -> (rank: u8)
        ensures
            1 <= rank <= 2,
            wave <= 2 ==> rank == 1,
    {
        WaveManager::star_rank_for_roll(wave, roll_below(10000))
    }

    /// An archetype drawn uniformly from the five.
    pub fn random_enemy_type() -> TileType {
        TileType::from_index(roll_below(5))
    }
}

impl Default for WaveManager {
    /// Before the first wave: on break, three seconds to wave one.
    fn default() -> (w: WaveManager)
        ensures
            w.current_wave == 0,
            w.enemies_remaining == 0,
            w.wave_timer == 3000,
            w.spawn_delay == 0,
            !w.wave_active,
    {
        WaveManager {
            current_wave: 0,
            enemies_remaining: 0,
            wave_timer: 3000,
            spawn_delay: 0,
            wave_active: false,
        }
    }
}

/// A bomb on the puzzle board detonated; every player unit takes the flat
/// damage.
#[derive(Clone, Copy, Debug)]
pub struct BombDamageEvent {
    pub position: (usize, usize),
    /// Damage in whole points.
    pub damage: u32,
}

/// The wave-break repositioning phase begins.
#[derive(Clone, Copy, PartialEq, Eq, Structural, Debug)]
pub struct WaveBreakStartEvent;

/// The wave-break repositioning phase ends.
#[derive(Clone, Copy, PartialEq, Eq, Structural, Debug)]
pub struct WaveBreakEndEvent;

/// Places a fresh unit on the field: a new id, the archetype's stats at the
/// given rank, standing at `pos`.
pub fn spawn_unit_at(
    grid: &mut BattleGrid,
    units: &mut Vec<BattleUnit>,
    next_id: &mut u64,
    unit_type: TileType,
    star_rank: u8,
    pos: HexPosition,
    team: Team,
)
    requires
        spec_grid_coherent(*old(grid), old(units)@),
        crate::battle::hex_grid::spec_valid_position(pos.q as int, pos.r as int),
        old(grid).spec_at(pos.q as int, pos.r as int) is None,
        forall|i: int| 0 <= i < old(units)@.len()
            ==> (#[trigger] old(units)@[i]).id < *old(next_id),
        old(next_id) < u64::MAX,
    ensures
        spec_grid_coherent(*final(grid), final(units)@),
        final(units)@.len() == old(units)@.len() + 1,
        forall|i: int| 0 <= i < old(units)@.len()
            ==> #[trigger] final(units)@[i] == old(units)@[i],
        final(units)@.last().id == *old(next_id),
        final(units)@.last().unit_type.0 == unit_type,
        final(units)@.last().star_rank.0 == star_rank,
        final(units)@.last().team == team,
        final(units)@.last().pos == pos,
        final(units)@.last().wf(),
        !final(units)@.last().spec_dead(),
        *final(next_id) == *old(next_id) + 1,
        forall|i: int| 0 <= i < final(units)@.len()
            ==> (#[trigger] final(units)@[i]).id < *final(next_id),
{
    let ghost u0 = units@;
    let ghost g0 = *grid;
    let id: u64 = *next_id;
    *next_id = *next_id + 1;
    let unit = BattleUnit::spawn(id, unit_type, star_rank, team, pos);
    let placed: bool = grid.place_unit(pos, id);
    units.push(unit);
    proof {
        assert(placed);
        assert(spec_grid_coherent(*grid, units@)) by {
            assert forall|i: int| 0 <= i < units@.len()
                implies grid.spec_at((#[trigger] units@[i]).pos.q as int,
                    units@[i].pos.r as int) == Some(units@[i].id) by {
                if i < u0.len() {
                    assert(units@[i] == u0[i]);
                    assert(u0[i].pos != pos);
                }
            }
            assert forall|q: int, r: int| #[trigger] grid.spec_at(q, r) is Some
                implies exists|i: int| 0 <= i < units@.len()
                    && (#[trigger] units@[i].pos).q as int == q
                    && units@[i].pos.r as int == r by {
                if q == pos.q as int && r == pos.r as int {
                    assert((units@[u0.len() as int].pos).q as int == q
                        && units@[u0.len() as int].pos.r as int == r);
                } else {
                    assert(g0.spec_at(q, r) is Some);
                    let i = choose|i: int| 0 <= i < u0.len()
                        && (#[trigger] u0[i].pos).q as int == q && u0[i].pos.r as int == r;
                    assert((units@[i].pos).q as int == q && units@[i].pos.r as int == r);
                }
            }
            assert(crate::battle::combat::spec_unique_ids(units@));
        }
    }
}

/// One spawner step. During a wave break nothing happens. On break, the
/// wave timer counts down and, once it runs out, the next wave starts and
/// the timer resets to ten seconds. While a wave is active with no enemies
/// left to spawn, the wave goes inactive. Otherwise the spawn delay counts
/// down and, once it is out and a cell of the enemy half is free, one enemy
/// of a random archetype and wave-scaled rank appears there and the delay
/// resets.
pub fn wave_spawner_system(
    wave_manager: &mut WaveManager,
    grid: &mut BattleGrid,
    units: &mut Vec<BattleUnit>,
    next_id: &mut u64,
    delta: u32,
    wave_break: bool,
)
    requires
        spec_grid_coherent(*old(grid), old(units)@),
        forall|i: int| 0 <= i < old(units)@.len()
            ==> (#[trigger] old(units)@[i]).id < *old(next_id),
        old(next_id) < u64::MAX,
        old(wave_manager).current_wave < u32::MAX,
    ensures
        spec_grid_coherent(*final(grid), final(units)@),
        forall|i: int| 0 <= i < final(units)@.len()
            ==> (#[trigger] final(units)@[i]).id < *final(next_id),
        wave_break ==> *final(wave_manager) == *old(wave_manager)
            && final(units)@ == old(units)@ && *final(grid) == *old(grid),
        !wave_break && !old(wave_manager).wave_active ==> {
            &&& final(units)@ == old(units)@
            &&& (if old(wave_manager).wave_timer > delta {
                *final(wave_manager) == (WaveManager {
                    wave_timer: (old(wave_manager).wave_timer - delta) as u32,
                    ..*old(wave_manager)
                })
            } else {
                &&& final(wave_manager).current_wave == old(wave_manager).current_wave + 1
                &&& final(wave_manager).wave_active
                &&& final(wave_manager).spawn_delay == 500
                &&& final(wave_manager).enemies_remaining
                    == spec_enemies_for_wave(old(wave_manager).current_wave + 1)
                &&& final(wave_manager).wave_timer == 10000
            })
        },
        !wave_break && old(wave_manager).wave_active
            && old(wave_manager).enemies_remaining == 0 ==> {
            &&& final(units)@ == old(units)@
            &&& *final(wave_manager) == (WaveManager { wave_active: false, ..*old(wave_manager) })
        },
        !wave_break && old(wave_manager).wave_active
            && old(wave_manager).enemies_remaining > 0 ==> {
            &&& final(wave_manager).current_wave == old(wave_manager).current_wave
            &&& final(wave_manager).wave_active
            &&& (if old(wave_manager).spawn_delay > delta {
                final(units)@ == old(units)@
                    && *final(wave_manager) == (WaveManager {
                        spawn_delay: (old(wave_manager).spawn_delay - delta) as u32,
                        ..*old(wave_manager)
                    })
            } else {
                ||| (final(units)@ == old(units)@
                    && *final(wave_manager) == (WaveManager {
                        spawn_delay: 0,
                        ..*old(wave_manager)
                    })
                    && (forall|q: int, r: int| spec_enemy_half(q, r)
                        ==> #[trigger] old(grid).spec_at(q, r) is Some))
                ||| (final(units)@.len() == old(units)@.len() + 1
                    && final(units)@.last().team == Team::Enemy
                    && final(units)@.last().wf()
                    && !final(units)@.last().spec_dead()
                    && spec_enemy_half(final(units)@.last().pos.q as int,
                        final(units)@.last().pos.r as int)
                    && (old(wave_manager).current_wave <= 2
                        ==> final(units)@.last().star_rank.0 == 1)
                    && 1 <= final(units)@.last().star_rank.0 <= 2
                    && (forall|i: int| 0 <= i < old(units)@.len()
                        ==> #[trigger] final(units)@[i] == old(units)@[i])
                    && final(wave_manager).enemies_remaining
                        == old(wave_manager).enemies_remaining - 1
                    && final(wave_manager).spawn_delay == 800)
            })
        },
{
    if wave_break {
        return;
    }
    if !wave_manager.wave_active {
        if wave_manager.wave_timer > delta {
            wave_manager.wave_timer = wave_manager.wave_timer - delta;
        } else {
            let next_wave: u32 = wave_manager.current_wave + 1;
            wave_manager.start_wave(next_wave);
            wave_manager.wave_timer = 10000;
        }
        return;
    }
    if wave_manager.enemies_remaining == 0 {
        wave_manager.wave_active = false;
        return;
    }
    if wave_manager.spawn_delay > delta {
        wave_manager.spawn_delay = wave_manager.spawn_delay - delta;
        return;
    }
    wave_manager.spawn_delay = 0;
    match grid.find_enemy_spawn_position() {
        Some(pos) => {
            let unit_type: TileType = WaveManager::random_enemy_type();
            let star_rank: u8 = wave_manager.enemy_star_rank(wave_manager.current_wave);
            spawn_unit_at(grid, units, next_id, unit_type, star_rank, pos, Team::Enemy);
            wave_manager.enemies_remaining = wave_manager.enemies_remaining - 1;
            wave_manager.spawn_delay = 800;
        },
        None => {},
    }
}


/// Decides entry into the wave-break repositioning phase: once a finished
/// wave's spawn budget is exhausted, the wave is inactive, and no enemy
/// remains on the field, the break timer refills and play moves from the
/// idle phase into the break.
pub fn check_wave_complete_system(
    wave_manager: &WaveManager,
    units: &Vec<BattleUnit>,
    phase: PhaseState,
    timer: &mut WaveBreakTimer,
) -> (out: (PhaseState, Option<WaveBreakStartEvent>))
    ensures
        ({
            let ec = spec_enemy_count(units@, units@.len() as int);
            if phase == PhaseState::Idle && !wave_manager.wave_active
                && wave_manager.enemies_remaining == 0
                && wave_manager.current_wave > 0 && ec == 0 {
                out.0 == PhaseState::WaveBreak && out.1 == Some(WaveBreakStartEvent)
                    && final(timer).remaining == 30000
            } else {
                out.0 == phase && out.1 is None && *final(timer) == *old(timer)
            }
        }),
{
    if !matches!(phase, PhaseState::Idle) {
        return (phase, None);
    }
    if wave_manager.wave_active || wave_manager.enemies_remaining != 0
        || wave_manager.current_wave == 0 {
        return (phase, None);
    }
    let ghost u = units@;
    let mut enemy_count: usize = 0;
    let mut i: usize = 0;
    while i < units.len()
        invariant
            u == units@,
            i <= u.len(),
            enemy_count <= i,
            enemy_count == spec_enemy_count(u, i as int),
        decreases u.len() - i,
    {
        if matches!(units[i].team, Team::Enemy) {
            enemy_count = enemy_count + 1;
        }
        i = i + 1;
    }
    if enemy_count == 0 {
        timer.reset();
        (PhaseState::WaveBreak, Some(WaveBreakStartEvent))
    } else {
        (phase, None)
    }
}

/// Advances the break timer during the repositioning phase; when it runs
/// out, play returns to normal flow with the next wave three seconds out.
pub fn wave_break_timer_system(
    wave_manager: &mut WaveManager,
    timer: &mut WaveBreakTimer,
    phase: PhaseState,
    delta: u32,
) -> (out: (PhaseState, Option<WaveBreakEndEvent>))
    ensures
        phase != PhaseState::WaveBreak ==> out.0 == phase && out.1 is None
            && *final(wave_manager) == *old(wave_manager) && *final(timer) == *old(timer),
        phase == PhaseState::WaveBreak ==> {
            &&& final(timer).remaining == if old(timer).remaining > delta {
                old(timer).remaining - delta
            } else {
                0int
            }
            &&& (if old(timer).remaining <= delta {
                out.0 == PhaseState::Idle && out.1 == Some(WaveBreakEndEvent)
                    && *final(wave_manager) == (WaveManager {
                        wave_timer: 3000,
                        ..*old(wave_manager)
                    })
            } else {
                out.0 == PhaseState::WaveBreak && out.1 is None
                    && *final(wave_manager) == *old(wave_manager)
            })
        },
{
    if !matches!(phase, PhaseState::WaveBreak) {
        return (phase, None);
    }
    timer.tick(delta);
    if timer.is_finished() {
        wave_manager.wave_timer = 3000;
        (PhaseState::Idle, Some(WaveBreakEndEvent))
    } else {
        (PhaseState::WaveBreak, None)
    }
}

} // verus!
