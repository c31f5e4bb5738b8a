//! End-of-match evaluation: wave completion, the three loss triggers, the
//! victory condition, and the terminal result state.

use vstd::prelude::*;
use crate::battle::unit::BattleUnit;
use crate::battle::unit::Team;
use crate::battle::wave::WaveManager;

verus! {

/// A wave's last enemy fell.
#[derive(Clone, Copy, PartialEq, Eq, Structural, Debug)]
pub struct WaveCompleteEvent {
    pub wave_number: u32,
}

/// The match ended.
#[derive(Clone, Copy, PartialEq, Eq, Structural, Debug)]
pub struct GameOverEvent {
    pub victory: bool,
    pub waves_survived: u32,
}

/// Terminal result state of the match.
#[derive(Clone, Copy, PartialEq, Eq, Structural, Debug)]
pub struct GameResult {
    pub game_ended: bool,
    pub victory: bool,
    pub waves_completed: u32,
    pub player_had_units: bool,
    /// How long the player has had no units while enemies exist, in
    /// milliseconds.
    pub defenseless_timer: u32,
}

impl Default for GameResult {
    /// A match still running.
    fn default() -> (r: GameResult)
        ensures
            !r.game_ended && !r.victory && r.waves_completed == 0
                && !r.player_had_units && r.defenseless_timer == 0,
    {
        GameResult {
            game_ended: false,
            victory: false,
            waves_completed: 0,
            player_had_units: false,
            defenseless_timer: 0,
        }
    }
}

/// The defenseless-timeout threshold, in milliseconds.
pub const DEFENSELESS_TIMEOUT: u32 = 5000;

/// Number of live player units.
pub open spec fn spec_player_count(units: Seq<BattleUnit>, upto: int) -> int
    decreases upto,
{
    if upto <= 0 {
        0
    } else {
        spec_player_count(units, upto - 1)
            + if units[upto - 1].team == Team::Player { 1int } else { 0int }
    }
}

/// Number of live enemy units.
pub open spec fn spec_enemy_count(units: Seq<BattleUnit>, upto: int) -> int
    decreases upto,
{
    if upto <= 0 {
        0
    } else {
        spec_enemy_count(units, upto - 1)
            + if units[upto - 1].team == Team::Enemy { 1int } else { 0int }
    }
}

/// Some enemy stands in the player's base rows.
pub open spec fn spec_enemy_reached_base(units: Seq<BattleUnit>) -> bool {
    exists|i: int| 0 <= i < units.len() && (#[trigger] units[i]).team == Team::Enemy
        && units[i].pos.r <= -2
}

/// The loss condition, evaluated against the updated flags and timer.
pub open spec fn spec_loss(
    units: Seq<BattleUnit>,
    wave: WaveManager,
    had_units: bool,
    timer_after: int,
) -> bool {
    let pc = spec_player_count(units, units.len() as int);
    let ec = spec_enemy_count(units, units.len() as int);
    ||| (had_units && pc == 0 && wave.current_wave > 0)
    ||| spec_enemy_reached_base(units)
    ||| (pc == 0 && ec > 0 && timer_after >= 5000)
}

/// The victory condition: ten waves reached, no enemy alive, none pending.
pub open spec fn spec_win(units: Seq<BattleUnit>, wave: WaveManager) -> bool {
    wave.current_wave >= 10 && spec_enemy_count(units, units.len() as int) == 0
        && !wave.wave_active
}

/// One evaluation step. A finished match is left alone. Otherwise: the
/// player's presence refreshes the defenseless timer; a wave whose spawn
/// budget and enemies are both exhausted completes; the game is lost if the
/// player lost every unit after a wave began, an enemy reached the base
/// rows, or the player stayed defenseless against enemies for five seconds;
/// it is won once ten waves are reached with no enemy alive or pending.
/// Both outcomes end the game for good.
pub fn check_game_result(
    units: &Vec<BattleUnit>,
    wave_manager: &WaveManager,
    result: &mut GameResult,
    delta: u32,
) -> (events: (Option<WaveCompleteEvent>, Option<GameOverEvent>))
    ensures
        old(result).game_ended ==> *final(result) == *old(result)
            && events.0 is None && events.1 is None,
        !old(result).game_ended ==> {
            let pc = spec_player_count(units@, units@.len() as int);
            let ec = spec_enemy_count(units@, units@.len() as int);
            let had = old(result).player_had_units || pc > 0;
            let timer_mid = if pc > 0 { 0int } else { old(result).defenseless_timer as int };
            let counting = !(had && pc == 0 && wave_manager.current_wave > 0)
                && !spec_enemy_reached_base(units@) && pc == 0 && ec > 0;
            let timer_after = if counting { timer_mid + delta } else { timer_mid };
            let lost = spec_loss(units@, *wave_manager, had, timer_after);
            let won = spec_win(units@, *wave_manager);
            &&& final(result).player_had_units == had
            &&& final(result).defenseless_timer == if counting && timer_after > 5000 {
                5000int
            } else {
                timer_after
            }
            &&& final(result).game_ended == (lost || won)
            &&& final(result).victory == if lost || won { won } else { old(result).victory }
            &&& (events.0 == if wave_manager.wave_active && ec == 0
                    && wave_manager.enemies_remaining == 0 {
                Some(WaveCompleteEvent { wave_number: wave_manager.current_wave })
            } else {
                None
            })
            &&& (lost && !won ==> events.1 == Some(GameOverEvent {
                victory: false,
                waves_survived: if wave_manager.current_wave > 0 {
                    (wave_manager.current_wave - 1) as u32
                } else {
                    0
                },
            }))
            &&& (won ==> events.1 == Some(GameOverEvent {
                victory: true,
                waves_survived: wave_manager.current_wave,
            }))
            &&& (!lost && !won ==> events.1 is None)
            &&& final(result).waves_completed == if won {
                wave_manager.current_wave as int
            } else if wave_manager.wave_active && ec == 0
                && wave_manager.enemies_remaining == 0 {
                wave_manager.current_wave as int
            } else {
                old(result).waves_completed as int
            }
        },
{
    if result.game_ended {
        return (None, None);
    }
    let ghost u = units@;
    let mut player_count: usize = 0;
    let mut enemy_count: usize = 0;
    let mut enemy_reached_base: bool = false;
    let mut i: usize = 0;
    while i < units.len()
        invariant
            u == units@,
            i <= u.len(),
            player_count == spec_player_count(u, i as int),
            enemy_count == spec_enemy_count(u, i as int),
            player_count <= i && enemy_count <= i,
            enemy_reached_base == exists|k: int| 0 <= k < i
                && (#[trigger] u[k]).team == Team::Enemy && u[k].pos.r <= -2,
        decreases u.len() - i,
    {
        let unit = &units[i];
        match unit.team {
            Team::Player => { player_count = player_count + 1; },
            Team::Enemy => {
                enemy_count = enemy_count + 1;
                if unit.pos.r <= -2 {
                    proof {
                        assert(u[i as int].team == Team::Enemy && u[i as int].pos.r <= -2);
                    }
                    enemy_reached_base = true;
                }
            },
        }
        i = i + 1;
    }
    if player_count > 0 {
        result.player_had_units = true;
        result.defenseless_timer = 0;
    }
    let had: bool = result.player_had_units;
    let wave_complete: Option<WaveCompleteEvent> = if wave_manager.wave_active
        && enemy_count == 0 && wave_manager.enemies_remaining == 0 {
        result.waves_completed = wave_manager.current_wave;
        Some(WaveCompleteEvent { wave_number: wave_manager.current_wave })
    } else {
        None
    };
    let lost_on_wipe: bool = had && player_count == 0 && wave_manager.current_wave > 0;
    let mut should_lose: bool = lost_on_wipe || enemy_reached_base;
    if !should_lose && player_count == 0 && enemy_count > 0 {
        let t: u32 = result.defenseless_timer;
        result.defenseless_timer = if t as u64 + delta as u64 > 5000 { 5000 } else { t + delta };
        if result.defenseless_timer >= DEFENSELESS_TIMEOUT {
            should_lose = true;
        }
    }
    let mut game_over: Option<GameOverEvent> = None;
    if should_lose {
        result.game_ended = true;
        result.victory = false;
        game_over = Some(GameOverEvent {
            victory: false,
            waves_survived: if wave_manager.current_wave > 0 {
                wave_manager.current_wave - 1
            } else {
                0
            },
        });
    }
    if wave_manager.current_wave >= 10 && enemy_count == 0 && !wave_manager.wave_active {
        result.game_ended = true;
        result.victory = true;
        result.waves_completed = wave_manager.current_wave;
        game_over = Some(GameOverEvent {
            victory: true,
            waves_survived: wave_manager.current_wave,
        });
    }
    (wave_complete, game_over)
}

} // verus!
