//! Wave, synergy, targeting, game-result and statistics tests.

use puzzle_tactics::battle::WaveManager;
use puzzle_tactics::battle::BattleGrid;
use puzzle_tactics::battle::BattleUnit;
use puzzle_tactics::battle::BattleStats;
use puzzle_tactics::battle::Team;
use puzzle_tactics::battle::HexPosition;
use puzzle_tactics::battle::StealthBuff;
use puzzle_tactics::battle::GameResult;
use puzzle_tactics::battle::SynergyLevel;
use puzzle_tactics::battle::check_game_result;
use puzzle_tactics::battle::update_synergies;
use puzzle_tactics::battle::combat::select_target;
use puzzle_tactics::battle::combat::targeting_system;
use puzzle_tactics::battle::combat::movement_system;
use puzzle_tactics::battle::combat::death_system;
use puzzle_tactics::battle::wave::spawn_unit_at;
use puzzle_tactics::puzzle::TileType;
use puzzle_tactics::battle::combat::attack_system;
use puzzle_tactics::bridge::summon_unit;
use puzzle_tactics::bridge::UnitSummonEvent;
use puzzle_tactics::battle::wave::check_wave_complete_system;
use puzzle_tactics::battle::wave::wave_break_timer_system;
use puzzle_tactics::state::PhaseState;
use puzzle_tactics::state::WaveBreakTimer;
use puzzle_tactics::battle::placement::placement_click;
use puzzle_tactics::battle::placement::PlacementAction;

#[test]
fn test_team_enemy_filter_logic() {
    let teams = vec![Team::Player, Team::Enemy, Team::Player, Team::Enemy, Team::Enemy];
    let enemy_count = teams.iter().filter(|t| **t == Team::Enemy).count();
    assert_eq!(enemy_count, 3, "Should count only Enemy units");
}

#[test]
fn test_team_enemy_filter_with_no_enemies() {
    let teams = vec![Team::Player, Team::Player, Team::Player];
    let enemy_count = teams.iter().filter(|t| **t == Team::Enemy).count();
    assert_eq!(enemy_count, 0, "Should be 0 when no enemies remain");
}

#[test]
fn test_wave_manager_enemies_for_wave() {
    let wm = WaveManager::default();
    assert_eq!(wm.enemies_for_wave(0), 3);
    assert_eq!(wm.enemies_for_wave(1), 5);
    assert_eq!(wm.enemies_for_wave(5), 12);
    assert_eq!(wm.enemies_for_wave(10), 12);
}

#[test]
fn test_wave_manager_start_wave() {
    let mut wm = WaveManager::default();
    wm.start_wave(1);
    assert_eq!(wm.current_wave, 1);
    assert!(wm.wave_active);
    assert_eq!(wm.enemies_remaining, 5);
}

#[test]
fn test_enemy_star_rank_early_waves() {
    let wm = WaveManager::default();
    for _ in 0..20 {
        assert_eq!(wm.enemy_star_rank(0), 1);
        assert_eq!(wm.enemy_star_rank(2), 1);
        let later = wm.enemy_star_rank(7);
        assert!(later == 1 || later == 2);
    }
}

#[test]
fn test_grid_place_and_move_conserves_occupancy() {
    let mut grid = BattleGrid::new();
    assert!(grid.place_unit(HexPosition::new(0, 0), 1));
    assert!(grid.place_unit(HexPosition::new(1, 0), 2));
    // moving onto an occupied cell fails and changes nothing
    assert!(!grid.move_unit(&HexPosition::new(0, 0), &HexPosition::new(1, 0)));
    assert_eq!(grid.unit_at(&HexPosition::new(0, 0)), Some(1));
    // moving off the board fails
    assert!(!grid.move_unit(&HexPosition::new(0, 0), &HexPosition::new(9, 0)));
    // a legal move transfers the occupant
    assert!(grid.move_unit(&HexPosition::new(0, 0), &HexPosition::new(0, 1)));
    assert_eq!(grid.unit_at(&HexPosition::new(0, 0)), None);
    assert_eq!(grid.unit_at(&HexPosition::new(0, 1)), Some(1));
}

#[test]
fn test_hex_distance_symmetric_and_neighbors() {
    let p = HexPosition::new(1, -1);
    let q = HexPosition::new(-2, 2);
    assert_eq!(p.distance(&q), q.distance(&p));
    assert_eq!(p.distance(&p), 0);
    for n in p.neighbors() {
        assert_eq!(n.distance(&p), 1);
        assert_eq!(p.distance(&n), 1);
    }
}

fn field_with(units_desc: &[(TileType, u8, Team, i32, i32)]) -> (BattleGrid, Vec<BattleUnit>, u64) {
    let mut grid = BattleGrid::new();
    let mut units: Vec<BattleUnit> = Vec::new();
    let mut next_id: u64 = 1;
    for (t, rank, team, q, r) in units_desc {
        spawn_unit_at(&mut grid, &mut units, &mut next_id, *t, *rank,
            HexPosition::new(*q, *r), *team);
    }
    (grid, units, next_id)
}

#[test]
fn test_stealthed_unit_never_targeted() {
    let (_grid, mut units, _next) = field_with(&[
        (TileType::Red, 1, Team::Player, 0, 0),
        (TileType::Red, 1, Team::Enemy, 1, 0),
        (TileType::Yellow, 1, Team::Enemy, 0, 1),
    ]);
    // the nearer enemy hides under stealth
    units[2].stealth = Some(StealthBuff::new());
    let t = select_target(&units, 0);
    assert_eq!(t, Some(units[1].id));
    // the instant stealth runs out it is targetable again
    units[2].stealth = Some(StealthBuff { remaining: 0 });
    targeting_system(&mut units);
    assert!(units[0].target.0 == Some(units[1].id) || units[0].target.0 == Some(units[2].id));
}

#[test]
fn test_movement_steps_toward_target() {
    let (mut grid, mut units, _next) = field_with(&[
        (TileType::Red, 1, Team::Player, -3, 0),
        (TileType::Red, 1, Team::Enemy, 3, 0),
    ]);
    targeting_system(&mut units);
    let before = units[0].pos.distance(&units[1].pos);
    movement_system(&mut grid, &mut units);
    let after = units[0].pos.distance(&units[1].pos);
    assert!(after < before, "melee unit out of range must step closer");
}

#[test]
fn test_death_system_removes_dead() {
    let (mut grid, mut units, _next) = field_with(&[
        (TileType::Red, 1, Team::Player, 0, 0),
        (TileType::Blue, 1, Team::Enemy, 1, 0),
    ]);
    units[1].stats.health = 0;
    death_system(&mut grid, &mut units);
    assert_eq!(units.len(), 1);
    assert_eq!(units[0].team, Team::Player);
    assert_eq!(grid.unit_at(&HexPosition::new(1, 0)), None);
}

#[test]
fn test_synergy_levels_from_counts() {
    assert_eq!(SynergyLevel::from_count(0), SynergyLevel::Inactive);
    assert_eq!(SynergyLevel::from_count(1), SynergyLevel::Inactive);
    assert_eq!(SynergyLevel::from_count(2), SynergyLevel::Bronze);
    assert_eq!(SynergyLevel::from_count(4), SynergyLevel::Silver);
    assert_eq!(SynergyLevel::from_count(6), SynergyLevel::Gold);
}

#[test]
fn test_update_synergies_idempotent() {
    let (_grid, units, _next) = field_with(&[
        (TileType::Red, 1, Team::Player, 0, 0),
        (TileType::Red, 1, Team::Player, 1, 0),
        (TileType::Blue, 1, Team::Enemy, 2, 0),
    ]);
    let first = update_synergies(&units);
    let second = update_synergies(&units);
    for t in [TileType::Red, TileType::Blue, TileType::Green, TileType::Yellow,
        TileType::Purple] {
        assert_eq!(first.get_level(t), second.get_level(t));
    }
    assert_eq!(first.get_level(TileType::Red), SynergyLevel::Bronze);
    assert_eq!(first.get_level(TileType::Blue), SynergyLevel::Inactive);
}

#[test]
fn test_battle_stats_tracks_damage() {
    let mut stats = BattleStats::new();
    stats.record_enemy_damage(TileType::Red, 5000);
    stats.record_enemy_damage(TileType::Red, 3000);
    assert_eq!(stats.most_dangerous_enemy.total_damage, 8000);
    assert_eq!(stats.most_dangerous_enemy.unit_type, Some(TileType::Red));
}

#[test]
fn test_battle_stats_tracks_max_combo() {
    let mut stats = BattleStats::new();
    stats.update_combo(3);
    stats.update_combo(5);
    stats.update_combo(2);
    assert_eq!(stats.max_combo, 5);
}

#[test]
fn test_battle_stats_finds_mvp() {
    let mut stats = BattleStats::new();
    // ranger: two kills, 100 points of damage: score 300
    stats.record_ally_kill(TileType::Green, 5000);
    stats.record_ally_kill(TileType::Green, 5000);
    // warrior: one kill, 200 points: score 300
    stats.record_ally_kill(TileType::Red, 20000);
    // mage: no kill, 500 points: score 500, the winner
    stats.record_ally_damage(TileType::Purple, 50000);
    assert_eq!(stats.mvp_ally.unit_type, Some(TileType::Purple));
    assert_eq!(stats.mvp_ally.damage_dealt, 50000);
}

#[test]
fn test_battle_stats_tracks_matches() {
    let mut stats = BattleStats::new();
    stats.record_match();
    stats.record_match();
    stats.record_match();
    assert_eq!(stats.total_matches, 3);
}

#[test]
fn test_most_dangerous_enemy_updates_correctly() {
    let mut stats = BattleStats::new();
    stats.record_enemy_damage(TileType::Red, 3000);
    assert_eq!(stats.most_dangerous_enemy.unit_type, Some(TileType::Red));
    stats.record_enemy_damage(TileType::Purple, 5000);
    assert_eq!(stats.most_dangerous_enemy.unit_type, Some(TileType::Purple));
    stats.record_enemy_damage(TileType::Red, 3000);
    assert_eq!(stats.most_dangerous_enemy.unit_type, Some(TileType::Red));
    assert_eq!(stats.most_dangerous_enemy.total_damage, 6000);
}

#[test]
fn test_unit_type_name() {
    assert_eq!(BattleStats::unit_type_name(Some(TileType::Red)), "Warrior");
    assert_eq!(BattleStats::unit_type_name(Some(TileType::Blue)), "Tank");
    assert_eq!(BattleStats::unit_type_name(Some(TileType::Green)), "Ranger");
    assert_eq!(BattleStats::unit_type_name(None), "None");
}

#[test]
fn test_loss_when_player_wiped_after_wave_started() {
    let (_grid, units, _next) = field_with(&[
        (TileType::Red, 1, Team::Enemy, 1, 1),
    ]);
    let mut wave = WaveManager::default();
    wave.start_wave(1);
    let mut result = GameResult::default();
    result.player_had_units = true;
    let (_wc, over) = check_game_result(&units, &wave, &mut result, 16);
    assert!(result.game_ended);
    assert!(!result.victory);
    let ev = over.expect("a game-over event");
    assert!(!ev.victory);
}

#[test]
fn test_loss_on_defenseless_timeout() {
    let (_grid, units, _next) = field_with(&[
        (TileType::Red, 1, Team::Enemy, 1, 1),
    ]);
    let wave = WaveManager::default();
    let mut result = GameResult::default();
    // five continuous seconds without player units while an enemy stands
    for _ in 0..4 {
        let (_wc, over) = check_game_result(&units, &wave, &mut result, 1000);
        assert!(over.is_none());
    }
    let (_wc, over) = check_game_result(&units, &wave, &mut result, 1000);
    assert!(result.game_ended);
    assert!(!result.victory);
    assert!(over.is_some());
}

#[test]
fn test_victory_after_ten_waves() {
    let (_grid, units, _next) = field_with(&[
        (TileType::Red, 1, Team::Player, 0, 0),
    ]);
    let mut wave = WaveManager::default();
    wave.current_wave = 10;
    wave.wave_active = false;
    wave.enemies_remaining = 0;
    let mut result = GameResult::default();
    let (_wc, over) = check_game_result(&units, &wave, &mut result, 16);
    assert!(result.game_ended);
    assert!(result.victory);
    assert_eq!(result.waves_completed, 10);
    let ev = over.expect("a game-over event");
    assert!(ev.victory);
    assert_eq!(ev.waves_survived, 10);
}

#[test]
fn test_no_result_while_fighting() {
    let (_grid, units, _next) = field_with(&[
        (TileType::Red, 1, Team::Player, 0, 0),
        (TileType::Red, 1, Team::Enemy, 1, 1),
    ]);
    let mut wave = WaveManager::default();
    wave.start_wave(3);
    let mut result = GameResult::default();
    let (_wc, over) = check_game_result(&units, &wave, &mut result, 16);
    assert!(!result.game_ended);
    assert!(over.is_none());
}

#[test]
fn test_find_empty_position_row_major() {
    let mut grid = BattleGrid::new();
    assert_eq!(grid.find_empty_position(), Some(HexPosition::new(-3, -2)));
    assert!(grid.place_unit(HexPosition::new(-3, -2), 1));
    assert_eq!(grid.find_empty_position(), Some(HexPosition::new(-2, -2)));
}

#[test]
fn test_attack_lands_and_reduces_health() {
    let (_grid, mut units, _next) = field_with(&[
        (TileType::Red, 1, Team::Player, 0, 0),
        (TileType::Blue, 1, Team::Enemy, 1, 0),
    ]);
    targeting_system(&mut units);
    let enemy_health = units[1].stats.health;
    let (popups, _obstacles, sound) = attack_system(&mut units, 0, 16);
    assert!(units[1].stats.health < enemy_health, "a ready attack must land");
    assert_eq!(popups.len(), 2, "both ready attackers land a popup");
    assert!(sound.is_some());
}

#[test]
fn test_cooldown_allows_repeated_attacks() {
    let (_grid, mut units, _next) = field_with(&[
        (TileType::Red, 1, Team::Player, 0, 0),
        (TileType::Blue, 3, Team::Enemy, 1, 0),
    ]);
    targeting_system(&mut units);
    let start = units[1].stats.health;
    // first strike, then enough elapsed time for the cooldown to expire
    attack_system(&mut units, 0, 16);
    let after_first = units[1].stats.health;
    assert!(after_first < start);
    attack_system(&mut units, 0, 100000);
    assert_eq!(units[0].cooldown.0, 0, "an expired cooldown rests at zero");
    attack_system(&mut units, 0, 16);
    assert!(units[1].stats.health < after_first, "attacks keep recurring");
}

#[test]
fn test_summon_spawns_at_first_free_cell() {
    let mut grid = BattleGrid::new();
    let mut units: Vec<BattleUnit> = Vec::new();
    let mut next_id: u64 = 1;
    let event = UnitSummonEvent { unit_type: TileType::Green, star_rank: 1 };
    summon_unit(&mut grid, &mut units, &mut next_id, &event);
    assert_eq!(units.len(), 1);
    assert_eq!(units[0].pos, HexPosition::new(-3, -2));
    assert_eq!(units[0].unit_type.0, TileType::Green);
    assert_eq!(units[0].star_rank.0, 1);
    assert_eq!(units[0].team, Team::Player);
}

#[test]
fn test_summon_merges_two_same_rank() {
    let (mut grid, mut units, mut next_id) = field_with(&[
        (TileType::Red, 1, Team::Player, 0, 0),
        (TileType::Red, 1, Team::Player, 1, 0),
        (TileType::Blue, 1, Team::Player, 2, 0),
    ]);
    let event = UnitSummonEvent { unit_type: TileType::Red, star_rank: 1 };
    summon_unit(&mut grid, &mut units, &mut next_id, &event);
    // the two rank-one warriors merged into one rank-two warrior
    assert_eq!(units.len(), 2);
    assert_eq!(units[0].unit_type.0, TileType::Blue);
    assert_eq!(units[1].unit_type.0, TileType::Red);
    assert_eq!(units[1].star_rank.0, 2);
    assert_eq!(units[1].pos, HexPosition::new(-3, -2));
}

#[test]
fn test_summon_never_merges_rank_three() {
    let (mut grid, mut units, mut next_id) = field_with(&[
        (TileType::Red, 3, Team::Player, 0, 0),
        (TileType::Red, 3, Team::Player, 1, 0),
    ]);
    let event = UnitSummonEvent { unit_type: TileType::Red, star_rank: 1 };
    summon_unit(&mut grid, &mut units, &mut next_id, &event);
    assert_eq!(units.len(), 3, "rank three never merges; the summon spawns");
    assert_eq!(units[2].star_rank.0, 1);
}

#[test]
fn test_wave_break_cycle() {
    let (_grid, units, _next) = field_with(&[
        (TileType::Red, 1, Team::Player, 0, 0),
    ]);
    let mut wave = WaveManager::default();
    wave.current_wave = 2;
    wave.wave_active = false;
    wave.enemies_remaining = 0;
    let mut timer = WaveBreakTimer { remaining: 0 };
    let (phase, started) = check_wave_complete_system(&wave, &units, PhaseState::Idle, &mut timer);
    assert_eq!(phase, PhaseState::WaveBreak);
    assert!(started.is_some());
    assert_eq!(timer.remaining, 30000);
    let (phase2, ended) = wave_break_timer_system(&mut wave, &mut timer, phase, 30000);
    assert_eq!(phase2, PhaseState::Idle);
    assert!(ended.is_some());
    assert_eq!(wave.wave_timer, 3000);
}

#[test]
fn test_record_kill_for_top_ally() {
    let mut stats = BattleStats::new();
    stats.record_kill_for_top_ally();
    assert_eq!(stats.mvp_ally.unit_type, None, "nothing recorded, nothing credited");
    stats.record_ally_damage(TileType::Purple, 50000);
    stats.record_ally_damage(TileType::Green, 10000);
    stats.record_kill_for_top_ally();
    assert_eq!(stats.mvp_ally.unit_type, Some(TileType::Purple));
    assert_eq!(stats.mvp_ally.kills, 1);
}

#[test]
fn test_placement_click_rule() {
    let (grid, units, _next) = field_with(&[
        (TileType::Red, 1, Team::Player, 0, 0),
        (TileType::Red, 1, Team::Enemy, 1, 0),
    ]);
    let id = units[0].id;
    assert_eq!(placement_click(&grid, &units, None, HexPosition::new(0, 0)),
        PlacementAction::Select(id));
    assert_eq!(placement_click(&grid, &units, Some(id), HexPosition::new(0, 0)),
        PlacementAction::Deselect(id));
    assert_eq!(placement_click(&grid, &units, Some(id), HexPosition::new(2, 0)),
        PlacementAction::Move(id, HexPosition::new(2, 0)));
    assert_eq!(placement_click(&grid, &units, None, HexPosition::new(1, 0)),
        PlacementAction::Ignore);
}
