//! Event vocabulary, display parameters, markers and flow-state tests.

use puzzle_tactics::audio::MatchSoundEvent;
use puzzle_tactics::audio::AttackSoundEvent;
use puzzle_tactics::audio::VictorySoundEvent;
use puzzle_tactics::audio::DefeatSoundEvent;
use puzzle_tactics::battle::DamagePopupEvent;
use puzzle_tactics::battle::HealPopupEvent;
use puzzle_tactics::battle::HexPosition;
use puzzle_tactics::battle::Selected;
use puzzle_tactics::battle::SelectableUnit;
use puzzle_tactics::battle::MovementHighlight;
use puzzle_tactics::battle::UnitSelectEvent;
use puzzle_tactics::battle::UnitMoveEvent;
use puzzle_tactics::battle::damage_popup::POPUP_DURATION;
use puzzle_tactics::battle::damage_popup::get_damage_color;
use puzzle_tactics::battle::damage_popup::get_heal_color;
use puzzle_tactics::battle::damage_popup::get_popup_font_size;
use puzzle_tactics::bridge::MatchEvent;
use puzzle_tactics::bridge::SkillOrbType;
use puzzle_tactics::bridge::match_to_summon;
use puzzle_tactics::color::DisplayColor;
use puzzle_tactics::hud::WaveBreakCountdown;
use puzzle_tactics::hud::CountdownText;
use puzzle_tactics::hud::countdown_is_warning;
use puzzle_tactics::puzzle::TileType;
use puzzle_tactics::state::PhaseState;
use puzzle_tactics::state::WaveBreakTimer;
use puzzle_tactics::state::TimeScale;
use puzzle_tactics::state::WAVE_BREAK_DURATION;

#[test]
fn test_match_sound_event_creation() {
    let event = MatchSoundEvent { combo_count: 5 };
    assert_eq!(event.combo_count, 5);
}

#[test]
fn test_match_sound_event_combo_threshold() {
    let low_combo = MatchSoundEvent { combo_count: 2 };
    let high_combo = MatchSoundEvent { combo_count: 4 };
    assert!(low_combo.combo_count <= 3);
    assert!(high_combo.combo_count > 3);
}

#[test]
fn test_attack_sound_event_creation() {
    let normal = AttackSoundEvent { is_critical: false };
    let critical = AttackSoundEvent { is_critical: true };
    assert!(!normal.is_critical);
    assert!(critical.is_critical);
}

#[test]
fn test_victory_sound_event_creation() {
    let _event = VictorySoundEvent;
}

#[test]
fn test_defeat_sound_event_creation() {
    let _event = DefeatSoundEvent;
}

#[test]
fn test_popup_duration_is_half_second() {
    assert_eq!(POPUP_DURATION, 500);
}

#[test]
fn test_normal_damage_color_is_white() {
    let color = get_damage_color(false);
    assert_eq!(color, DisplayColor::white());
}

#[test]
fn test_critical_damage_color_is_gold() {
    let color = get_damage_color(true);
    assert_eq!(color, DisplayColor::new(100, 84, 0));
}

#[test]
fn test_heal_color_is_green() {
    let color = get_heal_color();
    assert_eq!(color, DisplayColor::new(20, 90, 20));
}

#[test]
fn test_critical_font_size() {
    assert_eq!(get_popup_font_size(true), 32);
}

#[test]
fn test_normal_font_size() {
    assert_eq!(get_popup_font_size(false), 24);
}

#[test]
fn test_popup_events_carry_values() {
    let d = DamagePopupEvent {
        position: HexPosition::new(1, -1),
        damage: 42,
        is_critical: true,
    };
    assert_eq!(d.damage, 42);
    let h = HealPopupEvent { position: HexPosition::new(0, 0), amount: 7 };
    assert_eq!(h.amount, 7);
}

#[test]
fn test_selected_component_exists() {
    let _selected = Selected;
}

#[test]
fn test_selectable_unit_component_exists() {
    let _selectable = SelectableUnit;
}

#[test]
fn test_movement_highlight_component_exists() {
    let _highlight = MovementHighlight;
}

#[test]
fn test_unit_select_event() {
    let event = UnitSelectEvent { entity: 1 };
    assert_eq!(event.entity, 1);
}

#[test]
fn test_unit_move_event() {
    let event = UnitMoveEvent {
        entity: 1,
        target_pos: HexPosition::new(2, -1),
    };
    assert_eq!(event.entity, 1);
    assert_eq!(event.target_pos.q, 2);
    assert_eq!(event.target_pos.r, -1);
}

#[test]
fn test_match_to_summon_ranks_and_orbs() {
    let small = MatchEvent { tile_type: TileType::Red, count: 3, positions: vec![] };
    let (summon, orb) = match_to_summon(&small);
    assert_eq!(summon.unit_type, TileType::Red);
    assert_eq!(summon.star_rank, 1);
    assert!(orb.is_none());

    let four = MatchEvent { tile_type: TileType::Green, count: 4, positions: vec![] };
    let (summon4, orb4) = match_to_summon(&four);
    assert_eq!(summon4.star_rank, 1);
    assert_eq!(orb4.unwrap().orb_type, SkillOrbType::Heal);

    let five = MatchEvent { tile_type: TileType::Blue, count: 5, positions: vec![] };
    let (summon5, orb5) = match_to_summon(&five);
    assert_eq!(summon5.star_rank, 2);
    assert_eq!(orb5.unwrap().orb_type, SkillOrbType::Buff);
}

#[test]
fn test_wavebreak_countdown_component_exists() {
    let _countdown = WaveBreakCountdown;
}

#[test]
fn test_countdown_text_component_exists() {
    let _text = CountdownText;
}

#[test]
fn test_countdown_color_threshold() {
    assert!(!countdown_is_warning(5000), "Normal should be above threshold");
    assert!(countdown_is_warning(2500), "Warning should be at or below threshold");
}

#[test]
fn test_phase_state_has_wave_break_variant() {
    let state = PhaseState::WaveBreak;
    assert_eq!(state, PhaseState::WaveBreak);
}

#[test]
fn test_wave_break_timer_default() {
    let timer = WaveBreakTimer::default();
    assert_eq!(timer.remaining, WAVE_BREAK_DURATION);
}

#[test]
fn test_wave_break_timer_tick() {
    let mut timer = WaveBreakTimer::default();
    timer.tick(1000);
    assert_eq!(timer.remaining, WAVE_BREAK_DURATION - 1000);
}

#[test]
fn test_wave_break_timer_finished() {
    let mut timer = WaveBreakTimer::default();
    timer.tick(WAVE_BREAK_DURATION);
    assert!(timer.is_finished());
}

#[test]
fn test_wave_break_timer_reset() {
    let mut timer = WaveBreakTimer::default();
    timer.tick(3000);
    timer.reset();
    assert_eq!(timer.remaining, WAVE_BREAK_DURATION);
}

#[test]
fn test_timescale_default_is_one() {
    let ts = TimeScale::default();
    assert_eq!(ts.scale, 100);
    assert!(!ts.active);
}

#[test]
fn test_slowmo_sets_scale() {
    let mut ts = TimeScale::default();
    ts.trigger_slowmo(30, 1000);
    assert_eq!(ts.scale, 30);
    assert!(ts.active);
}

#[test]
fn test_slowmo_returns_to_normal() {
    let mut ts = TimeScale::default();
    ts.trigger_slowmo(30, 500);
    ts.update(600);
    assert_eq!(ts.scale, 100);
    assert!(!ts.active);
}

#[test]
fn test_scaled_delta() {
    let mut ts = TimeScale::default();
    ts.trigger_slowmo(50, 1000);
    let scaled = ts.scaled_delta(16);
    assert_eq!(scaled, 8);
}
