//! The tactical combat simulation: hex grid, units and their stats, buffs,
//! targeting, movement, attack and ability resolution, wave spawning,
//! synergies, end-of-game evaluation and battle statistics.

pub mod hex_grid;
pub mod unit;
pub mod combat;
pub mod damage_popup;
pub mod placement;
pub mod synergy;
pub mod wave;
pub mod game_result;
pub mod battle_stats;

pub use hex_grid::BattleGrid;
pub use hex_grid::HexPosition;
pub use hex_grid::BATTLE_GRID_COLS;
pub use hex_grid::BATTLE_GRID_ROWS;
pub use unit::Unit;
pub use unit::UnitStats;
pub use unit::UnitType;
pub use unit::StarRank;
pub use unit::Team;
pub use unit::Target;
pub use unit::AttackCooldown;
pub use unit::HealthBar;
pub use unit::HealthBarBackground;
pub use unit::RageBuff;
pub use unit::SnipeBuff;
pub use unit::StealthBuff;
pub use unit::MeteorAbility;
pub use unit::BattleUnit;
pub use unit::STAT_LIMIT;
pub use combat::DamageCalculator;
pub use damage_popup::DamagePopup;
pub use damage_popup::DamagePopupEvent;
pub use damage_popup::HealPopupEvent;
pub use placement::Selected;
pub use placement::SelectableUnit;
pub use placement::MovementHighlight;
pub use placement::UnitSelectEvent;
pub use placement::UnitMoveEvent;
pub use synergy::SynergyLevel;
pub use synergy::ActiveSynergies;
pub use synergy::update_synergies;
pub use synergy::apply_synergy_bonuses;
pub use wave::WaveManager;
pub use wave::BombDamageEvent;
pub use wave::WaveBreakStartEvent;
pub use wave::WaveBreakEndEvent;
pub use wave::spawn_unit_at;
pub use wave::wave_spawner_system;
pub use game_result::GameResult;
pub use game_result::WaveCompleteEvent;
pub use game_result::GameOverEvent;
pub use game_result::check_game_result;
pub use battle_stats::BattleStats;
pub use battle_stats::EnemyDamageRecord;
pub use battle_stats::AllyPerformanceRecord;
