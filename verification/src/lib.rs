//! Core simulation engine for a tile-matching auto-battler: a hex-grid
//! spatial index, per-tick targeting/movement/attack/ability resolution,
//! timed buffs, wave spawning, team synergy bonuses and win/loss evaluation,
//! together with the match-three board logic that feeds unit summons.
//!
//! All quantities that the surrounding game treats as fractional are held in
//! fixed point: stat values in hundredths of a point, durations in
//! milliseconds, probabilities in hundredths of a percent.

pub mod battle;
pub mod puzzle;
pub mod bridge;
pub mod audio;
pub mod hud;
pub mod state;
pub mod color;
mod rng;
mod fixed;
