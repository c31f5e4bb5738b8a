//! Sound-trigger events emitted toward the audio collaborator.

use vstd::prelude::*;

verus! {

/// A match was cleared; combos above three switch to the combo sound.
#[derive(Clone, Copy, PartialEq, Eq, Structural, Debug)]
pub struct MatchSoundEvent {
    pub combo_count: u32,
}

/// At least one attack landed this tick; critical hits sound different.
#[derive(Clone, Copy, PartialEq, Eq, Structural, Debug)]
pub struct AttackSoundEvent {
    pub is_critical: bool,
}

/// The match was won.
#[derive(Clone, Copy, PartialEq, Eq, Structural, Debug)]
pub struct VictorySoundEvent;

/// The match was lost.
#[derive(Clone, Copy, PartialEq, Eq, Structural, Debug)]
pub struct DefeatSoundEvent;

} // verus!
