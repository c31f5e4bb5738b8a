//! Match-wide flow state: game and phase modes, the combo counter, the
//! repositioning break timer and the slow-motion time scale.

use vstd::prelude::*;

verus! {

#[derive(Clone, Copy, PartialEq, Eq, Structural, Debug)]
pub enum GameState {
    Loading,
    Playing,
    Paused,
    GameOver,
}

#[derive(Clone, Copy, PartialEq, Eq, Structural, Debug)]
pub enum PhaseState {
    Idle,
    Matching,
    Cascading,
    Combating,
    WaveBreak,
}

/// Running cascade combo and the largest combo of the current turn.
#[derive(Clone, Copy, PartialEq, Eq, Structural, Debug, Default)]
pub struct ComboCounter {
    pub current: u32,
    pub max_this_turn: u32,
}

impl ComboCounter {
    /// One more cascade step; the turn maximum follows the current count.
    pub fn increment(&mut self)
        requires
            old(self).current < u32::MAX,
        ensures
            final(self).current == old(self).current + 1,
            final(self).max_this_turn == if old(self).current + 1 > old(self).max_this_turn {
                old(self).current + 1
            } else {
                old(self).max_this_turn as int
            },
    {
        self.current = self.current + 1;
        if self.current > self.max_this_turn {
            self.max_this_turn = self.current;
        }
    }

    pub fn reset(&mut self)
        ensures
            final(self).current == 0,
            final(self).max_this_turn == 0,
    {
        self.current = 0;
        self.max_this_turn = 0;
    }
}

/// Length of the repositioning break between waves, in milliseconds.
pub const WAVE_BREAK_DURATION: u32 = 30000;

/// Counts the repositioning break down.
#[derive(Clone, Copy, PartialEq, Eq, Structural, Debug)]
pub struct WaveBreakTimer {
    /// Remaining break time in milliseconds.
    pub remaining: u32,
}

impl WaveBreakTimer {
    pub fn tick(&mut self, delta: u32)
        ensures
            final(self).remaining == if old(self).remaining > delta {
                old(self).remaining - delta
            } else {
                0
            },
    {
        self.remaining = if self.remaining > delta { self.remaining - delta } else { 0 };
    }

    pub fn is_finished(&self) -> (b: bool)
        ensures
            b == (self.remaining == 0),
    {
        self.remaining == 0
    }

    pub fn reset(&mut self)
        ensures
            final(self).remaining == 30000,
    {
        self.remaining = WAVE_BREAK_DURATION;
    }
}

impl Default for WaveBreakTimer {
    /// A full break.
    fn default() -> (t: WaveBreakTimer)
        ensures
            t.remaining == 30000,
    {
        WaveBreakTimer { remaining: WAVE_BREAK_DURATION }
    }
}

/// Slow-motion controller: a scale in hundredths applied to frame deltas
/// while its duration runs, returning to the target scale afterwards.
#[derive(Clone, Copy, PartialEq, Eq, Structural, Debug)]
pub struct TimeScale {
    /// Current scale in hundredths: 100 is normal speed.
    pub scale: u32,
    /// Remaining slow-motion time in milliseconds.
    pub duration: u32,
    /// Scale to return to when slow motion ends, in hundredths.
    pub target: u32,
    pub active: bool,
}

impl TimeScale {
    /// Enters slow motion at `scale` hundredths for `duration` milliseconds.
    pub fn trigger_slowmo(&mut self, scale: u32, duration: u32)
        ensures
            final(self).scale == scale,
            final(self).duration == duration,
            final(self).target == 100,
            final(self).active,
    {
        self.scale = scale;
        self.duration = duration;
        self.target = 100;
        self.active = true;
    }

    /// Advances the slow-motion clock; when it runs out the scale snaps
    /// back to the target.
    pub fn update(&mut self, delta: u32)
        ensures
            !old(self).active ==> *final(self) == *old(self),
            old(self).active && old(self).duration > delta ==> *final(self)
                == (TimeScale { duration: (old(self).duration - delta) as u32, ..*old(self) }),
            old(self).active && old(self).duration <= delta ==> *final(self)
                == (TimeScale { duration: 0, scale: old(self).target, active: false, ..*old(self) }),
    {
        if !self.active {
            return;
        }
        if self.duration > delta {
            self.duration = self.duration - delta;
        } else {
            self.duration = 0;
            self.scale = self.target;
            self.active = false;
        }
    }

    /// A frame delta scaled by the current factor, truncating.
    pub fn scaled_delta(&self, delta: u32) -> (d: u32)
        requires
            self.scale <= 100,
        ensures
            d == delta as int * self.scale as int / 100,
    {
        proof {
            assert(delta as int * self.scale as int <= u32::MAX as int * 100)
                by (nonlinear_arith)
                requires
                    delta <= u32::MAX && self.scale <= 100,
            {
            }
        }
        let wide: u64 = (delta as u64) * (self.scale as u64);
        proof {
            assert(wide / 100 <= u32::MAX) by (nonlinear_arith)
                requires
                    wide <= u32::MAX as int * 100,
            {
            }
        }
        (wide / 100) as u32
    }
}

impl Default for TimeScale {
    /// Normal speed, not in slow motion.
    fn default() -> (t: TimeScale)
        ensures
            t.scale == 100 && t.duration == 0 && t.target == 100 && !t.active,
    {
        TimeScale { scale: 100, duration: 0, target: 100, active: false }
    }
}

/// Request for a slow-motion effect.
#[derive(Clone, Copy, PartialEq, Eq, Structural, Debug)]
pub struct SlowMoEvent {
    /// Scale in hundredths.
    pub scale: u32,
    /// Duration in milliseconds.
    pub duration: u32,
}

} // verus!
