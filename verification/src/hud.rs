//! Plain display state shared with the interface layer.

use vstd::prelude::*;

verus! {

/// The player's running score.
#[derive(Clone, Copy, PartialEq, Eq, Structural, Debug, Default)]
pub struct Score(pub u32);

impl Score {
    /// Adds points, saturating at the top of the counter.
    pub fn add(&mut self, points: u32)
        ensures
            final(self).0 == if old(self).0 as int + points <= u32::MAX as int {
                old(self).0 + points
            } else {
                u32::MAX as int
            },
    {
        let wide: u64 = self.0 as u64 + points as u64;
        self.0 = if wide <= u32::MAX as u64 { wide as u32 } else { u32::MAX };
    }
}

/// Marker for the countdown banner shown during the wave break.
pub struct WaveBreakCountdown;

/// Marker for the countdown text inside the banner.
pub struct CountdownText;

/// The countdown text turns into a warning color in its last three seconds.
pub fn countdown_is_warning(remaining_ms: u32) -> (b: bool)
    ensures
        b == (remaining_ms <= 3000),
{
    remaining_ms <= 3000
}

} // verus!
