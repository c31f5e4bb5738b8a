//! Floating combat-text events and their display parameters.

use vstd::prelude::*;
use crate::battle::hex_grid::HexPosition;
use crate::color::DisplayColor;

verus! {

/// How long a popup stays on screen, in milliseconds.
pub const POPUP_DURATION: u32 = 500;

/// How far a popup floats upward over its lifetime, in pixels.
pub const POPUP_FLOAT_DISTANCE: u32 = 50;

/// Font size of a critical-hit popup.
pub const CRITICAL_FONT_SIZE: u32 = 32;

/// Font size of an ordinary popup.
pub const NORMAL_FONT_SIZE: u32 = 24;

/// Damage landed on the unit standing at `position`; `damage` is in whole
/// points.
#[derive(Clone, Copy, PartialEq, Eq, Structural, Debug)]
pub struct DamagePopupEvent {
    pub position: HexPosition,
    pub damage: u32,
    pub is_critical: bool,
}

/// Healing received by the unit standing at `position`; `amount` is in
/// whole points.
#[derive(Clone, Copy, PartialEq, Eq, Structural, Debug)]
pub struct HealPopupEvent {
    pub position: HexPosition,
    pub amount: u32,
}

/// Marker for a live popup entity.
pub struct DamagePopup;

pub fn get_popup_font_size(is_critical: bool) -> (s: u32)
    ensures
        s == if is_critical { 32int } else { 24int },
{
    if is_critical { CRITICAL_FONT_SIZE } else { NORMAL_FONT_SIZE }
}

/// White for ordinary damage, gold for critical hits.
pub fn get_damage_color(is_critical: bool) -> (c: DisplayColor)
    ensures
        is_critical ==> c == (DisplayColor { red: 100, green: 84, blue: 0 }),
        !is_critical ==> c == (DisplayColor { red: 100, green: 100, blue: 100 }),
{
    if is_critical {
        DisplayColor::new(100, 84, 0)
    } else {
        DisplayColor::white()
    }
}

/// Green, for healing popups.
pub fn get_heal_color() -> (c: DisplayColor)
    ensures
        c == (DisplayColor { red: 20, green: 90, blue: 20 }),
{
    DisplayColor::new(20, 90, 20)
}

} // verus!
