//! Cascade bookkeeping shared with the board collaborator, and the mana
//! payout a finished combo chain earns.

use vstd::prelude::*;

verus! {

/// Where the running cascade stands.
#[derive(Clone, Copy, PartialEq, Eq, Structural, Debug, Default)]
pub struct CascadeState {
    pub has_matches: bool,
    pub pending_gravity: bool,
    pub pending_spawn: bool,
}

/// Mana a finished chain of `combo_count` cascades supplies, in hundredths:
/// a base of ten points scaled by 1.0 / 1.5 / 2.0 / 3.0 for combos one to
/// four, growing by 0.5 for each further combo; nothing for no combo.
pub open spec fn spec_mana_from_combo(combo_count: int) -> int {
    if combo_count <= 0 {
        0
    } else if combo_count == 1 {
        1000
    } else if combo_count == 2 {
        1500
    } else if combo_count == 3 {
        2000
    } else {
        3000 + (combo_count - 4) * 500
    }
}

/// The mana payout of a finished combo chain.
pub fn calculate_mana_from_combo(combo_count: u32) -> (mana: u32)
    requires
        combo_count <= 1000000,
    ensures
        mana == spec_mana_from_combo(combo_count as int),
{
    if combo_count == 0 {
        0
    } else if combo_count == 1 {
        1000
    } else if combo_count == 2 {
        1500
    } else if combo_count == 3 {
        2000
    } else {
        3000 + (combo_count - 4) * 500
    }
}

} // verus!
