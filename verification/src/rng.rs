//! The one place where the simulation draws randomness: a uniform roll
//! below a bound. Crit rolls, spawn tables and obstacle chances all compare
//! such a roll against a fixed threshold.

use vstd::prelude::*;
use rand::Rng;

verus! {

/// Relies on `rand::Rng::gen_range` over `0..n`: returns an integer drawn
/// uniformly below `n`. An empty range would panic, so `n` must be positive.
/// Nothing beyond the bound can be promised of a random draw.
#[verifier::external_body]
pub(crate) fn roll_below(n: u32) -> (r: u32)
    requires
        n > 0,
    ensures
        r < n,
{
    rand::thread_rng().gen_range(0..n)
}

} // verus!
