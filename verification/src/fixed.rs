//! Fixed-point scaling primitives. Stat values are held in hundredths of a
//! point; multipliers are rationals `num / den` applied with truncating
//! division, computed in 64-bit intermediates so they cannot overflow.

use vstd::prelude::*;

verus! {

/// `value * num / den`, exact over the integers, truncating.
pub(crate) fn mul_div(value: u32, num: u32, den: u32) -> (r: u32)
    requires
        den > 0,
        value as int * num as int <= u32::MAX as int * den as int,
    ensures
        r == value as int * num as int / den as int,
{
    let wide: u64 = (value as u64) * (num as u64);
    let q: u64 = wide / (den as u64);
    proof {
        assert(wide == value as int * num as int);
        assert(q <= u32::MAX) by (nonlinear_arith)
            requires
                q == wide / (den as u64),
                wide <= u32::MAX as int * den as int,
                den > 0,
        {
        }
    }
    q as u32
}

/// `value * bp / 10000`, for a basis-point factor `bp <= 10000`; the result
/// never exceeds `value`.
pub(crate) fn apply_fraction_bp(value: u32, bp: u32) -> (r: u32)
    requires
        bp <= 10000,
    ensures
        r == value as int * bp as int / 10000,
        r <= value,
{
    proof {
        assert(value as int * bp as int <= u32::MAX as int * 10000) by (nonlinear_arith)
            requires
                value <= u32::MAX && bp <= 10000,
        {
        }
    }
    let wide: u64 = (value as u64) * (bp as u64);
    proof {
        assert(wide / 10000 <= value) by (nonlinear_arith)
            requires
                wide == value as int * bp as int,
                bp <= 10000,
        {
        }
    }
    (wide / 10000) as u32
}

} // verus!
