//! Fixed-point coordinates on the complex plane.
//!
//! A coordinate is an `i64` that stores a real number scaled by [`SCALE`]:
//! the stored value `v` stands for the real number `v / SCALE`.  Products of
//! two coordinates live at scale `SCALE * SCALE` and are brought back to
//! coordinate scale by [`rescale`], which truncates toward zero as hardware
//! division of signed integers does.

use vstd::prelude::*;

verus! {

/// Number of fixed-point units per real unit.
pub const SCALE: i64 = 65536;

/// Largest magnitude accepted for a viewport bound, in fixed-point units.
pub const COORD_LIMIT: i64 = 0x4000_0000_0000_0000;

/// Largest magnitude a component of the iterated point can reach: a component
/// of `z*z` brought back to coordinate scale (at most `4 * SCALE`, since `z`
/// is only squared while inside the bailout radius) plus a coordinate of `c`.
pub const COMP_LIMIT: i64 = 4 * SCALE + COORD_LIMIT;

/// Division by `SCALE`, truncated toward zero.
pub open spec fn scale_down(p: int) -> int {
    if p >= 0 {
        p / (SCALE as int)
    } else {
        -((-p) / (SCALE as int))
    }
}

/// Bring a product of two coordinates back to coordinate scale.
pub fn rescale(p: i128) -> (r: i64)
    requires
        -4 * (SCALE as int) * (SCALE as int) <= p <= 4 * (SCALE as int) * (SCALE as int),
    ensures
        r as int == scale_down(p as int),
        -4 * (SCALE as int) <= r <= 4 * (SCALE as int),
{
    if p >= 0 {
        let q: u128 = (p as u128) / (SCALE as u128);
        proof {
            vstd::arithmetic::div_mod::lemma_div_is_ordered(
                p as int,
                4 * (SCALE as int) * (SCALE as int),
                SCALE as int,
            );
        }
        q as i64
    } else {
        let m: u128 = ((-p) as u128) / (SCALE as u128);
        proof {
            vstd::arithmetic::div_mod::lemma_div_is_ordered(
                -(p as int),
                4 * (SCALE as int) * (SCALE as int),
                SCALE as int,
            );
        }
        -(m as i64)
    }
}

} // verus!
