//! Wraparound-aware angular arithmetic shared by the projection, the
//! viewport and the tile index.
//!
//! Right ascension lives on a circle of `RA_FULL` milli-hours: values are
//! normalized into `[0, RA_FULL)` by Euclidean remainder. Declination is a
//! bounded axis: values are clamped into `[DEC_MIN, DEC_MAX]` milli-degrees.

use vstd::prelude::*;
use vstd::arithmetic::div_mod::{
    lemma_fundamental_div_mod, lemma_fundamental_div_mod_converse_mod, lemma_small_mod,
};

verus! {

/// One full turn of right ascension, in milli-hours (24 hours).
pub const RA_FULL: i64 = 24000;

/// Half a turn of right ascension, in milli-hours.
pub const RA_HALF: i64 = 12000;

/// Southernmost declination, in milli-degrees.
pub const DEC_MIN: i64 = -90000;

/// Northernmost declination, in milli-degrees.
pub const DEC_MAX: i64 = 90000;

/// Magnitude of the largest angle value the exec helpers accept; far above
/// anything a caller can produce, it only keeps `-v` and `v % RA_FULL`
/// free of overflow.
pub const ANGLE_ABS_MAX: i64 = 0x4000_0000_0000_0000;

/// A right-ascension value normalized onto the circle.
pub open spec fn wrapped_ra(v: int) -> int {
    v % (RA_FULL as int)
}

/// A value clamped into `[lo, hi]`.
pub open spec fn clamped(v: int, lo: int, hi: int) -> int {
    if v < lo {
        lo
    } else if v > hi {
        hi
    } else {
        v
    }
}

/// Distance between two normalized right ascensions, measured the short
/// way around the circle.
pub open spec fn ra_distance(a: int, b: int) -> int {
    let d = if a >= b {
        a - b
    } else {
        b - a
    };
    if d <= RA_FULL - d {
        d
    } else {
        RA_FULL - d
    }
}

/// Normalize a right ascension into `[0, RA_FULL)`.
pub fn wrap_ra(v: i64) -> (r: i64)
    requires
        -ANGLE_ABS_MAX <= v <= ANGLE_ABS_MAX,
    ensures
        r == wrapped_ra(v as int),
        0 <= r < RA_FULL,
{
    if v >= 0 {
        v % RA_FULL
    } else {
        let m = (-v) % RA_FULL;
        proof {
            lemma_fundamental_div_mod((-v) as int, RA_FULL as int);
            if m == 0 {
                lemma_fundamental_div_mod_converse_mod(
                    v as int,
                    RA_FULL as int,
                    -((-v) as int / (RA_FULL as int)),
                    0,
                );
            } else {
                lemma_fundamental_div_mod_converse_mod(
                    v as int,
                    RA_FULL as int,
                    -((-v) as int / (RA_FULL as int)) - 1,
                    RA_FULL - m,
                );
            }
        }
        if m == 0 {
            0
        } else {
            RA_FULL - m
        }
    }
}

/// Clamp a value into `[lo, hi]`.
pub fn clamp_i64(v: i64, lo: i64, hi: i64) -> (r: i64)
    requires
        lo <= hi,
    ensures
        r == clamped(v as int, lo as int, hi as int),
{
    if v < lo {
        lo
    } else if v > hi {
        hi
    } else {
        v
    }
}

/// Normalizing commutes with shifting by less than half a turn: two
/// values at most `RA_HALF` apart stay that close on the circle.
pub proof fn lemma_wrap_preserves_closeness(a: int, b: int)
    requires
        0 <= b - a <= RA_HALF,
    ensures
        ra_distance(wrapped_ra(a), wrapped_ra(b)) <= b - a,
{
    let f = RA_FULL as int;
    let wa = a % f;
    let wb = b % f;
    lemma_fundamental_div_mod(a, f);
    lemma_fundamental_div_mod(b, f);
    let qa = a / f;
    let qb = b / f;
    assert(a == f * qa + wa);
    assert(b == f * qb + wb);
    assert(wb - wa == (b - a) + f * (qa - qb));
    if qa == qb {
        assert(wb - wa == b - a);
    } else if qa - qb == -1 {
        assert(wb - wa == (b - a) - f);
    } else {
        assert(-f < wb - wa < f);
        assert(f * (qa - qb) == wb - wa - (b - a));
        assert(qa - qb <= -2 ==> f * (qa - qb) <= -2 * f) by (nonlinear_arith)
            requires f > 0,
        ;
        assert(qa - qb >= 1 ==> f * (qa - qb) >= f) by (nonlinear_arith)
            requires f > 0,
        ;
        assert(false);
    }
}

/// The spec normalization already leaves values in `[0, RA_FULL)` alone.
pub proof fn lemma_wrap_identity(v: int)
    requires
        0 <= v < RA_FULL,
    ensures
        wrapped_ra(v) == v,
{
    lemma_small_mod(v as nat, RA_FULL as nat);
}

/// Adding a full turn before normalizing changes nothing.
pub proof fn lemma_wrap_add_full(v: int)
    ensures
        wrapped_ra(v + RA_FULL) == wrapped_ra(v),
{
    let f = RA_FULL as int;
    lemma_fundamental_div_mod(v, f);
    lemma_fundamental_div_mod_converse_mod(v + f, f, v / f + 1, v % f);
}

} // verus!
