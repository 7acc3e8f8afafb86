//! Celestial coordinates: right ascension on a 24-hour circle and
//! declination on a clamped axis, both as fixed-point integers.

use vstd::prelude::*;
use crate::angles::{
    clamped, wrapped_ra, ANGLE_ABS_MAX, DEC_MAX, DEC_MIN, RA_FULL,
};
use crate::angles::{clamp_i64, wrap_ra};

verus! {

/// A position on the celestial sphere.
///
/// `ra` is right ascension in milli-hours and is kept normalized into
/// `[0, RA_FULL)`; `dec` is declination in milli-degrees and is kept in
/// `[DEC_MIN, DEC_MAX]`.
#[derive(Clone, Copy, Debug, PartialEq, Eq, Structural)]
pub struct CelestialCoord {
    pub ra: i64,
    pub dec: i64,
}

impl CelestialCoord {
    /// The values this type keeps as an invariant.
    pub open spec fn wf(self) -> bool {
        &&& 0 <= self.ra < RA_FULL
        &&& DEC_MIN <= self.dec <= DEC_MAX
    }

    /// Build a coordinate from values already in range.
    pub fn new(ra: i64, dec: i64) -> (c: CelestialCoord)
        requires
            0 <= ra < RA_FULL,
            DEC_MIN <= dec <= DEC_MAX,
        ensures
            c.wf(),
            c.ra == ra,
            c.dec == dec,
    {
        CelestialCoord { ra, dec }
    }

    /// Build a coordinate from raw values: the right ascension is wrapped
    /// onto the circle and the declination clamped onto its axis.
    pub fn new_wrapped(ra: i64, dec: i64) -> (c: CelestialCoord)
        requires
            -ANGLE_ABS_MAX <= ra <= ANGLE_ABS_MAX,
        ensures
            c.wf(),
            c.ra == wrapped_ra(ra as int),
            c.dec == clamped(dec as int, DEC_MIN as int, DEC_MAX as int),
    {
        CelestialCoord { ra: wrap_ra(ra), dec: clamp_i64(dec, DEC_MIN, DEC_MAX) }
    }
}

} // verus!
