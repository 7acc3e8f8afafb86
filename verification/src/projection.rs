//! Viewport and equirectangular projection between celestial and screen
//! coordinates.
//!
//! Screen positions are in milli-pixels and the zoom factor in
//! thousandths, so `zoom == 1000` shows the whole sky. The projection maps
//! right ascension linearly across the width and declination linearly
//! down the height (north up). At zoom levels just above one the
//! horizontal offset is folded into a half-turn either way so the seam at
//! the 0/24 hour wrap stays invisible.

use vstd::prelude::*;
use vstd::arithmetic::div_mod::{
    lemma_div_is_ordered, lemma_div_is_ordered_by_denominator, lemma_fundamental_div_mod,
    lemma_fundamental_div_mod_converse, lemma_fundamental_div_mod_converse_div,
    lemma_div_multiples_vanish, lemma_mod_bound,
};
use crate::angles::{
    clamped, ra_distance, wrapped_ra, DEC_MAX, DEC_MIN, RA_FULL, RA_HALF,
};
use crate::angles::{clamp_i64, wrap_ra};
use crate::angles::{lemma_wrap_add_full, lemma_wrap_identity, lemma_wrap_preserves_closeness};
use crate::coord::CelestialCoord;

verus! {

/// Smallest zoom factor, in thousandths: the whole sky.
pub const ZOOM_MIN: i64 = 1000;

/// Largest zoom factor, in thousandths.
pub const ZOOM_MAX: i64 = 50000;

/// Above this zoom the horizontal offset is folded around the seam.
pub const ZOOM_FOLD: i64 = 1010;

/// Right-ascension span of the whole sky times the zoom scale
/// (`RA_FULL * 1000`), the numerator of the horizontal field of view.
pub const FOV_RA_NUM: i64 = 24000000;

/// Declination span of the whole sky times the zoom scale
/// (`180000 * 1000`), the numerator of the vertical field of view.
pub const FOV_DEC_NUM: i64 = 180000000;

/// Largest viewport side, in milli-pixels.
pub const DIM_MAX: i64 = 16000000;

/// Largest magnitude of a screen position or pan delta the projection
/// accepts, in milli-pixels; a machine limit that keeps products inside
/// `i64`, far beyond any real screen.
pub const SCREEN_ABS_MAX: i64 = 1000000000000;

/// Largest coordinate difference `distance` accepts, in milli-pixels;
/// a machine limit that keeps the squared distance inside `i64`.
pub const DIST_ABS_MAX: i64 = 2000000000;

/// A screen position in milli-pixels, `x` to the right and `y` down.
#[derive(Clone, Copy, Debug, PartialEq, Eq, Structural)]
pub struct ScreenCoord {
    pub x: i64,
    pub y: i64,
}

/// `num * q / den` rounded toward zero: how a span is rescaled between
/// angular and pixel units.
pub open spec fn scale_spec(q: int, num: int, den: int) -> int {
    if q >= 0 {
        q * num / den
    } else {
        -((-q) * num / den)
    }
}

impl ScreenCoord {
    pub fn new(x: i64, y: i64) -> (c: ScreenCoord)
        ensures
            c.x == x,
            c.y == y,
    {
        ScreenCoord { x, y }
    }

    /// Euclidean distance to another point, in milli-pixels, rounded down.
    pub fn distance(&self, other: &ScreenCoord) -> (d: i64)
        requires
            -DIST_ABS_MAX <= self.x - other.x <= DIST_ABS_MAX,
            -DIST_ABS_MAX <= self.y - other.y <= DIST_ABS_MAX,
        ensures
            0 <= d,
            d * d <= (self.x - other.x) * (self.x - other.x) + (self.y - other.y) * (self.y
                - other.y) < (d + 1) * (d + 1),
    {
        let dx = self.x - other.x;
        let dy = self.y - other.y;
        proof {
            assert(dx * dx <= DIST_ABS_MAX * DIST_ABS_MAX) by (nonlinear_arith)
                requires -DIST_ABS_MAX <= dx <= DIST_ABS_MAX,
            ;
            assert(dy * dy <= DIST_ABS_MAX * DIST_ABS_MAX) by (nonlinear_arith)
                requires -DIST_ABS_MAX <= dy <= DIST_ABS_MAX,
            ;
            assert(dx * dx >= 0) by (nonlinear_arith);
            assert(dy * dy >= 0) by (nonlinear_arith);
        }
        let sq = dx * dx + dy * dy;
        isqrt(sq)
    }
}

/// The integer square root, rounded down.
pub fn isqrt(s: i64) -> (r: i64)
    requires
        0 <= s,
    ensures
        0 <= r,
        r * r <= s < (r + 1) * (r + 1),
{
    let mut lo: i64 = 0;
    let mut hi: i64 = 3037000499;
    proof {
        assert((3037000499int + 1) * (3037000499int + 1) > i64::MAX as int) by (nonlinear_arith);
    }
    while lo < hi
        invariant
            0 <= lo <= hi <= 3037000499,
            lo * lo <= s,
            s < (hi + 1) * (hi + 1),
        decreases hi - lo,
    {
        let mid = lo + (hi - lo + 1) / 2;
        proof {
            assert(lo < mid <= hi);
            assert(mid * mid <= 3037000499int * 3037000499int) by (nonlinear_arith)
                requires 0 < mid <= 3037000499,
            ;
            assert(3037000499int * 3037000499int < i64::MAX as int) by (nonlinear_arith);
        }
        if mid * mid <= s {
            lo = mid;
        } else {
            hi = mid - 1;
        }
    }
    lo
}

/// The visible window onto the sky: pixel size, celestial center and zoom.
#[derive(Clone, Copy, Debug, PartialEq, Eq, Structural)]
pub struct Viewport {
    /// Width in milli-pixels.
    pub width: i64,
    /// Height in milli-pixels.
    pub height: i64,
    /// Right ascension at the center, in milli-hours, in `[0, RA_FULL)`.
    pub center_ra: i64,
    /// Declination at the center, in milli-degrees, in `[DEC_MIN, DEC_MAX]`.
    pub center_dec: i64,
    /// Zoom factor in thousandths, in `[ZOOM_MIN, ZOOM_MAX]`.
    pub zoom: i64,
}

impl Viewport {
    /// The values this type keeps as an invariant.
    pub open spec fn wf(self) -> bool {
        &&& 1 <= self.width <= DIM_MAX
        &&& 1 <= self.height <= DIM_MAX
        &&& 0 <= self.center_ra < RA_FULL
        &&& DEC_MIN <= self.center_dec <= DEC_MAX
        &&& ZOOM_MIN <= self.zoom <= ZOOM_MAX
    }

    /// Horizontal field of view in milli-hours.
    pub open spec fn fov_ra_spec(self) -> int {
        FOV_RA_NUM as int / (self.zoom as int)
    }

    /// Vertical field of view in milli-degrees.
    pub open spec fn fov_dec_spec(self) -> int {
        FOV_DEC_NUM as int / (self.zoom as int)
    }

    /// Western (leftmost) visible right ascension.
    pub open spec fn ra_min_spec(self) -> int {
        wrapped_ra(self.center_ra - self.fov_ra_spec() / 2)
    }

    /// Eastern (rightmost) visible right ascension.
    pub open spec fn ra_max_spec(self) -> int {
        wrapped_ra(self.center_ra + self.fov_ra_spec() / 2)
    }

    /// Southernmost visible declination.
    pub open spec fn dec_min_spec(self) -> int {
        clamped(self.center_dec - self.fov_dec_spec() / 2, DEC_MIN as int, DEC_MAX as int)
    }

    /// Northernmost visible declination.
    pub open spec fn dec_max_spec(self) -> int {
        clamped(self.center_dec + self.fov_dec_spec() / 2, DEC_MIN as int, DEC_MAX as int)
    }

    /// The horizontal offset of a right ascension from the left edge,
    /// with the wraparound handling of the projection: a full-sky view
    /// keeps the offset positive, a zoomed view folds it into a half
    /// turn either way so stars near the seam stay near their window.
    pub open spec fn ra_offset_spec(self, ra: int) -> int {
        let o = ra - self.ra_min_spec();
        if self.zoom > ZOOM_FOLD {
            if o < -RA_HALF {
                o + RA_FULL
            } else if o > RA_HALF {
                o - RA_FULL
            } else {
                o
            }
        } else {
            if o < 0 {
                o + RA_FULL
            } else {
                o
            }
        }
    }

    /// Screen x of a right ascension, in milli-pixels.
    pub open spec fn screen_x_spec(self, ra: int) -> int {
        scale_spec(self.ra_offset_spec(ra), self.width as int, self.fov_ra_spec())
    }

    /// Screen y of a declination, in milli-pixels.
    pub open spec fn screen_y_spec(self, dec: int) -> int {
        scale_spec(self.dec_max_spec() - dec, self.height as int, self.fov_dec_spec())
    }

    /// The right ascension under a screen x.
    pub open spec fn unproject_ra_spec(self, x: int) -> int {
        wrapped_ra(self.ra_min_spec() + scale_spec(x, self.fov_ra_spec(), self.width as int))
    }

    /// The declination under a screen y.
    pub open spec fn unproject_dec_spec(self, y: int) -> int {
        self.dec_max_spec() - scale_spec(y, self.fov_dec_spec(), self.height as int)
    }

    /// Create a viewport of the given pixel size, centered on the middle
    /// of the right-ascension range at the celestial equator, fully
    /// zoomed out.
    pub fn new(width: i64, height: i64) -> (v: Viewport)
        requires
            1 <= width <= DIM_MAX,
            1 <= height <= DIM_MAX,
        ensures
            v.wf(),
            v.width == width,
            v.height == height,
            v.center_ra == RA_HALF,
            v.center_dec == 0,
            v.zoom == ZOOM_MIN,
    {
        Viewport { width, height, center_ra: RA_HALF, center_dec: 0, zoom: ZOOM_MIN }
    }

    /// Horizontal field of view in milli-hours.
    pub fn fov_ra(&self) -> (f: i64)
        requires
            self.wf(),
        ensures
            f == self.fov_ra_spec(),
            480 <= f <= RA_FULL,
    {
        proof {
            lemma_div_is_ordered_by_denominator(FOV_RA_NUM as int, ZOOM_MIN as int, self.zoom as int);
            lemma_div_is_ordered_by_denominator(FOV_RA_NUM as int, self.zoom as int, ZOOM_MAX as int);
            lemma_fundamental_div_mod_converse(FOV_RA_NUM as int, ZOOM_MIN as int, 24000, 0);
            lemma_fundamental_div_mod_converse(FOV_RA_NUM as int, ZOOM_MAX as int, 480, 0);
        }
        FOV_RA_NUM / self.zoom
    }

    /// Vertical field of view in milli-degrees.
    pub fn fov_dec(&self) -> (f: i64)
        requires
            self.wf(),
        ensures
            f == self.fov_dec_spec(),
            3600 <= f <= 180000,
    {
        proof {
            lemma_div_is_ordered_by_denominator(FOV_DEC_NUM as int, ZOOM_MIN as int, self.zoom as int);
            lemma_div_is_ordered_by_denominator(FOV_DEC_NUM as int, self.zoom as int, ZOOM_MAX as int);
            lemma_fundamental_div_mod_converse(FOV_DEC_NUM as int, ZOOM_MIN as int, 180000, 0);
            lemma_fundamental_div_mod_converse(FOV_DEC_NUM as int, ZOOM_MAX as int, 3600, 0);
        }
        FOV_DEC_NUM / self.zoom
    }

    /// The visible right-ascension range `(min, max)`, both normalized;
    /// at low zoom the two ends meet across the whole circle.
    pub fn ra_range(&self) -> (r: (i64, i64))
        requires
            self.wf(),
        ensures
            r.0 == self.ra_min_spec(),
            r.1 == self.ra_max_spec(),
            0 <= r.0 < RA_FULL,
            0 <= r.1 < RA_FULL,
    {
        let half = self.fov_ra() / 2;
        (wrap_ra(self.center_ra - half), wrap_ra(self.center_ra + half))
    }

    /// The visible declination range `(min, max)`, clamped at the poles.
    pub fn dec_range(&self) -> (r: (i64, i64))
        requires
            self.wf(),
        ensures
            r.0 == self.dec_min_spec(),
            r.1 == self.dec_max_spec(),
            DEC_MIN <= r.0 <= r.1 <= DEC_MAX,
    {
        let half = self.fov_dec() / 2;
        (
            clamp_i64(self.center_dec - half, DEC_MIN, DEC_MAX),
            clamp_i64(self.center_dec + half, DEC_MIN, DEC_MAX),
        )
    }
}

/// `num * q / den` rounded toward zero, the executable twin of
/// [`scale_spec`].
pub fn scale_trunc(q: i64, num: i64, den: i64) -> (r: i64)
    requires
        1 <= den,
        0 <= num,
        -0x7fff_ffff_ffff_ffff <= q,
        -0x7fff_ffff_ffff_ffff <= q * num <= 0x7fff_ffff_ffff_ffff,
    ensures
        r == scale_spec(q as int, num as int, den as int),
        q >= 0 ==> 0 <= r <= q * num,
        q < 0 ==> -(-(q as int) * num) <= r <= 0,
{
    if q >= 0 {
        proof {
            assert(q * num >= 0) by (nonlinear_arith)
                requires q >= 0, num >= 0,
            ;
            lemma_div_le(q * num, den as int);
        }
        (q * num) / den
    } else {
        let p = -q;
        proof {
            assert(p * num == -(q * num)) by (nonlinear_arith)
                requires p == -(q as int),
            ;
            assert(p * num >= 0) by (nonlinear_arith)
                requires p >= 0, num >= 0,
            ;
            lemma_div_le(p * num, den as int);
        }
        -((p * num) / den)
    }
}

/// Dividing a nonnegative number by a positive one never increases it.
pub proof fn lemma_div_le(a: int, d: int)
    requires
        0 <= a,
        1 <= d,
    ensures
        0 <= a / d <= a,
{
    lemma_fundamental_div_mod(a, d);
    assert(a == d * (a / d) + a % d);
    assert(d * (a / d) >= a / d || a / d < 0 ==> true);
    assert(a / d >= 0) by {
        if a / d < 0 {
            assert(d * (a / d) <= a / d) by (nonlinear_arith)
                requires d >= 1, a / d < 0,
            ;
        }
    }
    assert(a / d <= a) by {
        if a / d > a {
            assert(d * (a / d) >= a / d) by (nonlinear_arith)
                requires d >= 1, a / d >= 0,
            ;
        }
    }
}

/// Anchored zooming accepts screen positions up to this magnitude, in
/// milli-pixels; slightly under [`SCREEN_ABS_MAX`] so the residual pan
/// stays in range.
pub const ANCHOR_ABS_MAX: i64 = 500000000000;

/// Largest zoom multiplier `zoom_by` accepts, in thousandths; a machine
/// limit far beyond the clamp at [`ZOOM_MAX`].
pub const FACTOR_MAX: i64 = 1000000000;

impl Viewport {
    /// The coordinate lies in the window's visible right-ascension span.
    pub open spec fn sees_ra(self, ra: int) -> bool {
        0 <= self.ra_offset_spec(ra) < self.fov_ra_spec()
    }

    /// The coordinate lies in the window's visible declination span.
    pub open spec fn sees_dec(self, dec: int) -> bool {
        self.dec_min_spec() <= dec <= self.dec_max_spec()
    }

    /// The coordinate is inside the visible window.
    pub open spec fn sees(self, c: CelestialCoord) -> bool {
        self.sees_ra(c.ra as int) && self.sees_dec(c.dec as int)
    }

    /// Project a celestial coordinate onto the screen.
    pub fn celestial_to_screen(&self, coord: &CelestialCoord) -> (s: ScreenCoord)
        requires
            self.wf(),
            coord.wf(),
        ensures
            s.x == self.screen_x_spec(coord.ra as int),
            s.y == self.screen_y_spec(coord.dec as int),
            -800000000 <= s.x <= 800000000,
            -800000000 <= s.y <= 800000000,
    {
        let (ra_min, _) = self.ra_range();
        let (_, dec_max) = self.dec_range();
        let mut ra_offset = coord.ra - ra_min;
        if self.zoom > ZOOM_FOLD {
            if ra_offset < -RA_HALF {
                ra_offset = ra_offset + RA_FULL;
            } else if ra_offset > RA_HALF {
                ra_offset = ra_offset - RA_FULL;
            }
        } else {
            if ra_offset < 0 {
                ra_offset = ra_offset + RA_FULL;
            }
        }
        let fr = self.fov_ra();
        let fd = self.fov_dec();
        let dec_offset = dec_max - coord.dec;
        proof {
            lemma_scale_bound(ra_offset as int, self.width as int, fr as int, RA_FULL as int, DIM_MAX as int, 480);
            lemma_scale_bound(dec_offset as int, self.height as int, fd as int, 180000, DIM_MAX as int, 3600);
            lemma_fundamental_div_mod_converse(RA_FULL as int * DIM_MAX as int, 480, 800000000, 0);
            lemma_fundamental_div_mod_converse(180000 * DIM_MAX as int, 3600, 800000000, 0);
        }
        let x = scale_trunc(ra_offset, self.width, fr);
        let y = scale_trunc(dec_offset, self.height, fd);
        ScreenCoord { x, y }
    }

    /// Recover the celestial coordinate under a screen position; yields
    /// nothing when the implied declination falls beyond a pole.
    pub fn screen_to_celestial(&self, screen: ScreenCoord) -> (r: Option<CelestialCoord>)
        requires
            self.wf(),
            -SCREEN_ABS_MAX <= screen.x <= SCREEN_ABS_MAX,
            -SCREEN_ABS_MAX <= screen.y <= SCREEN_ABS_MAX,
        ensures
            r is Some <==> DEC_MIN <= self.unproject_dec_spec(screen.y as int) <= DEC_MAX,
            r matches Some(c) ==> c.ra == self.unproject_ra_spec(screen.x as int) && c.dec
                == self.unproject_dec_spec(screen.y as int) && c.wf(),
    {
        let (ra_min, _) = self.ra_range();
        let (_, dec_max) = self.dec_range();
        let fr = self.fov_ra();
        let fd = self.fov_dec();
        proof {
            lemma_scale_bound(screen.x as int, fr as int, self.width as int, SCREEN_ABS_MAX as int, RA_FULL as int, 1);
            lemma_scale_bound(screen.y as int, fd as int, self.height as int, SCREEN_ABS_MAX as int, 180000, 1);
            lemma_fundamental_div_mod_converse(SCREEN_ABS_MAX as int * RA_FULL as int, 1, SCREEN_ABS_MAX as int * RA_FULL as int, 0);
            lemma_fundamental_div_mod_converse(SCREEN_ABS_MAX as int * 180000, 1, SCREEN_ABS_MAX as int * 180000, 0);
        }
        let ra_off = scale_trunc(screen.x, fr, self.width);
        let ra = wrap_ra(ra_min + ra_off);
        let dec_off = scale_trunc(screen.y, fd, self.height);
        let dec = dec_max - dec_off;
        if DEC_MIN <= dec && dec <= DEC_MAX {
            Some(CelestialCoord::new(ra, dec))
        } else {
            None
        }
    }

    /// Shift the window by a pixel delta: right ascension moves against
    /// the drag (west is left), declination with it, staying in range.
    pub fn pan(&mut self, dx: i64, dy: i64)
        requires
            old(self).wf(),
            -SCREEN_ABS_MAX <= dx <= SCREEN_ABS_MAX,
            -SCREEN_ABS_MAX <= dy <= SCREEN_ABS_MAX,
        ensures
            final(self).wf(),
            final(self).width == old(self).width,
            final(self).height == old(self).height,
            final(self).zoom == old(self).zoom,
            final(self).center_ra == wrapped_ra(
                old(self).center_ra - scale_spec(dx as int, old(self).fov_ra_spec(), old(self).width as int),
            ),
            final(self).center_dec == clamped(
                old(self).center_dec + scale_spec(dy as int, old(self).fov_dec_spec(), old(self).height as int),
                DEC_MIN as int,
                DEC_MAX as int,
            ),
    {
        let fr = self.fov_ra();
        let fd = self.fov_dec();
        proof {
            lemma_scale_bound(dx as int, fr as int, self.width as int, SCREEN_ABS_MAX as int, RA_FULL as int, 1);
            lemma_scale_bound(dy as int, fd as int, self.height as int, SCREEN_ABS_MAX as int, 180000, 1);
            lemma_fundamental_div_mod_converse(SCREEN_ABS_MAX as int * RA_FULL as int, 1, SCREEN_ABS_MAX as int * RA_FULL as int, 0);
            lemma_fundamental_div_mod_converse(SCREEN_ABS_MAX as int * 180000, 1, SCREEN_ABS_MAX as int * 180000, 0);
        }
        let dra = scale_trunc(dx, fr, self.width);
        let ddec = scale_trunc(dy, fd, self.height);
        self.center_ra = wrap_ra(self.center_ra - dra);
        self.center_dec = clamp_i64(self.center_dec + ddec, DEC_MIN, DEC_MAX);
    }

    /// The viewport after a bare zoom: the factor applied and clamped,
    /// everything else untouched.
    pub open spec fn zoomed_spec(self, factor: int) -> Viewport {
        Viewport {
            zoom: clamped(self.zoom * factor / 1000, ZOOM_MIN as int, ZOOM_MAX as int) as i64,
            ..self
        }
    }

    /// Where the center's right ascension lands when zooming around an
    /// anchor: the celestial point under the anchor before the zoom is
    /// reprojected afterwards, and the window pans by the residual.
    pub open spec fn zoom_anchor_ra_spec(self, factor: int, a: ScreenCoord) -> int {
        let v1 = self.zoomed_spec(factor);
        if DEC_MIN <= self.unproject_dec_spec(a.y as int) <= DEC_MAX {
            let cra = self.unproject_ra_spec(a.x as int);
            let nx = v1.screen_x_spec(cra);
            wrapped_ra(v1.center_ra - scale_spec(a.x - nx, v1.fov_ra_spec(), v1.width as int))
        } else {
            self.center_ra as int
        }
    }

    /// Where the center's declination lands when zooming around an anchor.
    pub open spec fn zoom_anchor_dec_spec(self, factor: int, a: ScreenCoord) -> int {
        let v1 = self.zoomed_spec(factor);
        if DEC_MIN <= self.unproject_dec_spec(a.y as int) <= DEC_MAX {
            let cdec = self.unproject_dec_spec(a.y as int);
            let ny = v1.screen_y_spec(cdec);
            clamped(
                v1.center_dec + scale_spec(a.y - ny, v1.fov_dec_spec(), v1.height as int),
                DEC_MIN as int,
                DEC_MAX as int,
            )
        } else {
            self.center_dec as int
        }
    }

    /// Multiply the zoom by a factor in thousandths, clamped to the legal
    /// range. Without an anchor the center stays put; with one, the
    /// celestial point that was under the anchor is kept under it.
    pub fn zoom_by(&mut self, factor: i64, anchor: Option<ScreenCoord>)
        requires
            old(self).wf(),
            0 <= factor <= FACTOR_MAX,
            anchor matches Some(a) ==> -ANCHOR_ABS_MAX <= a.x <= ANCHOR_ABS_MAX
                && -ANCHOR_ABS_MAX <= a.y <= ANCHOR_ABS_MAX,
        ensures
            final(self).wf(),
            final(self).width == old(self).width,
            final(self).height == old(self).height,
            final(self).zoom == clamped(
                old(self).zoom * factor / 1000,
                ZOOM_MIN as int,
                ZOOM_MAX as int,
            ),
            anchor is None ==> final(self).center_ra == old(self).center_ra
                && final(self).center_dec == old(self).center_dec,
            anchor matches Some(a) ==> final(self).center_ra
                == old(self).zoom_anchor_ra_spec(factor as int, a) && final(self).center_dec
                == old(self).zoom_anchor_dec_spec(factor as int, a),
    {
        let anchor_coord = match anchor {
            Some(a) => self.screen_to_celestial(a),
            None => None,
        };
        proof {
            let z = old(self).zoom as int;
            assert(z * factor <= ZOOM_MAX as int * FACTOR_MAX as int && z * factor >= 0)
                by (nonlinear_arith)
                requires 0 <= z <= ZOOM_MAX, 0 <= factor <= FACTOR_MAX,
            ;
            lemma_div_le(z * factor, 1000);
        }
        let scaled = (self.zoom * factor) / 1000;
        let nz = clamp_i64(scaled, ZOOM_MIN, ZOOM_MAX);
        self.zoom = nz;
        if let Some(a) = anchor {
            if let Some(c) = anchor_coord {
                let ns = self.celestial_to_screen(&c);
                let dxr = a.x - ns.x;
                let dyr = a.y - ns.y;
                self.pan(dxr, dyr);
            }
        }
    }
}

impl Default for Viewport {
    /// A full-sky window of 1200 by 600 pixels.
    fn default() -> (v: Viewport)
        ensures
            v.wf(),
            v.width == 1200000,
            v.height == 600000,
            v.center_ra == RA_HALF,
            v.center_dec == 0,
            v.zoom == ZOOM_MIN,
    {
        Viewport::new(1200000, 600000)
    }
}

/// Rescaling a bounded value by a bounded ratio keeps it under the
/// worst-case ratio of the bounds.
pub proof fn lemma_scale_bound(q: int, num: int, den: int, qa: int, na: int, dmin: int)
    requires
        -qa <= q <= qa,
        0 <= num <= na,
        1 <= dmin <= den,
        0 <= qa,
    ensures
        -(qa * na / dmin) <= scale_spec(q, num, den) <= qa * na / dmin,
        -(qa * na) <= q * num <= qa * na,
{
    assert(-(qa * na) <= q * num <= qa * na) by (nonlinear_arith)
        requires -qa <= q <= qa, 0 <= num <= na, 0 <= qa,
    ;
    if q >= 0 {
        lemma_div_le(q * num, den);
        lemma_div_is_ordered(q * num, qa * na, den);
        lemma_div_is_ordered_by_denominator(qa * na, dmin, den);
    } else {
        assert((-q) * num == -(q * num)) by (nonlinear_arith);
        lemma_div_le((-q) * num, den);
        lemma_div_is_ordered((-q) * num, qa * na, den);
        lemma_div_is_ordered_by_denominator(qa * na, dmin, den);
    }
}

/// Rescaling a span to pixels and back never grows it, and shrinks it by
/// at most one angular step per pixel plus the rounding unit.
proof fn lemma_scale_round_trip(o: int, w: int, f: int)
    requires
        0 <= o,
        1 <= w,
        1 <= f,
    ensures
        0 <= scale_spec(scale_spec(o, w, f), f, w) <= o,
        scale_spec(scale_spec(o, w, f), f, w) >= o - f / w - 1,
{
    let x = o * w / f;
    assert(o * w >= 0) by (nonlinear_arith)
        requires o >= 0, w >= 1,
    ;
    lemma_div_le(o * w, f);
    assert(scale_spec(o, w, f) == x);
    let o2 = x * f / w;
    assert(x * f >= 0) by (nonlinear_arith)
        requires x >= 0, f >= 1,
    ;
    lemma_div_le(x * f, w);
    assert(scale_spec(x, f, w) == o2);
    lemma_fundamental_div_mod(o * w, f);
    lemma_mod_bound(o * w, f);
    let r1 = (o * w) % f;
    assert(o * w == f * x + r1);
    assert(x * f == o * w - r1) by (nonlinear_arith)
        requires o * w == f * x + r1,
    ;
    // Upper half: x * f <= o * w, so o2 <= (o * w) / w == o.
    lemma_div_is_ordered(x * f, o * w, w);
    lemma_div_multiples_vanish(o, w);
    assert(o * w == w * o) by (nonlinear_arith);
    assert(o2 <= o);
    // Lower half: x * f >= o * w - f + 1 > w * (o - f / w - 1).
    let qf = f / w;
    let rf = f % w;
    lemma_fundamental_div_mod(f, w);
    lemma_mod_bound(f, w);
    assert(f == w * qf + rf);
    lemma_div_is_ordered(o * w - f, x * f, w);
    if rf == 0 {
        assert(o * w - f == w * (o - qf)) by (nonlinear_arith)
            requires f == w * qf, o * w == w * o,
        ;
        lemma_fundamental_div_mod_converse_div(o * w - f, w, o - qf, 0);
        assert((o * w - f) / w == o - qf);
    } else {
        assert(o * w - f == w * (o - qf - 1) + (w - rf)) by (nonlinear_arith)
            requires f == w * qf + rf, o * w == w * o,
        ;
        lemma_fundamental_div_mod_converse_div(o * w - f, w, o - qf - 1, w - rf);
        assert((o * w - f) / w == o - qf - 1);
    }
    assert(o2 >= o - qf - 1);
}

/// Projecting a visible coordinate to the screen and back recovers it up
/// to one angular step per pixel: the error is at most `fov / width`
/// milli-hours in right ascension and `fov / height` milli-degrees in
/// declination, plus the rounding unit.
pub proof fn lemma_projection_round_trip(v: Viewport, c: CelestialCoord)
    requires
        v.wf(),
        c.wf(),
        v.sees(c),
        v.width >= 3,
    ensures
        DEC_MIN <= v.unproject_dec_spec(v.screen_y_spec(c.dec as int)) <= DEC_MAX,
        ra_distance(v.unproject_ra_spec(v.screen_x_spec(c.ra as int)), c.ra as int)
            <= v.fov_ra_spec() / (v.width as int) + 1,
        0 <= v.unproject_dec_spec(v.screen_y_spec(c.dec as int)) - c.dec <= v.fov_dec_spec() / (
        v.height as int) + 1,
{
    let f = v.fov_ra_spec();
    let w = v.width as int;
    let m = v.ra_min_spec();
    let o = v.ra_offset_spec(c.ra as int);
    lemma_div_is_ordered_by_denominator(FOV_RA_NUM as int, ZOOM_MIN as int, v.zoom as int);
    lemma_fundamental_div_mod_converse(FOV_RA_NUM as int, ZOOM_MIN as int, RA_FULL as int, 0);
    assert(f <= RA_FULL);
    lemma_scale_round_trip(o, w, f);
    let x = v.screen_x_spec(c.ra as int);
    let o2 = scale_spec(x, f, w);
    assert(x == scale_spec(o, w, f));
    assert(o - f / w - 1 <= o2 <= o);
    // The error bound fits in half a turn, so wrapping keeps closeness.
    lemma_div_is_ordered_by_denominator(f, 3, w);
    lemma_div_is_ordered(f, RA_FULL as int, 3);
    lemma_fundamental_div_mod_converse(RA_FULL as int, 3, 8000, 0);
    assert(f / w <= 8000);
    lemma_wrap_preserves_closeness(m + o2, m + o);
    // The wrapped end of the forward offset is the original coordinate.
    assert(wrapped_ra(m + o) == c.ra) by {
        let d = c.ra as int - m;
        if v.zoom > ZOOM_FOLD {
            if d < -RA_HALF {
                assert(o == d + RA_FULL);
                lemma_wrap_add_full(c.ra as int);
                lemma_wrap_identity(c.ra as int);
            } else if d > RA_HALF {
                assert(o == d - RA_FULL);
                lemma_wrap_add_full(c.ra as int - RA_FULL);
                lemma_wrap_identity(c.ra as int);
            } else {
                lemma_wrap_identity(c.ra as int);
            }
        } else {
            if d < 0 {
                assert(o == d + RA_FULL);
                lemma_wrap_add_full(c.ra as int);
                lemma_wrap_identity(c.ra as int);
            } else {
                lemma_wrap_identity(c.ra as int);
            }
        }
    }
    // Declination: the offset shrinks by at most one step, northward.
    let fd = v.fov_dec_spec();
    let h = v.height as int;
    let dmax = v.dec_max_spec();
    let od = dmax - c.dec;
    lemma_div_is_ordered_by_denominator(FOV_DEC_NUM as int, v.zoom as int, ZOOM_MAX as int);
    lemma_fundamental_div_mod_converse(FOV_DEC_NUM as int, ZOOM_MAX as int, 3600, 0);
    assert(fd >= 3600);
    lemma_scale_round_trip(od, h, fd);
}

/// Round trip within the stated tolerance: on any window of at least
/// 3 by 2 pixels, projecting a visible coordinate and unprojecting it
/// lands within 0.01 hours of right ascension and 0.1 degrees of
/// declination of the original.
pub proof fn lemma_round_trip_within_tolerance(v: Viewport, c: CelestialCoord)
    requires
        v.wf(),
        c.wf(),
        v.sees(c),
        v.width >= 3000,
        v.height >= 2000,
    ensures
        DEC_MIN <= v.unproject_dec_spec(v.screen_y_spec(c.dec as int)) <= DEC_MAX,
        ra_distance(v.unproject_ra_spec(v.screen_x_spec(c.ra as int)), c.ra as int) <= 10,
        0 <= v.unproject_dec_spec(v.screen_y_spec(c.dec as int)) - c.dec <= 100,
{
    lemma_projection_round_trip(v, c);
    let f = v.fov_ra_spec();
    let w = v.width as int;
    lemma_div_is_ordered_by_denominator(FOV_RA_NUM as int, ZOOM_MIN as int, v.zoom as int);
    lemma_fundamental_div_mod_converse(FOV_RA_NUM as int, ZOOM_MIN as int, RA_FULL as int, 0);
    lemma_div_is_ordered_by_denominator(f, 3000, w);
    lemma_div_is_ordered(f, RA_FULL as int, 3000);
    lemma_fundamental_div_mod_converse(RA_FULL as int, 3000, 8, 0);
    let fd = v.fov_dec_spec();
    let h = v.height as int;
    lemma_div_is_ordered_by_denominator(FOV_DEC_NUM as int, ZOOM_MIN as int, v.zoom as int);
    lemma_fundamental_div_mod_converse(FOV_DEC_NUM as int, ZOOM_MIN as int, 180000, 0);
    lemma_div_is_ordered_by_denominator(fd, 2000, h);
    lemma_div_is_ordered(fd, 180000, 2000);
    lemma_fundamental_div_mod_converse(180000, 2000, 90, 0);
}


/// Level-of-detail settings for progressive rendering: how deep in
/// magnitude the display reaches as the zoom grows. All magnitudes are
/// in hundredths.
#[derive(Clone, Copy, Debug, PartialEq, Eq, Structural)]
pub struct LodSettings {
    /// Faintest magnitude shown at the smallest zoom, in centi-magnitudes.
    pub base_magnitude: i64,
    /// Additional magnitude depth per whole zoom step, in centi-magnitudes.
    pub magnitude_per_zoom: i64,
    /// Faintest magnitude ever shown, in centi-magnitudes.
    pub max_magnitude: i64,
}

impl LodSettings {
    /// The values these settings keep as an invariant.
    pub open spec fn wf(self) -> bool {
        &&& -10000 <= self.base_magnitude <= 10000
        &&& 0 <= self.magnitude_per_zoom <= 10000
        &&& -10000 <= self.max_magnitude <= 10000
    }

    /// The magnitude limit at a zoom: the base deepened by the excess
    /// zoom, capped at the maximum.
    pub open spec fn magnitude_limit_spec(self, zoom: int) -> int {
        let deep = self.base_magnitude + (zoom - ZOOM_MIN) * self.magnitude_per_zoom / 1000;
        if deep <= self.max_magnitude {
            deep
        } else {
            self.max_magnitude as int
        }
    }

    /// The magnitude limit for a given zoom factor in thousandths.
    pub fn magnitude_limit(&self, zoom: i64) -> (m: i64)
        requires
            self.wf(),
            ZOOM_MIN <= zoom <= ZOOM_MAX,
        ensures
            m == self.magnitude_limit_spec(zoom as int),
    {
        proof {
            let e = (zoom - ZOOM_MIN) as int;
            assert(0 <= e * self.magnitude_per_zoom <= 49000 * 10000) by (nonlinear_arith)
                requires 0 <= e <= 49000, 0 <= self.magnitude_per_zoom <= 10000,
            ;
            lemma_div_le(e * self.magnitude_per_zoom, 1000);
        }
        let extra = (zoom - ZOOM_MIN) * self.magnitude_per_zoom / 1000;
        let deep = self.base_magnitude + extra;
        if deep <= self.max_magnitude {
            deep
        } else {
            self.max_magnitude
        }
    }
}

impl Default for LodSettings {
    /// Magnitude 4.0 at the smallest zoom, half a magnitude more per
    /// zoom step, never past 6.5.
    fn default() -> (s: LodSettings)
        ensures
            s.wf(),
            s.base_magnitude == 400,
            s.magnitude_per_zoom == 50,
            s.max_magnitude == 650,
    {
        LodSettings { base_magnitude: 400, magnitude_per_zoom: 50, max_magnitude: 650 }
    }
}

/// A rough count of stars visible down to a magnitude limit (in
/// centi-magnitudes), following conventional whole-sky star counts.
pub fn estimate_visible_stars(magnitude_limit: i64) -> (n: u32)
    ensures
        magnitude_limit < 200 ==> n == 20,
        200 <= magnitude_limit < 300 ==> n == 100,
        300 <= magnitude_limit < 400 ==> n == 300,
        400 <= magnitude_limit < 500 ==> n == 900,
        500 <= magnitude_limit < 600 ==> n == 2500,
        600 <= magnitude_limit ==> n == 6000,
{
    if magnitude_limit < 200 {
        20
    } else if magnitude_limit < 300 {
        100
    } else if magnitude_limit < 400 {
        300
    } else if magnitude_limit < 500 {
        900
    } else if magnitude_limit < 600 {
        2500
    } else {
        6000
    }
}


} // verus!
