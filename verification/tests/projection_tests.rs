//! Tests for the viewport, the projection and the level-of-detail
//! settings. All angles are in milli-units, screen positions in
//! milli-pixels, zoom factors in thousandths and magnitudes in
//! hundredths.

use stargazer::coord::CelestialCoord;
use stargazer::projection::{estimate_visible_stars, LodSettings, ScreenCoord, Viewport};

#[test]
fn test_viewport_creation() {
    let vp = Viewport::new(1200000, 600000);
    assert_eq!(vp.width, 1200000);
    assert_eq!(vp.height, 600000);
}

#[test]
fn test_projection_roundtrip() {
    let vp = Viewport::default();
    let original = CelestialCoord::new(12000, 0);

    let screen = vp.celestial_to_screen(&original);
    let back = vp.screen_to_celestial(screen).unwrap();

    assert!((original.ra - back.ra).abs() < 10);
    assert!((original.dec - back.dec).abs() < 10);
}

#[test]
fn test_viewport_pan() {
    let mut vp = Viewport::default();
    let initial_ra = vp.center_ra;

    vp.pan(100000, 0);
    assert_ne!(vp.center_ra, initial_ra);
}

#[test]
fn test_viewport_zoom() {
    let mut vp = Viewport::default();
    vp.zoom_by(2000, None);
    assert_eq!(vp.zoom, 2000);

    // Zoom limits.
    vp.zoom_by(100000, None);
    assert_eq!(vp.zoom, 50000);
}

#[test]
fn test_pan_zoom_stability() {
    // From the default viewport, zooming without an anchor never moves
    // the center, and the factor is clamped at the top of the range.
    let mut vp = Viewport::default();
    assert_eq!(vp.width, 1200000);
    assert_eq!(vp.height, 600000);
    assert_eq!(vp.center_ra, 12000);
    assert_eq!(vp.center_dec, 0);
    assert_eq!(vp.zoom, 1000);

    vp.zoom_by(2000, None);
    assert_eq!(vp.zoom, 2000);
    assert_eq!(vp.center_ra, 12000);
    assert_eq!(vp.center_dec, 0);

    vp.zoom_by(100000, None);
    assert_eq!(vp.zoom, 50000);
}

#[test]
fn test_anchored_zoom_keeps_point() {
    // Zooming around an anchor keeps the celestial point under it to
    // within a pixel of reprojection error.
    let mut vp = Viewport::default();
    let anchor = ScreenCoord { x: 300000, y: 200000 };
    let before = vp.screen_to_celestial(anchor).unwrap();

    vp.zoom_by(4000, Some(anchor));
    assert_eq!(vp.zoom, 4000);

    let after = vp.screen_to_celestial(anchor).unwrap();
    let dra = (before.ra - after.ra).abs();
    let dra = dra.min(24000 - dra);
    assert!(dra < 100, "anchor drifted in right ascension by {dra}");
    assert!((before.dec - after.dec).abs() < 500);
}

#[test]
fn test_ra_range_wraps() {
    let mut vp = Viewport::default();
    vp.zoom_by(4000, None);
    // Center near the seam: the visible range crosses it.
    vp.center_ra = 500;
    let (lo, hi) = vp.ra_range();
    assert!(lo > hi, "range should wrap: {lo}..{hi}");
    assert!((0..24000).contains(&lo));
    assert!((0..24000).contains(&hi));
}

#[test]
fn test_dec_range_clamped_at_pole() {
    let mut vp = Viewport::default();
    vp.zoom_by(2000, None);
    vp.center_dec = 85000;
    let (lo, hi) = vp.dec_range();
    assert_eq!(hi, 90000);
    assert!(lo >= -90000);
}

#[test]
fn test_lod_settings() {
    let lod = LodSettings::default();

    let mag1 = lod.magnitude_limit(1000);
    let mag2 = lod.magnitude_limit(5000);

    assert!(mag2 > mag1);
    assert!(mag2 <= lod.max_magnitude);
}

#[test]
fn test_lod_exact_values() {
    let lod = LodSettings::default();
    assert_eq!(lod.magnitude_limit(1000), 400);
    assert_eq!(lod.magnitude_limit(5000), 600);
    assert_eq!(lod.magnitude_limit(50000), 650);
}

#[test]
fn test_screen_distance() {
    let p1 = ScreenCoord::new(0, 0);
    let p2 = ScreenCoord::new(3000, 4000);

    assert!((p1.distance(&p2) - 5000).abs() < 1);
}

#[test]
fn test_star_estimates() {
    assert!(estimate_visible_stars(200) < estimate_visible_stars(400));
    assert!(estimate_visible_stars(400) < estimate_visible_stars(600));
}

#[test]
fn test_star_estimates_exact() {
    assert_eq!(estimate_visible_stars(150), 20);
    assert_eq!(estimate_visible_stars(450), 900);
    assert_eq!(estimate_visible_stars(650), 6000);
}
