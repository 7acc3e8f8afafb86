//! Celestial viewport projection and tile-indexed quiz-generation engine
//! for a star-map naming game.
//!
//! Angles, pixels and zoom factors are carried as fixed-point integers:
//! right ascension in thousandths of an hour, declination in thousandths
//! of a degree, screen positions in thousandths of a pixel, zoom in
//! thousandths, and stellar magnitudes in hundredths. Every operation on
//! them is total: out-of-range inputs are wrapped or clamped, never
//! rejected.

pub mod angles;
pub mod coord;
pub mod projection;
pub mod rng;
pub mod catalog;
pub mod tiles;
pub mod quiz;
pub mod state;
