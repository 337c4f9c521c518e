//! Renders a 2D raster view of the HSL color space.
//!
//! For each pixel of a grid, two chosen HSL components are driven by the X
//! and Y coordinates (optionally inverted), the third stays at its base
//! value, the triple is converted to RGB, each channel is posterized to a
//! small set of levels, and the result is packed as RGBA bytes.
//!
//! All color values in the unit interval are held in fixed point: a value
//! `v` in `[0, 1]` is the integer `v * SCALE`. Converted channels come out
//! at the finer scale `CHANNEL_ONE` before they are reduced to bytes.

pub mod hsl;
pub mod posterize;
pub mod render;

use vstd::prelude::*;

verus! {

/// Fixed-point unit: the value 1.0 as a fraction numerator.
pub const SCALE: u64 = 65536;

/// One full turn of the hue circle at the scale used for hue offsets,
/// where thirds of a turn must stay exact: 3 * SCALE.
pub const TURN: u64 = 3 * 65536;

/// The value 1.0 at the scale of a converted RGB channel: 3 * SCALE^3.
pub const CHANNEL_ONE: u64 = 3 * 65536 * 65536 * 65536;

} // verus!
