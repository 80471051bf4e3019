use vstd::prelude::*;

mod rng;
pub mod anim;
pub mod app_state;
pub mod level;
pub mod scene;
pub mod tilemap;

verus! {

/// Side length of one map tile, in whole pixels.
pub const TILE_SIZE_PX: i64 = 64;

/// Coordinates are carried in fixed-point subpixel units (1/256 of a pixel),
/// so that the per-frame movement step, a fraction of a pixel, stays exact.
pub const SUBPIX: i64 = 256;

/// Side length of one map tile, in subpixel units.
pub const TILE_FP: i64 = TILE_SIZE_PX * SUBPIX;

/// The character walks two tiles per second; speed in subpixels per second.
pub const CHAR_SPEED_FP: i64 = 2 * TILE_FP;

/// The collision hitbox is inset from the tile-sized bounding box by an
/// eighth of a tile (8 pixels) on each side, in subpixel units.
pub const HITBOX_MARGIN_FP: i64 = 8 * 256;

/// Number of tile columns of the generated map.
pub const MAP_WIDTH: usize = 25;

/// Number of tile rows of the generated map.
pub const MAP_HEIGHT: usize = 25;

} // verus!
