//! The world/tile coordinate system.
//!
//! The grid is `MAP_WIDTH x MAP_HEIGHT` tiles of `TILE_SIZE` world units.
//! World positions are fixed-point milli-units (one thousandth of a world
//! unit). Grid row 0 renders at the top of the world's y range, so the y
//! axis flips between grid space and world space: tile `(x, y)` has its
//! world center at `(x*TILE_SIZE + TILE_SIZE/2, (MAP_HEIGHT-1-y)*TILE_SIZE
//! + TILE_SIZE/2)`.

use vstd::prelude::*;
use vstd::arithmetic::div_mod::lemma_fundamental_div_mod_converse_div;

verus! {

/// Side length of one square tile, in world units.
pub const TILE_SIZE: u32 = 32;

/// Width of the tile grid of the full map.
pub const MAP_WIDTH: u32 = 100;

/// Height of the tile grid of the full map.
pub const MAP_HEIGHT: u32 = 100;

/// Pixels per tile.
pub const TILE_AREA: u32 = 32 * 32;

/// Milli-units per world unit.
pub const MILLI: i64 = 1000;

/// One tile's side length in world milli-units.
pub const TILE_SIZE_MILLI: i64 = 32_000;

/// The sampling step between adjacent terrain pixels, in noise micro-units
/// (the classic per-pixel frequency of 0.0008 noise units).
pub const PIXEL_FREQ_MICRO: i64 = 800;

/// The sampling step between adjacent tiles for the nature noise field, in
/// noise micro-units (the classic per-tile frequency of 0.1 noise units).
pub const NATURE_FREQ_MICRO: i64 = 100_000;

/// An integer tile coordinate; a valid one satisfies
/// `x < MAP_WIDTH && y < MAP_HEIGHT`.
#[derive(Clone, Copy, Debug, PartialEq, Eq, Structural, Hash)]
pub struct TilePosition {
    pub x: u32,
    pub y: u32,
}

/// The world-space x of the center of grid column `x`, in milli-units.
pub open spec fn world_x_milli(x: int) -> int {
    x * 32_000 + 16_000
}

/// The world-space y of the center of grid row `y`, in milli-units; the
/// grid's y axis is flipped relative to world space.
pub open spec fn world_y_milli(y: int) -> int {
    (MAP_HEIGHT - 1 - y) * 32_000 + 16_000
}

/// The world-space center of a tile, in milli-units.
pub fn world_of_tile(pos: TilePosition) -> (w: (i64, i64))
    requires
        pos.x < MAP_WIDTH,
        pos.y < MAP_HEIGHT,
    ensures
        w.0 == world_x_milli(pos.x as int),
        w.1 == world_y_milli(pos.y as int),
        0 <= w.0 < 3_200_000,
        0 <= w.1 < 3_200_000,
{
    let wx: i64 = pos.x as i64 * 32_000 + 16_000;
    let wy: i64 = (MAP_HEIGHT - 1 - pos.y) as i64 * 32_000 + 16_000;
    (wx, wy)
}

/// The tile whose square contains the given world position.
pub fn tile_of_world(wx: i64, wy: i64) -> (pos: TilePosition)
    requires
        0 <= wx < 3_200_000,
        0 <= wy < 3_200_000,
    ensures
        pos.x == wx as int / 32_000,
        pos.y == MAP_HEIGHT - 1 - wy as int / 32_000,
        pos.x < MAP_WIDTH,
        pos.y < MAP_HEIGHT,
{
    let gx: i64 = wx / 32_000;
    let gy: i64 = wy / 32_000;
    proof {
        vstd::arithmetic::div_mod::lemma_div_pos_is_pos(wx as int, 32_000);
        vstd::arithmetic::div_mod::lemma_div_pos_is_pos(wy as int, 32_000);
        vstd::arithmetic::div_mod::lemma_multiply_divide_lt(wx as int, 32_000, 100);
        vstd::arithmetic::div_mod::lemma_multiply_divide_lt(wy as int, 32_000, 100);
    }
    TilePosition { x: gx as u32, y: (MAP_HEIGHT - 1) - gy as u32 }
}

/// Converting a tile coordinate to its world center and back recovers the
/// coordinate exactly, the y flip included.
pub proof fn lemma_coordinate_bijection(x: int, y: int)
    requires
        0 <= x < MAP_WIDTH,
        0 <= y < MAP_HEIGHT,
    ensures
        world_x_milli(x) / 32_000 == x,
        MAP_HEIGHT - 1 - world_y_milli(y) / 32_000 == y,
{
    lemma_fundamental_div_mod_converse_div(world_x_milli(x), 32_000, x, 16_000);
    lemma_fundamental_div_mod_converse_div(
        world_y_milli(y),
        32_000,
        MAP_HEIGHT - 1 - y,
        16_000,
    );
}

/// Executable round trip: `tile_of_world` inverts `world_of_tile`.
pub fn roundtrip_tile(pos: TilePosition) -> (back: TilePosition)
    requires
        pos.x < MAP_WIDTH,
        pos.y < MAP_HEIGHT,
    ensures
        back == pos,
{
    let w = world_of_tile(pos);
    proof {
        lemma_coordinate_bijection(pos.x as int, pos.y as int);
    }
    tile_of_world(w.0, w.1)
}

} // verus!
