//! The map builder: drives the classifier across the tile grid, assembles
//! per-tile pixel buffers with cosmetic jitter, and produces the
//! coordinate-indexed collection of typed tiles.
//!
//! Terrain noise enters as one flat sequence of fixed-point micro-unit
//! samples, one per pixel of the whole map in pixel-row-major order: the
//! sample for world pixel `(px, py)` sits at index `py * (width*32) + px`.
//! The classification of every tile is a mathematical function of the
//! biome and that sequence alone; the jitter stream only perturbs pixel
//! colors and is proved not to influence any tile's type.

use vstd::prelude::*;
use crate::biomes::{Biome, Color};
use crate::classify::{
    classify_counts_spec, classify_counts, colourize_noise, colourize_spec, count_kind,
    lemma_count_kind_total, match_kind, TileType,
};
use crate::coords::TilePosition;
use crate::map_components::{Tile, TileMap};
use crate::rng::rng_below;

verus! {

/// The noise sample that colors pixel `k` (row-major within the tile,
/// `0 <= k < 1024`) of the tile at grid coordinate `(x, y)`.
pub open spec fn tile_noise_at(noise: Seq<i64>, width: int, x: int, y: int, k: int) -> i64 {
    noise[(y * 32 + k / 32) * (width * 32) + x * 32 + k % 32]
}

/// The unjittered colors of one tile's pixels, in row-major order.
pub open spec fn tile_colors(b: Biome, noise: Seq<i64>, width: int, x: int, y: int) -> Seq<
    Color,
> {
    Seq::new(1024, |k: int| colourize_spec(b, tile_noise_at(noise, width, x, y, k) as int))
}


/// How many of the tile's pixels match reference kind `k` exactly.
pub open spec fn kind_count_spec(
    b: Biome,
    noise: Seq<i64>,
    width: int,
    x: int,
    y: int,
    k: TileType,
) -> nat {
    count_kind(b, tile_colors(b, noise, width, x, y), k)
}

/// The type the majority vote assigns to the tile at `(x, y)`.
pub open spec fn tile_type_spec(b: Biome, noise: Seq<i64>, width: int, x: int, y: int) -> TileType {
    classify_counts_spec(
        kind_count_spec(b, noise, width, x, y, TileType::Sea),
        kind_count_spec(b, noise, width, x, y, TileType::Shore),
        kind_count_spec(b, noise, width, x, y, TileType::Land),
        1024,
    )
}

/// The four bytes of pixel `k` hold the unjittered color's channels
/// shifted by at most the jitter amplitude of 8, clamped to byte range;
/// the alpha channel is never jittered.
pub open spec fn pixel_jittered(pix: Seq<u8>, c: Color, k: int) -> bool {
    &&& -8 <= pix[4 * k] - c.r <= 8
    &&& -8 <= pix[4 * k + 1] - c.g <= 8
    &&& -8 <= pix[4 * k + 2] - c.b <= 8
    &&& pix[4 * k + 3] == c.a
}

/// What `build_tile` decides for the tile at flat index `i` of the grid:
/// everything but the pixel jitter is a function of the biome and the
/// noise sequence.
pub open spec fn tile_built_from(
    t: Tile,
    b: Biome,
    noise: Seq<i64>,
    width: int,
    i: int,
) -> bool {
    let x = i % width;
    let y = i / width;
    &&& t.position.x == x
    &&& t.position.y == y
    &&& t.sea_count == kind_count_spec(b, noise, width, x, y, TileType::Sea)
    &&& t.shore_count == kind_count_spec(b, noise, width, x, y, TileType::Shore)
    &&& t.land_count == kind_count_spec(b, noise, width, x, y, TileType::Land)
    &&& t.tile_type == tile_type_spec(b, noise, width, x, y)
    &&& t.pixels@.len() == 4096
    &&& forall|k: int|
        0 <= k < 1024 ==> pixel_jittered(t.pixels@, tile_colors(b, noise, width, x, y)[k], k)
}

/// The deterministic relation between a finished map and its inputs: the
/// map's tiles are exactly the tiles the classifier derives from the
/// biome and the noise sequence, jitter aside.
pub open spec fn built_from(m: TileMap, b: Biome, noise: Seq<i64>) -> bool {
    &&& m.biome == b
    &&& 1 <= m.width <= 1000
    &&& 1 <= m.height <= 1000
    &&& noise.len() == (m.width * 32) * (m.height * 32)
    &&& m.tiles@.len() == m.width * m.height
    &&& forall|i: int|
        0 <= i < m.tiles@.len() ==> tile_built_from(
            #[trigger] m.tiles@[i],
            b,
            noise,
            m.width as int,
            i,
        )
}

/// Clamps one jittered channel to byte range.
fn jitter_channel(base: u8, jit: i32) -> (v: u8)
    requires
        -8 <= jit <= 8,
    ensures
        -8 <= v - base <= 8,
{
    let val: i32 = base as i32 + jit;
    if val < 0 {
        0
    } else if val > 255 {
        255
    } else {
        val as u8
    }
}

/// Builds one tile: colors its 1024 pixels from the noise sequence,
/// counts exact matches against the biome's sea and land colors, decides
/// the type by majority vote, and only then applies per-pixel jitter, so
/// the vote never sees a jittered color.
pub fn build_tile(
    biome: &Biome,
    width: u32,
    height: u32,
    x: u32,
    y: u32,
    noise: &Vec<i64>,
    rng: &mut rand::rngs::ThreadRng,
) -> (t: Tile)
    requires
        x < width,
        y < height,
        width <= 1000,
        height <= 1000,
        noise@.len() == (width * 32) * (height * 32),
    ensures
        t.position == (TilePosition { x, y }),
        t.sea_count == kind_count_spec(*biome, noise@, width as int, x as int, y as int, TileType::Sea),
        t.shore_count == kind_count_spec(*biome, noise@, width as int, x as int, y as int, TileType::Shore),
        t.land_count == kind_count_spec(*biome, noise@, width as int, x as int, y as int, TileType::Land),
        t.sea_count + t.shore_count + t.land_count == 1024,
        t.tile_type == tile_type_spec(*biome, noise@, width as int, x as int, y as int),
        t.pixels@.len() == 4096,
        forall|k: int|
            0 <= k < 1024 ==> pixel_jittered(
                t.pixels@,
                tile_colors(*biome, noise@, width as int, x as int, y as int)[k],
                k,
            ),
{
    let ghost tc = tile_colors(*biome, noise@, width as int, x as int, y as int);
    let n: usize = noise.len();
    let mut sea: u32 = 0;
    let mut shore: u32 = 0;
    let mut land: u32 = 0;
    let mut pixels: Vec<u8> = Vec::new();
    let mut k: usize = 0;
    while k < 1024
        invariant
            k <= 1024,
            x < width,
            y < height,
            width <= 1000,
            height <= 1000,
            n == noise@.len(),
            noise@.len() == (width * 32) * (height * 32),
            tc == tile_colors(*biome, noise@, width as int, x as int, y as int),
            sea == count_kind(*biome, tc.take(k as int), TileType::Sea),
            shore == count_kind(*biome, tc.take(k as int), TileType::Shore),
            land == count_kind(*biome, tc.take(k as int), TileType::Land),
            sea + shore + land == k,
            pixels@.len() == 4 * k,
            forall|k2: int| 0 <= k2 < k ==> pixel_jittered(pixels@, tc[k2], k2),
        decreases 1024 - k,
    {
        let px: usize = k % 32;
        let py: usize = k / 32;
        proof {
            assert(((y as int) * 32 + (py as int)) * ((width as int) * 32) + (x as int) * 32
                + (px as int) < ((width as int) * 32) * ((height as int) * 32))
                by (nonlinear_arith)
                requires
                    0 <= (y as int),
                    (y as int) < (height as int),
                    0 <= (py as int) < 32,
                    0 <= (x as int),
                    (x as int) < (width as int),
                    0 <= (px as int) < 32,
                    (width as int) >= 1;
            assert(((width as int) * 32) * ((height as int) * 32) <= 1_024_000_000)
                by (nonlinear_arith)
                requires
                    1 <= (width as int) <= 1000,
                    1 <= (height as int) <= 1000;
            assert(((y as int) * 32 + (py as int)) * ((width as int) * 32) >= 0)
                by (nonlinear_arith)
                requires
                    0 <= (y as int),
                    0 <= (py as int),
                    0 <= (width as int);
        }
        let idx: usize = (y as usize * 32 + py) * (width as usize * 32) + x as usize * 32 + px;
        proof {
            assert(idx as int == ((y as int) * 32 + (py as int)) * ((width as int) * 32) + (
            x as int) * 32 + (px as int));
        }
        let sample: i64 = noise[idx];
        proof {
            assert(sample == tile_noise_at(noise@, width as int, x as int, y as int, k as int));
            assert(tc[k as int] == colourize_spec(*biome, sample as int));
        }
        let c = colourize_noise(biome, sample);
        if c.r == biome.sea_color.r && c.g == biome.sea_color.g && c.b == biome.sea_color.b {
            sea = sea + 1;
        } else if c.r == biome.land_color.r && c.g == biome.land_color.g && c.b
            == biome.land_color.b {
            land = land + 1;
        } else {
            shore = shore + 1;
        }
        proof {
            assert(tc.take(k as int + 1).drop_last() =~= tc.take(k as int));
            assert(tc.take(k as int + 1).last() == tc[k as int]);
            assert(match_kind(*biome, tc[k as int]) == match_kind(*biome, c));
        }
        let jv: u32 = rng_below(rng, 17);
        let jit: i32 = jv as i32 - 8;
        let jr = jitter_channel(c.r, jit);
        let jg = jitter_channel(c.g, jit);
        let jb = jitter_channel(c.b, jit);
        pixels.push(jr);
        pixels.push(jg);
        pixels.push(jb);
        pixels.push(c.a);
        proof {
            assert(pixels@[4 * (k as int)] == jr);
            assert(pixels@[4 * (k as int) + 1] == jg);
            assert(pixels@[4 * (k as int) + 2] == jb);
            assert(pixels@[4 * (k as int) + 3] == c.a);
            assert(pixel_jittered(pixels@, tc[k as int], k as int));
        }
        k = k + 1;
    }
    proof {
        assert(tc.take(1024) =~= tc);
        lemma_count_kind_total(*biome, tc);
    }
    let tile_type = classify_counts(sea, shore, land, 1024);
    Tile {
        position: TilePosition { x, y },
        tile_type,
        sea_count: sea,
        shore_count: shore,
        land_count: land,
        pixels,
    }
}

/// Builds a `width x height` tile grid from a biome and one terrain noise
/// sample per pixel. The result is well formed, and everything except the
/// cosmetic pixel jitter is pinned as a function of the two inputs.
pub fn generate_map_region(
    biome: &Biome,
    width: u32,
    height: u32,
    noise: &Vec<i64>,
    rng: &mut rand::rngs::ThreadRng,
) -> (m: TileMap)
    requires
        1 <= width <= 1000,
        1 <= height <= 1000,
        noise@.len() == (width * 32) * (height * 32),
    ensures
        m.wf(),
        m.biome == *biome,
        m.width == width,
        m.height == height,
        built_from(m, *biome, noise@),
{
    proof {
        assert(1 <= (width as int) * (height as int) <= 1_000_000) by (nonlinear_arith)
            requires 1 <= (width as int) <= 1000 && 1 <= (height as int) <= 1000;
    }
    let total: usize = width as usize * height as usize;
    let mut tiles: Vec<Tile> = Vec::new();
    let mut i: usize = 0;
    while i < total
        invariant
            i <= total,
            total == width * height,
            1 <= width <= 1000,
            1 <= height <= 1000,
            noise@.len() == (width * 32) * (height * 32),
            tiles@.len() == i,
            forall|i2: int|
                0 <= i2 < i ==> tile_built_from(
                    #[trigger] tiles@[i2],
                    *biome,
                    noise@,
                    width as int,
                    i2,
                ),
        decreases total - i,
    {
        let x: u32 = (i % width as usize) as u32;
        let y: u32 = (i / width as usize) as u32;
        proof {
            vstd::arithmetic::div_mod::lemma_mod_bound(i as int, width as int);
            vstd::arithmetic::div_mod::lemma_fundamental_div_mod(i as int, width as int);
            assert((i as int) / (width as int) < height as int) by (nonlinear_arith)
                requires
                    0 <= (i as int),
                    (i as int) < (width as int) * (height as int),
                    (width as int) >= 1,
                    i as int == (width as int) * ((i as int) / (width as int)) + (i as int) % (
                    width as int),
                    0 <= (i as int) % (width as int) < (width as int);
        }
        let t = build_tile(biome, width, height, x, y, noise, rng);
        tiles.push(t);
        i = i + 1;
    }
    let m = TileMap { biome: *biome, width, height, tiles };
    proof {
        assert forall|i2: int| 0 <= i2 < m.tiles@.len() implies (#[trigger] m.tiles@[i2]).wf_at(
            m.width as int,
            i2,
        ) by {
            assert(tile_built_from(m.tiles@[i2], *biome, noise@, width as int, i2));
            let x = i2 % (width as int);
            let y = i2 / (width as int);
            lemma_count_kind_total(*biome, tile_colors(*biome, noise@, width as int, x, y));
        }
    }
    m
}

/// Builds the full 100 x 100 session map, as the startup sequencing step
/// does: one noise sample per pixel of the 3200 x 3200 world image.
pub fn generate_map(biome: &Biome, noise: &Vec<i64>, rng: &mut rand::rngs::ThreadRng) -> (m:
    TileMap)
    requires
        noise@.len() == 10_240_000,
    ensures
        m.wf(),
        m.biome == *biome,
        m.width == 100,
        m.height == 100,
        built_from(m, *biome, noise@),
{
    generate_map_region(biome, 100, 100, noise, rng)
}

/// Classification coverage: every tile of a built map carries exactly one
/// of the three tile types, decided by per-pixel match counts that cover
/// each of the tile's 1024 pixels exactly once.
pub proof fn lemma_classification_coverage(m: TileMap, b: Biome, noise: Seq<i64>)
    requires
        built_from(m, b, noise),
    ensures
        forall|i: int|
            0 <= i < m.tiles@.len() ==> {
                let t = #[trigger] m.tiles@[i];
                &&& t.sea_count + t.shore_count + t.land_count == 1024
                &&& (t.tile_type == TileType::Sea || t.tile_type == TileType::Shore
                    || t.tile_type == TileType::Land)
                &&& !(t.tile_type == TileType::Sea && t.tile_type == TileType::Shore)
                &&& !(t.tile_type == TileType::Sea && t.tile_type == TileType::Land)
                &&& !(t.tile_type == TileType::Shore && t.tile_type == TileType::Land)
            },
{
    assert forall|i: int| 0 <= i < m.tiles@.len() implies {
        let t = #[trigger] m.tiles@[i];
        &&& t.sea_count + t.shore_count + t.land_count == 1024
        &&& (t.tile_type == TileType::Sea || t.tile_type == TileType::Shore
            || t.tile_type == TileType::Land)
        &&& !(t.tile_type == TileType::Sea && t.tile_type == TileType::Shore)
        &&& !(t.tile_type == TileType::Sea && t.tile_type == TileType::Land)
        &&& !(t.tile_type == TileType::Shore && t.tile_type == TileType::Land)
    } by {
        assert(tile_built_from(m.tiles@[i], b, noise, m.width as int, i));
        let x = i % (m.width as int);
        let y = i / (m.width as int);
        lemma_count_kind_total(b, tile_colors(b, noise, m.width as int, x, y));
    }
}

/// Determinism of the build: two maps built from the same biome and the
/// same noise sequence agree on every tile's coordinate, match counts and
/// classification — only the cosmetic jitter may differ.
pub proof fn lemma_build_deterministic(m1: TileMap, m2: TileMap, b: Biome, noise: Seq<i64>)
    requires
        built_from(m1, b, noise),
        built_from(m2, b, noise),
        m1.width == m2.width,
        m1.height == m2.height,
    ensures
        m1.tiles@.len() == m2.tiles@.len(),
        forall|i: int|
            0 <= i < m1.tiles@.len() ==> {
                &&& (#[trigger] m1.tiles@[i]).position == m2.tiles@[i].position
                &&& m1.tiles@[i].tile_type == m2.tiles@[i].tile_type
                &&& m1.tiles@[i].sea_count == m2.tiles@[i].sea_count
                &&& m1.tiles@[i].shore_count == m2.tiles@[i].shore_count
                &&& m1.tiles@[i].land_count == m2.tiles@[i].land_count
            },
{
    assert forall|i: int| 0 <= i < m1.tiles@.len() implies {
        &&& (#[trigger] m1.tiles@[i]).position == m2.tiles@[i].position
        &&& m1.tiles@[i].tile_type == m2.tiles@[i].tile_type
        &&& m1.tiles@[i].sea_count == m2.tiles@[i].sea_count
        &&& m1.tiles@[i].shore_count == m2.tiles@[i].shore_count
        &&& m1.tiles@[i].land_count == m2.tiles@[i].land_count
    } by {
        assert(tile_built_from(m1.tiles@[i], b, noise, m1.width as int, i));
        assert(tile_built_from(m2.tiles@[i], b, noise, m2.width as int, i));
    }
}

} // verus!
