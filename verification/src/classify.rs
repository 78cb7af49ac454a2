//! The tile classifier: maps a coherent-noise sample to a color by
//! four-band piecewise linear interpolation between the biome's reference
//! colors, and aggregates per-pixel color matches into one discrete tile
//! type by majority vote.
//!
//! Noise values are fixed-point micro-units: one million micro-units equal
//! one noise unit, so the classic thresholds -0.5, -0.4 and -0.38 become
//! -500_000, -400_000 and -380_000.

use vstd::prelude::*;
use vstd::arithmetic::div_mod::{
    lemma_div_is_ordered, lemma_div_plus_one, lemma_div_pos_is_pos,
    lemma_fundamental_div_mod_converse_div,
};
use crate::biomes::{Biome, Color};

verus! {

/// Below this noise value a pixel is pure sea color.
pub const SEA_THRESHOLD_MICRO: i64 = -500_000;

/// Between the sea and shore thresholds, sea color blends into shore color.
pub const SHORE_THRESHOLD_MICRO: i64 = -400_000;

/// Between the shore and land thresholds, shore color blends into land
/// color; at or above it a pixel is pure land color.
pub const LAND_THRESHOLD_MICRO: i64 = -380_000;

/// The discrete type of one tile.
#[derive(Clone, Copy, Debug, PartialEq, Eq, Structural)]
pub enum TileType {
    Sea,
    Shore,
    Land,
}

/// One channel of a linear blend from `a` (at `num == 0`) to `b`
/// (as `num` approaches `den`), rounded to the nearest integer.
pub open spec fn blend_channel(a: u8, b: u8, num: int, den: int) -> int
    recommends
        0 <= num < den,
{
    (a * (den - num) + b * num + den / 2) / den
}

/// A blended channel stays in byte range.
pub proof fn lemma_blend_channel_bounds(a: u8, b: u8, num: int, den: int)
    requires
        0 <= num < den,
    ensures
        0 <= blend_channel(a, b, num, den) <= 255,
{
    let numerator = a * (den - num) + b * num + den / 2;
    assert(0 <= a * (den - num) <= 255 * (den - num)) by (nonlinear_arith)
        requires 0 <= a <= 255 && 0 <= den - num;
    assert(0 <= b * num <= 255 * num) by (nonlinear_arith)
        requires 0 <= b <= 255 && 0 <= num;
    assert(numerator <= 255 * den + den / 2) by (nonlinear_arith)
        requires
            a * (den - num) <= 255 * (den - num),
            b * num <= 255 * num,
            numerator == a * (den - num) + b * num + den / 2;
    lemma_div_pos_is_pos(numerator, den);
    assert(numerator <= 256 * den - 1);
    lemma_div_is_ordered(numerator, 256 * den - 1, den);
    assert((256 * den - 1) / den == 255) by {
        lemma_fundamental_div_mod_converse_div(256 * den - 1, den, 255, den - 1);
    }
}

/// At the start of a band the blend is exactly the `a` color channel.
pub proof fn lemma_blend_channel_at_start(a: u8, b: u8, den: int)
    requires
        0 < den,
    ensures
        blend_channel(a, b, 0, den) == a,
{
    assert(a * (den - 0) + b * 0 + den / 2 == a * den + den / 2);
    lemma_fundamental_div_mod_converse_div(a * den + den / 2, den, a as int, den / 2);
}

/// Just below the end of a band the blend is exactly the `b` color
/// channel, provided the band is wide enough that rounding absorbs the
/// one-step difference.
pub proof fn lemma_blend_channel_at_end(a: u8, b: u8, den: int)
    requires
        512 <= den,
    ensures
        blend_channel(a, b, den - 1, den) == b,
{
    let numerator = a * (den - (den - 1)) + b * (den - 1) + den / 2;
    assert(numerator == b * den + (den / 2 + a - b)) by (nonlinear_arith)
        requires numerator == a * 1 + b * (den - 1) + den / 2;
    assert(0 <= den / 2 + a - b < den) by {
        lemma_div_is_ordered(512, den, 2);
        assert(512int / 2 == 256);
        assert(den == 2 * (den / 2) + den % 2) by {
            vstd::arithmetic::div_mod::lemma_fundamental_div_mod(den, 2);
        }
        assert(0 <= den % 2 < 2) by {
            vstd::arithmetic::div_mod::lemma_mod_bound(den, 2);
        }
    }
    lemma_fundamental_div_mod_converse_div(numerator, den, b as int, den / 2 + a - b);
}

/// Two adjacent positions in a band blend to channels at most one apart.
pub proof fn lemma_blend_channel_step(a: u8, b: u8, num: int, den: int)
    requires
        0 <= num,
        num + 1 < den,
        255 < den,
    ensures
        blend_channel(a, b, num, den) - 1
            <= blend_channel(a, b, num + 1, den)
            <= blend_channel(a, b, num, den) + 1,
{
    let n1 = a * (den - num) + b * num + den / 2;
    let n2 = a * (den - (num + 1)) + b * (num + 1) + den / 2;
    assert(n2 == n1 + b - a) by (nonlinear_arith)
        requires
            n1 == a * (den - num) + b * num + den / 2,
            n2 == a * (den - (num + 1)) + b * (num + 1) + den / 2;
    assert(-255 <= b - a <= 255);
    assert(den >= 2);
    if b >= a {
        lemma_div_is_ordered(n1, n2, den);
        lemma_div_is_ordered(n2, n1 + den, den);
        lemma_div_plus_one(n1, den);
    } else {
        lemma_div_is_ordered(n2, n1, den);
        lemma_div_is_ordered(n1, n2 + den, den);
        lemma_div_plus_one(n2, den);
    }
}

/// The color a noise sample maps to: pure sea below the sea threshold,
/// a sea-to-shore blend, then a shore-to-land blend, then pure land.
/// Blended pixels have their alpha forced to 255.
pub open spec fn colourize_spec(b: Biome, n: int) -> Color {
    if n < SEA_THRESHOLD_MICRO {
        b.sea_color
    } else if n < SHORE_THRESHOLD_MICRO {
        let num = n - SEA_THRESHOLD_MICRO;
        let den = (SHORE_THRESHOLD_MICRO - SEA_THRESHOLD_MICRO) as int;
        Color {
            r: blend_channel(b.sea_color.r, b.shore_color.r, num, den) as u8,
            g: blend_channel(b.sea_color.g, b.shore_color.g, num, den) as u8,
            b: blend_channel(b.sea_color.b, b.shore_color.b, num, den) as u8,
            a: 255,
        }
    } else if n < LAND_THRESHOLD_MICRO {
        let num = n - SHORE_THRESHOLD_MICRO;
        let den = (LAND_THRESHOLD_MICRO - SHORE_THRESHOLD_MICRO) as int;
        Color {
            r: blend_channel(b.shore_color.r, b.land_color.r, num, den) as u8,
            g: blend_channel(b.shore_color.g, b.land_color.g, num, den) as u8,
            b: blend_channel(b.shore_color.b, b.land_color.b, num, den) as u8,
            a: 255,
        }
    } else {
        b.land_color
    }
}

/// One blended channel, in executable form.
fn blend(a: u8, b: u8, num: u32, den: u32) -> (c: u8)
    requires
        num < den,
        den <= 100_000,
    ensures
        c as int == blend_channel(a, b, num as int, den as int),
{
    proof {
        lemma_blend_channel_bounds(a, b, num as int, den as int);
        assert((a as u32) * (den - num) <= 255 * 100_000) by (nonlinear_arith)
            requires a <= 255 && den - num <= 100_000;
        assert((b as u32) * num <= 255 * 100_000) by (nonlinear_arith)
            requires b <= 255 && num < 100_000;
    }
    let numerator: u32 = (a as u32) * (den - num) + (b as u32) * num + den / 2;
    (numerator / den) as u8
}

/// Maps a noise sample to its color for the given biome.
///
/// The four bands are keyed on the three thresholds; within a band each
/// channel is `round(a*(1-t) + b*t)` for `t = num/den`, computed exactly
/// in integers.
pub fn colourize_noise(biome: &Biome, noise_micro: i64) -> (c: Color)
    ensures
        c == colourize_spec(*biome, noise_micro as int),
{
    if noise_micro < SEA_THRESHOLD_MICRO {
        biome.sea_color
    } else if noise_micro < SHORE_THRESHOLD_MICRO {
        let num = (noise_micro - SEA_THRESHOLD_MICRO) as u32;
        let den = (SHORE_THRESHOLD_MICRO - SEA_THRESHOLD_MICRO) as u32;
        proof {
            lemma_blend_channel_bounds(biome.sea_color.r, biome.shore_color.r, num as int, den as int);
            lemma_blend_channel_bounds(biome.sea_color.g, biome.shore_color.g, num as int, den as int);
            lemma_blend_channel_bounds(biome.sea_color.b, biome.shore_color.b, num as int, den as int);
        }
        Color {
            r: blend(biome.sea_color.r, biome.shore_color.r, num, den),
            g: blend(biome.sea_color.g, biome.shore_color.g, num, den),
            b: blend(biome.sea_color.b, biome.shore_color.b, num, den),
            a: 255,
        }
    } else if noise_micro < LAND_THRESHOLD_MICRO {
        let num = (noise_micro - SHORE_THRESHOLD_MICRO) as u32;
        let den = (LAND_THRESHOLD_MICRO - SHORE_THRESHOLD_MICRO) as u32;
        proof {
            lemma_blend_channel_bounds(biome.shore_color.r, biome.land_color.r, num as int, den as int);
            lemma_blend_channel_bounds(biome.shore_color.g, biome.land_color.g, num as int, den as int);
            lemma_blend_channel_bounds(biome.shore_color.b, biome.land_color.b, num as int, den as int);
        }
        Color {
            r: blend(biome.shore_color.r, biome.land_color.r, num, den),
            g: blend(biome.shore_color.g, biome.land_color.g, num, den),
            b: blend(biome.shore_color.b, biome.land_color.b, num, den),
            a: 255,
        }
    } else {
        biome.land_color
    }
}

/// Colorization is continuous everywhere, the threshold boundaries
/// included: two adjacent noise samples map to colors whose red, green and
/// blue channels each differ by at most one rounding unit.
pub proof fn lemma_colourize_continuous(b: Biome, n: int)
    ensures
        -1 <= colourize_spec(b, n + 1).r - colourize_spec(b, n).r <= 1,
        -1 <= colourize_spec(b, n + 1).g - colourize_spec(b, n).g <= 1,
        -1 <= colourize_spec(b, n + 1).b - colourize_spec(b, n).b <= 1,
{
    let sea_den = (SHORE_THRESHOLD_MICRO - SEA_THRESHOLD_MICRO) as int;
    let shore_den = (LAND_THRESHOLD_MICRO - SHORE_THRESHOLD_MICRO) as int;
    if n + 1 < SEA_THRESHOLD_MICRO || n >= LAND_THRESHOLD_MICRO {
        // both samples fall in the same pure band
    } else if n + 1 == SEA_THRESHOLD_MICRO {
        lemma_blend_channel_at_start(b.sea_color.r, b.shore_color.r, sea_den);
        lemma_blend_channel_at_start(b.sea_color.g, b.shore_color.g, sea_den);
        lemma_blend_channel_at_start(b.sea_color.b, b.shore_color.b, sea_den);
    } else if n + 1 < SHORE_THRESHOLD_MICRO {
        let num = n - SEA_THRESHOLD_MICRO;
        lemma_blend_channel_bounds(b.sea_color.r, b.shore_color.r, num, sea_den);
        lemma_blend_channel_bounds(b.sea_color.g, b.shore_color.g, num, sea_den);
        lemma_blend_channel_bounds(b.sea_color.b, b.shore_color.b, num, sea_den);
        lemma_blend_channel_bounds(b.sea_color.r, b.shore_color.r, num + 1, sea_den);
        lemma_blend_channel_bounds(b.sea_color.g, b.shore_color.g, num + 1, sea_den);
        lemma_blend_channel_bounds(b.sea_color.b, b.shore_color.b, num + 1, sea_den);
        lemma_blend_channel_step(b.sea_color.r, b.shore_color.r, num, sea_den);
        lemma_blend_channel_step(b.sea_color.g, b.shore_color.g, num, sea_den);
        lemma_blend_channel_step(b.sea_color.b, b.shore_color.b, num, sea_den);
    } else if n + 1 == SHORE_THRESHOLD_MICRO {
        lemma_blend_channel_at_end(b.sea_color.r, b.shore_color.r, sea_den);
        lemma_blend_channel_at_end(b.sea_color.g, b.shore_color.g, sea_den);
        lemma_blend_channel_at_end(b.sea_color.b, b.shore_color.b, sea_den);
        lemma_blend_channel_at_start(b.shore_color.r, b.land_color.r, shore_den);
        lemma_blend_channel_at_start(b.shore_color.g, b.land_color.g, shore_den);
        lemma_blend_channel_at_start(b.shore_color.b, b.land_color.b, shore_den);
    } else if n + 1 < LAND_THRESHOLD_MICRO {
        let num = n - SHORE_THRESHOLD_MICRO;
        lemma_blend_channel_bounds(b.shore_color.r, b.land_color.r, num, shore_den);
        lemma_blend_channel_bounds(b.shore_color.g, b.land_color.g, num, shore_den);
        lemma_blend_channel_bounds(b.shore_color.b, b.land_color.b, num, shore_den);
        lemma_blend_channel_bounds(b.shore_color.r, b.land_color.r, num + 1, shore_den);
        lemma_blend_channel_bounds(b.shore_color.g, b.land_color.g, num + 1, shore_den);
        lemma_blend_channel_bounds(b.shore_color.b, b.land_color.b, num + 1, shore_den);
        lemma_blend_channel_step(b.shore_color.r, b.land_color.r, num, shore_den);
        lemma_blend_channel_step(b.shore_color.g, b.land_color.g, num, shore_den);
        lemma_blend_channel_step(b.shore_color.b, b.land_color.b, num, shore_den);
    } else {
        // n + 1 == LAND_THRESHOLD_MICRO
        lemma_blend_channel_at_end(b.shore_color.r, b.land_color.r, shore_den);
        lemma_blend_channel_at_end(b.shore_color.g, b.land_color.g, shore_den);
        lemma_blend_channel_at_end(b.shore_color.b, b.land_color.b, shore_den);
    }
}

/// Which reference color a pixel's red, green and blue channels match
/// exactly: sea is checked first, then land; everything else counts as
/// shore-leaning.
pub open spec fn match_kind(b: Biome, c: Color) -> TileType {
    if c.r == b.sea_color.r && c.g == b.sea_color.g && c.b == b.sea_color.b {
        TileType::Sea
    } else if c.r == b.land_color.r && c.g == b.land_color.g && c.b == b.land_color.b {
        TileType::Land
    } else {
        TileType::Shore
    }
}

/// How many pixels of `s` match reference kind `k`.
pub open spec fn count_kind(b: Biome, s: Seq<Color>, k: TileType) -> nat
    decreases s.len(),
{
    if s.len() == 0 {
        0
    } else {
        count_kind(b, s.drop_last(), k) + if match_kind(b, s.last()) == k { 1nat } else { 0nat }
    }
}

/// Every pixel matches exactly one kind, so the three counts always sum
/// to the number of pixels.
pub proof fn lemma_count_kind_total(b: Biome, s: Seq<Color>)
    ensures
        count_kind(b, s, TileType::Sea) + count_kind(b, s, TileType::Shore)
            + count_kind(b, s, TileType::Land) == s.len(),
    decreases s.len(),
{
    if s.len() > 0 {
        lemma_count_kind_total(b, s.drop_last());
    }
}

/// The majority vote over the per-pixel counts: checks are applied in the
/// order sea, shore, land, each against half the pixel count, and the vote
/// defaults to land when no count reaches that threshold.
pub open spec fn classify_counts_spec(sea: nat, shore: nat, land: nat, total: nat) -> TileType {
    if sea >= total / 2 {
        TileType::Sea
    } else if shore >= total / 2 {
        TileType::Shore
    } else if land >= total / 2 {
        TileType::Land
    } else {
        TileType::Land
    }
}

/// Decides a tile's type from its per-pixel match counts.
pub fn classify_counts(sea: u32, shore: u32, land: u32, total: u32) -> (t: TileType)
    ensures
        t == classify_counts_spec(sea as nat, shore as nat, land as nat, total as nat),
{
    let half: u32 = total / 2;
    if sea >= half {
        TileType::Sea
    } else if shore >= half {
        TileType::Shore
    } else {
        TileType::Land
    }
}

} // verus!
