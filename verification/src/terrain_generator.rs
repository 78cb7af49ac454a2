//! The noise-averaging core of blended edge textures: a tile on a biome
//! boundary is textured from the average of its own noise sample and its
//! eight neighbors' samples.
//!
//! Neighbor offsets are clamped at the grid edges, so a corner tile
//! averages over duplicated border samples rather than reading outside
//! the grid. That clamping is specific to neighbor sampling: ordinary
//! tile lookups treat an out-of-range coordinate as a caller error.

use vstd::prelude::*;

verus! {

/// An index clamped into `[0, max]`.
pub open spec fn clamped_index(v: int, max: int) -> int {
    if v < 0 {
        0
    } else if v > max {
        max
    } else {
        v
    }
}

/// The per-tile noise sample at offset `(dx, dy)` from `(x, y)`, with the
/// offset target clamped onto the grid.
pub open spec fn clamped_sample_spec(
    noise: Seq<i64>,
    width: int,
    height: int,
    x: int,
    y: int,
    dx: int,
    dy: int,
) -> i64 {
    noise[clamped_index(y + dy, height - 1) * width + clamped_index(x + dx, width - 1)]
}

/// The sum of the nine clamped samples around `(x, y)`: the tile's own
/// and its eight neighbors'.
pub open spec fn neighbor_sum(noise: Seq<i64>, width: int, height: int, x: int, y: int) -> int {
    clamped_sample_spec(noise, width, height, x, y, -1, -1)
        + clamped_sample_spec(noise, width, height, x, y, 0, -1)
        + clamped_sample_spec(noise, width, height, x, y, 1, -1)
        + clamped_sample_spec(noise, width, height, x, y, -1, 0)
        + clamped_sample_spec(noise, width, height, x, y, 0, 0)
        + clamped_sample_spec(noise, width, height, x, y, 1, 0)
        + clamped_sample_spec(noise, width, height, x, y, -1, 1)
        + clamped_sample_spec(noise, width, height, x, y, 0, 1)
        + clamped_sample_spec(noise, width, height, x, y, 1, 1)
}

/// Integer division truncating toward zero, as the machine division of
/// the average does.
pub open spec fn truncated_div_9(sum: int) -> int {
    if sum >= 0 {
        sum / 9
    } else {
        -((-sum) / 9)
    }
}

/// One clamped per-tile sample.
fn clamped_sample(
    noise: &Vec<i64>,
    width: u32,
    height: u32,
    x: u32,
    y: u32,
    dx: i32,
    dy: i32,
) -> (r: i64)
    requires
        1 <= width <= 1000,
        1 <= height <= 1000,
        x < width,
        y < height,
        -1 <= dx <= 1,
        -1 <= dy <= 1,
        noise@.len() == width * height,
        forall|i: int|
            0 <= i < noise@.len() ==> -1_000_000 <= #[trigger] noise@[i] <= 1_000_000,
    ensures
        -1_000_000 <= r <= 1_000_000,
        r == clamped_sample_spec(
            noise@,
            width as int,
            height as int,
            x as int,
            y as int,
            dx as int,
            dy as int,
        ),
{
    let tx: i32 = x as i32 + dx;
    let ty: i32 = y as i32 + dy;
    let cx: u32 = if tx < 0 {
        0
    } else if tx > width as i32 - 1 {
        width - 1
    } else {
        tx as u32
    };
    let cy: u32 = if ty < 0 {
        0
    } else if ty > height as i32 - 1 {
        height - 1
    } else {
        ty as u32
    };
    proof {
        assert((cy as int) * (width as int) + (cx as int) < (width as int) * (height as int))
            by (nonlinear_arith)
            requires
                0 <= (cx as int) < (width as int),
                0 <= (cy as int) < (height as int),
                1 <= (width as int);
        assert((cy as int) * (width as int) >= 0) by (nonlinear_arith)
            requires 0 <= cy as int && 0 <= width as int;
    }
    let n: usize = noise.len();
    noise[cy as usize * width as usize + cx as usize]
}

/// The average noise over a tile and its eight clamp-adjusted neighbors,
/// truncated toward zero — the scalar a blended edge texture is keyed on.
pub fn blended_noise_average(
    noise: &Vec<i64>,
    width: u32,
    height: u32,
    x: u32,
    y: u32,
) -> (avg: i64)
    requires
        1 <= width <= 1000,
        1 <= height <= 1000,
        x < width,
        y < height,
        noise@.len() == width * height,
        forall|i: int|
            0 <= i < noise@.len() ==> -1_000_000 <= #[trigger] noise@[i] <= 1_000_000,
    ensures
        avg == truncated_div_9(
            neighbor_sum(noise@, width as int, height as int, x as int, y as int),
        ),
        -1_000_000 <= avg <= 1_000_000,
{
    let mut sum: i64 = 0;
    let s0: i64 = clamped_sample(noise, width, height, x, y, -1, -1);
    let s1: i64 = clamped_sample(noise, width, height, x, y, 0, -1);
    let s2: i64 = clamped_sample(noise, width, height, x, y, 1, -1);
    let s3: i64 = clamped_sample(noise, width, height, x, y, -1, 0);
    let s4: i64 = clamped_sample(noise, width, height, x, y, 0, 0);
    let s5: i64 = clamped_sample(noise, width, height, x, y, 1, 0);
    let s6: i64 = clamped_sample(noise, width, height, x, y, -1, 1);
    let s7: i64 = clamped_sample(noise, width, height, x, y, 0, 1);
    let s8: i64 = clamped_sample(noise, width, height, x, y, 1, 1);
    sum = s0 + s1 + s2 + s3 + s4 + s5 + s6 + s7 + s8;
    let avg: i64 = if sum >= 0 {
        sum / 9
    } else {
        -((-sum) / 9)
    };
    proof {
        if sum >= 0 {
            vstd::arithmetic::div_mod::lemma_div_pos_is_pos(sum as int, 9);
            vstd::arithmetic::div_mod::lemma_multiply_divide_le(sum as int, 9, 1_000_000);
        } else {
            vstd::arithmetic::div_mod::lemma_div_pos_is_pos(-(sum as int), 9);
            vstd::arithmetic::div_mod::lemma_multiply_divide_le(-(sum as int), 9, 1_000_000);
        }
    }
    avg
}

} // verus!
