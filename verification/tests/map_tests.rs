use noise::{NoiseFn, Perlin};
use tilemap::biomes::{desert, tundra};
use tilemap::classify::{colourize_noise, TileType};
use tilemap::map_builder::generate_map_region;

/// One terrain noise sample per pixel of a `width x height` tile region,
/// in pixel-row-major order, at the classic per-pixel frequency of
/// 0.0008 noise units, converted to fixed-point micro-units.
fn sample_region(seed: u32, width: u32, height: u32) -> Vec<i64> {
    let perlin = Perlin::new(seed);
    let mut out = Vec::with_capacity((width * height * 1024) as usize);
    for py in 0..height * 32 {
        for px in 0..width * 32 {
            let v = perlin.get([px as f64 * 0.0008, py as f64 * 0.0008]);
            out.push((v * 1_000_000.0).round() as i64);
        }
    }
    out
}

#[test]
fn build_is_deterministic_for_a_fixed_seed_and_biome() {
    let b = desert();
    let n1 = sample_region(42, 4, 4);
    let n2 = sample_region(42, 4, 4);
    assert_eq!(n1, n2);
    let mut rng = rand::thread_rng();
    let m1 = generate_map_region(&b, 4, 4, &n1, &mut rng);
    let m2 = generate_map_region(&b, 4, 4, &n2, &mut rng);
    assert_eq!(m1.tiles.len(), m2.tiles.len());
    for (t1, t2) in m1.tiles.iter().zip(m2.tiles.iter()) {
        assert_eq!(t1.position, t2.position);
        assert_eq!(t1.tile_type, t2.tile_type);
        assert_eq!(t1.sea_count, t2.sea_count);
        assert_eq!(t1.shore_count, t2.shore_count);
        assert_eq!(t1.land_count, t2.land_count);
    }
}

#[test]
fn every_tile_has_counts_covering_all_pixels() {
    let b = tundra();
    let noise = sample_region(7, 3, 5);
    let mut rng = rand::thread_rng();
    let m = generate_map_region(&b, 3, 5, &noise, &mut rng);
    assert_eq!(m.tiles.len(), 15);
    for t in m.tiles.iter() {
        assert_eq!(t.sea_count + t.shore_count + t.land_count, 1024);
        assert_eq!(t.pixels.len(), 4096);
    }
}

#[test]
fn tile_lookup_returns_the_tile_at_that_coordinate() {
    let b = desert();
    let noise = sample_region(3, 4, 3);
    let mut rng = rand::thread_rng();
    let m = generate_map_region(&b, 4, 3, &noise, &mut rng);
    for y in 0..3u32 {
        for x in 0..4u32 {
            let t = m.tile_at(x, y);
            assert_eq!(t.position.x, x);
            assert_eq!(t.position.y, y);
        }
    }
}

#[test]
fn typed_tile_views_partition_the_grid() {
    let b = desert();
    let noise = sample_region(42, 5, 5);
    let mut rng = rand::thread_rng();
    let m = generate_map_region(&b, 5, 5, &noise, &mut rng);
    let sea = m.sea_tiles();
    let shore = m.shore_tiles();
    let land = m.land_tiles();
    assert_eq!(sea.len() + shore.len() + land.len(), 25);
    for s in sea.iter() {
        assert_eq!(m.tile_at(s.position.x, s.position.y).tile_type, TileType::Sea);
    }
    for s in shore.iter() {
        assert_eq!(m.tile_at(s.position.x, s.position.y).tile_type, TileType::Shore);
    }
    for l in land.iter() {
        assert_eq!(m.tile_at(l.position.x, l.position.y).tile_type, TileType::Land);
    }
}

#[test]
fn counts_and_type_match_a_recount_of_the_noise() {
    let b = desert();
    let width = 2u32;
    let height = 2u32;
    let noise = sample_region(42, width, height);
    let mut rng = rand::thread_rng();
    let m = generate_map_region(&b, width, height, &noise, &mut rng);
    for t in m.tiles.iter() {
        let (mut sea, mut shore, mut land) = (0u32, 0u32, 0u32);
        for k in 0..1024u32 {
            let px = t.position.x * 32 + k % 32;
            let py = t.position.y * 32 + k / 32;
            let sample = noise[(py * width * 32 + px) as usize];
            let c = colourize_noise(&b, sample);
            if (c.r, c.g, c.b) == (b.sea_color.r, b.sea_color.g, b.sea_color.b) {
                sea += 1;
            } else if (c.r, c.g, c.b) == (b.land_color.r, b.land_color.g, b.land_color.b) {
                land += 1;
            } else {
                shore += 1;
            }
        }
        assert_eq!(t.sea_count, sea);
        assert_eq!(t.shore_count, shore);
        assert_eq!(t.land_count, land);
        let half = 512;
        let expected = if sea >= half {
            TileType::Sea
        } else if shore >= half {
            TileType::Shore
        } else {
            TileType::Land
        };
        assert_eq!(t.tile_type, expected);
    }
}

#[test]
fn jitter_shifts_pixels_by_at_most_eight_and_keeps_alpha() {
    let b = desert();
    let width = 2u32;
    let height = 1u32;
    let noise = sample_region(11, width, height);
    let mut rng = rand::thread_rng();
    let m = generate_map_region(&b, width, height, &noise, &mut rng);
    for t in m.tiles.iter() {
        for k in 0..1024u32 {
            let px = t.position.x * 32 + k % 32;
            let py = t.position.y * 32 + k / 32;
            let sample = noise[(py * width * 32 + px) as usize];
            let c = colourize_noise(&b, sample);
            let at = (4 * k) as usize;
            assert!((t.pixels[at] as i32 - c.r as i32).abs() <= 8);
            assert!((t.pixels[at + 1] as i32 - c.g as i32).abs() <= 8);
            assert!((t.pixels[at + 2] as i32 - c.b as i32).abs() <= 8);
            assert_eq!(t.pixels[at + 3], c.a);
        }
    }
}

#[test]
fn flat_noise_classifies_whole_tiles() {
    let b = desert();
    let mut rng = rand::thread_rng();
    // every pixel deep below the sea threshold
    let sea_map = generate_map_region(&b, 1, 1, &vec![-700_000i64; 1024], &mut rng);
    assert_eq!(sea_map.tiles[0].tile_type, TileType::Sea);
    assert_eq!(sea_map.tiles[0].sea_count, 1024);
    // every pixel above the land threshold
    let land_map = generate_map_region(&b, 1, 1, &vec![0i64; 1024], &mut rng);
    assert_eq!(land_map.tiles[0].tile_type, TileType::Land);
    assert_eq!(land_map.tiles[0].land_count, 1024);
    // every pixel inside the shore-to-land blend band
    let shore_map = generate_map_region(&b, 1, 1, &vec![-390_000i64; 1024], &mut rng);
    assert_eq!(shore_map.tiles[0].tile_type, TileType::Shore);
    assert_eq!(shore_map.tiles[0].shore_count, 1024);
}

#[test]
fn half_sea_half_land_tile_votes_sea_first() {
    let b = desert();
    let mut rng = rand::thread_rng();
    // exactly half the pixels are pure sea, half pure land: the vote
    // checks sea before land, so the tie goes to sea
    let mut noise = vec![-700_000i64; 512];
    noise.extend(vec![0i64; 512]);
    let m = generate_map_region(&b, 1, 1, &noise, &mut rng);
    assert_eq!(m.tiles[0].sea_count, 512);
    assert_eq!(m.tiles[0].land_count, 512);
    assert_eq!(m.tiles[0].tile_type, TileType::Sea);
}
