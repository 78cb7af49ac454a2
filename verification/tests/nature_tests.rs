use noise::{NoiseFn, Perlin};
use tilemap::biomes::desert;
use tilemap::classify::TileType;
use tilemap::map_builder::generate_map_region;
use tilemap::map_components::NatureKind;
use tilemap::nature::place_nature;

/// An all-land (or all-sea) noise buffer for a `width x height` region.
fn flat_noise(width: u32, height: u32, value: i64) -> Vec<i64> {
    vec![value; (width * height * 1024) as usize]
}

#[test]
fn rock_band_is_exclusive_at_both_edges() {
    let b = desert();
    let mut rng = rand::thread_rng();
    // one land tile; probe the rock band edge by edge
    let m = generate_map_region(&b, 1, 1, &flat_noise(1, 1, 0), &mut rng);
    assert_eq!(m.tiles[0].tile_type, TileType::Land);
    for (sample, expected) in [
        (100_000i64, None),
        (100_001, Some(NatureKind::Rock)),
        (109_999, Some(NatureKind::Rock)),
        (110_000, None),
        (105_000, Some(NatureKind::Rock)),
    ] {
        let obs = place_nature(&m, &vec![sample]);
        match expected {
            None => assert!(obs.is_empty()),
            Some(kind) => {
                assert_eq!(obs.len(), 1);
                assert_eq!(obs[0].kind, kind);
                assert_eq!((obs[0].position.x, obs[0].position.y), (0, 0));
            }
        }
    }
}

#[test]
fn tree_band_starts_strictly_above_its_edge() {
    let b = desert();
    let mut rng = rand::thread_rng();
    let m = generate_map_region(&b, 1, 1, &flat_noise(1, 1, 0), &mut rng);
    for (sample, expected) in [
        (800_000i64, None),
        (800_001, Some(NatureKind::Tree)),
        (1_000_000, Some(NatureKind::Tree)),
        (500_000, None),
        (-900_000, None),
    ] {
        let obs = place_nature(&m, &vec![sample]);
        match expected {
            None => assert!(obs.is_empty()),
            Some(kind) => {
                assert_eq!(obs.len(), 1);
                assert_eq!(obs[0].kind, kind);
            }
        }
    }
}

#[test]
fn sea_tiles_never_host_nature() {
    let b = desert();
    let mut rng = rand::thread_rng();
    // an all-sea tile: every pixel below the sea threshold
    let m = generate_map_region(&b, 1, 1, &flat_noise(1, 1, -800_000), &mut rng);
    assert_eq!(m.tiles[0].tile_type, TileType::Sea);
    // nature noise squarely in the tree band, yet nothing is placed
    let obs = place_nature(&m, &vec![900_000]);
    assert!(obs.is_empty());
}

#[test]
fn nature_is_exclusive_with_sea_and_shore_tiles() {
    let b = desert();
    let width = 5u32;
    let height = 5u32;
    let perlin = Perlin::new(42);
    let mut terrain = Vec::new();
    for py in 0..height * 32 {
        for px in 0..width * 32 {
            let v = perlin.get([px as f64 * 0.0008, py as f64 * 0.0008]);
            terrain.push((v * 1_000_000.0).round() as i64);
        }
    }
    let mut rng = rand::thread_rng();
    let m = generate_map_region(&b, width, height, &terrain, &mut rng);
    // a second, independently seeded field, one sample per tile
    let nature_field = Perlin::new(7);
    let mut nature_noise = Vec::new();
    for y in 0..height {
        for x in 0..width {
            let v = nature_field.get([x as f64 * 0.1, y as f64 * 0.1]);
            nature_noise.push((v * 1_000_000.0).round() as i64);
        }
    }
    let obs = place_nature(&m, &nature_noise);
    for o in obs.iter() {
        assert_eq!(m.tile_at(o.position.x, o.position.y).tile_type, TileType::Land);
    }
    // at most one obstacle per coordinate
    for (i, a) in obs.iter().enumerate() {
        for b2 in obs.iter().skip(i + 1) {
            assert!(a.position != b2.position);
        }
    }
    let sea = m.sea_tiles();
    let shore = m.shore_tiles();
    for o in obs.iter() {
        assert!(sea.iter().all(|s| s.position != o.position));
        assert!(shore.iter().all(|s| s.position != o.position));
    }
}
