use tilemap::coords::{roundtrip_tile, tile_of_world, world_of_tile, TilePosition};

#[test]
fn world_center_applies_the_y_flip() {
    // grid row 0 renders at the top of the world's y range
    let top = world_of_tile(TilePosition { x: 0, y: 0 });
    assert_eq!(top.0, 16_000);
    assert_eq!(top.1, (99 * 32 + 16) * 1000);
    let bottom = world_of_tile(TilePosition { x: 0, y: 99 });
    assert_eq!(bottom.1, 16_000);
}

#[test]
fn world_center_is_the_tile_middle() {
    let w = world_of_tile(TilePosition { x: 3, y: 97 });
    assert_eq!(w.0, (3 * 32 + 16) * 1000);
    assert_eq!(w.1, (2 * 32 + 16) * 1000);
}

#[test]
fn coordinate_round_trip_recovers_every_corner() {
    for pos in [
        TilePosition { x: 0, y: 0 },
        TilePosition { x: 99, y: 0 },
        TilePosition { x: 0, y: 99 },
        TilePosition { x: 99, y: 99 },
        TilePosition { x: 50, y: 37 },
        TilePosition { x: 1, y: 98 },
    ] {
        assert_eq!(roundtrip_tile(pos), pos);
        let w = world_of_tile(pos);
        assert_eq!(tile_of_world(w.0, w.1), pos);
    }
}

#[test]
fn every_grid_coordinate_round_trips() {
    for x in 0..100u32 {
        for y in 0..100u32 {
            let pos = TilePosition { x, y };
            let w = world_of_tile(pos);
            assert_eq!(tile_of_world(w.0, w.1), pos);
        }
    }
}

#[test]
fn tile_of_world_maps_any_point_inside_the_square() {
    // any world point strictly inside a tile's square maps to that tile
    let pos = TilePosition { x: 7, y: 42 };
    let w = world_of_tile(pos);
    assert_eq!(tile_of_world(w.0 - 15_999, w.1 + 15_999), pos);
    assert_eq!(tile_of_world(w.0 + 15_999, w.1 - 15_999), pos);
}
