use tilemap::coords::{world_of_tile, TilePosition};
use tilemap::map_components::{Nature, NatureKind, SeaTile};
use tilemap::movement::{isqrt, move_units, set_move_target, MoveTarget, UnitState};
use tilemap::tank::Vehicle;

fn unit_at(x: i64, y: i64) -> UnitState {
    UnitState {
        vehicle: Vehicle { health: 100, speed: 10 },
        x_milli: x,
        y_milli: y,
        target: None,
    }
}

#[test]
fn isqrt_matches_known_squares() {
    assert_eq!(isqrt(0), 0);
    assert_eq!(isqrt(1), 1);
    assert_eq!(isqrt(3), 1);
    assert_eq!(isqrt(4), 2);
    assert_eq!(isqrt(999_999), 999);
    assert_eq!(isqrt(1_000_000), 1000);
    assert_eq!(isqrt(u64::MAX), 4_294_967_295);
}

#[test]
fn set_move_target_starts_moving_in_place() {
    let mut u = unit_at(5000, 6000);
    set_move_target(&mut u, MoveTarget { x_milli: 9000, y_milli: 9000 });
    assert_eq!(u.target, Some(MoveTarget { x_milli: 9000, y_milli: 9000 }));
    assert_eq!((u.x_milli, u.y_milli), (5000, 6000));
}

#[test]
fn unit_within_tolerance_arrives_in_one_tick() {
    let mut u = unit_at(100_000, 100_000);
    // 0.5 world units away on each axis: distance ~0.707 <= 1.0
    set_move_target(&mut u, MoveTarget { x_milli: 100_500, y_milli: 100_500 });
    let after = move_units(&vec![u], &Vec::new(), &Vec::new(), 16);
    assert_eq!(after.len(), 1);
    assert_eq!(after[0].target, None);
    assert_eq!((after[0].x_milli, after[0].y_milli), (100_000, 100_000));
}

#[test]
fn zero_distance_target_is_immediate_arrival() {
    let mut u = unit_at(250_000, 250_000);
    set_move_target(&mut u, MoveTarget { x_milli: 250_000, y_milli: 250_000 });
    let after = move_units(&vec![u], &Vec::new(), &Vec::new(), 16);
    assert_eq!(after[0].target, None);
    assert_eq!((after[0].x_milli, after[0].y_milli), (250_000, 250_000));
}

#[test]
fn idle_unit_is_untouched() {
    let u = unit_at(1234, 5678);
    let after = move_units(&vec![u], &Vec::new(), &Vec::new(), 16);
    assert_eq!(after[0], u);
}

#[test]
fn moving_unit_steps_at_speed_times_elapsed() {
    let mut u = unit_at(0, 0);
    set_move_target(&mut u, MoveTarget { x_milli: 10_000, y_milli: 0 });
    // speed 10 units/s for 100 ms: exactly 1 world unit = 1000 milli
    let after = move_units(&vec![u], &Vec::new(), &Vec::new(), 100);
    assert_eq!((after[0].x_milli, after[0].y_milli), (1000, 0));
    assert_eq!(after[0].target, Some(MoveTarget { x_milli: 10_000, y_milli: 0 }));
}

#[test]
fn blocked_step_clears_target_and_keeps_position() {
    let sea_pos = TilePosition { x: 0, y: 0 };
    let sea_center = world_of_tile(sea_pos);
    let sea = vec![SeaTile { position: sea_pos }];
    // adjacent to the sea tile: 37 world units from its center
    let mut u = unit_at(sea_center.0 + 37_000, sea_center.1);
    // the target lies at the sea tile's center, well beyond the radius
    set_move_target(&mut u, MoveTarget { x_milli: sea_center.0, y_milli: sea_center.1 });
    // a tick whose candidate lands inside the collision radius
    let mut fast = u;
    fast.vehicle.speed = 100;
    let after = move_units(&vec![fast], &sea, &Vec::new(), 100);
    assert_eq!(after[0].target, None);
    assert_eq!((after[0].x_milli, after[0].y_milli), (u.x_milli, u.y_milli));
}

#[test]
fn unit_never_crosses_into_the_sea_radius() {
    let sea_pos = TilePosition { x: 3, y: 7 };
    let sea_center = world_of_tile(sea_pos);
    let sea = vec![SeaTile { position: sea_pos }];
    let mut u = unit_at(sea_center.0 + 40_000, sea_center.1);
    set_move_target(&mut u, MoveTarget { x_milli: sea_center.0 - 60_000, y_milli: sea_center.1 });
    let mut units = vec![u];
    // tick until the unit goes idle (arrives or is blocked)
    for _ in 0..2000 {
        units = move_units(&units, &sea, &Vec::new(), 16);
        let dx = units[0].x_milli - sea_center.0;
        let dy = units[0].y_milli - sea_center.1;
        assert!(dx * dx + dy * dy >= 32_000 * 32_000);
        if units[0].target.is_none() {
            break;
        }
    }
    // the path runs straight through the sea tile, so the step was blocked
    assert_eq!(units[0].target, None);
    assert!(units[0].x_milli >= sea_center.0 + 32_000);
}

#[test]
fn nature_obstacles_block_movement_too() {
    let rock_pos = TilePosition { x: 5, y: 5 };
    let rock_center = world_of_tile(rock_pos);
    let nature = vec![Nature { position: rock_pos, kind: NatureKind::Rock }];
    let mut u = unit_at(rock_center.0 - 33_000, rock_center.1);
    set_move_target(&mut u, MoveTarget { x_milli: rock_center.0, y_milli: rock_center.1 });
    let mut fast = u;
    fast.vehicle.speed = 100;
    let after = move_units(&vec![fast], &Vec::new(), &nature, 100);
    assert_eq!(after[0].target, None);
    assert_eq!(after[0].x_milli, u.x_milli);
}
