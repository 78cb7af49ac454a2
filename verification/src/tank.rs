//! Units: the vehicle attributes and spawning.
//!
//! A spawned unit starts at the world center of a free land tile: a tile
//! of type land that hosts no nature obstacle. When every land tile is
//! occupied, spawning does nothing — an empty result, not a failure.

use vstd::prelude::*;
use crate::classify::TileType;
use crate::coords::{world_of_tile, TilePosition};
use crate::map_components::{Nature, TileMap};
use crate::movement::{UnitState, POS_LIMIT_MILLI};
use crate::rng::rng_below;

verus! {

/// A unit's combat attributes: health points and speed in world units per
/// second.
#[derive(Clone, Copy, Debug, PartialEq, Eq, Structural)]
pub struct Vehicle {
    pub health: i32,
    pub speed: i32,
}

/// Whether the tile at flat index `i` can host a spawned unit: it is land
/// and no obstacle sits on its coordinate.
pub open spec fn spawnable_at(m: TileMap, nature: Seq<Nature>, i: int) -> bool {
    &&& m.tiles@[i].tile_type == TileType::Land
    &&& forall|j: int| 0 <= j < nature.len() ==> (#[trigger] nature[j]).position != m.tiles@[i].position
}

/// Whether a nature obstacle sits on the given coordinate.
fn occupied(nature: &Vec<Nature>, pos: TilePosition) -> (b: bool)
    ensures
        b == exists|j: int| 0 <= j < nature@.len() && (#[trigger] nature@[j]).position == pos,
{
    let mut j: usize = 0;
    let len: usize = nature.len();
    while j < len
        invariant
            j <= len,
            len == nature@.len(),
            forall|j2: int| 0 <= j2 < j ==> (#[trigger] nature@[j2]).position != pos,
        decreases len - j,
    {
        if nature[j].position.x == pos.x && nature[j].position.y == pos.y {
            proof {
                assert(nature@[j as int].position == pos);
            }
            return true;
        }
        j = j + 1;
    }
    false
}

/// Spawns a tank on a uniformly chosen free land tile of the full map,
/// at that tile's world center, idle, with the classic attributes of 100
/// health and speed 10. Returns nothing exactly when no free land tile
/// exists.
pub fn spawn_tank(map: &TileMap, nature: &Vec<Nature>, rng: &mut rand::rngs::ThreadRng) -> (r:
    Option<UnitState>)
    requires
        map.wf(),
        map.width <= 100,
        map.height <= 100,
    ensures
        r is None <==> (forall|i: int|
            0 <= i < map.tiles@.len() ==> !spawnable_at(*map, nature@, i)),
        r is Some ==> {
            let u = r->Some_0;
            &&& exists|i: int|
                0 <= i < map.tiles@.len() && #[trigger] spawnable_at(*map, nature@, i)
                    && u.x_milli == crate::coords::world_x_milli(
                    map.tiles@[i].position.x as int,
                ) && u.y_milli == crate::coords::world_y_milli(map.tiles@[i].position.y as int)
            &&& u.vehicle.health == 100
            &&& u.vehicle.speed == 10
            &&& u.target is None
            &&& -POS_LIMIT_MILLI <= u.x_milli <= POS_LIMIT_MILLI
            &&& -POS_LIMIT_MILLI <= u.y_milli <= POS_LIMIT_MILLI
        },
{
    let mut free: Vec<usize> = Vec::new();
    let len: usize = map.tiles.len();
    let mut i: usize = 0;
    while i < len
        invariant
            map.wf(),
            map.width <= 100,
            map.height <= 100,
            len == map.tiles@.len(),
            i <= len,
            free@.len() <= i,
            forall|k: int|
                0 <= k < free@.len() ==> 0 <= #[trigger] free@[k] < i && spawnable_at(
                    *map,
                    nature@,
                    free@[k] as int,
                ),
            forall|i2: int|
                0 <= i2 < i && spawnable_at(*map, nature@, i2) ==> exists|k: int|
                    0 <= k < free@.len() && #[trigger] free@[k] == i2,
        decreases len - i,
    {
        let t = &map.tiles[i];
        if matches!(t.tile_type, TileType::Land) && !occupied(nature, t.position) {
            let ghost old_free = free@;
            free.push(i);
            proof {
                assert forall|i2: int| 0 <= i2 < i + 1 && spawnable_at(*map, nature@, i2)
                    implies exists|k: int| 0 <= k < free@.len() && #[trigger] free@[k] == i2 by {
                    if i2 == i {
                        assert(free@[free@.len() - 1] == i2);
                    } else {
                        let k0 = choose|k: int| 0 <= k < old_free.len() && #[trigger] old_free[k]
                            == i2;
                        assert(free@[k0] == i2);
                    }
                }
            }
        }
        i = i + 1;
    }
    if free.len() == 0 {
        proof {
            assert forall|i2: int| 0 <= i2 < map.tiles@.len() implies !spawnable_at(
                *map,
                nature@,
                i2,
            ) by {
                if spawnable_at(*map, nature@, i2) {
                    let k = choose|k: int| 0 <= k < free@.len() && #[trigger] free@[k] == i2;
                }
            }
        }
        None
    } else {
        proof {
            assert(map.tiles@.len() <= 10_000) by (nonlinear_arith)
                requires
                    map.tiles@.len() == map.width * map.height,
                    map.width <= 100,
                    map.height <= 100;
        }
        let pick: usize = rng_below(rng, free.len() as u32) as usize;
        let idx: usize = free[pick];
        let t = &map.tiles[idx];
        proof {
            map.lemma_tile_coord(idx as int);
        }
        let w = world_of_tile(t.position);
        Some(
            UnitState {
                vehicle: Vehicle { health: 100, speed: 10 },
                x_milli: w.0,
                y_milli: w.1,
                target: None,
            },
        )
    }
}

} // verus!
