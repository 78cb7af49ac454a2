//! Nature placement: a second, independently seeded noise field over the
//! tile grid decides which land tiles host a decorative obstacle. Rocks
//! come from the narrow band (0.1, 0.11) of noise units — exclusive at
//! both edges — and trees from values above 0.8; both bands are
//! hand-tuned and kept exactly. At most one obstacle per tile, and only
//! ever on land.
//!
//! The nature noise enters as one fixed-point micro-unit sample per tile,
//! in the same row-major order as the tiles.

use vstd::prelude::*;
use crate::classify::TileType;
use crate::map_components::{Nature, NatureKind, TileMap};

verus! {

/// Which obstacle a nature noise sample places, if any: a rock inside the
/// open band (100_000, 110_000) micro-units, a tree above 800_000.
pub open spec fn nature_kind_of(n: i64) -> Option<NatureKind> {
    if 100_000 < n && n < 110_000 {
        Some(NatureKind::Rock)
    } else if n > 800_000 {
        Some(NatureKind::Tree)
    } else {
        None
    }
}

/// The obstacles placed on the first `n` tiles, in tile order: one per
/// land tile whose nature sample falls in a band, none elsewhere.
pub open spec fn nature_spec(m: TileMap, noise: Seq<i64>, n: int) -> Seq<Nature>
    decreases n,
{
    if n <= 0 {
        Seq::empty()
    } else {
        let prefix = nature_spec(m, noise, n - 1);
        let t = m.tiles@[n - 1];
        if t.tile_type == TileType::Land {
            match nature_kind_of(noise[n - 1]) {
                Some(k) => prefix.push(Nature { position: t.position, kind: k }),
                None => prefix,
            }
        } else {
            prefix
        }
    }
}

/// Places the nature obstacles for a completed map: the result is exactly
/// the deterministic selection `nature_spec` makes from the map and the
/// per-tile nature noise.
pub fn place_nature(map: &TileMap, noise: &Vec<i64>) -> (obs: Vec<Nature>)
    requires
        map.wf(),
        noise@.len() == map.tiles@.len(),
    ensures
        obs@ == nature_spec(*map, noise@, map.tiles@.len() as int),
{
    let mut obs: Vec<Nature> = Vec::new();
    let len: usize = map.tiles.len();
    let mut i: usize = 0;
    while i < len
        invariant
            map.wf(),
            noise@.len() == map.tiles@.len(),
            len == map.tiles@.len(),
            i <= len,
            obs@ == nature_spec(*map, noise@, i as int),
        decreases len - i,
    {
        let t = &map.tiles[i];
        if matches!(t.tile_type, TileType::Land) {
            let s: i64 = noise[i];
            if s > 100_000 && s < 110_000 {
                obs.push(Nature { position: t.position, kind: NatureKind::Rock });
            } else if s > 800_000 {
                obs.push(Nature { position: t.position, kind: NatureKind::Tree });
            }
        }
        proof {
            assert(obs@ == nature_spec(*map, noise@, i as int + 1));
        }
        i = i + 1;
    }
    obs
}

/// Obstacles are exclusive to land: every placed obstacle sits on a tile
/// of type land, so no coordinate carries both a sea or shore tile and a
/// nature obstacle; and no two obstacles share a coordinate.
pub proof fn lemma_nature_exclusive(m: TileMap, noise: Seq<i64>, n: int)
    requires
        m.wf(),
        0 <= n <= m.tiles@.len(),
    ensures
        forall|j: int|
            0 <= j < nature_spec(m, noise, n).len() ==> {
                let p = (#[trigger] nature_spec(m, noise, n)[j]).position;
                &&& m.in_bounds(p.x as int, p.y as int)
                &&& m.index_of(p.x as int, p.y as int) < n
                &&& m.tile_type_at(p.x as int, p.y as int) == TileType::Land
                &&& m.tile_type_at(p.x as int, p.y as int) != TileType::Sea
                &&& m.tile_type_at(p.x as int, p.y as int) != TileType::Shore
            },
        forall|j1: int, j2: int|
            0 <= j1 < j2 < nature_spec(m, noise, n).len()
                ==> m.index_of(
                (#[trigger] nature_spec(m, noise, n)[j1]).position.x as int,
                nature_spec(m, noise, n)[j1].position.y as int,
            ) < m.index_of(
                (#[trigger] nature_spec(m, noise, n)[j2]).position.x as int,
                nature_spec(m, noise, n)[j2].position.y as int,
            ),
    decreases n,
{
    if n > 0 {
        lemma_nature_exclusive(m, noise, n - 1);
        let prefix = nature_spec(m, noise, n - 1);
        let cur = nature_spec(m, noise, n);
        m.lemma_tile_coord(n - 1);
        if cur.len() > prefix.len() {
            assert(cur == prefix.push(cur.last()));
            assert(cur.last().position == m.tiles@[n - 1].position);
            assert forall|j: int| 0 <= j < cur.len() implies {
                let p = (#[trigger] cur[j]).position;
                &&& m.in_bounds(p.x as int, p.y as int)
                &&& m.index_of(p.x as int, p.y as int) < n
                &&& m.tile_type_at(p.x as int, p.y as int) == TileType::Land
            } by {
                if j < prefix.len() {
                    assert(cur[j] == prefix[j]);
                }
            }
        }
    }
}

} // verus!
