//! The tile map's data model: tiles with their classification and pixel
//! buffers, typed per-tile records for consumers, and nature obstacles.

use vstd::prelude::*;
use crate::biomes::Biome;
use crate::classify::{classify_counts_spec, TileType};
use crate::coords::TilePosition;

verus! {

/// A tile known to be sea.
#[derive(Clone, Copy, Debug, PartialEq, Eq, Structural)]
pub struct SeaTile {
    pub position: TilePosition,
}

/// A tile known to be shore.
#[derive(Clone, Copy, Debug, PartialEq, Eq, Structural)]
pub struct ShoreTile {
    pub position: TilePosition,
}

/// A tile known to be land.
#[derive(Clone, Copy, Debug, PartialEq, Eq, Structural)]
pub struct LandTile {
    pub position: TilePosition,
}

/// The kind of a decorative nature obstacle.
#[derive(Clone, Copy, Debug, PartialEq, Eq, Structural)]
pub enum NatureKind {
    Rock,
    Tree,
}

/// A permanent movement obstacle placed on a land tile.
#[derive(Clone, Copy, Debug, PartialEq, Eq, Structural)]
pub struct Nature {
    pub position: TilePosition,
    pub kind: NatureKind,
}

/// One generated tile: its grid coordinate, the per-pixel match counts the
/// majority vote saw, the resulting type, and the RGBA pixel buffer
/// (`4 * TILE_AREA` bytes, cosmetic jitter included).
#[derive(Clone, Debug)]
pub struct Tile {
    pub position: TilePosition,
    pub tile_type: TileType,
    pub sea_count: u32,
    pub shore_count: u32,
    pub land_count: u32,
    pub pixels: Vec<u8>,
}

impl Tile {
    /// Internal consistency of one tile at flat index `i` of a grid
    /// `width` tiles wide: the coordinate matches the index, the counts
    /// cover every pixel exactly once, and the type is the majority vote
    /// over the counts.
    pub open spec fn wf_at(self, width: int, i: int) -> bool {
        &&& self.position.x == i % width
        &&& self.position.y == i / width
        &&& self.sea_count + self.shore_count + self.land_count == 1024
        &&& self.tile_type == classify_counts_spec(
            self.sea_count as nat,
            self.shore_count as nat,
            self.land_count as nat,
            1024,
        )
        &&& self.pixels@.len() == 4096
    }
}

/// The completed, immutable-after-build map: the chosen biome and one tile
/// per grid coordinate, in row-major order.
#[derive(Clone, Debug)]
pub struct TileMap {
    pub biome: Biome,
    pub width: u32,
    pub height: u32,
    pub tiles: Vec<Tile>,
}

impl TileMap {
    /// Well-formedness: one tile per coordinate, each internally
    /// consistent and stored at its row-major index.
    pub open spec fn wf(self) -> bool {
        &&& 1 <= self.width
        &&& 1 <= self.height
        &&& self.tiles@.len() == self.width * self.height
        &&& forall|i: int|
            0 <= i < self.tiles@.len() ==> (#[trigger] self.tiles@[i]).wf_at(
                self.width as int,
                i,
            )
    }

    /// Whether a coordinate lies on the grid.
    pub open spec fn in_bounds(self, x: int, y: int) -> bool {
        0 <= x < self.width && 0 <= y < self.height
    }

    /// The row-major index of a coordinate.
    pub open spec fn index_of(self, x: int, y: int) -> int {
        y * self.width + x
    }

    /// The type of the tile at a coordinate.
    pub open spec fn tile_type_at(self, x: int, y: int) -> TileType {
        self.tiles@[self.index_of(x, y)].tile_type
    }

    /// A coordinate on the grid has a row-major index inside the tile
    /// vector, and the tile there carries that coordinate.
    pub proof fn lemma_index_of_in_bounds(self, x: int, y: int)
        requires
            self.wf(),
            self.in_bounds(x, y),
        ensures
            0 <= self.index_of(x, y) < self.tiles@.len(),
            self.tiles@[self.index_of(x, y)].position.x == x,
            self.tiles@[self.index_of(x, y)].position.y == y,
    {
        let w = self.width as int;
        let i = self.index_of(x, y);
        assert(y * w + x < self.tiles@.len()) by (nonlinear_arith)
            requires
                0 <= x < w,
                0 <= y,
                y < self.height,
                self.tiles@.len() == self.width * self.height,
                w == self.width;
        assert(self.tiles@[i].wf_at(w, i));
        vstd::arithmetic::div_mod::lemma_fundamental_div_mod_converse(i, w, y, x);
    }

    /// Looks a tile up by its grid coordinate. An out-of-range coordinate
    /// is a caller error, ruled out by the precondition rather than
    /// silently clamped.
    pub fn tile_at(&self, x: u32, y: u32) -> (t: &Tile)
        requires
            self.wf(),
            x < self.width,
            y < self.height,
        ensures
            t == self.tiles@[self.index_of(x as int, y as int)],
            t.position.x == x,
            t.position.y == y,
            t.tile_type == self.tile_type_at(x as int, y as int),
    {
        proof {
            self.lemma_index_of_in_bounds(x as int, y as int);
            assert((y as int) * (self.width as int) + (x as int) < self.tiles@.len());
            assert(y as int * self.width as int >= 0) by (nonlinear_arith)
                requires y >= 0 && self.width >= 0;
        }
        let n: usize = self.tiles.len();
        let i: usize = y as usize * self.width as usize + x as usize;
        &self.tiles[i]
    }

    /// All sea tiles, as typed records in row-major order.
    pub fn sea_tiles(&self) -> (r: Vec<SeaTile>)
        requires
            self.wf(),
        ensures
            forall|j: int|
                0 <= j < r@.len() ==> {
                    let p = (#[trigger] r@[j]).position;
                    &&& self.in_bounds(p.x as int, p.y as int)
                    &&& self.tile_type_at(p.x as int, p.y as int) == TileType::Sea
                },
            forall|i: int|
                0 <= i < self.tiles@.len()
                    && (#[trigger] self.tiles@[i]).tile_type == TileType::Sea
                    ==> exists|j: int|
                        0 <= j < r@.len() && (#[trigger] r@[j]).position
                            == self.tiles@[i].position,
            forall|j1: int, j2: int|
                0 <= j1 < j2 < r@.len() ==> self.index_of(
                    (#[trigger] r@[j1]).position.x as int,
                    r@[j1].position.y as int,
                ) < self.index_of(
                    (#[trigger] r@[j2]).position.x as int,
                    r@[j2].position.y as int,
                ),
    {
        let mut r: Vec<SeaTile> = Vec::new();
        let mut i: usize = 0;
        let len: usize = self.tiles.len();
        while i < len
            invariant
                self.wf(),
                len == self.tiles@.len(),
                i <= len,
                forall|j: int|
                    0 <= j < r@.len() ==> {
                        let p = (#[trigger] r@[j]).position;
                        &&& self.in_bounds(p.x as int, p.y as int)
                        &&& self.tile_type_at(p.x as int, p.y as int) == TileType::Sea
                    },
                forall|i2: int|
                    0 <= i2 < i && (#[trigger] self.tiles@[i2]).tile_type == TileType::Sea
                        ==> exists|j: int|
                            0 <= j < r@.len() && (#[trigger] r@[j]).position
                                == self.tiles@[i2].position,
                forall|j: int|
                    0 <= j < r@.len() ==> self.index_of(
                        (#[trigger] r@[j]).position.x as int,
                        r@[j].position.y as int,
                    ) < i,
                forall|j1: int, j2: int|
                    0 <= j1 < j2 < r@.len() ==> self.index_of(
                        (#[trigger] r@[j1]).position.x as int,
                        r@[j1].position.y as int,
                    ) < self.index_of(
                        (#[trigger] r@[j2]).position.x as int,
                        r@[j2].position.y as int,
                    ),
            decreases len - i,
        {
            let t = &self.tiles[i];
            proof {
                self.lemma_tile_coord(i as int);
            }
            if matches!(t.tile_type, TileType::Sea) {
                let ghost old_r = r@;
                r.push(SeaTile { position: t.position });
                proof {
                    assert forall|i2: int|
                        0 <= i2 < i + 1
                            && (#[trigger] self.tiles@[i2]).tile_type == TileType::Sea
                        implies exists|j: int|
                            0 <= j < r@.len() && (#[trigger] r@[j]).position
                                == self.tiles@[i2].position by {
                        if i2 == i {
                            assert(r@[r@.len() - 1].position == self.tiles@[i2].position);
                        } else {
                            let j0 = choose|j: int|
                                0 <= j < old_r.len() && (#[trigger] old_r[j]).position
                                    == self.tiles@[i2].position;
                            assert(r@[j0].position == self.tiles@[i2].position);
                        }
                    }
                }
            }
            i = i + 1;
        }
        r
    }

    /// All shore tiles, as typed records in row-major order.
    pub fn shore_tiles(&self) -> (r: Vec<ShoreTile>)
        requires
            self.wf(),
        ensures
            forall|j: int|
                0 <= j < r@.len() ==> {
                    let p = (#[trigger] r@[j]).position;
                    &&& self.in_bounds(p.x as int, p.y as int)
                    &&& self.tile_type_at(p.x as int, p.y as int) == TileType::Shore
                },
            forall|i: int|
                0 <= i < self.tiles@.len()
                    && (#[trigger] self.tiles@[i]).tile_type == TileType::Shore
                    ==> exists|j: int|
                        0 <= j < r@.len() && (#[trigger] r@[j]).position
                            == self.tiles@[i].position,
            forall|j1: int, j2: int|
                0 <= j1 < j2 < r@.len() ==> self.index_of(
                    (#[trigger] r@[j1]).position.x as int,
                    r@[j1].position.y as int,
                ) < self.index_of(
                    (#[trigger] r@[j2]).position.x as int,
                    r@[j2].position.y as int,
                ),
    {
        let mut r: Vec<ShoreTile> = Vec::new();
        let mut i: usize = 0;
        let len: usize = self.tiles.len();
        while i < len
            invariant
                self.wf(),
                len == self.tiles@.len(),
                i <= len,
                forall|j: int|
                    0 <= j < r@.len() ==> {
                        let p = (#[trigger] r@[j]).position;
                        &&& self.in_bounds(p.x as int, p.y as int)
                        &&& self.tile_type_at(p.x as int, p.y as int) == TileType::Shore
                    },
                forall|i2: int|
                    0 <= i2 < i && (#[trigger] self.tiles@[i2]).tile_type == TileType::Shore
                        ==> exists|j: int|
                            0 <= j < r@.len() && (#[trigger] r@[j]).position
                                == self.tiles@[i2].position,
                forall|j: int|
                    0 <= j < r@.len() ==> self.index_of(
                        (#[trigger] r@[j]).position.x as int,
                        r@[j].position.y as int,
                    ) < i,
                forall|j1: int, j2: int|
                    0 <= j1 < j2 < r@.len() ==> self.index_of(
                        (#[trigger] r@[j1]).position.x as int,
                        r@[j1].position.y as int,
                    ) < self.index_of(
                        (#[trigger] r@[j2]).position.x as int,
                        r@[j2].position.y as int,
                    ),
            decreases len - i,
        {
            let t = &self.tiles[i];
            proof {
                self.lemma_tile_coord(i as int);
            }
            if matches!(t.tile_type, TileType::Shore) {
                let ghost old_r = r@;
                r.push(ShoreTile { position: t.position });
                proof {
                    assert forall|i2: int|
                        0 <= i2 < i + 1
                            && (#[trigger] self.tiles@[i2]).tile_type == TileType::Shore
                        implies exists|j: int|
                            0 <= j < r@.len() && (#[trigger] r@[j]).position
                                == self.tiles@[i2].position by {
                        if i2 == i {
                            assert(r@[r@.len() - 1].position == self.tiles@[i2].position);
                        } else {
                            let j0 = choose|j: int|
                                0 <= j < old_r.len() && (#[trigger] old_r[j]).position
                                    == self.tiles@[i2].position;
                            assert(r@[j0].position == self.tiles@[i2].position);
                        }
                    }
                }
            }
            i = i + 1;
        }
        r
    }

    /// All land tiles, as typed records in row-major order.
    pub fn land_tiles(&self) -> (r: Vec<LandTile>)
        requires
            self.wf(),
        ensures
            forall|j: int|
                0 <= j < r@.len() ==> {
                    let p = (#[trigger] r@[j]).position;
                    &&& self.in_bounds(p.x as int, p.y as int)
                    &&& self.tile_type_at(p.x as int, p.y as int) == TileType::Land
                },
            forall|i: int|
                0 <= i < self.tiles@.len()
                    && (#[trigger] self.tiles@[i]).tile_type == TileType::Land
                    ==> exists|j: int|
                        0 <= j < r@.len() && (#[trigger] r@[j]).position
                            == self.tiles@[i].position,
            forall|j1: int, j2: int|
                0 <= j1 < j2 < r@.len() ==> self.index_of(
                    (#[trigger] r@[j1]).position.x as int,
                    r@[j1].position.y as int,
                ) < self.index_of(
                    (#[trigger] r@[j2]).position.x as int,
                    r@[j2].position.y as int,
                ),
    {
        let mut r: Vec<LandTile> = Vec::new();
        let mut i: usize = 0;
        let len: usize = self.tiles.len();
        while i < len
            invariant
                self.wf(),
                len == self.tiles@.len(),
                i <= len,
                forall|j: int|
                    0 <= j < r@.len() ==> {
                        let p = (#[trigger] r@[j]).position;
                        &&& self.in_bounds(p.x as int, p.y as int)
                        &&& self.tile_type_at(p.x as int, p.y as int) == TileType::Land
                    },
                forall|i2: int|
                    0 <= i2 < i && (#[trigger] self.tiles@[i2]).tile_type == TileType::Land
                        ==> exists|j: int|
                            0 <= j < r@.len() && (#[trigger] r@[j]).position
                                == self.tiles@[i2].position,
                forall|j: int|
                    0 <= j < r@.len() ==> self.index_of(
                        (#[trigger] r@[j]).position.x as int,
                        r@[j].position.y as int,
                    ) < i,
                forall|j1: int, j2: int|
                    0 <= j1 < j2 < r@.len() ==> self.index_of(
                        (#[trigger] r@[j1]).position.x as int,
                        r@[j1].position.y as int,
                    ) < self.index_of(
                        (#[trigger] r@[j2]).position.x as int,
                        r@[j2].position.y as int,
                    ),
            decreases len - i,
        {
            let t = &self.tiles[i];
            proof {
                self.lemma_tile_coord(i as int);
            }
            if matches!(t.tile_type, TileType::Land) {
                let ghost old_r = r@;
                r.push(LandTile { position: t.position });
                proof {
                    assert forall|i2: int|
                        0 <= i2 < i + 1
                            && (#[trigger] self.tiles@[i2]).tile_type == TileType::Land
                        implies exists|j: int|
                            0 <= j < r@.len() && (#[trigger] r@[j]).position
                                == self.tiles@[i2].position by {
                        if i2 == i {
                            assert(r@[r@.len() - 1].position == self.tiles@[i2].position);
                        } else {
                            let j0 = choose|j: int|
                                0 <= j < old_r.len() && (#[trigger] old_r[j]).position
                                    == self.tiles@[i2].position;
                            assert(r@[j0].position == self.tiles@[i2].position);
                        }
                    }
                }
            }
            i = i + 1;
        }
        r
    }

    /// The tile stored at flat index `i` carries the coordinate whose
    /// row-major index is `i`.
    pub proof fn lemma_tile_coord(self, i: int)
        requires
            self.wf(),
            0 <= i < self.tiles@.len(),
        ensures
            self.in_bounds(self.tiles@[i].position.x as int, self.tiles@[i].position.y as int),
            self.index_of(self.tiles@[i].position.x as int, self.tiles@[i].position.y as int)
                == i,
            self.tile_type_at(
                self.tiles@[i].position.x as int,
                self.tiles@[i].position.y as int,
            ) == self.tiles@[i].tile_type,
    {
        let w = self.width as int;
        assert(self.tiles@[i].wf_at(w, i));
        vstd::arithmetic::div_mod::lemma_fundamental_div_mod(i, w);
        vstd::arithmetic::div_mod::lemma_mod_bound(i, w);
        assert(i / w < self.height) by (nonlinear_arith)
            requires
                0 <= i,
                w >= 1,
                i < w * self.height,
                i == w * (i / w) + i % w,
                0 <= i % w < w;
    }
}

} // verus!
