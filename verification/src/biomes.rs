//! The biome registry: a fixed, ordered table of four biome definitions,
//! each naming an asset directory and three reference colors (sea, shore,
//! land) that drive tile colorization and classification.

use vstd::prelude::*;
use crate::rng::rng_below;

verus! {

/// An RGBA color with 8-bit channels.
#[derive(Clone, Copy, Debug, PartialEq, Eq, Structural)]
pub struct Color {
    pub r: u8,
    pub g: u8,
    pub b: u8,
    pub a: u8,
}

/// The four biomes the registry knows, in registry order.
#[derive(Clone, Copy, Debug, PartialEq, Eq, Structural)]
pub enum BiomeKind {
    Alpine,
    Desert,
    Tundra,
    Alien,
}

/// An immutable biome definition. The asset directory is derived from
/// `kind` by [`Biome::asset_path`].
#[derive(Clone, Copy, Debug, PartialEq, Eq, Structural)]
pub struct Biome {
    pub kind: BiomeKind,
    pub sea_color: Color,
    pub shore_color: Color,
    pub land_color: Color,
}

pub open spec fn alpine_biome() -> Biome {
    Biome {
        kind: BiomeKind::Alpine,
        sea_color: Color { r: 120, g: 150, b: 220, a: 255 },
        shore_color: Color { r: 160, g: 130, b: 90, a: 255 },
        land_color: Color { r: 40, g: 80, b: 50, a: 255 },
    }
}

pub open spec fn desert_biome() -> Biome {
    Biome {
        kind: BiomeKind::Desert,
        sea_color: Color { r: 120, g: 150, b: 220, a: 255 },
        shore_color: Color { r: 130, g: 100, b: 60, a: 255 },
        land_color: Color { r: 160, g: 130, b: 90, a: 255 },
    }
}

pub open spec fn tundra_biome() -> Biome {
    Biome {
        kind: BiomeKind::Tundra,
        sea_color: Color { r: 120, g: 150, b: 220, a: 255 },
        shore_color: Color { r: 140, g: 145, b: 150, a: 255 },
        land_color: Color { r: 248, g: 248, b: 255, a: 255 },
    }
}

pub open spec fn alien_biome() -> Biome {
    Biome {
        kind: BiomeKind::Alien,
        sea_color: Color { r: 200, g: 50, b: 30, a: 255 },
        shore_color: Color { r: 65, g: 70, b: 75, a: 255 },
        land_color: Color { r: 25, g: 15, b: 35, a: 255 },
    }
}

/// The registry as an ordered sequence: Alpine, Desert, Tundra, Alien.
pub open spec fn all_biomes_seq() -> Seq<Biome> {
    seq![alpine_biome(), desert_biome(), tundra_biome(), alien_biome()]
}

pub fn alpine() -> (b: Biome)
    ensures
        b == alpine_biome(),
{
    Biome {
        kind: BiomeKind::Alpine,
        sea_color: Color { r: 120, g: 150, b: 220, a: 255 },
        shore_color: Color { r: 160, g: 130, b: 90, a: 255 },
        land_color: Color { r: 40, g: 80, b: 50, a: 255 },
    }
}

pub fn desert() -> (b: Biome)
    ensures
        b == desert_biome(),
{
    Biome {
        kind: BiomeKind::Desert,
        sea_color: Color { r: 120, g: 150, b: 220, a: 255 },
        shore_color: Color { r: 130, g: 100, b: 60, a: 255 },
        land_color: Color { r: 160, g: 130, b: 90, a: 255 },
    }
}

pub fn tundra() -> (b: Biome)
    ensures
        b == tundra_biome(),
{
    Biome {
        kind: BiomeKind::Tundra,
        sea_color: Color { r: 120, g: 150, b: 220, a: 255 },
        shore_color: Color { r: 140, g: 145, b: 150, a: 255 },
        land_color: Color { r: 248, g: 248, b: 255, a: 255 },
    }
}

pub fn alien() -> (b: Biome)
    ensures
        b == alien_biome(),
{
    Biome {
        kind: BiomeKind::Alien,
        sea_color: Color { r: 200, g: 50, b: 30, a: 255 },
        shore_color: Color { r: 65, g: 70, b: 75, a: 255 },
        land_color: Color { r: 25, g: 15, b: 35, a: 255 },
    }
}

/// The full registry, in registry order.
pub fn all_biomes() -> (v: Vec<Biome>)
    ensures
        v@ == all_biomes_seq(),
{
    let v = vec![alpine(), desert(), tundra(), alien()];
    proof {
        assert(v@ =~= all_biomes_seq());
    }
    v
}

impl Biome {
    /// The asset directory that sprites for this biome are loaded from.
    pub fn asset_path(&self) -> &'static str {
        match self.kind {
            BiomeKind::Alpine => "alpine/",
            BiomeKind::Desert => "desert/",
            BiomeKind::Tundra => "tundra/",
            BiomeKind::Alien => "alien/",
        }
    }
}

/// Picks one biome uniformly from the registry; the choice is random, so
/// only membership in the registry is promised.
pub fn get_random_biome(rng: &mut rand::rngs::ThreadRng) -> (b: Biome)
    ensures
        exists|i: int| 0 <= i < 4 && b == all_biomes_seq()[i],
{
    let r: u32 = rng_below(rng, 4);
    let b = if r == 0 {
        alpine()
    } else if r == 1 {
        desert()
    } else if r == 2 {
        tundra()
    } else {
        alien()
    };
    proof {
        if r == 0 {
            assert(b == all_biomes_seq()[0]);
        } else if r == 1 {
            assert(b == all_biomes_seq()[1]);
        } else if r == 2 {
            assert(b == all_biomes_seq()[2]);
        } else {
            assert(b == all_biomes_seq()[3]);
        }
    }
    b
}

} // verus!
