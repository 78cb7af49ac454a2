use tilemap::biomes::{all_biomes, desert, get_random_biome, BiomeKind, Color};

#[test]
fn registry_holds_four_biomes_in_order() {
    let v = all_biomes();
    assert_eq!(v.len(), 4);
    assert_eq!(v[0].kind, BiomeKind::Alpine);
    assert_eq!(v[1].kind, BiomeKind::Desert);
    assert_eq!(v[2].kind, BiomeKind::Tundra);
    assert_eq!(v[3].kind, BiomeKind::Alien);
}

#[test]
fn desert_reference_colors_are_exact() {
    let b = desert();
    assert_eq!(b.sea_color, Color { r: 120, g: 150, b: 220, a: 255 });
    assert_eq!(b.shore_color, Color { r: 130, g: 100, b: 60, a: 255 });
    assert_eq!(b.land_color, Color { r: 160, g: 130, b: 90, a: 255 });
}

#[test]
fn asset_paths_follow_the_biome_kind() {
    let v = all_biomes();
    assert_eq!(v[0].asset_path(), "alpine/");
    assert_eq!(v[1].asset_path(), "desert/");
    assert_eq!(v[2].asset_path(), "tundra/");
    assert_eq!(v[3].asset_path(), "alien/");
}

#[test]
fn random_biome_is_always_a_registry_member() {
    let table = all_biomes();
    let mut rng = rand::thread_rng();
    for _ in 0..100 {
        let b = get_random_biome(&mut rng);
        assert!(table.iter().any(|t| *t == b));
    }
}
