use tilemap::biomes::{alien, alpine, desert, tundra, Biome, Color};
use tilemap::classify::{
    classify_counts, colourize_noise, TileType, LAND_THRESHOLD_MICRO, SEA_THRESHOLD_MICRO,
    SHORE_THRESHOLD_MICRO,
};

#[test]
fn colourize_below_sea_threshold_is_pure_sea() {
    let b = desert();
    let c = colourize_noise(&b, -600_000);
    assert_eq!(c, Color { r: 120, g: 150, b: 220, a: 255 });
}

#[test]
fn colourize_above_land_threshold_is_pure_land() {
    let b = desert();
    let c = colourize_noise(&b, 0);
    assert_eq!(c, Color { r: 160, g: 130, b: 90, a: 255 });
    let c2 = colourize_noise(&b, LAND_THRESHOLD_MICRO);
    assert_eq!(c2, Color { r: 160, g: 130, b: 90, a: 255 });
}

#[test]
fn colourize_sea_band_midpoint_blends_half_and_half() {
    let b = desert();
    // halfway between -0.5 and -0.4: each channel is round((sea + shore) / 2)
    let c = colourize_noise(&b, -450_000);
    assert_eq!(c, Color { r: 125, g: 125, b: 140, a: 255 });
}

#[test]
fn colourize_at_sea_threshold_equals_sea_color() {
    for b in [alpine(), desert(), tundra(), alien()] {
        let c = colourize_noise(&b, SEA_THRESHOLD_MICRO);
        assert_eq!((c.r, c.g, c.b), (b.sea_color.r, b.sea_color.g, b.sea_color.b));
        assert_eq!(c.a, 255);
    }
}

fn channel_gap(a: Color, b: Color) -> i32 {
    let dr = (a.r as i32 - b.r as i32).abs();
    let dg = (a.g as i32 - b.g as i32).abs();
    let db = (a.b as i32 - b.b as i32).abs();
    dr.max(dg).max(db)
}

fn check_continuity_at(b: &Biome, boundary: i64) {
    let below = colourize_noise(b, boundary - 1);
    let at = colourize_noise(b, boundary);
    let above = colourize_noise(b, boundary + 1);
    assert!(channel_gap(below, at) <= 1);
    assert!(channel_gap(at, above) <= 1);
}

#[test]
fn colourize_is_continuous_at_every_threshold() {
    for b in [alpine(), desert(), tundra(), alien()] {
        check_continuity_at(&b, SEA_THRESHOLD_MICRO);
        check_continuity_at(&b, SHORE_THRESHOLD_MICRO);
        check_continuity_at(&b, LAND_THRESHOLD_MICRO);
    }
}

#[test]
fn classify_majority_picks_each_type() {
    assert_eq!(classify_counts(1024, 0, 0, 1024), TileType::Sea);
    assert_eq!(classify_counts(0, 1024, 0, 1024), TileType::Shore);
    assert_eq!(classify_counts(0, 0, 1024, 1024), TileType::Land);
    assert_eq!(classify_counts(600, 300, 124, 1024), TileType::Sea);
}

#[test]
fn classify_tie_break_order_is_sea_shore_land() {
    // two counts reach half at once: the sea check comes first, then shore
    assert_eq!(classify_counts(512, 512, 0, 1024), TileType::Sea);
    assert_eq!(classify_counts(512, 0, 512, 1024), TileType::Sea);
    assert_eq!(classify_counts(0, 512, 512, 1024), TileType::Shore);
}

#[test]
fn classify_defaults_to_land_without_a_majority() {
    assert_eq!(classify_counts(511, 511, 2, 1024), TileType::Land);
    assert_eq!(classify_counts(400, 400, 224, 1024), TileType::Land);
}
