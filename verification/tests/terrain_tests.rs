use tilemap::terrain_generator::blended_noise_average;

#[test]
fn corner_average_clamps_neighbors_onto_the_grid() {
    // 2x2 grid: the corner's own sample is counted four times, its edge
    // neighbors twice each, the diagonal once
    let noise = vec![9i64, 18, 27, 900];
    let avg = blended_noise_average(&noise, 2, 2, 0, 0);
    // (4*9 + 2*18 + 2*27 + 900) / 9 = 1026 / 9
    assert_eq!(avg, 114);
}

#[test]
fn interior_average_reads_all_nine_neighbors() {
    // 3x3 grid with the center at (1, 1): a plain nine-sample average
    let noise = vec![9i64, 18, 27, 36, 45, 54, 63, 72, 81];
    let avg = blended_noise_average(&noise, 3, 3, 1, 1);
    assert_eq!(avg, (9 + 18 + 27 + 36 + 45 + 54 + 63 + 72 + 81) / 9);
}

#[test]
fn negative_average_truncates_toward_zero() {
    // one row: each of the three sample rows clamps onto it
    let noise = vec![-5i64, 3];
    let avg = blended_noise_average(&noise, 2, 1, 0, 0);
    // sum = 3 * (-5 + -5 + 3) = -21; machine division gives -2, not -3
    assert_eq!(avg, -2);
}

#[test]
fn uniform_grid_averages_to_its_value() {
    let noise = vec![-123_456i64; 25];
    for x in 0..5u32 {
        for y in 0..5u32 {
            assert_eq!(blended_noise_average(&noise, 5, 5, x, y), -123_456);
        }
    }
}
