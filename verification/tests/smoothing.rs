use spectrum_analyser::level::{
    clamp_level, div_floor, mix_levels, smooth_level, LEVEL_CEILING, LEVEL_FLOOR, UNITY,
};
use spectrum_analyser::smoothing::{
    apply_frequency_dependent_smoothing, apply_spectrum_smoothing, apply_temporal_smoothing,
    copy_frame, SmoothingCoefficients,
};

#[test]
fn clamp_holds_levels_to_the_range() {
    assert_eq!(clamp_level(0), 0);
    assert_eq!(clamp_level(LEVEL_FLOOR), LEVEL_FLOOR);
    assert_eq!(clamp_level(LEVEL_FLOOR - 1), LEVEL_FLOOR);
    assert_eq!(clamp_level(i32::MIN), LEVEL_FLOOR);
    assert_eq!(clamp_level(LEVEL_CEILING + 1), LEVEL_CEILING);
    assert_eq!(clamp_level(i32::MAX), LEVEL_CEILING);
}

#[test]
fn division_rounds_towards_minus_infinity() {
    assert_eq!(div_floor(7, 2), 3);
    assert_eq!(div_floor(-7, 2), -4);
    assert_eq!(div_floor(-8, 2), -4);
    assert_eq!(div_floor(0, 5), 0);
    assert_eq!(div_floor(-1, 1_000_000), -1);
}

#[test]
fn mixing_moves_by_the_factor() {
    assert_eq!(mix_levels(-10_000, -20_000, 304_687), -13_047);
    assert_eq!(mix_levels(-30_000, -10_000, 203_125), -25_938);
    assert_eq!(mix_levels(5, 9, 0), 5);
    assert_eq!(mix_levels(5, 9, UNITY), 9);
    assert_eq!(mix_levels(i32::MIN, i32::MAX, UNITY), i32::MAX);
    assert_eq!(mix_levels(i32::MAX, i32::MIN, UNITY), i32::MIN);
}

#[test]
fn attack_covers_its_share_of_the_way() {
    assert_eq!(smooth_level(-120_000, 0, 300_000, 1_000), -84_000);
    assert_eq!(smooth_level(-84_000, 0, 300_000, 1_000), -58_800);
}

#[test]
fn release_covers_its_share_of_the_way() {
    assert_eq!(smooth_level(0, -120_000, 300_000, 1_000), -120);
}

#[test]
fn smoothing_always_moves_a_level_that_is_apart() {
    assert_eq!(smooth_level(0, 1, 1, 1), 1);
    assert_eq!(smooth_level(1, 0, 1, 1), 0);
    assert_eq!(smooth_level(5, 5, UNITY, UNITY), 5);
    assert_eq!(smooth_level(0, 100, 0, 0), 0);
    assert_eq!(smooth_level(100, 0, 0, 0), 100);
    assert_eq!(smooth_level(i32::MIN, i32::MAX, UNITY, 0), i32::MAX);
    assert_eq!(smooth_level(i32::MAX, i32::MIN, 0, UNITY), i32::MIN);
}

#[test]
fn attack_is_monotone_and_never_overshoots() {
    let mut level = LEVEL_FLOOR;
    let mut input = -100_000;
    for _ in 0..200 {
        let next = smooth_level(level, input, 300_000, 1_000);
        assert!(next >= level);
        assert!(next <= input);
        level = next;
        input += 37;
    }
}

#[test]
fn release_is_monotone_and_never_undershoots() {
    let mut level = 0;
    let mut input = -1_000;
    for _ in 0..200 {
        let next = smooth_level(level, input, 300_000, 1_000);
        assert!(next <= level);
        assert!(next >= input);
        level = next;
        input -= 37;
    }
}

#[test]
fn release_reaches_the_floor_on_silence() {
    let mut level = -119_000;
    let mut updates = 0;
    while level > LEVEL_FLOOR {
        level = smooth_level(level, LEVEL_FLOOR, 300_000, 1_000);
        updates += 1;
        assert!(updates <= 1_000);
    }
    assert_eq!(level, LEVEL_FLOOR);
    assert_eq!(smooth_level(level, LEVEL_FLOOR, 300_000, 1_000), LEVEL_FLOOR);
}

#[test]
fn coefficients_above_one_are_refused() {
    assert!(SmoothingCoefficients::new(UNITY + 1, 0).is_none());
    assert!(SmoothingCoefficients::new(0, UNITY + 1).is_none());
    let c = SmoothingCoefficients::new(UNITY, 0).unwrap();
    assert_eq!(c.attack, UNITY);
    assert_eq!(c.release, 0);
}

#[test]
fn temporal_smoothing_works_bin_by_bin() {
    let c = SmoothingCoefficients::new(300_000, 1_000).unwrap();
    let current = [0, -120_000, 5, 7];
    let previous = [-120_000, 0, 5];
    assert_eq!(apply_temporal_smoothing(&current, &previous, c), vec![-84_000, -120, 5]);
}

#[test]
fn frequency_smoothing_leaves_the_low_end_alone() {
    let spectrum: Vec<i32> = (0..40).map(|i| -1_000 * (i % 7)).collect();
    let smoothed = apply_frequency_dependent_smoothing(&spectrum, 48_000, 2048);
    assert_eq!(smoothed[..35], spectrum[..35]);
    assert_eq!(smoothed[39], spectrum[39]);
}

#[test]
fn frequency_smoothing_uses_five_and_seven_point_kernels() {
    let spectrum = [
        -60_000, -50_000, -40_000, -30_000, -20_000, -10_000, 0, -10_000, -20_000,
    ];
    let smoothed = apply_frequency_dependent_smoothing(&spectrum, 16_000, 16);
    assert_eq!(
        smoothed,
        vec![-60_000, -49_000, -40_000, -30_000, -20_089, -11_258, -4_567, -10_001, -20_000]
    );
}

#[test]
fn frequency_smoothing_uses_the_nine_point_kernel_at_the_top() {
    let spectrum: Vec<i32> = (0..13).map(|i| -1_000 * i).collect();
    let smoothed = apply_frequency_dependent_smoothing(&spectrum, 12_000, 24);
    assert_eq!(
        smoothed,
        vec![0, -1_000, -2_000, -3_000, -4_000, -5_000, -6_000, -7_000, -8_000, -9_000, -9_987,
            -10_979, -12_000]
    );
}

#[test]
fn frequency_smoothing_of_short_spectra() {
    assert_eq!(apply_frequency_dependent_smoothing(&[], 48_000, 2048), Vec::<i32>::new());
    assert_eq!(apply_frequency_dependent_smoothing(&[5], 48_000, 1), vec![5]);
    assert_eq!(apply_frequency_dependent_smoothing(&[5, 6], 48_000, 1), vec![5, 6]);
    assert_eq!(apply_frequency_dependent_smoothing(&[0, 10, 0], 48_000, 1), vec![0, 5, 0]);
}

#[test]
fn frequency_smoothing_keeps_a_flat_spectrum_flat() {
    let spectrum = vec![-12_345i32; 1025];
    assert_eq!(apply_frequency_dependent_smoothing(&spectrum, 48_000, 2048), spectrum);
}

#[test]
fn spectrum_smoothing_returns_the_frame_twice() {
    let c = SmoothingCoefficients::new(300_000, 1_000).unwrap();
    let current = vec![0i32; 1025];
    let previous = vec![LEVEL_FLOOR; 1025];
    let (shown, kept) = apply_spectrum_smoothing(&current, &previous, c, 48_000, 2048);
    assert_eq!(shown, kept);
    assert_eq!(shown, vec![-84_000; 1025]);
}

#[test]
fn copy_of_a_frame_is_equal() {
    assert_eq!(copy_frame(&[1, -2, 3]), vec![1, -2, 3]);
}
