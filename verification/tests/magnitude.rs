use spectrum_analyser::level::{LEVEL_CEILING, LEVEL_FLOOR};
use spectrum_analyser::magnitude::{
    apply_tilt_compensation, compute_magnitude_spectrum, compute_magnitude_spectrum_into,
    magnitude_db, SPECTRUM_TILT_DB_PER_OCT,
};

const SIZE_2048: i32 = 66_227;
const HANN_GAIN: i32 = -6_021;

#[test]
fn the_first_bin_is_scaled_by_one_over_the_window_size() {
    assert_eq!(magnitude_db(0, 60_206, SIZE_2048, HANN_GAIN, 0), 0);
    assert_eq!(magnitude_db(0, 60_206, SIZE_2048, HANN_GAIN, 5_000), 0);
}

#[test]
fn other_bins_are_scaled_by_two_over_the_window_size_and_tilted() {
    assert_eq!(magnitude_db(16, 48_165, SIZE_2048, HANN_GAIN, -1_415), -12_388);
    assert_eq!(magnitude_db(64, 48_165, SIZE_2048, HANN_GAIN, 585), -3_388);
    assert_eq!(magnitude_db(1, 48_165, SIZE_2048, HANN_GAIN, 0), -6_020);
}

#[test]
fn an_amplitude_at_the_threshold_reads_as_the_floor_before_the_tilt() {
    assert_eq!(magnitude_db(1, 0, 166_021, 0, 0), LEVEL_FLOOR);
    assert_eq!(magnitude_db(1, 0, 166_021, 0, 1_000), -115_500);
    assert_eq!(magnitude_db(1, 0, 166_020, 0, 1_000), LEVEL_FLOOR);
    assert_eq!(magnitude_db(5, -200_000, SIZE_2048, HANN_GAIN, 1_000), -115_500);
    assert_eq!(magnitude_db(5, -200_000, SIZE_2048, HANN_GAIN, -1_000), LEVEL_FLOOR);
    assert_eq!(magnitude_db(5, i32::MIN / 2, 0, 0, 7_000), -88_500);
}

#[test]
fn levels_are_held_to_the_range_whatever_comes_in() {
    assert_eq!(magnitude_db(3, i32::MAX, i32::MIN, i32::MIN, i32::MAX), LEVEL_CEILING);
    assert_eq!(magnitude_db(3, i32::MIN, i32::MAX, i32::MAX, i32::MIN), LEVEL_FLOOR);
    assert_eq!(magnitude_db(0, i32::MAX, 0, 0, 0), LEVEL_CEILING);
}

#[test]
fn tilt_rounds_down() {
    assert_eq!(apply_tilt_compensation(-100_000, -333, SPECTRUM_TILT_DB_PER_OCT), -101_499);
    assert_eq!(apply_tilt_compensation(-100_000, 333, SPECTRUM_TILT_DB_PER_OCT), -98_502);
    assert_eq!(apply_tilt_compensation(0, 1_000, SPECTRUM_TILT_DB_PER_OCT), 4_500);
    assert_eq!(apply_tilt_compensation(0, -1_000, SPECTRUM_TILT_DB_PER_OCT), -4_500);
    assert_eq!(apply_tilt_compensation(7, 12_345, 0), 7);
    assert_eq!(
        apply_tilt_compensation(i32::MAX, i32::MAX, i32::MAX),
        i32::MAX as i64 + 4_611_686_014_132_420
    );
}

#[test]
fn a_spectrum_has_a_level_for_each_bin() {
    let magnitudes = [60_206, 48_165, -200_000];
    let octaves = [0, -1_415, 1_000];
    assert_eq!(
        compute_magnitude_spectrum(&magnitudes, SIZE_2048, HANN_GAIN, &octaves),
        vec![0, -12_388, -115_500]
    );
    assert_eq!(
        compute_magnitude_spectrum(&magnitudes, SIZE_2048, HANN_GAIN, &octaves[..2]),
        vec![0, -12_388]
    );
    let mut out = vec![1, 2, 3, 4, 5];
    compute_magnitude_spectrum_into(&magnitudes[..1], SIZE_2048, HANN_GAIN, &octaves, &mut out);
    assert_eq!(out, vec![0]);
}
