use spectrum_analyser::level::{LEVEL_CEILING, LEVEL_FLOOR};
use spectrum_analyser::meter::{
    calculate_peak_levels, create_meter_channels, decode_reading, peak_level, Channel,
    MeterReading, MeterState, PEAK_HOLD_CYCLES, SILENCE_DEBOUNCE_CYCLES,
};

#[test]
fn peak_is_the_highest_level_of_a_channel() {
    assert_eq!(peak_level(&[-30_000, -6_000, -12_000]), -6_000);
    assert_eq!(peak_level(&[]), LEVEL_FLOOR);
    assert_eq!(peak_level(&[i32::MIN, -130_000]), LEVEL_FLOOR);
    assert_eq!(peak_level(&[0, i32::MAX]), LEVEL_CEILING);
}

#[test]
fn peaks_of_a_stereo_signal_are_independent() {
    let channels = vec![vec![-30_000, -6_000], vec![-3_000, -40_000], vec![0, 0]];
    assert_eq!(calculate_peak_levels(&channels), (-6_000, -3_000));
}

#[test]
fn a_mono_signal_shows_on_both_sides() {
    let channels = vec![vec![-30_000, -6_000]];
    assert_eq!(calculate_peak_levels(&channels), (-6_000, -6_000));
}

#[test]
fn no_channels_read_as_the_floor() {
    let channels: Vec<Vec<i32>> = Vec::new();
    assert_eq!(calculate_peak_levels(&channels), (LEVEL_FLOOR, LEVEL_FLOOR));
    let empty = vec![Vec::new(), Vec::new()];
    assert_eq!(calculate_peak_levels(&empty), (LEVEL_FLOOR, LEVEL_FLOOR));
}

#[test]
fn a_reading_gives_each_channel() {
    let reading = MeterReading { left: -1, right: -2 };
    assert_eq!(reading.channel(Channel::Left), -1);
    assert_eq!(reading.channel(Channel::Right), -2);
}

#[test]
fn a_frame_of_two_levels_decodes_to_a_reading() {
    assert_eq!(decode_reading(&vec![-5_000, -7_000]), MeterReading { left: -5_000, right: -7_000 });
    assert_eq!(
        decode_reading(&vec![i32::MIN, i32::MAX]),
        MeterReading { left: LEVEL_FLOOR, right: LEVEL_CEILING }
    );
    let silent = MeterReading { left: LEVEL_FLOOR, right: LEVEL_FLOOR };
    assert_eq!(decode_reading(&vec![]), silent);
    assert_eq!(decode_reading(&vec![0]), silent);
    assert_eq!(decode_reading(&vec![0, 0, 0]), silent);
}

#[test]
fn a_new_state_is_silent() {
    let state = MeterState::new();
    assert_eq!(state.smoothed_left, LEVEL_FLOOR);
    assert_eq!(state.smoothed_right, LEVEL_FLOOR);
    assert_eq!(state.peak_hold_left, LEVEL_FLOOR);
    assert_eq!(state.peak_hold_right, LEVEL_FLOOR);
    assert_eq!(state.peak_hold_value, LEVEL_FLOOR);
    assert_eq!(state.peak_hold_counter, 0);
    assert_eq!(state.silence_counter, 0);
}

#[test]
fn meter_smoothing_attacks_fast_and_releases_slowly() {
    let mut state = MeterState::new();
    state.update_smoothing(0, -60_000);
    assert_eq!(state.smoothed_left, -84_000);
    assert_eq!(state.smoothed_right, -102_000);
    state.smoothed_left = 0;
    state.smoothed_right = -10_000;
    state.update_smoothing(LEVEL_FLOOR, -20_000);
    assert_eq!(state.smoothed_left, -120);
    assert_eq!(state.smoothed_right, -10_010);
}

#[test]
fn peak_hold_keeps_a_peak_for_the_hold_duration() {
    let mut state = MeterState::new();
    state.update_peak_hold(-3_000, -9_000);
    assert_eq!(state.peak_hold_left, -3_000);
    assert_eq!(state.peak_hold_right, -9_000);
    assert_eq!(state.peak_hold_value, -3_000);
    assert_eq!(state.peak_hold_counter, 0);
    for cycle in 1..PEAK_HOLD_CYCLES {
        state.update_peak_hold(LEVEL_FLOOR, LEVEL_FLOOR);
        assert_eq!(state.peak_hold_left, -3_000);
        assert_eq!(state.peak_hold_right, -9_000);
        assert_eq!(state.peak_hold_value, -3_000);
        assert_eq!(state.peak_hold_counter, cycle);
    }
    state.update_peak_hold(LEVEL_FLOOR, LEVEL_FLOOR);
    assert_eq!(state.peak_hold_left, LEVEL_FLOOR);
    assert_eq!(state.peak_hold_right, LEVEL_FLOOR);
    assert_eq!(state.peak_hold_value, LEVEL_FLOOR);
    assert_eq!(state.peak_hold_counter, 0);
}

#[test]
fn a_higher_peak_restarts_the_hold() {
    let mut state = MeterState::new();
    state.update_peak_hold(-20_000, -20_000);
    for _ in 0..30 {
        state.update_peak_hold(-30_000, -30_000);
    }
    assert_eq!(state.peak_hold_counter, 30);
    state.update_peak_hold(-30_000, -10_000);
    assert_eq!(state.peak_hold_counter, 0);
    assert_eq!(state.peak_hold_left, -20_000);
    assert_eq!(state.peak_hold_right, -10_000);
    assert_eq!(state.peak_hold_value, -10_000);
    state.update_peak_hold(-20_000, -10_000);
    assert_eq!(state.peak_hold_counter, 1);
}

#[test]
fn silence_makes_the_meters_decay_faster_after_the_debounce() {
    let mut state = MeterState::new();
    state.smoothed_left = -60_000;
    state.smoothed_right = -79_800;
    for cycle in 1..=SILENCE_DEBOUNCE_CYCLES {
        state.update_silence_detection();
        assert_eq!(state.silence_counter, cycle);
        assert_eq!(state.smoothed_left, -60_000);
        assert_eq!(state.smoothed_right, -79_800);
    }
    state.update_silence_detection();
    assert_eq!(state.silence_counter, SILENCE_DEBOUNCE_CYCLES + 1);
    assert_eq!(state.smoothed_left, -60_500);
    assert_eq!(state.smoothed_right, LEVEL_FLOOR);
    state.update_silence_detection();
    assert_eq!(state.silence_counter, SILENCE_DEBOUNCE_CYCLES + 2);
    assert_eq!(state.smoothed_left, -61_000);
    assert_eq!(state.smoothed_right, LEVEL_FLOOR);
}

#[test]
fn the_silence_counter_counts_every_silent_update() {
    let mut state = MeterState::new();
    for cycle in 1..=100 {
        state.update_silence_detection();
        assert_eq!(state.silence_counter, cycle);
    }
    state.silence_counter = u32::MAX - 1;
    state.update_silence_detection();
    assert_eq!(state.silence_counter, u32::MAX);
    state.update_silence_detection();
    assert_eq!(state.silence_counter, u32::MAX);
    assert_eq!(state.smoothed_left, LEVEL_FLOOR);
}

#[test]
fn a_level_above_the_threshold_ends_the_silence() {
    let mut state = MeterState::new();
    state.smoothed_left = -60_000;
    for _ in 0..10 {
        state.update_silence_detection();
    }
    assert_eq!(state.silence_counter, 10);
    state.smoothed_right = -50_000;
    state.update_silence_detection();
    assert_eq!(state.silence_counter, 0);
    assert_eq!(state.smoothed_left, -60_000);
}

#[test]
fn a_meter_reads_the_floor_before_anything_was_published() {
    let (_producer, mut consumer) = create_meter_channels();
    assert_eq!(
        consumer.latest_meter(),
        MeterReading { left: LEVEL_FLOOR, right: LEVEL_FLOOR }
    );
    assert_eq!(consumer.get_smoothed_levels(), (LEVEL_FLOOR, LEVEL_FLOOR));
    assert_eq!(consumer.get_peak_hold_db(), LEVEL_FLOOR);
    assert_eq!(consumer.get_peak_hold_channels(), (LEVEL_FLOOR, LEVEL_FLOOR));
    assert!(!consumer.update());
    assert_eq!(consumer.get_smoothed_levels(), (LEVEL_FLOOR, LEVEL_FLOOR));
}

#[test]
fn a_published_reading_reaches_the_consumer() {
    let (mut producer, mut consumer) = create_meter_channels();
    let channels = vec![vec![-30_000, 0], vec![-60_000]];
    assert_eq!(
        producer.last_published(),
        MeterReading { left: LEVEL_FLOOR, right: LEVEL_FLOOR }
    );
    let reading = producer.update_peaks(&channels);
    assert_eq!(reading, MeterReading { left: 0, right: -60_000 });
    assert_eq!(producer.last_published(), reading);
    assert_eq!(consumer.latest_meter(), reading);
    assert_eq!(consumer.latest_meter(), reading);
    producer.write_silence();
    assert_eq!(
        consumer.latest_meter(),
        MeterReading { left: LEVEL_FLOOR, right: LEVEL_FLOOR }
    );
}

#[test]
fn an_update_smooths_and_holds_the_latest_reading() {
    let (mut producer, mut consumer) = create_meter_channels();
    producer.update_peaks(&vec![vec![0], vec![-60_000]]);
    assert!(consumer.update());
    assert_eq!(consumer.get_smoothed_levels(), (-84_000, -102_000));
    assert_eq!(consumer.get_peak_hold_channels(), (0, -60_000));
    assert_eq!(consumer.get_peak_hold_db(), 0);
    assert!(!consumer.update());
    assert_eq!(consumer.get_smoothed_levels(), (-58_800, -89_400));
    assert_eq!(consumer.get_peak_hold_db(), 0);
}

#[test]
fn a_single_peak_followed_by_silence_is_held_and_then_let_go() {
    let (mut producer, mut consumer) = create_meter_channels();
    consumer.set_silence_detection(false);
    producer.update_peaks(&vec![vec![-1_000]]);
    consumer.update();
    assert_eq!(consumer.get_peak_hold_db(), -1_000);
    producer.update_peaks(&vec![vec![LEVEL_FLOOR]]);
    for _ in 1..PEAK_HOLD_CYCLES {
        consumer.update();
        assert_eq!(consumer.get_peak_hold_db(), -1_000);
    }
    consumer.update();
    assert_eq!(consumer.get_peak_hold_db(), LEVEL_FLOOR);
}

#[test]
fn the_meters_settle_at_the_floor_on_lasting_silence() {
    let (mut producer, mut consumer) = create_meter_channels();
    producer.update_peaks(&vec![vec![0], vec![-20_000]]);
    for _ in 0..20 {
        consumer.update();
    }
    let (left, right) = consumer.get_smoothed_levels();
    assert!(left > -1_000 && right > -21_000);
    producer.update_peaks(&vec![vec![LEVEL_FLOOR], vec![LEVEL_FLOOR]]);
    let mut updates = 0;
    while consumer.get_smoothed_levels() != (LEVEL_FLOOR, LEVEL_FLOOR) {
        consumer.update();
        updates += 1;
        assert!(updates < 5_000);
    }
    assert_eq!(producer.update_peaks(&Vec::new()), MeterReading { left: LEVEL_FLOOR, right: LEVEL_FLOOR });
    assert_eq!(
        consumer.latest_meter(),
        MeterReading { left: LEVEL_FLOOR, right: LEVEL_FLOOR }
    );
    assert_eq!(consumer.get_peak_hold_db(), LEVEL_FLOOR);
}
