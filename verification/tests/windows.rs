use spectrum_analyser::level::UNITY;
use spectrum_analyser::window_functions::{
    generate_blackman_window, generate_hamming_window, generate_hann_window,
    AdaptiveWindowStrategy, AdaptiveWindows, WindowData, WindowType,
};

fn cosines_of_eight() -> Vec<i32> {
    vec![1_000_000, 707_107, 0, -707_107, -1_000_000, -707_107, 0, 707_107]
}

#[test]
fn rectangular_window_is_all_ones() {
    let window = WindowType::Rectangular.generate(&cosines_of_eight());
    assert_eq!(window, vec![UNITY; 8]);
}

#[test]
fn rectangular_coherent_gain_is_one() {
    for n in [1usize, 2, 8, 1000, 2048] {
        let table = vec![0i32; n];
        let window = WindowType::Rectangular.generate(&table);
        assert_eq!(window.len(), n);
        assert_eq!(WindowType::Rectangular.coherent_gain(&window), UNITY);
    }
}

#[test]
fn hann_window_follows_its_formula() {
    let window = generate_hann_window(&cosines_of_eight());
    assert_eq!(
        window,
        vec![0, 146_446, 500_000, 853_553, 1_000_000, 853_553, 500_000, 146_446]
    );
    assert_eq!(WindowType::Hann.generate(&cosines_of_eight()), window);
    assert_eq!(WindowType::Hann.coherent_gain(&window), 499_999);
}

#[test]
fn hamming_window_follows_its_formula() {
    let window = generate_hamming_window(&cosines_of_eight());
    assert_eq!(
        window,
        vec![80_000, 214_730, 540_000, 865_269, 1_000_000, 865_269, 540_000, 214_730]
    );
    assert_eq!(WindowType::Hamming.generate(&cosines_of_eight()), window);
    assert_eq!(WindowType::Hamming.coherent_gain(&window), 539_999);
}

#[test]
fn blackman_window_follows_its_formula() {
    let window = generate_blackman_window(&cosines_of_eight());
    assert_eq!(
        window,
        vec![0, 66_446, 340_000, 773_553, 1_000_000, 773_553, 340_000, 66_446]
    );
    assert_eq!(WindowType::Blackman.generate(&cosines_of_eight()), window);
    assert_eq!(WindowType::Blackman.coherent_gain(&window), 419_999);
}

#[test]
fn window_generation_is_repeatable() {
    let table = cosines_of_eight();
    for shape in [
        WindowType::Rectangular,
        WindowType::Hann,
        WindowType::Hamming,
        WindowType::Blackman,
    ] {
        assert_eq!(shape.generate(&table), shape.generate(&table));
    }
}

#[test]
fn window_coefficients_stay_between_zero_and_one() {
    let wild = vec![i32::MIN, -2_000_000, 2_000_000, i32::MAX, 5, -5];
    for shape in [
        WindowType::Rectangular,
        WindowType::Hann,
        WindowType::Hamming,
        WindowType::Blackman,
    ] {
        let window = shape.generate(&wild);
        assert_eq!(window.len(), wild.len());
        assert!(window.iter().all(|&c| c <= UNITY));
    }
    assert_eq!(generate_hann_window(&[2_000_000, -2_000_000]), vec![0, 1_000_000]);
    assert_eq!(generate_blackman_window(&[1_000_000, -1_000_000]), vec![0, 1_000_000]);
}

#[test]
fn empty_window_has_no_gain() {
    let window = WindowType::Hann.generate(&[]);
    assert!(window.is_empty());
    assert_eq!(WindowType::Hann.coherent_gain(&window), 0);
}

#[test]
fn coherent_gain_is_the_mean_rounded_down() {
    assert_eq!(WindowType::Hann.coherent_gain(&[1, 2, 4]), 2);
    assert_eq!(WindowType::Hann.coherent_gain(&[u32::MAX, u32::MAX]), u32::MAX);
    assert_eq!(WindowType::Hann.coherent_gain(&[0, 1_000_000]), 500_000);
}

#[test]
fn window_data_holds_table_and_gain() {
    let data = WindowData::new(WindowType::Hann, &cosines_of_eight());
    assert_eq!(data.coefficients.len(), 8);
    assert_eq!(data.coherent_gain, 499_999);
    let windows = AdaptiveWindows::new(&AdaptiveWindowStrategy::default(), &cosines_of_eight());
    assert_eq!(windows.low_freq.coherent_gain, 499_999);
    assert_eq!(windows.mid_freq.coherent_gain, 499_999);
    assert_eq!(windows.high_freq.coherent_gain, 419_999);
}

#[test]
fn default_strategy_is_hann_hann_blackman() {
    let strategy = AdaptiveWindowStrategy::default();
    assert_eq!(strategy.low_freq_window, WindowType::Hann);
    assert_eq!(strategy.mid_freq_window, WindowType::Hann);
    assert_eq!(strategy.high_freq_window, WindowType::Blackman);
    assert_eq!(strategy.low_mid_crossfade, (480, 520));
    assert_eq!(strategy.mid_high_crossfade, (8000, 9000));
}

#[test]
fn blend_picks_the_spectrum_of_each_region() {
    let strategy = AdaptiveWindowStrategy::default();
    let low = vec![-10_000i32; 1025];
    let mid = vec![-20_000i32; 1025];
    let high = vec![-30_000i32; 1025];
    let blended = strategy.blend_frequency_spectrums(&low, &mid, &high, 48_000, 2048);
    assert_eq!(blended.len(), 1025);
    assert_eq!(blended[0], -10_000);
    assert_eq!(blended[20], -10_000);
    assert_eq!(blended[23], -20_000);
    assert_eq!(blended[341], -20_000);
    assert_eq!(blended[384], -30_000);
    assert_eq!(blended[1024], -30_000);
}

#[test]
fn blend_crossfades_linearly_inside_a_band() {
    let strategy = AdaptiveWindowStrategy::default();
    let low = vec![-10_000i32; 1025];
    let mid = vec![-20_000i32; 1025];
    let mut high = vec![-10_000i32; 1025];
    let blended = strategy.blend_frequency_spectrums(&low, &mid, &high, 48_000, 2048);
    assert_eq!(blended[21], -13_047);
    assert_eq!(blended[22], -18_907);
    high[350] = -10_000;
    let mid_up = vec![-30_000i32; 1025];
    let blended = strategy.blend_frequency_spectrums(&low, &mid_up, &high, 48_000, 2048);
    assert_eq!(blended[350], -25_938);
}

#[test]
fn blend_goes_by_the_length_of_the_low_spectrum() {
    let strategy = AdaptiveWindowStrategy::default();
    let low = vec![-10_000i32; 400];
    let mid = vec![-20_000i32; 1025];
    let high = vec![-30_000i32; 500];
    let blended = strategy.blend_frequency_spectrums(&low, &mid, &high, 48_000, 2048);
    assert_eq!(blended.len(), 400);
    assert_eq!(blended[0], -10_000);
    assert_eq!(blended[21], -13_047);
    assert_eq!(blended[100], -20_000);
    assert_eq!(blended[399], -30_000);
}

#[test]
fn blend_stays_between_the_three_spectra() {
    let strategy = AdaptiveWindowStrategy::default();
    let low: Vec<i32> = (0..1025).map(|i| -1_000 * (i % 13)).collect();
    let mid: Vec<i32> = (0..1025).map(|i| -700 * (i % 29)).collect();
    let high: Vec<i32> = (0..1025).map(|i| -300 * (i % 41)).collect();
    let blended = strategy.blend_frequency_spectrums(&low, &mid, &high, 48_000, 2048);
    for bin in 0..1025 {
        let least = low[bin].min(mid[bin]).min(high[bin]);
        let greatest = low[bin].max(mid[bin]).max(high[bin]);
        assert!(least <= blended[bin] && blended[bin] <= greatest);
    }
    let same = vec![-4_321i32; 1025];
    assert_eq!(strategy.blend_frequency_spectrums(&same, &same, &same, 48_000, 2048), same);
}

#[test]
fn blend_with_empty_bands_never_crossfades() {
    let strategy = AdaptiveWindowStrategy {
        low_freq_window: WindowType::Hann,
        mid_freq_window: WindowType::Hann,
        high_freq_window: WindowType::Hann,
        low_mid_crossfade: (500, 500),
        mid_high_crossfade: (9000, 8000),
    };
    let low = vec![1i32; 16];
    let mid = vec![2i32; 16];
    let high = vec![3i32; 16];
    let blended = strategy.blend_frequency_spectrums(&low, &mid, &high, 16_000, 16);
    assert_eq!(blended, vec![1, 2, 2, 2, 2, 2, 2, 2, 2, 3, 3, 3, 3, 3, 3, 3]);
}
