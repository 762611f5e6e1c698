use realfft::num_complex::Complex32;
use realfft::RealFftPlanner;
use spectrum_analyser::level::{LEVEL_FLOOR, UNITY};
use spectrum_analyser::magnitude::compute_magnitude_spectrum;
use spectrum_analyser::meter::{create_meter_channels, MeterReading};
use spectrum_analyser::smoothing::SmoothingCoefficients;
use spectrum_analyser::spectrum::{SpectrumConsumer, SpectrumProducer, SpectrumProducerBuilder};
use spectrum_analyser::window_functions::WindowData;

const WINDOW: usize = 2048;
const BINS: usize = WINDOW / 2 + 1;
const SAMPLE_RATE: f32 = 48_000.0;

fn cosine_table(n: usize) -> Vec<i32> {
    (0..n)
        .map(|i| {
            let position = i as f32 / n as f32;
            libm::roundf(UNITY as f32 * libm::cosf(2.0 * core::f32::consts::PI * position)) as i32
        })
        .collect()
}

fn db_to_level(db: f32) -> i32 {
    libm::roundf(db * 1000.0) as i32
}

fn gain_to_level(gain: f32) -> i32 {
    let held = if gain > 1e-6 { gain } else { 1e-6 };
    db_to_level(20.0 * libm::log10f(held))
}

fn factor_to_level(factor: f32) -> i32 {
    if factor > 0.0 {
        db_to_level(20.0 * libm::log10f(factor))
    } else {
        i32::MIN / 2
    }
}

fn octave_table() -> Vec<i32> {
    (0..BINS)
        .map(|bin| {
            let freq = bin as f32 * SAMPLE_RATE / WINDOW as f32;
            if freq > 0.0 {
                libm::roundf(1000.0 * libm::log2f(freq / 1000.0)) as i32
            } else {
                0
            }
        })
        .collect()
}

fn spectrum_through(window: &WindowData, samples: &[f32]) -> Vec<i32> {
    let mut planner = RealFftPlanner::<f32>::new();
    let fft = planner.plan_fft_forward(WINDOW);
    let mut time: Vec<f32> = samples
        .iter()
        .zip(window.coefficients.iter())
        .map(|(sample, &c)| sample * (c as f32 / UNITY as f32))
        .collect();
    let mut bins = vec![Complex32::new(0.0, 0.0); BINS];
    fft.process(&mut time, &mut bins).unwrap();
    let magnitudes: Vec<i32> = bins.iter().map(|bin| factor_to_level(bin.norm())).collect();
    compute_magnitude_spectrum(
        &magnitudes,
        factor_to_level(WINDOW as f32),
        factor_to_level(window.coherent_gain as f32 / UNITY as f32),
        &octave_table(),
    )
}

fn coefficients(hop: usize) -> SmoothingCoefficients {
    let frame_rate = SAMPLE_RATE / hop as f32;
    let alpha = |ms: f32| 1.0 - libm::expf(-(1.0 / frame_rate) / (ms / 1000.0));
    let ppm = |factor: f32| libm::roundf(factor * UNITY as f32) as u32;
    SmoothingCoefficients::new(ppm(alpha(20.0)), ppm(alpha(400.0))).unwrap()
}

fn feed(producer: &mut SpectrumProducer<f32>, block: &[f32]) {
    if !producer.process(block) {
        return;
    }
    let mut window = Vec::new();
    producer.analysis_window(&mut window);
    let low = spectrum_through(&producer.adaptive_windows().low_freq, &window);
    let mid = spectrum_through(&producer.adaptive_windows().mid_freq, &window);
    let high = spectrum_through(&producer.adaptive_windows().high_freq, &window);
    let c = coefficients(producer.hop_size());
    producer.publish_spectrum(&low, &mid, &high, c, SAMPLE_RATE as u32).unwrap();
}

fn pipeline() -> (SpectrumProducer<f32>, SpectrumConsumer) {
    SpectrumProducerBuilder::new().build(0.0f32, &cosine_table(WINDOW)).unwrap()
}

#[test]
fn a_sine_at_a_bin_centre_peaks_in_its_bin() {
    let (mut producer, mut consumer) = pipeline();
    let k = 16usize;
    let amplitude = 0.5f32;
    let mut n = 0u32;
    for _ in 0..400 {
        let block: Vec<f32> = (0..256)
            .map(|_| {
                let phase = 2.0 * core::f32::consts::PI * (k as f32) * ((n % WINDOW as u32) as f32)
                    / WINDOW as f32;
                n += 1;
                amplitude * libm::sinf(phase)
            })
            .collect();
        feed(&mut producer, &block);
    }
    let frame = consumer.read().unwrap();
    assert_eq!(frame.len(), BINS);
    let peak_bin = (0..BINS).max_by_key(|&bin| frame[bin]).unwrap();
    assert_eq!(peak_bin, k);
    let freq = k as f32 * SAMPLE_RATE / WINDOW as f32;
    let expected_db = 20.0 * libm::log10f(amplitude) + 4.5 * libm::log2f(freq / 1000.0);
    let shown_db = frame[k] as f32 / 1000.0;
    assert!((shown_db - expected_db).abs() < 1.0, "{} against {}", shown_db, expected_db);
    assert!(frame[k] > frame[k - 2] + 30_000);
    assert!(frame[k] > frame[k + 2] + 30_000);
}

#[test]
fn silence_brings_spectrum_and_meters_down() {
    let (mut producer, mut consumer) = pipeline();
    let (mut meter, mut display) = create_meter_channels();
    let mut n = 0u32;
    for _ in 0..100 {
        let block: Vec<f32> = (0..256)
            .map(|_| {
                let phase = 2.0 * core::f32::consts::PI * 16.0 * ((n % WINDOW as u32) as f32)
                    / WINDOW as f32;
                n += 1;
                0.5 * libm::sinf(phase)
            })
            .collect();
        feed(&mut producer, &block);
        let levels: Vec<i32> = block.iter().map(|s| gain_to_level(s.abs())).collect();
        meter.update_peaks(&vec![levels.clone(), levels]);
        display.update();
    }
    assert!(consumer.read().unwrap()[16] > -20_000);
    assert!(display.get_smoothed_levels().0 > -10_000);
    let silence = vec![0.0f32; 256];
    let mut rounds = 0;
    loop {
        feed(&mut producer, &silence);
        let levels: Vec<i32> = silence.iter().map(|s| gain_to_level(s.abs())).collect();
        meter.update_peaks(&vec![levels.clone(), levels]);
        display.update();
        let frame = consumer.read().unwrap();
        let quiet = (0..BINS)
            .all(|bin| frame[bin] == LEVEL_FLOOR || (bin > 34 && frame[bin] < -99_000));
        if quiet && display.get_smoothed_levels() == (LEVEL_FLOOR, LEVEL_FLOOR) {
            break;
        }
        rounds += 1;
        assert!(rounds < 20_000);
    }
    let frame = consumer.read().unwrap();
    assert!(frame[..=34].iter().all(|&level| level == LEVEL_FLOOR));
    assert_eq!(
        display.latest_meter(),
        MeterReading { left: LEVEL_FLOOR, right: LEVEL_FLOOR }
    );
}
