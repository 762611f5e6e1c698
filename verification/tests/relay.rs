use spectrum_analyser::level::LEVEL_FLOOR;
use spectrum_analyser::meter::{create_meter_channels, MeterReading};
use spectrum_analyser::smoothing::SmoothingCoefficients;
use spectrum_analyser::spectrum::SpectrumProducerBuilder;

#[test]
fn a_starved_reader_sees_the_same_frame_again() {
    let table = vec![0i32; 4];
    let (mut producer, mut consumer) =
        SpectrumProducerBuilder::new().window_size(4).build(0u8, &table).unwrap();
    let c = SmoothingCoefficients::new(1_000_000, 1_000_000).unwrap();
    let frame = [-1_000i32, -2_000, -3_000];
    producer.publish_spectrum(&frame, &frame, &frame, c, 48_000).unwrap();
    assert!(consumer.refresh());
    for _ in 0..10 {
        assert!(!consumer.refresh());
        assert_eq!(consumer.read().unwrap(), vec![-1_000, -2_000, -3_000]);
    }
}

#[test]
fn a_slow_reader_sees_only_the_latest_frame() {
    let table = vec![0i32; 4];
    let (mut producer, mut consumer) =
        SpectrumProducerBuilder::new().window_size(4).build(0u8, &table).unwrap();
    let c = SmoothingCoefficients::new(1_000_000, 1_000_000).unwrap();
    for level in 1..=10 {
        let frame = [-1_000 * level; 3];
        producer.publish_spectrum(&frame, &frame, &frame, c, 48_000).unwrap();
    }
    assert_eq!(consumer.read().unwrap(), vec![-10_000; 3]);
}

#[test]
fn a_reader_at_any_cadence_sees_only_whole_readings() {
    for (writes_per_round, reads_per_round) in [(1, 1), (1, 3), (3, 1), (7, 2), (2, 7), (0, 5)] {
        let (mut producer, mut consumer) = create_meter_channels();
        let mut written = 0;
        let mut seen = 1;
        for _ in 0..500 {
            for _ in 0..writes_per_round {
                written -= 1;
                producer.update_peaks(&vec![vec![written], vec![written - 50_000]]);
            }
            for _ in 0..reads_per_round {
                let reading = consumer.latest_meter();
                if written == 0 {
                    assert_eq!(reading, MeterReading { left: LEVEL_FLOOR, right: LEVEL_FLOOR });
                } else {
                    assert_eq!(reading, MeterReading { left: written, right: written - 50_000 });
                    assert!(reading.left <= seen);
                    seen = reading.left;
                }
            }
        }
    }
}
