use gse_next::baseline::MICRO;
use gse_next::features::{FeatureExtractor, Features, InputEvent};

fn press(vk_code: u32, timestamp: u64) -> InputEvent {
    InputEvent { vk_code, timestamp, is_press: true }
}

fn release(vk_code: u32, timestamp: u64) -> InputEvent {
    InputEvent { vk_code, timestamp, is_press: false }
}

/// Feeds releases and presses so that the recorded flight times are `fts`.
fn extractor_with_flight_times(fts: &[u64]) -> FeatureExtractor {
    let mut fx = FeatureExtractor::new(600);
    let mut now = 1_000;
    for ft in fts {
        fx.process_event(release(0x41, now));
        now += ft;
        fx.process_event(press(0x41, now));
        now += 50;
    }
    fx
}

fn is_zero(f: &Features) -> bool {
    f.f1_flight_time_median == 0
        && f.f2_flight_time_variance == 0
        && f.f3_correction_rate == 0
        && f.f4_burst_length == 0
        && f.f5_pause_count == 0
        && f.f6_pause_after_del_rate == 0
}

#[test]
fn median_of_three_flight_times() {
    let fx = extractor_with_flight_times(&[100, 200, 300]);
    assert_eq!(fx.calculate_flight_time_median(), 200 * MICRO);
}

#[test]
fn median_of_two_flight_times() {
    let fx = extractor_with_flight_times(&[100, 200]);
    assert_eq!(fx.calculate_flight_time_median(), 150 * MICRO);
}

#[test]
fn median_does_not_depend_on_arrival_order() {
    let fx = extractor_with_flight_times(&[300, 100, 250, 200, 150]);
    assert_eq!(fx.calculate_flight_time_median(), 200 * MICRO);
    let fx = extractor_with_flight_times(&[7, 1999, 8, 0]);
    assert_eq!(fx.calculate_flight_time_median(), 7_500_000);
}

#[test]
fn medians_in_millionths() {
    for (fts, median) in [
        (vec![300, 100, 200], 200_000_000),
        (vec![1, 2], 1_500_000),
        (vec![42], 42_000_000),
        (vec![1999, 1999], 1_999_000_000),
        (vec![0, 0, 1999, 1999], 999_500_000),
    ] {
        let fx = extractor_with_flight_times(&fts);
        assert_eq!(fx.calculate_flight_time_median(), median);
        assert_eq!(fx.calculate_features().f1_flight_time_median, median);
    }
}

#[test]
fn population_variance_in_millionths() {
    for (fts, variance) in [
        (vec![], 0),
        (vec![700], 0),
        (vec![100, 100, 100], 0),
        // mean 150, squared distances 2500 and 2500
        (vec![100, 200], 2_500_000_000),
        // mean 150, squared distances 2500, 22500, 10000: 35000 / 3
        (vec![100, 300, 50], 11_666_666_666),
        // the widest spread there is
        (vec![0, 1999], 999_000_250_000),
        (vec![1, 2, 3, 4], 1_250_000),
    ] {
        let fx = extractor_with_flight_times(&fts);
        assert_eq!(fx.calculate_features().f2_flight_time_variance, variance);
    }
}

/// The variance of `fts` in millionths, by the mean of the squares less the
/// square of the mean.
fn reference_variance(fts: &[u64]) -> u64 {
    let n = fts.len() as u128;
    let sum: u128 = fts.iter().map(|x| *x as u128).sum();
    let squares: u128 = fts.iter().map(|x| (*x as u128) * (*x as u128)).sum();
    ((n * squares - sum * sum) * 1_000_000 / (n * n)) as u64
}

#[test]
fn variance_of_many_samples() {
    let mut seed: u64 = 0x2545_F491_4F6C_DD1D;
    let mut next = |below: u64| -> u64 {
        seed = seed.wrapping_mul(6364136223846793005).wrapping_add(1442695040888963407);
        (seed >> 33) % below
    };
    // many short flight times, all within half a minute
    for round in 0..40usize {
        let fts: Vec<u64> = (0..2 + round * 7).map(|_| next(100)).collect();
        let mut fx = FeatureExtractor::new(1_000);
        let mut now = 1_000;
        for ft in &fts {
            fx.process_event(release(0x41, now));
            now += ft;
            fx.process_event(press(0x41, now));
        }
        assert_eq!(fx.calculate_features().f2_flight_time_variance, reference_variance(&fts));
    }
    // few flight times of any length
    for round in 0..40usize {
        let fts: Vec<u64> = (0..2 + round % 13).map(|_| next(2_000)).collect();
        let mut fx = FeatureExtractor::new(1_000);
        let mut now = 1_000;
        for ft in &fts {
            fx.process_event(release(0x41, now));
            now += ft;
            fx.process_event(press(0x41, now));
        }
        assert_eq!(fx.calculate_features().f2_flight_time_variance, reference_variance(&fts));
    }
}

#[test]
fn the_median_of_the_features_is_that_of_the_window() {
    let mut fx = extractor_with_flight_times(&[1000, 1000, 1000]);
    // a minute later the rhythm is another
    for (i, ft) in [100u64, 120, 140].iter().enumerate() {
        let at = 100_000 + 1_000 * i as u64;
        fx.process_event(release(0x41, at));
        fx.process_event(press(0x41, at + ft));
    }
    assert_eq!(fx.calculate_features().f1_flight_time_median, 120 * MICRO);
    // all that were recorded: 100, 120, 140, 1000, 1000, 1000
    assert_eq!(fx.calculate_flight_time_median(), 570 * MICRO);
}

#[test]
fn median_of_nothing_is_zero() {
    let fx = FeatureExtractor::new(600);
    assert_eq!(fx.calculate_flight_time_median(), 0);
}

#[test]
fn empty_extractor_gives_zero_features() {
    let fx = FeatureExtractor::new(600);
    assert!(is_zero(&fx.calculate_features()));
    assert!(is_zero(&Features::default()));
}

#[test]
fn flight_time_of_two_seconds_is_a_pause_not_rhythm() {
    let fx = extractor_with_flight_times(&[1999]);
    assert_eq!(fx.calculate_flight_time_median(), 1999 * MICRO);
    let fx = extractor_with_flight_times(&[2000]);
    assert_eq!(fx.calculate_flight_time_median(), 0);
}

#[test]
fn press_stamped_before_the_release_records_nothing() {
    let mut fx = FeatureExtractor::new(600);
    fx.process_event(release(0x41, 5_000));
    fx.process_event(press(0x42, 4_900));
    assert_eq!(fx.calculate_flight_time_median(), 0);
    fx.process_event(press(0x43, 5_000));
    assert_eq!(fx.calculate_flight_time_median(), 0);
    fx.process_event(press(0x44, 5_040));
    assert_eq!(fx.calculate_flight_time_median(), 20 * MICRO);
}

#[test]
fn press_without_an_earlier_release_records_nothing() {
    let mut fx = FeatureExtractor::new(600);
    fx.process_event(press(0x41, 1_000));
    fx.process_event(press(0x42, 1_100));
    assert_eq!(fx.calculate_flight_time_median(), 0);
}

#[test]
fn add_flight_time_evicts_the_oldest() {
    let mut fx = FeatureExtractor::new(3);
    fx.add_flight_time(10);
    fx.add_flight_time(20);
    fx.add_flight_time(30);
    assert_eq!(fx.calculate_flight_time_median(), 20 * MICRO);
    fx.add_flight_time(40);
    fx.add_flight_time(50);
    assert_eq!(fx.calculate_flight_time_median(), 40 * MICRO);
}

#[test]
fn a_pause_is_no_flight_time() {
    let mut fx = FeatureExtractor::new(3);
    fx.add_flight_time(10);
    fx.add_flight_time(2_000);
    fx.add_flight_time(u64::MAX);
    assert_eq!(fx.calculate_flight_time_median(), 10 * MICRO);
    fx.add_flight_time(1_999);
    assert_eq!(fx.calculate_flight_time_median(), 1_004_500_000);
}

#[test]
fn any_capacity_can_be_asked_for() {
    let mut fx = FeatureExtractor::new(usize::MAX);
    fx.process_event(press(0x08, 1));
    fx.process_event(press(0x41, 2));
    assert_eq!(fx.calculate_features().f3_correction_rate, 500_000);
}

#[test]
fn all_six_features_of_a_short_session() {
    let mut fx = FeatureExtractor::new(600);
    fx.process_event(press(0x41, 1_000));
    fx.process_event(release(0x41, 1_050));
    fx.process_event(press(0x42, 1_150));
    fx.process_event(release(0x42, 1_200));
    fx.process_event(press(0x08, 1_500));
    fx.process_event(release(0x08, 1_550));
    fx.process_event(press(0x43, 4_000));
    fx.process_event(release(0x43, 4_050));
    fx.process_event(press(0x44, 4_100));
    let f = fx.calculate_features();
    // flight times 100, 300, 50
    assert_eq!(f.f1_flight_time_median, 100 * MICRO);
    assert_eq!(f.f2_flight_time_variance, 11_666_666_666);
    // one Backspace among five presses
    assert_eq!(f.f3_correction_rate, 200_000);
    // bursts of 2, 1 and 2 presses
    assert_eq!(f.f4_burst_length, 1_666_666);
    // one gap of 2.5 s between presses, and it follows the Backspace
    assert_eq!(f.f5_pause_count, MICRO);
    assert_eq!(f.f6_pause_after_del_rate, MICRO);
}

#[test]
fn delete_counts_as_a_correction() {
    let mut fx = FeatureExtractor::new(600);
    fx.process_event(press(0x2E, 1_000));
    fx.process_event(release(0x2E, 1_050));
    fx.process_event(press(0x41, 1_100));
    fx.process_event(release(0x41, 1_150));
    fx.process_event(press(0x08, 1_200));
    fx.process_event(release(0x08, 1_250));
    fx.process_event(press(0x42, 3_300));
    let f = fx.calculate_features();
    assert_eq!(f.f3_correction_rate, 500_000);
    assert_eq!(f.f5_pause_count, MICRO);
    // of the two corrections only the Backspace has a pause after it
    assert_eq!(f.f6_pause_after_del_rate, 500_000);
}

#[test]
fn single_keystrokes_are_bursts_of_one() {
    let mut fx = FeatureExtractor::new(600);
    let mut now = 1_000;
    for _ in 0..4 {
        fx.process_event(press(0x41, now));
        fx.process_event(release(0x41, now + 50));
        now += 500;
    }
    let f = fx.calculate_features();
    assert_eq!(f.f4_burst_length, MICRO);
    assert_eq!(f.f1_flight_time_median, 450 * MICRO);
    assert_eq!(f.f2_flight_time_variance, 0);
}

#[test]
fn one_long_burst() {
    let mut fx = FeatureExtractor::new(600);
    let mut now = 1_000;
    for _ in 0..20 {
        fx.process_event(press(0x41, now));
        fx.process_event(release(0x41, now + 50));
        now += 150;
    }
    let f = fx.calculate_features();
    assert_eq!(f.f1_flight_time_median, 100 * MICRO);
    assert_eq!(f.f2_flight_time_variance, 0);
    assert_eq!(f.f3_correction_rate, 0);
    assert_eq!(f.f4_burst_length, 20 * MICRO);
    assert_eq!(f.f5_pause_count, 0);
    assert_eq!(f.f6_pause_after_del_rate, 0);
}

#[test]
fn events_older_than_the_window_do_not_count() {
    let mut fx = FeatureExtractor::new(600);
    // an old, slow pair of Backspaces
    fx.process_event(press(0x08, 1_000));
    fx.process_event(release(0x08, 1_100));
    fx.process_event(press(0x08, 2_000));
    fx.process_event(release(0x08, 2_100));
    // half a minute later, two quick letters
    fx.process_event(press(0x41, 40_000));
    fx.process_event(release(0x41, 40_050));
    fx.process_event(press(0x42, 40_110));
    let f = fx.calculate_features();
    assert_eq!(f.f1_flight_time_median, 60 * MICRO);
    assert_eq!(f.f3_correction_rate, 0);
    assert_eq!(f.f4_burst_length, 2 * MICRO);
    assert_eq!(f.f5_pause_count, 0);
}

#[test]
fn the_window_reaches_back_thirty_seconds_inclusive() {
    let mut fx = FeatureExtractor::new(600);
    fx.process_event(press(0x08, 10_000));
    fx.process_event(press(0x41, 40_000));
    // the Backspace is exactly 30 s old: still in the window
    assert_eq!(fx.calculate_features().f3_correction_rate, 500_000);
    fx.process_event(press(0x41, 40_001));
    // now it is not
    assert_eq!(fx.calculate_features().f3_correction_rate, 0);
}

#[test]
fn the_buffer_evicts_the_oldest_event_when_full() {
    let mut fx = FeatureExtractor::new(2);
    fx.process_event(press(0x08, 1_000));
    fx.process_event(press(0x41, 1_100));
    assert_eq!(fx.calculate_features().f3_correction_rate, 500_000);
    fx.process_event(press(0x42, 1_200));
    // the Backspace has left the buffer
    assert_eq!(fx.calculate_features().f3_correction_rate, 0);
    assert_eq!(fx.calculate_features().f4_burst_length, MICRO);
}

#[test]
fn an_extractor_of_capacity_zero_holds_one_event() {
    let mut fx = FeatureExtractor::new(0);
    fx.process_event(press(0x08, 1_000));
    assert_eq!(fx.calculate_features().f3_correction_rate, MICRO);
    fx.process_event(press(0x41, 1_100));
    assert_eq!(fx.calculate_features().f3_correction_rate, 0);
}

#[test]
fn silence_shorter_than_a_pause_is_no_observation() {
    let fx = FeatureExtractor::new(600);
    assert!(fx.make_silence_observation(0).is_none());
    assert!(fx.make_silence_observation(1_999).is_none());
    assert!(fx.make_silence_observation(2_000).is_some());
}

#[test]
fn silence_observation_counts_one_pause_per_two_seconds() {
    let fx = FeatureExtractor::new(600);
    let f = fx.make_silence_observation(2_000).unwrap();
    assert_eq!(f.f1_flight_time_median, 2_000 * MICRO);
    assert_eq!(f.f2_flight_time_variance, 0);
    assert_eq!(f.f3_correction_rate, 0);
    assert_eq!(f.f4_burst_length, 0);
    assert_eq!(f.f5_pause_count, MICRO);
    assert_eq!(f.f6_pause_after_del_rate, 0);
    let f = fx.make_silence_observation(7_000).unwrap();
    assert_eq!(f.f5_pause_count, 3_500_000);
}

#[test]
fn silence_observation_is_capped() {
    let fx = FeatureExtractor::new(600);
    let f = fx.make_silence_observation(u64::MAX / 500).unwrap();
    assert_eq!(f.f5_pause_count, u64::MAX / 500 * 500);
    let f = fx.make_silence_observation(u64::MAX / 500 + 1).unwrap();
    assert_eq!(f.f5_pause_count, u64::MAX);
    let f = fx.make_silence_observation(u64::MAX).unwrap();
    assert_eq!(f.f5_pause_count, u64::MAX);
}
