use gse_next::baseline::{phi, project, select_baseline, MICRO, ONE};
use gse_next::engine::CognitiveStateEngine;
use gse_next::features::{FeatureExtractor, Features};

fn features(f1: u64, f3: u64, f4: u64, f5: u64, f6: u64) -> Features {
    Features {
        f1_flight_time_median: f1,
        f2_flight_time_variance: 0,
        f3_correction_rate: f3,
        f4_burst_length: f4,
        f5_pause_count: f5,
        f6_pause_after_del_rate: f6,
    }
}

#[test]
fn phi_is_zero_at_and_below_the_baseline() {
    assert_eq!(phi(150, 150), 0);
    assert_eq!(phi(0, 150), 0);
    assert_eq!(phi(149, 150), 0);
    assert_eq!(phi(u64::MAX, u64::MAX), 0);
}

#[test]
fn phi_is_one_from_three_baselines_on() {
    assert_eq!(phi(450, 150), ONE);
    assert_eq!(phi(451, 150), ONE);
    assert_eq!(phi(u64::MAX, 1), ONE);
    assert_eq!(phi(449, 150), ONE * 299 / 300);
}

#[test]
fn phi_without_a_baseline_is_zero() {
    assert_eq!(phi(0, 0), 0);
    assert_eq!(phi(1, 0), 0);
    assert_eq!(phi(u64::MAX, 0), 0);
}

#[test]
fn phi_rises_linearly_in_between() {
    assert_eq!(phi(300, 150), ONE / 2);
    assert_eq!(phi(225, 150), ONE / 4);
    assert_eq!(phi(151, 150), 3_333_333_333);
    assert_eq!(phi(2 * MICRO, MICRO), ONE / 2);
}

#[test]
fn phi_stays_in_the_unit_interval_and_does_not_fall() {
    let mut last = 0;
    for x in 0..1_000u64 {
        let v = phi(x * 1_000_003, 150 * MICRO);
        assert!(v <= ONE);
        assert!(v >= last);
        last = v;
    }
    assert_eq!(last, ONE);
}

#[test]
fn baselines_of_the_two_contexts() {
    let coding = select_baseline(false);
    assert_eq!(coding.flight_time, 150 * MICRO);
    assert_eq!(coding.correction_rate, 60_000);
    assert_eq!(coding.burst_length, 5 * MICRO);
    assert_eq!(coding.pause_count, 2 * MICRO);
    assert_eq!(coding.pause_after_del_rate, 80_000);
    let writing = select_baseline(true);
    assert_eq!(writing.flight_time, 220 * MICRO);
    assert_eq!(writing.correction_rate, 80_000);
    assert_eq!(writing.burst_length, 2 * MICRO);
    assert_eq!(writing.pause_count, 4 * MICRO);
    assert_eq!(writing.pause_after_del_rate, 120_000);
}

#[test]
fn smooth_typing_projects_to_low_friction_and_high_engagement() {
    let f = features(100 * MICRO, 0, 20 * MICRO, 0, 0);
    assert_eq!(project(&f, &select_baseline(false)), (0, ONE));
}

#[test]
fn every_feature_at_saturation_projects_to_full_friction() {
    let f = features(450 * MICRO, 180_000, 0, 6 * MICRO, 240_000);
    assert_eq!(project(&f, &select_baseline(false)), (ONE, 0));
}

#[test]
fn friction_and_engagement_weights() {
    let b = select_baseline(false);
    // only the correction rate saturates: 0.30; engagement keeps 0.35 + 0.25
    assert_eq!(project(&features(1, MICRO, 0, 0, 0), &b), (300_000_000_000, 600_000_000_000));
    // only the pause-after-deletion rate saturates: 0.25
    assert_eq!(project(&features(1, 0, 0, 0, MICRO), &b), (250_000_000_000, 600_000_000_000));
    // only the flight time saturates: 0.25, and engagement loses 0.35
    assert_eq!(
        project(&features(450 * MICRO, 0, 0, 0, 0), &b),
        (250_000_000_000, 250_000_000_000)
    );
    // only the pause count saturates: 0.20, and engagement loses 0.25
    assert_eq!(project(&features(1, 0, 0, 6 * MICRO, 0), &b), (200_000_000_000, 350_000_000_000));
    // only the burst length saturates: engagement gains 0.40
    assert_eq!(project(&features(1, 0, 15 * MICRO, 0, 0), &b), (0, ONE));
    // half-way values
    assert_eq!(
        project(&features(300 * MICRO, 120_000, 10 * MICRO, 4 * MICRO, 160_000), &b),
        (500_000_000_000, 500_000_000_000)
    );
}

#[test]
fn the_context_selects_the_baseline() {
    let engine = CognitiveStateEngine::new();
    let f = features(220 * MICRO, 80_000, 2 * MICRO, 4 * MICRO, 120_000);
    // normal for composition
    assert_eq!(engine.calculate_latent_axes(&f, true), (0, 600_000_000_000));
    // slow and halting for direct entry
    let (x, y) = engine.calculate_latent_axes(&f, false);
    assert_eq!(x, (30 * (ONE / 6) + 25 * (ONE / 4) + 25 * (ONE * 70 / 300) + 20 * (ONE / 2)) / 100);
    assert_eq!(y, (35 * (ONE - ONE * 70 / 300) + 25 * (ONE - ONE / 2)) / 100);
}

#[test]
fn longer_silence_never_raises_engagement() {
    let fx = FeatureExtractor::new(600);
    for ime_open in [false, true] {
        let b = select_baseline(ime_open);
        let mut last = ONE;
        for seconds in 2..40u64 {
            let f = fx.make_silence_observation(seconds * 1_000).unwrap();
            let (_, y) = project(&f, &b);
            assert!(y <= last);
            last = y;
        }
        assert_eq!(last, 0);
    }
}
