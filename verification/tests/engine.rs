use gse_next::baseline::{MICRO, ONE};
use gse_next::engine::{calibrated_parameters, observe, CognitiveStateEngine, LatentPoint};
use gse_next::features::Features;
use gse_next::hmm::{blend, normalize, Belief, CognitiveState, HmmParameters};

fn typing(f1_ms: u64, burst: u64) -> Features {
    Features {
        f1_flight_time_median: f1_ms * MICRO,
        f2_flight_time_variance: 0,
        f3_correction_rate: 0,
        f4_burst_length: burst * MICRO,
        f5_pause_count: 0,
        f6_pause_after_del_rate: 0,
    }
}

fn belief(flow: u64, incubation: u64, stuck: u64) -> Belief {
    Belief { flow, incubation, stuck }
}

fn total(b: &Belief) -> u64 {
    b.flow + b.incubation + b.stuck
}

#[test]
fn a_new_engine_starts_balanced() {
    let engine = CognitiveStateEngine::new();
    let b = engine.get_current_state();
    assert_eq!(b, belief(ONE / 2, ONE * 3 / 10, ONE / 5));
    assert_eq!(engine.posterior(), b);
    assert_eq!(engine.latent_point(), LatentPoint { x: ONE * 3 / 10, y: ONE / 2 });
    assert!(!engine.get_paused());
    assert_eq!(engine.backspace_streak(), 0);
}

#[test]
fn probability_by_state() {
    let b = CognitiveStateEngine::new().get_current_state();
    assert_eq!(b.probability(CognitiveState::Flow), ONE / 2);
    assert_eq!(b.probability(CognitiveState::Incubation), ONE * 3 / 10);
    assert_eq!(b.probability(CognitiveState::Stuck), ONE / 5);
    assert_eq!(CognitiveState::Flow.index(), 0);
    assert_eq!(CognitiveState::Incubation.index(), 1);
    assert_eq!(CognitiveState::Stuck.index(), 2);
}

#[test]
fn rows_of_the_transition_table_sum_to_one() {
    let p = calibrated_parameters();
    assert!(p.is_valid());
    for row in 0..3 {
        let sum: u64 = p.transitions[3 * row..3 * row + 3].iter().sum();
        assert_eq!(sum, 100);
    }
    assert_eq!(p.transitions, [75, 17, 8, 12, 80, 8, 6, 18, 76]);
    assert_eq!(p.emission_floor, 5);
    assert_eq!(p.emissions[4], 14);
    assert_eq!(p.emissions[25], 0);
    assert_eq!(p.emissions[26], 15);
    assert_eq!(p.emissions[51], 1);
    assert_eq!(p.emissions[52 + 21], 22);
    assert_eq!(p.emissions[77], 99);
    // the cells of the grid of each state
    let cells = |j: usize| -> u64 { p.emissions[26 * j..26 * j + 25].iter().sum() };
    assert_eq!(cells(0), 85);
    assert_eq!(cells(1), 107);
    assert_eq!(cells(2), 100);
}

#[test]
fn parameters_are_validated() {
    let good = calibrated_parameters();
    assert!(CognitiveStateEngine::with_parameters(good).is_some());

    let mut short_row = good;
    short_row.transitions[4] = 79;
    assert!(!short_row.is_valid());
    assert!(CognitiveStateEngine::with_parameters(short_row).is_none());

    let mut huge_entry = good;
    huge_entry.transitions[0] = u64::MAX;
    huge_entry.transitions[1] = 1;
    huge_entry.transitions[2] = 100;
    assert!(CognitiveStateEngine::with_parameters(huge_entry).is_none());

    let mut no_floor = good;
    no_floor.emission_floor = 0;
    assert!(CognitiveStateEngine::with_parameters(no_floor).is_none());

    let mut high_floor = good;
    high_floor.emission_floor = 101;
    assert!(CognitiveStateEngine::with_parameters(high_floor).is_none());
    high_floor.emission_floor = 100;
    assert!(CognitiveStateEngine::with_parameters(high_floor).is_some());

    let mut loud = good;
    loud.emissions[77] = 101;
    assert!(CognitiveStateEngine::with_parameters(loud).is_none());
}

#[test]
fn an_engine_with_its_own_parameters_starts_like_any_other() {
    let p = HmmParameters {
        transitions: [100, 0, 0, 0, 100, 0, 0, 0, 100],
        emissions: [0; 78],
        emission_floor: 1,
    };
    let mut engine = CognitiveStateEngine::with_parameters(p).unwrap();
    assert_eq!(engine.get_current_state(), belief(ONE / 2, ONE * 3 / 10, ONE / 5));
    // nothing moves, nothing is told apart: the belief stays
    engine.update(&typing(100, 20), false);
    assert_eq!(engine.posterior(), belief(ONE / 2, ONE * 3 / 10, ONE / 5));
    assert_eq!(engine.get_current_state(), belief(ONE / 2, ONE * 3 / 10, ONE / 5));
}

#[test]
fn beliefs_that_are_distributions() {
    assert!(belief(ONE / 2, ONE * 3 / 10, ONE / 5).sums_to_one());
    assert!(belief(ONE, 0, 0).sums_to_one());
    assert!(belief(333_333_333_333, 333_333_333_333, 333_333_333_333).sums_to_one());
    assert!(belief(ONE - 2, 0, 0).sums_to_one());
    assert!(!belief(ONE - 3, 0, 0).sums_to_one());
    assert!(!belief(ONE, 1, 0).sums_to_one());
    assert!(!belief(ONE + 1, 0, 0).sums_to_one());
    assert!(!belief(0, 0, 0).sums_to_one());
    assert!(!belief(u64::MAX, u64::MAX, 2).sums_to_one());
}

#[test]
fn a_table_with_zero_entries_can_close_a_state() {
    // no state moves to another, and every observation speaks for Flow
    let mut emissions = [0u64; 78];
    for bin in 0..26 {
        emissions[bin] = 100;
    }
    let p = HmmParameters {
        transitions: [100, 0, 0, 0, 100, 0, 0, 0, 100],
        emissions,
        emission_floor: 1,
    };
    let mut engine = CognitiveStateEngine::with_parameters(p).unwrap();
    for _ in 0..20 {
        engine.update(&typing(100, 20), false);
        assert!(engine.posterior().sums_to_one());
        assert!(engine.get_current_state().sums_to_one());
    }
    assert_eq!(engine.posterior().incubation, 0);
    assert_eq!(engine.posterior().stuck, 0);
    // with the calibrated table it cannot happen
    let mut engine = CognitiveStateEngine::new();
    for _ in 0..200 {
        engine.update(&typing(100, 20), false);
        let b = engine.posterior();
        assert!(b.flow >= 50_000_000 && b.incubation >= 50_000_000 && b.stuck >= 50_000_000);
    }
}

#[test]
fn normalize_shares_out_the_whole() {
    assert_eq!(normalize(1, 1, 2), Some(belief(ONE / 4, ONE / 4, ONE / 2)));
    assert_eq!(normalize(0, 0, 7), Some(belief(0, 0, ONE)));
    assert_eq!(
        normalize(1, 1, 1),
        Some(belief(333_333_333_333, 333_333_333_333, 333_333_333_333))
    );
    assert_eq!(normalize(u64::MAX - 2, 1, 1).unwrap().flow, 999_999_999_999);
    assert_eq!(
        normalize(u64::MAX, u64::MAX, u64::MAX),
        Some(belief(333_333_333_333, 333_333_333_333, 333_333_333_333))
    );
    // nothing to share out
    assert_eq!(normalize(0, 0, 0), None);
}

#[test]
fn one_forward_step() {
    let p = calibrated_parameters();
    let prior = belief(ONE / 2, ONE * 3 / 10, ONE / 5);
    // bin 7: Friction cell 1, Engagement cell 2
    let fresh = p.forward(&prior, 7);
    // predicted 0.423, 0.361, 0.216; likelihoods 0.10, 0.09, 0.05
    assert_eq!(Some(fresh), normalize(4230, 3249, 1080));
    assert_eq!(fresh, belief(494_216_614_090, 379_600_420_609, 126_182_965_299));
    // the penalty bin
    let fresh = p.forward(&prior, 25);
    assert_eq!(Some(fresh), normalize(423 * 5, 361 * 6, 216 * 104));
    assert_eq!(fresh, belief(79_080_201_906, 80_987_100_392, 839_932_697_700));
}

#[test]
fn hysteresis_moves_a_quarter_or_a_half_of_the_way() {
    let shown = belief(ONE / 2, ONE * 3 / 10, ONE / 5);
    let fresh = belief(ONE / 10, ONE / 10, ONE * 8 / 10);
    assert_eq!(blend(&shown, &fresh, false), belief(ONE * 4 / 10, ONE / 4, ONE * 35 / 100));
    assert_eq!(blend(&shown, &fresh, true), belief(ONE * 3 / 10, ONE / 5, ONE / 2));
    assert_eq!(blend(&shown, &shown, false), shown);
}

#[test]
fn cells_of_the_grid() {
    let at = |x: u64, y: u64| observe(&LatentPoint { x, y }, false);
    assert_eq!(at(0, 0), 0);
    assert_eq!(at(0, ONE), 4);
    assert_eq!(at(ONE, 0), 20);
    assert_eq!(at(ONE, ONE), 24);
    assert_eq!(at(ONE / 5 - 1, ONE / 5), 1);
    assert_eq!(at(ONE / 5, ONE / 5 - 1), 5);
    assert_eq!(at(ONE * 3 / 10, ONE / 2), 7);
    assert_eq!(at(ONE * 4 / 5, ONE - 1), 24);
    assert_eq!(at(ONE * 4 / 5 - 1, ONE * 4 / 5 - 1), 18);
    assert_eq!(observe(&LatentPoint { x: 0, y: ONE }, true), 25);
    assert_eq!(observe(&LatentPoint { x: ONE, y: 0 }, true), 25);
    // beyond the unit square the last cell
    assert_eq!(at(u64::MAX, 0), 20);
    assert_eq!(at(0, ONE + 1), 4);
}

#[test]
fn first_update_of_a_new_engine() {
    let mut engine = CognitiveStateEngine::new();
    engine.update(&typing(100, 1), false);
    // the latent point moves three tenths of the way from (0.3, 0.5) to (0, 0.6)
    assert_eq!(engine.latent_point(), LatentPoint { x: 210_000_000_000, y: 530_000_000_000 });
    assert_eq!(engine.posterior(), belief(494_216_614_090, 379_600_420_609, 126_182_965_299));
    assert_eq!(
        engine.get_current_state(),
        belief(498_554_153_522, 319_900_105_152, 181_545_741_324)
    );
}

#[test]
fn update_while_paused_changes_nothing() {
    let mut engine = CognitiveStateEngine::new();
    engine.update(&typing(100, 3), false);
    let shown = engine.get_current_state();
    let posterior = engine.posterior();
    let axes = engine.latent_point();
    for _ in 0..5 {
        engine.register_keystroke(0x08);
    }
    engine.set_paused(true);
    assert!(engine.get_paused());
    for _ in 0..10 {
        engine.update(&typing(400, 1), true);
    }
    assert_eq!(engine.get_current_state(), shown);
    assert_eq!(engine.posterior(), posterior);
    assert_eq!(engine.latent_point(), axes);
    assert_eq!(engine.backspace_streak(), 5);
    engine.set_paused(false);
    assert!(!engine.get_paused());
    engine.update(&typing(400, 1), true);
    assert_ne!(engine.get_current_state(), shown);
}

#[test]
fn update_without_flight_time_changes_nothing() {
    let mut engine = CognitiveStateEngine::new();
    engine.update(&typing(100, 3), false);
    let shown = engine.get_current_state();
    let posterior = engine.posterior();
    let axes = engine.latent_point();
    for _ in 0..5 {
        engine.register_keystroke(0x08);
    }
    let mut f = typing(0, 9);
    f.f3_correction_rate = MICRO;
    f.f5_pause_count = 9 * MICRO;
    engine.update(&f, false);
    engine.update(&Features::default(), false);
    assert_eq!(engine.get_current_state(), shown);
    assert_eq!(engine.posterior(), posterior);
    assert_eq!(engine.latent_point(), axes);
    assert_eq!(engine.backspace_streak(), 5);
}

#[test]
fn every_update_leaves_a_distribution() {
    let mut engine = CognitiveStateEngine::new();
    let mut seed: u64 = 0x9E37_79B9_7F4A_7C15;
    for round in 0..2_000u64 {
        seed = seed.wrapping_mul(6364136223846793005).wrapping_add(1442695040888963407);
        let f = Features {
            f1_flight_time_median: 1 + (seed >> 40) % (600 * MICRO),
            f2_flight_time_variance: 0,
            f3_correction_rate: (seed >> 20) % MICRO,
            f4_burst_length: (seed >> 10) % (20 * MICRO),
            f5_pause_count: (seed >> 30) % (10 * MICRO),
            f6_pause_after_del_rate: (seed >> 5) % MICRO,
        };
        if round % 7 == 0 {
            for _ in 0..5 {
                engine.register_keystroke(0x08);
            }
        }
        engine.update(&f, round % 3 == 0);
        for b in [engine.get_current_state(), engine.posterior()] {
            assert!(total(&b) <= ONE && total(&b) >= ONE - 2);
            for p in [b.flow, b.incubation, b.stuck] {
                assert!(p > 0 && p < ONE);
            }
        }
        let at = engine.latent_point();
        assert!(at.x <= ONE && at.y <= ONE);
    }
}

#[test]
fn queries_without_an_update_agree() {
    let mut engine = CognitiveStateEngine::new();
    engine.update(&typing(100, 3), false);
    let first = engine.get_current_state();
    for _ in 0..10 {
        assert_eq!(engine.get_current_state(), first);
    }
    engine.register_keystroke(0x41);
    engine.set_paused(true);
    engine.set_paused(false);
    assert_eq!(engine.get_current_state(), first);
}

#[test]
fn forcing_flow_overrides_any_belief() {
    let mut engine = CognitiveStateEngine::new();
    for _ in 0..5 {
        engine.register_keystroke(0x08);
    }
    engine.update(&typing(500, 1), false);
    assert!(engine.get_current_state().stuck > ONE / 2);
    engine.register_keystroke(0x08);
    engine.set_paused(true);
    engine.force_flow_state();
    let b = engine.get_current_state();
    assert_eq!(b, belief(980_000_000_000, 10_000_000_000, 10_000_000_000));
    assert_eq!(engine.posterior(), b);
    assert_eq!(engine.latent_point(), LatentPoint { x: 0, y: ONE });
    // the pause and the run of deletions are untouched
    assert!(engine.get_paused());
    assert_eq!(engine.backspace_streak(), 1);
}

#[test]
fn forcing_the_other_states() {
    let mut engine = CognitiveStateEngine::new();
    engine.force_override_to_state(CognitiveState::Incubation);
    assert_eq!(
        engine.get_current_state(),
        belief(10_000_000_000, 980_000_000_000, 10_000_000_000)
    );
    assert_eq!(engine.latent_point(), LatentPoint { x: 0, y: 0 });
    engine.force_override_to_state(CognitiveState::Stuck);
    assert_eq!(
        engine.posterior(),
        belief(10_000_000_000, 10_000_000_000, 980_000_000_000)
    );
    assert_eq!(engine.latent_point(), LatentPoint { x: ONE, y: 0 });
    engine.force_override_to_state(CognitiveState::Flow);
    assert_eq!(
        engine.get_current_state(),
        belief(980_000_000_000, 10_000_000_000, 10_000_000_000)
    );
}

#[test]
fn the_run_of_deletions_counts_and_resets() {
    let mut engine = CognitiveStateEngine::new();
    engine.register_keystroke(0x08);
    engine.register_keystroke(0x08);
    assert_eq!(engine.backspace_streak(), 2);
    engine.register_keystroke(0x2E);
    assert_eq!(engine.backspace_streak(), 3);
    engine.register_keystroke(0x41);
    assert_eq!(engine.backspace_streak(), 0);
    engine.register_keystroke(0x08);
    assert_eq!(engine.backspace_streak(), 1);
}

#[test]
fn a_run_below_the_limit_raises_no_penalty() {
    let mut plain = CognitiveStateEngine::new();
    let mut engine = CognitiveStateEngine::new();
    for _ in 0..4 {
        engine.register_keystroke(0x08);
    }
    plain.update(&typing(100, 1), false);
    engine.update(&typing(100, 1), false);
    assert_eq!(engine.get_current_state(), plain.get_current_state());
    assert_eq!(engine.backspace_streak(), 4);
}

#[test]
fn a_run_at_the_limit_forces_the_penalty_bin() {
    let mut engine = CognitiveStateEngine::new();
    for _ in 0..5 {
        engine.register_keystroke(0x08);
    }
    let before = engine.get_current_state();
    // features of smooth typing: the latent point lies in a low-friction cell
    engine.update(&typing(100, 20), false);
    assert!(engine.latent_point().x < ONE / 2);
    // the posterior is that of the penalty bin
    assert_eq!(engine.posterior(), calibrated_parameters().forward(&before, 25));
    assert_eq!(engine.posterior(), belief(79_080_201_906, 80_987_100_392, 839_932_697_700));
    // what is shown moves half of the way
    assert_eq!(
        engine.get_current_state(),
        belief(289_540_100_953, 190_493_550_196, 519_966_348_850)
    );
    assert!(engine.get_current_state().stuck > before.stuck);
    // the run starts anew, and the next update is an ordinary one
    assert_eq!(engine.backspace_streak(), 0);
    let prior = engine.posterior();
    engine.update(&typing(100, 20), false);
    let cell = observe(&engine.latent_point(), false);
    assert!(cell < 25);
    assert_eq!(engine.posterior(), calibrated_parameters().forward(&prior, cell));
}
