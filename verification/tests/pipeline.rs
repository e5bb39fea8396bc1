use gse_next::baseline::{MICRO, ONE};
use gse_next::engine::{CognitiveStateEngine, LatentPoint};
use gse_next::features::{FeatureExtractor, InputEvent};
use gse_next::hmm::Belief;
use gse_next::pipeline::{
    apply_composition_signal, ingest_event, ingest_silence, make_feat_entry,
};
use gse_next::session::LogEntry;

fn press(vk_code: u32, timestamp: u64) -> InputEvent {
    InputEvent { vk_code, timestamp, is_press: true }
}

fn release(vk_code: u32, timestamp: u64) -> InputEvent {
    InputEvent { vk_code, timestamp, is_press: false }
}

#[test]
fn a_release_is_logged_and_changes_no_belief() {
    let mut fx = FeatureExtractor::new(600);
    let mut engine = CognitiveStateEngine::new();
    let before = engine.get_current_state();
    let out = ingest_event(&mut fx, &mut engine, release(0x41, 1_000), false);
    assert!(matches!(
        out.key,
        Some(LogEntry::Key { vk_code: 0x41, timestamp: 1_000, is_press: false })
    ));
    assert!(out.feat.is_none());
    assert_eq!(engine.get_current_state(), before);
}

#[test]
fn a_press_updates_the_belief_and_is_logged_with_it() {
    let mut fx = FeatureExtractor::new(600);
    let mut engine = CognitiveStateEngine::new();
    ingest_event(&mut fx, &mut engine, press(0x41, 1_000), false);
    ingest_event(&mut fx, &mut engine, release(0x41, 1_050), false);
    let out = ingest_event(&mut fx, &mut engine, press(0x42, 1_150), false);
    assert!(matches!(
        out.key,
        Some(LogEntry::Key { vk_code: 0x42, timestamp: 1_150, is_press: true })
    ));
    let shown = engine.get_current_state();
    assert_eq!(shown, Belief { flow: 498_554_153_522, incubation: 319_900_105_152, stuck: 181_545_741_324 });
    match out.feat {
        Some(LogEntry::Feat { timestamp, f1, f2, f3, f4, f5, f6, p_flow, p_inc, p_stuck }) => {
            assert_eq!(timestamp, 1_150);
            assert_eq!((f1, f2, f3, f4, f5, f6), (100 * MICRO, 0, 0, 2 * MICRO, 0, 0));
            assert_eq!((p_flow, p_inc, p_stuck), (shown.flow, shown.incubation, shown.stuck));
        }
        _ => panic!("a key press gives a feature entry"),
    }
}

#[test]
fn the_first_press_carries_no_timing_and_leaves_the_belief() {
    let mut fx = FeatureExtractor::new(600);
    let mut engine = CognitiveStateEngine::new();
    let before = engine.get_current_state();
    let out = ingest_event(&mut fx, &mut engine, press(0x08, 1_000), false);
    assert_eq!(engine.get_current_state(), before);
    // the key still counts into the run of deletions
    assert_eq!(engine.backspace_streak(), 1);
    match out.feat {
        Some(LogEntry::Feat { f1, f3, p_flow, .. }) => {
            assert_eq!(f1, 0);
            assert_eq!(f3, MICRO);
            assert_eq!(p_flow, before.flow);
        }
        _ => panic!("a key press gives a feature entry"),
    }
}

#[test]
fn presses_count_into_the_run_of_deletions() {
    let mut fx = FeatureExtractor::new(600);
    let mut engine = CognitiveStateEngine::new();
    let mut at = 1_000;
    let mut shown = Vec::new();
    for _ in 0..5 {
        ingest_event(&mut fx, &mut engine, press(0x08, at), false);
        shown.push(engine.get_current_state().stuck);
        ingest_event(&mut fx, &mut engine, release(0x08, at + 50), false);
        at += 150;
    }
    // the fifth press in a row raises the penalty
    assert_eq!(shown[4], 443_632_106_576);
    assert!(shown[4] > shown[3]);
    assert_eq!(engine.backspace_streak(), 0);
}

#[test]
fn a_paused_engine_still_feeds_the_extractor() {
    let mut fx = FeatureExtractor::new(600);
    let mut engine = CognitiveStateEngine::new();
    ingest_event(&mut fx, &mut engine, release(0x41, 1_000), false);
    engine.set_paused(true);
    let before = (engine.get_current_state(), engine.posterior(), engine.latent_point());
    // a Backspace 100 ms after the release, while paused
    let out = ingest_event(&mut fx, &mut engine, press(0x08, 1_100), false);
    // nothing is logged and no belief moves
    assert!(out.key.is_none() && out.feat.is_none());
    assert_eq!((engine.get_current_state(), engine.posterior(), engine.latent_point()), before);
    // but the event reached the extractor, and the key was counted
    let f = fx.calculate_features();
    assert_eq!(f.f1_flight_time_median, 100 * MICRO);
    assert_eq!(f.f3_correction_rate, MICRO);
    assert_eq!(fx.calculate_flight_time_median(), 100 * MICRO);
    assert_eq!(engine.backspace_streak(), 1);
    let out = ingest_event(&mut fx, &mut engine, release(0x08, 1_150), false);
    assert!(out.key.is_none() && out.feat.is_none());
    engine.set_paused(false);
    // the next press sees both presses and both flight times
    let out = ingest_event(&mut fx, &mut engine, press(0x41, 1_450), false);
    match out.feat {
        Some(LogEntry::Feat { f1, f3, f4, .. }) => {
            assert_eq!(f1, 200 * MICRO);
            assert_eq!(f3, 500_000);
            assert_eq!(f4, MICRO);
        }
        _ => panic!("a key press gives a feature entry"),
    }
    assert_eq!(engine.backspace_streak(), 0);
    assert_ne!(engine.get_current_state(), before.0);
}

#[test]
fn presses_while_paused_count_into_the_run_of_deletions() {
    let mut fx = FeatureExtractor::new(600);
    let mut engine = CognitiveStateEngine::new();
    engine.set_paused(true);
    let mut at = 1_000;
    for _ in 0..5 {
        ingest_event(&mut fx, &mut engine, press(0x08, at), false);
        ingest_event(&mut fx, &mut engine, release(0x08, at + 50), false);
        at += 150;
    }
    // the run is kept until an update is let through
    assert_eq!(engine.backspace_streak(), 5);
    let before = engine.get_current_state();
    engine.set_paused(false);
    ingest_event(&mut fx, &mut engine, press(0x08, at), false);
    assert!(engine.get_current_state().stuck > before.stuck);
    assert_eq!(engine.backspace_streak(), 0);
}

#[test]
fn silence_is_fed_from_two_seconds_on() {
    let fx = FeatureExtractor::new(600);
    let mut engine = CognitiveStateEngine::new();
    let before = engine.get_current_state();
    assert!(ingest_silence(&fx, &mut engine, 1_999, false, 77).is_none());
    assert_eq!(engine.get_current_state(), before);
    let out = ingest_silence(&fx, &mut engine, 2_000, false, 77);
    let shown = engine.get_current_state();
    assert_ne!(shown, before);
    match out {
        Some(LogEntry::Feat { timestamp, f1, f2, f3, f4, f5, f6, p_flow, p_inc, p_stuck }) => {
            assert_eq!(timestamp, 77);
            assert_eq!((f1, f2, f3, f4, f5, f6), (2_000 * MICRO, 0, 0, 0, MICRO, 0));
            assert_eq!((p_flow, p_inc, p_stuck), (shown.flow, shown.incubation, shown.stuck));
        }
        _ => panic!("a silence of two seconds gives a feature entry"),
    }
    engine.set_paused(true);
    assert!(ingest_silence(&fx, &mut engine, 10_000, false, 78).is_none());
    assert_eq!(engine.get_current_state(), shown);
}

#[test]
fn composition_suspends_the_inference_and_holds_flow() {
    let mut engine = CognitiveStateEngine::new();
    for _ in 0..3 {
        engine.register_keystroke(0x08);
    }
    apply_composition_signal(&mut engine, true);
    assert!(engine.get_paused());
    let flow = Belief { flow: 980_000_000_000, incubation: 10_000_000_000, stuck: 10_000_000_000 };
    assert_eq!(engine.get_current_state(), flow);
    assert_eq!(engine.posterior(), flow);
    assert_eq!(engine.latent_point(), LatentPoint { x: 0, y: ONE });
    assert_eq!(engine.backspace_streak(), 3);
    apply_composition_signal(&mut engine, false);
    assert!(!engine.get_paused());
    // the belief is kept when the composition ends
    assert_eq!(engine.get_current_state(), flow);
}

#[test]
fn feature_entries() {
    let f = gse_next::features::Features {
        f1_flight_time_median: 1,
        f2_flight_time_variance: 2,
        f3_correction_rate: 3,
        f4_burst_length: 4,
        f5_pause_count: 5,
        f6_pause_after_del_rate: 6,
    };
    let b = Belief { flow: 7, incubation: 8, stuck: 9 };
    assert!(matches!(
        make_feat_entry(10, &f, &b),
        LogEntry::Feat {
            timestamp: 10,
            f1: 1,
            f2: 2,
            f3: 3,
            f4: 4,
            f5: 5,
            f6: 6,
            p_flow: 7,
            p_inc: 8,
            p_stuck: 9
        }
    ));
}
