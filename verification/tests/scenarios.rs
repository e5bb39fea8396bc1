use gse_next::baseline::ONE;
use gse_next::engine::CognitiveStateEngine;
use gse_next::features::{FeatureExtractor, InputEvent};
use gse_next::hmm::Belief;

/// Presses and releases one key, updating the engine on the press as the
/// ingestion loop does. Returns the time of the next press.
fn keystroke(
    fx: &mut FeatureExtractor,
    engine: &mut CognitiveStateEngine,
    vk_code: u32,
    at: u64,
    update: bool,
) -> u64 {
    fx.process_event(InputEvent { vk_code, timestamp: at, is_press: true });
    engine.register_keystroke(vk_code);
    if update {
        let f = fx.calculate_features();
        engine.update(&f, false);
    }
    fx.process_event(InputEvent { vk_code, timestamp: at + 50, is_press: false });
    at + 150
}

fn smooth_typing(fx: &mut FeatureExtractor, engine: &mut CognitiveStateEngine) {
    let mut at = 1_000;
    for _ in 0..20 {
        at = keystroke(fx, engine, 0x41, at, true);
    }
}

#[test]
fn steady_typing_converges_to_flow() {
    let mut fx = FeatureExtractor::new(600);
    let mut engine = CognitiveStateEngine::new();
    smooth_typing(&mut fx, &mut engine);
    let b = engine.get_current_state();
    assert!(b.flow > ONE / 2);
    assert!(b.flow > b.incubation && b.flow > b.stuck);
    assert_eq!(
        b,
        Belief { flow: 831_994_541_311, incubation: 130_123_277_585, stuck: 37_882_181_102 }
    );
}

#[test]
fn five_backspaces_raise_stuck() {
    let mut fx = FeatureExtractor::new(600);
    let mut engine = CognitiveStateEngine::new();
    let mut at = 1_000;
    for _ in 0..5 {
        at = keystroke(&mut fx, &mut engine, 0x08, at, false);
    }
    assert_eq!(engine.backspace_streak(), 5);
    let before = engine.get_current_state();
    let f = fx.calculate_features();
    engine.update(&f, false);
    let after = engine.get_current_state();
    assert!(after.stuck > before.stuck);
    assert_eq!(
        after,
        Belief { flow: 289_540_100_953, incubation: 190_493_550_196, stuck: 519_966_348_850 }
    );
    assert!(engine.posterior().stuck > ONE * 8 / 10);
    assert_eq!(engine.backspace_streak(), 0);
}

#[test]
fn backspaces_with_an_update_on_every_press() {
    let mut fx = FeatureExtractor::new(600);
    let mut engine = CognitiveStateEngine::new();
    let mut at = 1_000;
    let mut shown = Vec::new();
    for _ in 0..5 {
        at = keystroke(&mut fx, &mut engine, 0x08, at, true);
        shown.push(engine.get_current_state().stuck);
    }
    // the fifth press reaches the limit: its update is the penalty update
    assert!(shown[4] > shown[3]);
    assert_eq!(shown[3], 140_270_283_942);
    assert_eq!(shown[4], 443_632_106_576);
    assert_eq!(engine.backspace_streak(), 0);
}

#[test]
fn silence_drifts_from_flow_to_incubation() {
    let mut fx = FeatureExtractor::new(600);
    let mut engine = CognitiveStateEngine::new();
    smooth_typing(&mut fx, &mut engine);
    let mut last = engine.get_current_state();
    assert!(last.flow > last.incubation);
    for seconds in 2..=10u64 {
        let f = fx.make_silence_observation(seconds * 1_000).unwrap();
        engine.update(&f, false);
        let b = engine.get_current_state();
        assert!(b.flow < last.flow);
        assert!(b.incubation > last.incubation);
        for p in [b.flow, b.incubation, b.stuck] {
            assert!(p > 0 && p < ONE);
        }
        last = b;
    }
    assert!(last.incubation > last.flow && last.incubation > last.stuck);
    assert_eq!(
        last,
        Belief { flow: 280_181_870_892, incubation: 674_248_374_015, stuck: 45_569_755_091 }
    );
}

#[test]
fn a_short_silence_is_not_fed() {
    let fx = FeatureExtractor::new(600);
    let mut engine = CognitiveStateEngine::new();
    let before = engine.get_current_state();
    if let Some(f) = fx.make_silence_observation(1_500) {
        engine.update(&f, false);
    }
    assert_eq!(engine.get_current_state(), before);
}
