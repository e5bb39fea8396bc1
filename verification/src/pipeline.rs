//! What the ingestion loop and the context monitor do with each signal: the
//! steps between the event source, the extractor, the engine and the log.

use crate::engine::{
    certainty, anchor, streak_after, updated, CognitiveStateEngine, EngineState,
};
use crate::features::{
    flight_time_of, ring_push, silence_features, FeatureExtractor, Features, InputEvent, PAUSE_MS,
};
use crate::hmm::{Belief, CognitiveState};
use crate::session::LogEntry;
use crate::window::window_features;
use vstd::prelude::*;

verus! {

/// What one key event gave for the log.
#[derive(Debug, Clone, Copy)]
pub struct Ingested {
    /// The event itself; `None` while the engine is paused.
    pub key: Option<LogEntry>,
    /// The features and the belief of the update that a key press gave.
    pub feat: Option<LogEntry>,
}

/// The log entry of an update at `timestamp` with `features`, after which
/// `shown` is shown.
pub open spec fn feat_entry(timestamp: u64, features: Features, shown: Belief) -> LogEntry {
    LogEntry::Feat {
        timestamp,
        f1: features.f1_flight_time_median,
        f2: features.f2_flight_time_variance,
        f3: features.f3_correction_rate,
        f4: features.f4_burst_length,
        f5: features.f5_pause_count,
        f6: features.f6_pause_after_del_rate,
        p_flow: shown.flow,
        p_inc: shown.incubation,
        p_stuck: shown.stuck,
    }
}

/// The log entry of an update at `timestamp` with `features`.
pub fn make_feat_entry(timestamp: u64, features: &Features, shown: &Belief) -> (entry: LogEntry)
    ensures
        entry == feat_entry(timestamp, *features, *shown),
{
    LogEntry::Feat {
        timestamp,
        f1: features.f1_flight_time_median,
        f2: features.f2_flight_time_variance,
        f3: features.f3_correction_rate,
        f4: features.f4_burst_length,
        f5: features.f5_pause_count,
        f6: features.f6_pause_after_del_rate,
        p_flow: shown.flow,
        p_inc: shown.incubation,
        p_stuck: shown.stuck,
    }
}

/// The engine after the key press `event`, given the events that the
/// extractor holds by then: the key is counted into the run of deletions,
/// then the belief is updated with the features of the window.
pub open spec fn engine_after_press(
    s: EngineState,
    event: InputEvent,
    events: Seq<InputEvent>,
    ime_open: bool,
) -> EngineState {
    updated(
        EngineState { streak: streak_after(s.streak, event.vk_code), ..s },
        window_features(events),
        ime_open,
    )
}

/// Takes in one key event. Every event goes to the extractor, and every key
/// press is counted into the run of deletions and asks for an update of the
/// belief with the features of the window; a paused engine lets no update
/// through. What was taken in is given back for the log, but for a paused
/// engine, of which nothing is logged.
pub fn ingest_event(
    extractor: &mut FeatureExtractor,
    engine: &mut CognitiveStateEngine,
    event: InputEvent,
    ime_open: bool,
) -> (out: Ingested)
    ensures
        final(extractor).wf(),
        final(engine).wf(),
        final(extractor).capacity() == old(extractor).capacity(),
        final(extractor).events() == ring_push(
            old(extractor).events(),
            event,
            old(extractor).capacity() as int,
        ),
        final(extractor).last_release_time() == if event.is_press {
            old(extractor).last_release_time()
        } else {
            Some(event.timestamp)
        },
        final(extractor).collected_flight_times() == match flight_time_of(
            old(extractor).last_release_time(),
            event,
        ) {
            Some(ft) => ring_push(
                old(extractor).collected_flight_times(),
                ft,
                old(extractor).capacity() as int,
            ),
            None => old(extractor).collected_flight_times(),
        },
        final(engine)@ == if event.is_press {
            engine_after_press(old(engine)@, event, final(extractor).events(), ime_open)
        } else {
            old(engine)@
        },
        out.key == if old(engine)@.paused {
            None
        } else {
            Some(
                LogEntry::Key {
                    vk_code: event.vk_code,
                    timestamp: event.timestamp,
                    is_press: event.is_press,
                },
            )
        },
        out.feat == if event.is_press && !old(engine)@.paused {
            Some(
                feat_entry(
                    event.timestamp,
                    window_features(final(extractor).events()),
                    final(engine)@.shown,
                ),
            )
        } else {
            None
        },
{
    proof {
        use_type_invariant(&*extractor);
        use_type_invariant(&*engine);
    }
    let paused = engine.get_paused();
    extractor.process_event(event);
    let key = if paused {
        None
    } else {
        Some(
            LogEntry::Key {
                vk_code: event.vk_code,
                timestamp: event.timestamp,
                is_press: event.is_press,
            },
        )
    };
    if !event.is_press {
        return Ingested { key, feat: None };
    }
    engine.register_keystroke(event.vk_code);
    let features = extractor.calculate_features();
    engine.update(&features, ime_open);
    if paused {
        return Ingested { key, feat: None };
    }
    let shown = engine.get_current_state();
    Ingested { key, feat: Some(make_feat_entry(event.timestamp, &features, &shown)) }
}

/// While the engine is paused a key press changes nothing of it but the run
/// of deletions: the belief, what is shown and the latent point stay as they
/// are.
pub proof fn paused_press_changes_no_belief(
    s: EngineState,
    event: InputEvent,
    events: Seq<InputEvent>,
    ime_open: bool,
)
    requires
        s.paused,
    ensures
        engine_after_press(s, event, events, ime_open) == (EngineState {
            streak: streak_after(s.streak, event.vk_code),
            ..s
        }),
{
}

/// Takes in that no key event came for `silence_ms` milliseconds. While the
/// engine is paused, and for a silence shorter than a pause, nothing
/// happens. Otherwise the belief is updated with the features that stand for
/// the silence; the entry for the log is stamped `now_ms`.
pub fn ingest_silence(
    extractor: &FeatureExtractor,
    engine: &mut CognitiveStateEngine,
    silence_ms: u64,
    ime_open: bool,
    now_ms: u64,
) -> (out: Option<LogEntry>)
    ensures
        final(engine).wf(),
        old(engine)@.paused || silence_ms < PAUSE_MS ==> final(engine)@ == old(engine)@ && out
            is None,
        !old(engine)@.paused && silence_ms >= PAUSE_MS ==> {
            &&& final(engine)@ == updated(old(engine)@, silence_features(silence_ms), ime_open)
            &&& out == Some(feat_entry(now_ms, silence_features(silence_ms), final(engine)@.shown))
        },
{
    proof {
        use_type_invariant(&*engine);
    }
    if engine.get_paused() {
        return None;
    }
    match extractor.make_silence_observation(silence_ms) {
        Some(features) => {
            engine.update(&features, ime_open);
            let shown = engine.get_current_state();
            Some(make_feat_entry(now_ms, &features, &shown))
        },
        None => None,
    }
}

/// Takes in whether a candidate window of the input method is open: while
/// one is, updates are suspended and the belief is held at Flow.
pub fn apply_composition_signal(engine: &mut CognitiveStateEngine, candidate_open: bool)
    ensures
        final(engine)@ == if candidate_open {
            EngineState {
                paused: true,
                posterior: certainty(CognitiveState::Flow),
                shown: certainty(CognitiveState::Flow),
                axes: anchor(CognitiveState::Flow),
                ..old(engine)@
            }
        } else {
            EngineState { paused: false, ..old(engine)@ }
        },
        final(engine).wf(),
{
    engine.set_paused(candidate_open);
    if candidate_open {
        engine.force_flow_state();
    }
}

} // verus!
