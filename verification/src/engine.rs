//! The belief-update engine: the admission of an update, the override for a
//! run of deletions, the smoothing of the latent axes, the discretisation,
//! one forward step and the hysteresis of what is shown.

use crate::baseline::{baseline_for, engagement, friction, project, select_baseline, ONE};
use crate::features::{Features, VK_BACK, VK_DELETE};
use crate::hmm::{
    blend, blended, Belief, CognitiveState, HmmParameters, BINS, GRID, PENALTY_BIN, PERCENT,
};
use vstd::prelude::*;

verus! {

/// A run of this many deletions in a row raises the penalty.
pub const STREAK_LIMIT: u32 = 5;

/// The weight of a fresh latent point in the moving average, in tenths.
pub const EWMA_FRESH: u64 = 3;

/// The weight of the kept latent point in the moving average, in tenths.
pub const EWMA_KEPT: u64 = 7;

/// The probability of the state that a belief is forced to.
pub const CERTAIN: u64 = 980_000_000_000;

/// The probability of each other state of a forced belief.
pub const DOUBTFUL: u64 = 10_000_000_000;

/// The width of a cell of the grid, in parts per `ONE`.
pub const CELL_WIDTH: u64 = 200_000_000_000;

/// A point of the latent plane, each axis in parts per `ONE`.
#[derive(Debug, Clone, Copy, PartialEq, Eq, Structural)]
pub struct LatentPoint {
    /// Friction.
    pub x: u64,
    /// Engagement.
    pub y: u64,
}

impl LatentPoint {
    /// Both axes lie in the unit interval.
    pub open spec fn in_unit_square(self) -> bool {
        self.x <= ONE && self.y <= ONE
    }
}

/// The parameters that the engine is calibrated with: the transition table.
pub open spec fn calibrated_transitions() -> Seq<u64> {
    seq![75, 17, 8, 12, 80, 8, 6, 18, 76]
}

/// The parameters that the engine is calibrated with: the emission table.
/// Each state has a row of 26 bins; bin `5 x + y` is the cell of Friction
/// `x` and Engagement `y`, bin 25 the penalty bin.
pub open spec fn calibrated_emissions() -> Seq<u64> {
    seq![
        1, 2, 5, 12, 14,
        1, 2, 5, 12, 13,
        0, 1, 3, 6, 8,
        0, 0, 0, 0, 0,
        0, 0, 0, 0, 0,
        0,
        15, 10, 4, 3, 2,
        14, 10, 4, 3, 2,
        10, 8, 3, 1, 0,
        5, 4, 1, 0, 0,
        4, 3, 1, 0, 0,
        1,
        0, 0, 0, 0, 0,
        0, 0, 0, 0, 0,
        2, 4, 2, 0, 0,
        10, 16, 7, 2, 0,
        16, 22, 12, 5, 2,
        99,
    ]
}

/// The emission floor that the engine is calibrated with.
pub const CALIBRATED_FLOOR: u64 = 5;

/// Whether `p` holds the calibrated parameters.
pub open spec fn is_calibrated(p: HmmParameters) -> bool {
    &&& p.transitions@ == calibrated_transitions()
    &&& p.emissions@ == calibrated_emissions()
    &&& p.emission_floor == CALIBRATED_FLOOR
}

/// The calibrated parameters.
pub fn calibrated_parameters() -> (p: HmmParameters)
    ensures
        is_calibrated(p),
        p.valid(),
{
    let p = HmmParameters {
        transitions: [75, 17, 8, 12, 80, 8, 6, 18, 76],
        emissions: [
            1, 2, 5, 12, 14,
            1, 2, 5, 12, 13,
            0, 1, 3, 6, 8,
            0, 0, 0, 0, 0,
            0, 0, 0, 0, 0,
            0,
            15, 10, 4, 3, 2,
            14, 10, 4, 3, 2,
            10, 8, 3, 1, 0,
            5, 4, 1, 0, 0,
            4, 3, 1, 0, 0,
            1,
            0, 0, 0, 0, 0,
            0, 0, 0, 0, 0,
            2, 4, 2, 0, 0,
            10, 16, 7, 2, 0,
            16, 22, 12, 5, 2,
            99,
        ],
        emission_floor: CALIBRATED_FLOOR,
    };
    proof {
        assert(p.transitions@ =~= calibrated_transitions());
        assert(p.emissions@ =~= calibrated_emissions());
        calibrated_parameters_are_valid(p);
    }
    p
}

/// Each row of the calibrated transition table sums to 1.0, and the
/// calibrated parameters are valid.
pub proof fn calibrated_parameters_are_valid(p: HmmParameters)
    requires
        is_calibrated(p),
    ensures
        p.row_sum(0) == PERCENT,
        p.row_sum(1) == PERCENT,
        p.row_sum(2) == PERCENT,
        p.valid(),
{
    let e = calibrated_emissions();
    assert forall|k: int| 0 <= k < 78 implies #[trigger] p.emissions@[k] <= PERCENT by {
        assert(e[k] <= 99);
    }
}

/// The state of the engine.
pub struct EngineState {
    pub parameters: HmmParameters,
    /// The posterior of the last forward step.
    pub posterior: Belief,
    /// The smoothed belief, which readers see.
    pub shown: Belief,
    /// The smoothed latent point.
    pub axes: LatentPoint,
    pub paused: bool,
    /// The number of deletions in a row.
    pub streak: u32,
}

/// The belief the engine starts with.
pub open spec fn initial_belief() -> Belief {
    Belief { flow: 500_000_000_000, incubation: 300_000_000_000, stuck: 200_000_000_000 }
}

/// The latent point the engine starts at: a neutral cell of the grid.
pub open spec fn initial_axes() -> LatentPoint {
    LatentPoint { x: 300_000_000_000, y: 500_000_000_000 }
}

/// The state of a new engine with the parameters `p`.
pub open spec fn initial_state(p: HmmParameters) -> EngineState {
    EngineState {
        parameters: p,
        posterior: initial_belief(),
        shown: initial_belief(),
        axes: initial_axes(),
        paused: false,
        streak: 0,
    }
}

/// The belief that is all but certain of `target`.
pub open spec fn certainty(target: CognitiveState) -> Belief {
    match target {
        CognitiveState::Flow => Belief { flow: CERTAIN, incubation: DOUBTFUL, stuck: DOUBTFUL },
        CognitiveState::Incubation => Belief {
            flow: DOUBTFUL,
            incubation: CERTAIN,
            stuck: DOUBTFUL,
        },
        CognitiveState::Stuck => Belief { flow: DOUBTFUL, incubation: DOUBTFUL, stuck: CERTAIN },
    }
}

/// The corner of the latent plane that stands for `target`: low Friction and
/// high Engagement for Flow, low Friction and low Engagement for Incubation,
/// high Friction and low Engagement for Stuck.
pub open spec fn anchor(target: CognitiveState) -> LatentPoint {
    match target {
        CognitiveState::Flow => LatentPoint { x: 0, y: ONE },
        CognitiveState::Incubation => LatentPoint { x: 0, y: 0 },
        CognitiveState::Stuck => LatentPoint { x: ONE, y: 0 },
    }
}

/// Whether the key is a deletion key: Backspace or Delete.
pub open spec fn is_deletion_key(vk_code: u32) -> bool {
    vk_code == VK_BACK || vk_code == VK_DELETE
}

/// The run of deletions after one more key press: one longer after a
/// deletion key, wrapping at what 32 bits hold; 0 after any other key.
pub open spec fn streak_after(streak: u32, vk_code: u32) -> u32 {
    if !is_deletion_key(vk_code) {
        0
    } else if streak == u32::MAX {
        0
    } else {
        (streak + 1) as u32
    }
}

/// The moving average of one axis: three tenths of `fresh` and seven tenths
/// of `kept`, rounded down.
pub open spec fn smoothed(kept: int, fresh: int) -> int {
    (EWMA_FRESH * fresh + EWMA_KEPT * kept) / 10
}

/// The cell of the grid along one axis that `v` falls in: `floor(5 v)`, the
/// last cell for `v` at 1.0.
pub open spec fn grid_cell(v: int) -> int {
    if v * GRID / (ONE as int) >= GRID - 1 {
        GRID - 1
    } else {
        v * GRID / (ONE as int)
    }
}

/// The observation that the latent point `axes` gives: the penalty bin where
/// the penalty is due, the cell of the grid otherwise.
pub open spec fn observation(axes: LatentPoint, penalty: bool) -> int {
    if penalty {
        PENALTY_BIN as int
    } else {
        grid_cell(axes.x as int) * GRID + grid_cell(axes.y as int)
    }
}

/// Whether an update with `features` is let through: the engine is not
/// paused and the features carry timing data.
pub open spec fn accepted(s: EngineState, features: Features) -> bool {
    !s.paused && features.f1_flight_time_median > 0
}

/// Whether the run of deletions has reached the limit.
pub open spec fn penalty_due(s: EngineState) -> bool {
    s.streak >= STREAK_LIMIT
}

/// The latent point after an accepted update with `features`.
pub open spec fn next_axes(s: EngineState, features: Features, ime_open: bool) -> LatentPoint {
    LatentPoint {
        x: smoothed(s.axes.x as int, friction(features, baseline_for(ime_open))) as u64,
        y: smoothed(s.axes.y as int, engagement(features, baseline_for(ime_open))) as u64,
    }
}

/// The observation of an accepted update with `features`.
pub open spec fn next_observation(s: EngineState, features: Features, ime_open: bool) -> int {
    observation(next_axes(s, features, ime_open), penalty_due(s))
}

/// The state after an update with `features`.
pub open spec fn updated(s: EngineState, features: Features, ime_open: bool) -> EngineState {
    if !accepted(s, features) {
        s
    } else {
        let fresh = s.parameters.posterior(s.posterior, next_observation(s, features, ime_open));
        EngineState {
            parameters: s.parameters,
            posterior: fresh,
            shown: blended(s.shown, fresh, penalty_due(s)),
            axes: next_axes(s, features, ime_open),
            paused: s.paused,
            streak: if penalty_due(s) {
                0
            } else {
                s.streak
            },
        }
    }
}

/// The invariant of the engine.
pub open spec fn consistent(s: EngineState) -> bool {
    &&& s.parameters.valid()
    &&& s.posterior.is_distribution()
    &&& s.shown.is_distribution()
    &&& s.axes.in_unit_square()
}

/// The cell of the grid along one axis.
fn cell(v: u64) -> (c: u64)
    ensures
        c == grid_cell(v as int),
        c < GRID,
{
    proof {
        vstd::arithmetic::div_mod::lemma_div_denominator(v * 5, 5, 200_000_000_000);
        vstd::arithmetic::div_mod::lemma_div_by_multiple(v as int, 5);
    }
    let c = v / CELL_WIDTH;
    if c >= GRID - 1 {
        GRID - 1
    } else {
        c
    }
}

/// The observation that the latent point `axes` gives.
pub fn observe(axes: &LatentPoint, penalty: bool) -> (obs: usize)
    ensures
        obs == observation(*axes, penalty),
        obs < BINS,
        penalty ==> obs == PENALTY_BIN,
        !penalty ==> obs < PENALTY_BIN,
{
    if penalty {
        PENALTY_BIN
    } else {
        (cell(axes.x) * GRID + cell(axes.y)) as usize
    }
}

/// Infers the cognitive state from a stream of behavioural features.
pub struct CognitiveStateEngine {
    parameters: HmmParameters,
    current_state_probs: Belief,
    display_probs: Belief,
    axes_ewma: LatentPoint,
    is_paused: bool,
    backspace_streak: u32,
}

impl View for CognitiveStateEngine {
    type V = EngineState;

    closed spec fn view(&self) -> EngineState {
        EngineState {
            parameters: self.parameters,
            posterior: self.current_state_probs,
            shown: self.display_probs,
            axes: self.axes_ewma,
            paused: self.is_paused,
            streak: self.backspace_streak,
        }
    }
}

impl CognitiveStateEngine {
    /// The invariant of the engine. It holds of every engine.
    #[verifier::type_invariant]
    pub open spec fn wf(&self) -> bool {
        consistent(self@)
    }

    /// An engine with the calibrated parameters, in its initial state.
    pub fn new() -> (engine: Self)
        ensures
            engine.wf(),
            is_calibrated(engine@.parameters),
            engine@ == initial_state(engine@.parameters),
    {
        CognitiveStateEngine {
            parameters: calibrated_parameters(),
            current_state_probs: Belief {
                flow: 500_000_000_000,
                incubation: 300_000_000_000,
                stuck: 200_000_000_000,
            },
            display_probs: Belief {
                flow: 500_000_000_000,
                incubation: 300_000_000_000,
                stuck: 200_000_000_000,
            },
            axes_ewma: LatentPoint { x: 300_000_000_000, y: 500_000_000_000 },
            is_paused: false,
            backspace_streak: 0,
        }
    }

    /// An engine with the parameters `parameters`, in its initial state, or
    /// `None` where the parameters are not valid.
    pub fn with_parameters(parameters: HmmParameters) -> (r: Option<Self>)
        ensures
            r is Some <==> parameters.valid(),
            r matches Some(engine) ==> engine.wf() && engine@ == initial_state(parameters),
    {
        if !parameters.is_valid() {
            return None;
        }
        Some(
            CognitiveStateEngine {
                parameters,
                current_state_probs: Belief {
                    flow: 500_000_000_000,
                    incubation: 300_000_000_000,
                    stuck: 200_000_000_000,
                },
                display_probs: Belief {
                    flow: 500_000_000_000,
                    incubation: 300_000_000_000,
                    stuck: 200_000_000_000,
                },
                axes_ewma: LatentPoint { x: 300_000_000_000, y: 500_000_000_000 },
                is_paused: false,
                backspace_streak: 0,
            },
        )
    }

    /// Suspends or resumes updates. The belief is kept.
    pub fn set_paused(&mut self, paused: bool)
        ensures
            final(self).wf(),
            final(self)@ == (EngineState { paused, ..old(self)@ }),
    {
        proof {
            use_type_invariant(&*self);
        }
        self.is_paused = paused;
    }

    /// Whether updates are suspended.
    pub fn get_paused(&self) -> (paused: bool)
        ensures
            paused == self@.paused,
    {
        self.is_paused
    }

    /// The number of deletions in a row.
    pub fn backspace_streak(&self) -> (streak: u32)
        ensures
            streak == self@.streak,
    {
        self.backspace_streak
    }

    /// The smoothed latent point.
    pub fn latent_point(&self) -> (p: LatentPoint)
        ensures
            p == self@.axes,
    {
        self.axes_ewma
    }

    /// The posterior of the last forward step, before hysteresis.
    pub fn posterior(&self) -> (b: Belief)
        ensures
            b == self@.posterior,
    {
        self.current_state_probs
    }

    /// Snaps the posterior and what is shown to near certainty of `target`,
    /// and the latent point to the corner that stands for `target`.
    pub fn force_override_to_state(&mut self, target: CognitiveState)
        ensures
            final(self)@ == (EngineState {
                posterior: certainty(target),
                shown: certainty(target),
                axes: anchor(target),
                ..old(self)@
            }),
            final(self).wf(),
    {
        proof {
            use_type_invariant(&*self);
        }
        let (belief, axes) = match target {
            CognitiveState::Flow => (
                Belief { flow: CERTAIN, incubation: DOUBTFUL, stuck: DOUBTFUL },
                LatentPoint { x: 0, y: ONE },
            ),
            CognitiveState::Incubation => (
                Belief { flow: DOUBTFUL, incubation: CERTAIN, stuck: DOUBTFUL },
                LatentPoint { x: 0, y: 0 },
            ),
            CognitiveState::Stuck => (
                Belief { flow: DOUBTFUL, incubation: DOUBTFUL, stuck: CERTAIN },
                LatentPoint { x: ONE, y: 0 },
            ),
        };
        self.current_state_probs = belief;
        self.display_probs = belief;
        self.axes_ewma = axes;
    }

    /// Snaps the belief to near certainty of Flow.
    pub fn force_flow_state(&mut self)
        ensures
            final(self)@ == (EngineState {
                posterior: certainty(CognitiveState::Flow),
                shown: certainty(CognitiveState::Flow),
                axes: anchor(CognitiveState::Flow),
                ..old(self)@
            }),
            final(self).wf(),
    {
        self.force_override_to_state(CognitiveState::Flow);
    }

    /// Counts the key press into the run of deletions.
    pub fn register_keystroke(&mut self, vk_code: u32)
        ensures
            final(self).wf(),
            final(self)@ == (EngineState {
                streak: streak_after(old(self)@.streak, vk_code),
                ..old(self)@
            }),
    {
        proof {
            use_type_invariant(&*self);
        }
        if vk_code == VK_BACK || vk_code == VK_DELETE {
            if self.backspace_streak == u32::MAX {
                self.backspace_streak = 0;
            } else {
                self.backspace_streak = self.backspace_streak + 1;
            }
        } else {
            self.backspace_streak = 0;
        }
    }

    /// The point `(Friction, Engagement)` of `features` in the context that
    /// `ime_open` names.
    pub fn calculate_latent_axes(&self, features: &Features, ime_open: bool) -> (p: (u64, u64))
        ensures
            p.0 == friction(*features, baseline_for(ime_open)),
            p.1 == engagement(*features, baseline_for(ime_open)),
            p.0 <= ONE,
            p.1 <= ONE,
    {
        let b = select_baseline(ime_open);
        project(features, &b)
    }

    /// One update of the belief with `features`. While the engine is paused,
    /// and for features without timing data, nothing changes.
    pub fn update(&mut self, features: &Features, ime_open: bool)
        ensures
            final(self).wf(),
            final(self)@ == updated(old(self)@, *features, ime_open),
    {
        proof {
            use_type_invariant(&*self);
        }
        if self.get_paused() {
            return ;
        }
        if features.f1_flight_time_median == 0 {
            return ;
        }
        let penalty = self.backspace_streak >= STREAK_LIMIT;
        if penalty {
            self.backspace_streak = 0;
        }
        let (raw_x, raw_y) = self.calculate_latent_axes(features, ime_open);
        let axes = LatentPoint {
            x: (EWMA_FRESH * raw_x + EWMA_KEPT * self.axes_ewma.x) / 10,
            y: (EWMA_FRESH * raw_y + EWMA_KEPT * self.axes_ewma.y) / 10,
        };
        self.axes_ewma = axes;
        let obs = observe(&axes, penalty);
        let fresh = self.parameters.forward(&self.current_state_probs, obs);
        self.current_state_probs = fresh;
        self.display_probs = blend(&self.display_probs, &fresh, penalty);
    }

    /// The belief that readers see: the smoothed one.
    pub fn get_current_state(&self) -> (b: Belief)
        ensures
            b == self@.shown,
    {
        self.display_probs
    }
}

} // verus!
