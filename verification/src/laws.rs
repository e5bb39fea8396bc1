//! What holds of every update of the engine.

use crate::baseline::ONE;
use crate::engine::{
    accepted, calibrated_parameters_are_valid, calibrated_transitions, certainty, consistent,
    is_calibrated, next_axes,
    next_observation, observation, penalty_due, smoothed, updated, EngineState, LatentPoint,
    STREAK_LIMIT,
};
use crate::features::Features;
use crate::hmm::{
    blended, hysteresis_weight, lemma_normalized_is_distribution, normalized, Belief,
    CognitiveState, HmmParameters, BINS, PENALTY_BIN, PERCENT, SLACK,
};
use vstd::arithmetic::div_mod::{lemma_div_by_multiple, lemma_div_is_ordered};
use vstd::prelude::*;

verus! {

/// The probability of Stuck that a penalty update leaves at the least, and
/// below which it raises what is shown: 0.6.
pub const PENALTY_STUCK: u64 = 600_000_000_000;

/// The least probability that a forward step leaves any state, where no
/// entry of the transition table is 0: 0.00005.
pub const OPEN_MARGIN: u64 = 50_000_000;

/// Every latent point is observed in one of the bins, and in the penalty
/// bin if and only if the penalty is due.
pub proof fn observation_is_a_bin(axes: LatentPoint, penalty: bool)
    ensures
        0 <= observation(axes, penalty) < BINS,
        penalty <==> observation(axes, penalty) == PENALTY_BIN,
{
}

/// What is shown after the hysteresis step is a distribution.
pub proof fn blended_is_distribution(shown: Belief, fresh: Belief, penalty: bool)
    requires
        shown.is_distribution(),
        fresh.is_distribution(),
    ensures
        blended(shown, fresh, penalty).is_distribution(),
{
    let w: int = if penalty {
        2
    } else {
        1
    };
    lemma_normalized_is_distribution(
        w * fresh.flow + (4 - w) * shown.flow,
        w * fresh.incubation + (4 - w) * shown.incubation,
        w * fresh.stuck + (4 - w) * shown.stuck,
    );
}

/// The hysteresis step is the weighted mean of what was shown and the fresh
/// posterior, up to rounding: four times a shown probability differs from
/// the weighted sum by 8 parts at most.
pub proof fn blend_is_weighted_mean(shown: Belief, fresh: Belief, penalty: bool)
    requires
        shown.is_distribution(),
        fresh.is_distribution(),
    ensures
        -4 < 4 * blended(shown, fresh, penalty).flow - (hysteresis_weight(penalty) * fresh.flow + (4
            - hysteresis_weight(penalty)) * shown.flow) <= 8,
        -4 < 4 * blended(shown, fresh, penalty).incubation - (hysteresis_weight(penalty)
            * fresh.incubation + (4 - hysteresis_weight(penalty)) * shown.incubation) <= 8,
        -4 < 4 * blended(shown, fresh, penalty).stuck - (hysteresis_weight(penalty) * fresh.stuck
            + (4 - hysteresis_weight(penalty)) * shown.stuck) <= 8,
{
    let (a, b, c) = if penalty {
        (
            2 * fresh.flow + 2 * shown.flow,
            2 * fresh.incubation + 2 * shown.incubation,
            2 * fresh.stuck + 2 * shown.stuck,
        )
    } else {
        (
            1 * fresh.flow + 3 * shown.flow,
            1 * fresh.incubation + 3 * shown.incubation,
            1 * fresh.stuck + 3 * shown.stuck,
        )
    };
    let d = a + b + c;
    lemma_normalized_is_distribution(a, b, c);
    assert(blended(shown, fresh, penalty) == normalized(a, b, c));
    lemma_share_is_near(a, d);
    lemma_share_is_near(b, d);
    lemma_share_is_near(c, d);
}

/// The share of a part in a whole of about four is about a quarter of the
/// part.
proof fn lemma_share_is_near(part: int, whole: int)
    requires
        0 <= part <= whole,
        4 * ONE - 8 <= whole <= 4 * ONE,
    ensures
        -4 < 4 * (part * ONE / whole) - part <= 8,
{
    let q = part * ONE / whole;
    vstd::arithmetic::div_mod::lemma_fundamental_div_mod(part * ONE, whole);
    vstd::arithmetic::div_mod::lemma_mod_bound(part * ONE, whole);
    lemma_div_is_ordered(part * ONE, whole * ONE, whole);
    lemma_div_by_multiple(ONE as int, whole);
    assert(whole * ONE == ONE * whole);
    let r = (part * ONE) % whole;
    assert(-4 < 4 * q - part <= 8) by (nonlinear_arith)
        requires
            part * 1_000_000_000_000 == whole * q + r,
            0 <= r < whole,
            0 <= q <= 1_000_000_000_000,
            0 <= part,
            4 * 1_000_000_000_000 - 8 <= whole <= 4 * 1_000_000_000_000,
    ;
}

/// The moving average of an axis lies between what was kept and what is
/// fresh.
pub proof fn smoothing_stays_between(kept: int, fresh: int)
    ensures
        kept <= fresh ==> kept <= smoothed(kept, fresh) <= fresh,
        fresh <= kept ==> fresh <= smoothed(kept, fresh) <= kept,
{
}

/// After any update the posterior and what is shown are distributions: each
/// probability lies in the unit interval and they sum to 1, up to rounding.
/// The latent point stays in the unit square.
pub proof fn update_keeps_distribution(s: EngineState, features: Features, ime_open: bool)
    requires
        consistent(s),
    ensures
        consistent(updated(s, features, ime_open)),
        updated(s, features, ime_open).shown.is_distribution(),
        ONE - SLACK <= updated(s, features, ime_open).shown.total() <= ONE,
{
    if accepted(s, features) {
        let axes = next_axes(s, features, ime_open);
        assert(axes.in_unit_square());
        let obs = next_observation(s, features, ime_open);
        observation_is_a_bin(axes, penalty_due(s));
        s.parameters.evidence_is_positive(s.posterior, obs);
        let fresh = s.parameters.posterior(s.posterior, obs);
        blended_is_distribution(s.shown, fresh, penalty_due(s));
    }
}

/// An accepted update never falls back to the prior: the evidence of its
/// observation is positive.
pub proof fn accepted_update_has_evidence(s: EngineState, features: Features, ime_open: bool)
    requires
        consistent(s),
        accepted(s, features),
    ensures
        s.parameters.evidence(s.posterior, next_observation(s, features, ime_open)) > 0,
{
    observation_is_a_bin(next_axes(s, features, ime_open), penalty_due(s));
    s.parameters.evidence_is_positive(s.posterior, next_observation(s, features, ime_open));
}

/// Each row of a valid transition table sums to 1.0.
pub proof fn transition_rows_sum_to_one(p: HmmParameters, i: int)
    requires
        p.valid(),
        0 <= i < 3,
    ensures
        p.transition(i, 0) + p.transition(i, 1) + p.transition(i, 2) == PERCENT,
{
}

/// While the engine is paused an update changes nothing.
pub proof fn paused_update_changes_nothing(s: EngineState, features: Features, ime_open: bool)
    requires
        s.paused,
    ensures
        updated(s, features, ime_open) == s,
{
}

/// An update with features that carry no timing data changes nothing.
pub proof fn update_without_timing_changes_nothing(
    s: EngineState,
    features: Features,
    ime_open: bool,
)
    requires
        features.f1_flight_time_median == 0,
    ensures
        updated(s, features, ime_open) == s,
{
}

/// A run of deletions that has reached the limit puts the next accepted
/// update into the penalty bin, wherever its latent point lies, and starts
/// the run anew.
pub proof fn streak_forces_penalty_bin(s: EngineState, features: Features, ime_open: bool)
    requires
        accepted(s, features),
        s.streak >= STREAK_LIMIT,
    ensures
        next_observation(s, features, ime_open) == PENALTY_BIN,
        updated(s, features, ime_open).posterior == s.parameters.posterior(
            s.posterior,
            PENALTY_BIN as int,
        ),
        updated(s, features, ime_open).streak == 0,
{
}

/// Below the limit the observation of an accepted update is the cell of the
/// grid of its latent point, never the penalty bin, and the run is kept.
pub proof fn short_streak_keeps_grid(s: EngineState, features: Features, ime_open: bool)
    requires
        consistent(s),
        accepted(s, features),
        s.streak < STREAK_LIMIT,
    ensures
        0 <= next_observation(s, features, ime_open) < PENALTY_BIN,
        updated(s, features, ime_open).streak == s.streak,
{
    observation_is_a_bin(next_axes(s, features, ime_open), false);
}

/// The belief forced to Flow is `[0.98, 0.01, 0.01]`.
pub proof fn forced_flow_is_near_certain()
    ensures
        certainty(CognitiveState::Flow) == (Belief {
            flow: 980_000_000_000,
            incubation: 10_000_000_000,
            stuck: 10_000_000_000,
        }),
        certainty(CognitiveState::Flow).is_distribution(),
        certainty(CognitiveState::Incubation).is_distribution(),
        certainty(CognitiveState::Stuck).is_distribution(),
{
}

/// The predictions of the calibrated transition table, written out.
proof fn lemma_calibrated_predictions(p: HmmParameters, prior: Belief)
    requires
        is_calibrated(p),
    ensures
        p.predicted(prior, 0) == 75 * prior.flow + 12 * prior.incubation + 6 * prior.stuck,
        p.predicted(prior, 1) == 17 * prior.flow + 80 * prior.incubation + 18 * prior.stuck,
        p.predicted(prior, 2) == 8 * prior.flow + 8 * prior.incubation + 76 * prior.stuck,
{
    let f = prior.flow as int;
    let i = prior.incubation as int;
    let k = prior.stuck as int;
    let t = p.transitions@;
    assert(t[0] == 75 && t[1] == 17 && t[2] == 8);
    assert(t[3] == 12 && t[4] == 80 && t[5] == 8);
    assert(t[6] == 6 && t[7] == 18 && t[8] == 76);
    let (a0, a1, a2) = (t[0] as int, t[1] as int, t[2] as int);
    let (b0, b1, b2) = (t[3] as int, t[4] as int, t[5] as int);
    let (c0, c1, c2) = (t[6] as int, t[7] as int, t[8] as int);
    assert(f * a0 == 75 * f && f * a1 == 17 * f && f * a2 == 8 * f) by (nonlinear_arith)
        requires
            a0 == 75,
            a1 == 17,
            a2 == 8,
    ;
    assert(i * b0 == 12 * i && i * b1 == 80 * i && i * b2 == 8 * i) by (nonlinear_arith)
        requires
            b0 == 12,
            b1 == 80,
            b2 == 8,
    ;
    assert(k * c0 == 6 * k && k * c1 == 18 * k && k * c2 == 76 * k) by (nonlinear_arith)
        requires
            c0 == 6,
            c1 == 18,
            c2 == 76,
    ;
}

/// With the calibrated parameters the posterior of an observation in the
/// penalty bin gives Stuck at least 0.6, whatever the prior.
pub proof fn penalty_posterior_favours_stuck(p: HmmParameters, prior: Belief)
    requires
        is_calibrated(p),
        prior.is_distribution(),
    ensures
        p.posterior(prior, PENALTY_BIN as int).stuck >= PENALTY_STUCK,
{
    calibrated_parameters_are_valid(p);
    let obs = PENALTY_BIN as int;
    p.evidence_is_positive(prior, obs);
    let j0 = p.joint(prior, obs, 0);
    let j1 = p.joint(prior, obs, 1);
    let j2 = p.joint(prior, obs, 2);
    let f = prior.flow as int;
    let i = prior.incubation as int;
    let k = prior.stuck as int;
    lemma_calibrated_predictions(p, prior);
    assert(p.emissions@[25] == 0 && p.emissions@[51] == 1 && p.emissions@[77] == 99);
    let to_flow = p.predicted(prior, 0);
    let to_incubation = p.predicted(prior, 1);
    let to_stuck = p.predicted(prior, 2);
    let (l0, l1, l2) = (p.likelihood(0, obs), p.likelihood(1, obs), p.likelihood(2, obs));
    assert(to_flow * l0 == 5 * to_flow && to_incubation * l1 == 6 * to_incubation && to_stuck
        * l2 == 104 * to_stuck) by (nonlinear_arith)
        requires
            l0 == 5,
            l1 == 6,
            l2 == 104,
    ;
    let ev = j0 + j1 + j2;
    lemma_normalized_is_distribution(j0, j1, j2);
    assert(j2 == 832 * f + 832 * i + 7904 * k);
    assert(ev == 1309 * f + 1372 * i + 8042 * k);
    assert(j2 * 1_000_000_000_000 >= 600_000_000_000 * ev) by (nonlinear_arith)
        requires
            j2 == 832 * f + 832 * i + 7904 * k,
            ev == 1309 * f + 1372 * i + 8042 * k,
            f >= 0,
            i >= 0,
            k >= 0,
    ;
    lemma_div_is_ordered(PENALTY_STUCK * ev, j2 * ONE, ev);
    lemma_div_by_multiple(PENALTY_STUCK as int, ev);
}

/// An accepted update after a run of deletions that has reached the limit
/// raises the shown probability of Stuck wherever the posterior of the
/// penalty bin gives Stuck more than was shown.
pub proof fn penalty_raises_stuck(s: EngineState, features: Features, ime_open: bool)
    requires
        consistent(s),
        accepted(s, features),
        s.streak >= STREAK_LIMIT,
        s.shown.stuck + 2 <= s.parameters.posterior(s.posterior, PENALTY_BIN as int).stuck,
    ensures
        updated(s, features, ime_open).shown.stuck > s.shown.stuck,
{
    let fresh = s.parameters.posterior(s.posterior, PENALTY_BIN as int);
    s.parameters.evidence_is_positive(s.posterior, PENALTY_BIN as int);
    let a = 2 * fresh.flow + 2 * s.shown.flow;
    let b = 2 * fresh.incubation + 2 * s.shown.incubation;
    let c = 2 * fresh.stuck + 2 * s.shown.stuck;
    let d = a + b + c;
    lemma_normalized_is_distribution(a, b, c);
    let before = s.shown.stuck as int;
    assert(c * ONE >= (before + 1) * d) by (nonlinear_arith)
        requires
            c >= 4 * before + 4,
            0 < d <= 4 * ONE,
            before >= 0,
    ;
    lemma_div_is_ordered((before + 1) * d, c * ONE, d);
    lemma_div_by_multiple(before + 1, d);
}

/// With the calibrated parameters an accepted update after a run of
/// deletions that has reached the limit leaves Stuck a posterior of at least
/// 0.6, and raises the shown probability of Stuck wherever that was below
/// 0.6.
pub proof fn penalty_raises_low_stuck(s: EngineState, features: Features, ime_open: bool)
    requires
        consistent(s),
        is_calibrated(s.parameters),
        accepted(s, features),
        s.streak >= STREAK_LIMIT,
    ensures
        updated(s, features, ime_open).posterior.stuck >= PENALTY_STUCK,
        s.shown.stuck + 2 <= PENALTY_STUCK ==> updated(s, features, ime_open).shown.stuck
            > s.shown.stuck,
{
    penalty_posterior_favours_stuck(s.parameters, s.posterior);
    if s.shown.stuck + 2 <= PENALTY_STUCK {
        penalty_raises_stuck(s, features, ime_open);
    }
}

/// No probability of the belief is 0 or 1.
pub open spec fn is_open(b: Belief) -> bool {
    &&& 0 < b.flow < ONE
    &&& 0 < b.incubation < ONE
    &&& 0 < b.stuck < ONE
}

/// In the calibrated transition table no entry is 0.
pub proof fn calibrated_parameters_move_everywhere(p: HmmParameters)
    requires
        is_calibrated(p),
    ensures
        p.moves_everywhere(),
{
    let t = calibrated_transitions();
    assert forall|k: int| 0 <= k < 9 implies #[trigger] p.transitions@[k] >= 1 by {
        assert(t[k] >= 6);
    }
}

/// Where no entry of the transition table is 0, one forward step leaves
/// every state a probability of at least 0.00005: every state is reached
/// from the prior, and the emission floor keeps any observation from ruling
/// it out.
pub proof fn posterior_stays_open(p: HmmParameters, prior: Belief, obs: int)
    requires
        p.valid(),
        p.moves_everywhere(),
        prior.is_distribution(),
        0 <= obs < BINS,
    ensures
        p.posterior(prior, obs).flow >= OPEN_MARGIN,
        p.posterior(prior, obs).incubation >= OPEN_MARGIN,
        p.posterior(prior, obs).stuck >= OPEN_MARGIN,
        is_open(p.posterior(prior, obs)),
{
    p.evidence_is_positive(prior, obs);
    p.lemma_predictions_sum(prior);
    let j0 = p.joint(prior, obs, 0);
    let j1 = p.joint(prior, obs, 1);
    let j2 = p.joint(prior, obs, 2);
    let f = prior.flow as int;
    let i = prior.incubation as int;
    let k = prior.stuck as int;
    let total = f + i + k;
    let t = p.transitions@;
    assert(t[0] >= 1 && t[1] >= 1 && t[2] >= 1 && t[3] >= 1 && t[4] >= 1 && t[5] >= 1 && t[6] >= 1
        && t[7] >= 1 && t[8] >= 1);
    let to_flow = p.predicted(prior, 0);
    let to_incubation = p.predicted(prior, 1);
    let to_stuck = p.predicted(prior, 2);
    lemma_prediction_reaches(f, i, k, t[0] as int, t[3] as int, t[6] as int);
    lemma_prediction_reaches(f, i, k, t[1] as int, t[4] as int, t[7] as int);
    lemma_prediction_reaches(f, i, k, t[2] as int, t[5] as int, t[8] as int);
    let l0 = p.likelihood(0, obs);
    let l1 = p.likelihood(1, obs);
    let l2 = p.likelihood(2, obs);
    assert(p.emissions@[obs] <= PERCENT && p.emissions@[26 + obs] <= PERCENT && p.emissions@[52
        + obs] <= PERCENT);
    assert(to_flow <= j0 <= 200 * to_flow && to_incubation <= j1 <= 200 * to_incubation
        && to_stuck <= j2 <= 200 * to_stuck) by (nonlinear_arith)
        requires
            j0 == to_flow * l0,
            j1 == to_incubation * l1,
            j2 == to_stuck * l2,
            0 <= to_flow,
            0 <= to_incubation,
            0 <= to_stuck,
            1 <= l0 <= 200,
            1 <= l1 <= 200,
            1 <= l2 <= 200,
    ;
    let ev = j0 + j1 + j2;
    assert(to_flow + to_incubation + to_stuck == 100 * total);
    assert(ev <= 20000 * total);
    assert(j0 >= total && j1 >= total && j2 >= total);
    lemma_normalized_is_distribution(j0, j1, j2);
    assert(j0 * 1_000_000_000_000 >= 50_000_000 * ev && j1 * 1_000_000_000_000 >= 50_000_000
        * ev && j2 * 1_000_000_000_000 >= 50_000_000 * ev) by (nonlinear_arith)
        requires
            ev <= 20000 * total,
            j0 >= total,
            j1 >= total,
            j2 >= total,
            total >= 0,
    ;
    lemma_div_is_ordered(OPEN_MARGIN * ev, j0 * ONE, ev);
    lemma_div_is_ordered(OPEN_MARGIN * ev, j1 * ONE, ev);
    lemma_div_is_ordered(OPEN_MARGIN * ev, j2 * ONE, ev);
    lemma_div_by_multiple(OPEN_MARGIN as int, ev);
}

/// A state that every state moves to gets at least the whole of the prior,
/// in hundredths.
proof fn lemma_prediction_reaches(f: int, i: int, k: int, a: int, b: int, c: int)
    requires
        0 <= f,
        0 <= i,
        0 <= k,
        1 <= a,
        1 <= b,
        1 <= c,
    ensures
        f * a + i * b + k * c >= f + i + k,
{
    assert(f * a >= f && i * b >= i && k * c >= k) by (nonlinear_arith)
        requires
            0 <= f,
            0 <= i,
            0 <= k,
            1 <= a,
            1 <= b,
            1 <= c,
    ;
}

/// Where no entry of the transition table is 0, as in the calibrated one, an
/// accepted update drives no probability to 0 or to 1, neither of the
/// posterior nor of what is shown.
pub proof fn update_keeps_belief_open(s: EngineState, features: Features, ime_open: bool)
    requires
        consistent(s),
        s.parameters.moves_everywhere(),
        accepted(s, features),
    ensures
        is_open(updated(s, features, ime_open).posterior),
        is_open(updated(s, features, ime_open).shown),
{
    let obs = next_observation(s, features, ime_open);
    observation_is_a_bin(next_axes(s, features, ime_open), penalty_due(s));
    posterior_stays_open(s.parameters, s.posterior, obs);
    s.parameters.evidence_is_positive(s.posterior, obs);
    let fresh = s.parameters.posterior(s.posterior, obs);
    let (a, b, c) = if penalty_due(s) {
        (
            2 * fresh.flow + 2 * s.shown.flow,
            2 * fresh.incubation + 2 * s.shown.incubation,
            2 * fresh.stuck + 2 * s.shown.stuck,
        )
    } else {
        (
            1 * fresh.flow + 3 * s.shown.flow,
            1 * fresh.incubation + 3 * s.shown.incubation,
            1 * fresh.stuck + 3 * s.shown.stuck,
        )
    };
    let d = a + b + c;
    lemma_normalized_is_distribution(a, b, c);
    assert(updated(s, features, ime_open).shown == normalized(a, b, c));
    assert(a * ONE >= 1 * d && b * ONE >= 1 * d && c * ONE >= 1 * d) by (nonlinear_arith)
        requires
            a >= 4,
            b >= 4,
            c >= 4,
            0 < d <= 4 * ONE,
    ;
    lemma_div_is_ordered(1 * d, a * ONE, d);
    lemma_div_is_ordered(1 * d, b * ONE, d);
    lemma_div_is_ordered(1 * d, c * ONE, d);
    lemma_div_by_multiple(1, d);
}

} // verus!
