//! The hidden Markov model over the three cognitive states: its parameters,
//! one step of the forward recursion, and the smoothing of what is shown.
//!
//! Probabilities count parts per `ONE`. The entries of the parameter tables
//! count hundredths.

use crate::baseline::ONE;
use vstd::arithmetic::div_mod::{
    lemma_div_by_multiple, lemma_div_is_ordered, lemma_fundamental_div_mod, lemma_mod_bound,
};
use vstd::prelude::*;

verus! {

/// The number of hidden states.
pub const STATES: usize = 3;

/// The number of cells along each latent axis.
pub const GRID: u64 = 5;

/// The number of observation bins: the cells of the grid and the penalty bin.
pub const BINS: usize = 26;

/// The bin that a run of deletions is observed in.
pub const PENALTY_BIN: usize = 25;

/// What the entries of a row of the transition table sum to: 1.0 in
/// hundredths.
pub const PERCENT: u64 = 100;

/// How far the components of a normalised belief may fall short of `ONE` in
/// sum: each of the three is rounded down.
pub const SLACK: u64 = 2;

/// The denominator of the hysteresis weights.
pub const QUARTERS: u64 = 4;

/// The hidden states.
#[derive(Debug, Clone, Copy, PartialEq, Eq, Hash, Structural)]
pub enum CognitiveState {
    Flow,
    Incubation,
    Stuck,
}

impl CognitiveState {
    /// The row and column of the state in the parameter tables.
    pub open spec fn index_spec(self) -> int {
        match self {
            CognitiveState::Flow => 0,
            CognitiveState::Incubation => 1,
            CognitiveState::Stuck => 2,
        }
    }

    /// The name of the state, as readers know it.
    pub fn name(self) -> (text: &'static str)
        ensures
            text@ == match self {
                CognitiveState::Flow => "flow"@,
                CognitiveState::Incubation => "incubation"@,
                CognitiveState::Stuck => "stuck"@,
            },
    {
        match self {
            CognitiveState::Flow => "flow",
            CognitiveState::Incubation => "incubation",
            CognitiveState::Stuck => "stuck",
        }
    }

    /// The row and column of the state in the parameter tables.
    pub fn index(self) -> (i: usize)
        ensures
            i == self.index_spec(),
            i < STATES,
    {
        match self {
            CognitiveState::Flow => 0,
            CognitiveState::Incubation => 1,
            CognitiveState::Stuck => 2,
        }
    }
}

/// A probability for each hidden state, in parts per `ONE`.
#[derive(Debug, Clone, Copy, PartialEq, Eq, Structural)]
pub struct Belief {
    pub flow: u64,
    pub incubation: u64,
    pub stuck: u64,
}

impl Belief {
    /// The sum of the three probabilities.
    pub open spec fn total(self) -> int {
        self.flow + self.incubation + self.stuck
    }

    /// Each probability lies in `[0, ONE]`, and together they make `ONE`, up
    /// to the rounding of the three components.
    pub open spec fn is_distribution(self) -> bool {
        &&& self.flow <= ONE
        &&& self.incubation <= ONE
        &&& self.stuck <= ONE
        &&& ONE - SLACK <= self.total() <= ONE
    }

    /// Whether the belief is a distribution.
    pub fn sums_to_one(&self) -> (ok: bool)
        ensures
            ok == self.is_distribution(),
    {
        if self.flow > ONE || self.incubation > ONE || self.stuck > ONE {
            return false;
        }
        let total = self.flow + self.incubation + self.stuck;
        ONE - SLACK <= total && total <= ONE
    }

    /// The probability of the state with index `i`.
    pub open spec fn at(self, i: int) -> int {
        if i == 0 {
            self.flow as int
        } else if i == 1 {
            self.incubation as int
        } else {
            self.stuck as int
        }
    }

    /// The probability of `state`.
    pub fn probability(&self, state: CognitiveState) -> (p: u64)
        ensures
            p == self.at(state.index_spec()),
    {
        match state {
            CognitiveState::Flow => self.flow,
            CognitiveState::Incubation => self.incubation,
            CognitiveState::Stuck => self.stuck,
        }
    }
}

/// The shares of `a`, `b` and `c` in their sum, each rounded down.
pub open spec fn normalized(a: int, b: int, c: int) -> Belief {
    Belief {
        flow: (a * ONE / (a + b + c)) as u64,
        incubation: (b * ONE / (a + b + c)) as u64,
        stuck: (c * ONE / (a + b + c)) as u64,
    }
}

/// A share of a positive sum lies in `[0, ONE]`.
proof fn lemma_share_bounds(part: int, whole: int)
    requires
        0 <= part <= whole,
        0 < whole,
    ensures
        0 <= part * ONE / whole <= ONE,
{
    lemma_div_is_ordered(0, part * ONE, whole);
    lemma_div_is_ordered(part * ONE, ONE * whole, whole);
    lemma_div_by_multiple(ONE as int, whole);
}

/// Three weights that are not all 0 normalise to a distribution.
pub proof fn lemma_normalized_is_distribution(a: int, b: int, c: int)
    requires
        0 <= a,
        0 <= b,
        0 <= c,
        0 < a + b + c,
    ensures
        normalized(a, b, c).is_distribution(),
        normalized(a, b, c).flow == a * ONE / (a + b + c),
        normalized(a, b, c).incubation == b * ONE / (a + b + c),
        normalized(a, b, c).stuck == c * ONE / (a + b + c),
{
    let s = a + b + c;
    lemma_share_bounds(a, s);
    lemma_share_bounds(b, s);
    lemma_share_bounds(c, s);
    let qa = a * ONE / s;
    let qb = b * ONE / s;
    let qc = c * ONE / s;
    lemma_fundamental_div_mod(a * ONE, s);
    lemma_fundamental_div_mod(b * ONE, s);
    lemma_fundamental_div_mod(c * ONE, s);
    lemma_mod_bound(a * ONE, s);
    lemma_mod_bound(b * ONE, s);
    lemma_mod_bound(c * ONE, s);
    let ra = (a * ONE) % s;
    let rb = (b * ONE) % s;
    let rc = (c * ONE) % s;
    let lost = ONE - (qa + qb + qc);
    assert(s * lost == ra + rb + rc) by (nonlinear_arith)
        requires
            a * ONE == s * qa + ra,
            b * ONE == s * qb + rb,
            c * ONE == s * qc + rc,
            s == a + b + c,
            lost == ONE - (qa + qb + qc),
    ;
    assert(0 <= lost < 3) by (nonlinear_arith)
        requires
            0 <= s * lost < 3 * s,
            s > 0,
    ;
}

/// The shares of three weights in their sum, or `None` where all three are
/// 0.
pub fn normalize(a: u64, b: u64, c: u64) -> (r: Option<Belief>)
    ensures
        r == if a + b + c > 0 {
            Some(normalized(a as int, b as int, c as int))
        } else {
            None
        },
        r matches Some(shares) ==> shares.is_distribution(),
{
    let whole: u128 = a as u128 + b as u128 + c as u128;
    if whole == 0 {
        return None;
    }
    proof {
        lemma_normalized_is_distribution(a as int, b as int, c as int);
    }
    let one: u128 = ONE as u128;
    Some(
        Belief {
            flow: ((a as u128) * one / whole) as u64,
            incubation: ((b as u128) * one / whole) as u64,
            stuck: ((c as u128) * one / whole) as u64,
        },
    )
}

/// The parameters of the model. Entries count hundredths.
#[derive(Debug, Clone, Copy)]
pub struct HmmParameters {
    /// Row `i`, column `j`: the probability of moving from state `i` to state
    /// `j`, at index `3 i + j`.
    pub transitions: [u64; 9],
    /// State `j`, bin `o`: the probability that state `j` shows observation
    /// `o`, at index `26 j + o`.
    pub emissions: [u64; 78],
    /// Added to every emission probability, so that no single observation
    /// rules a state out.
    pub emission_floor: u64,
}

impl HmmParameters {
    /// The probability of moving from state `i` to state `j`.
    pub open spec fn transition(self, i: int, j: int) -> int {
        self.transitions@[3 * i + j] as int
    }

    /// The probability that state `j` shows observation `obs`, without the
    /// floor.
    pub open spec fn emission(self, j: int, obs: int) -> int {
        self.emissions@[26 * j + obs] as int
    }

    /// The likelihood of observation `obs` in state `j`: its emission
    /// probability and the floor.
    pub open spec fn likelihood(self, j: int, obs: int) -> int {
        self.emission(j, obs) + self.emission_floor
    }

    /// What row `i` of the transition table sums to.
    pub open spec fn row_sum(self, i: int) -> int {
        self.transition(i, 0) + self.transition(i, 1) + self.transition(i, 2)
    }

    /// Each row of the transition table sums to 1.0, no emission probability
    /// exceeds 1.0, and the floor is positive and at most 1.0.
    pub open spec fn valid(self) -> bool {
        &&& self.row_sum(0) == PERCENT
        &&& self.row_sum(1) == PERCENT
        &&& self.row_sum(2) == PERCENT
        &&& forall|k: int| 0 <= k < 78 ==> #[trigger] self.emissions@[k] <= PERCENT
        &&& 1 <= self.emission_floor <= PERCENT
    }

    /// Every state can be reached from every state: no entry of the
    /// transition table is 0.
    pub open spec fn moves_everywhere(self) -> bool {
        forall|k: int| 0 <= k < 9 ==> #[trigger] self.transitions@[k] >= 1
    }

    /// The probability of state `j` after one transition from `prior`, in
    /// parts per `ONE * PERCENT`.
    pub open spec fn predicted(self, prior: Belief, j: int) -> int {
        prior.flow * self.transition(0, j) + prior.incubation * self.transition(1, j)
            + prior.stuck * self.transition(2, j)
    }

    /// The weight of state `j` after one transition from `prior` and the
    /// observation `obs`.
    pub open spec fn joint(self, prior: Belief, obs: int, j: int) -> int {
        self.predicted(prior, j) * self.likelihood(j, obs)
    }

    /// The weight of the observation `obs` after one transition from `prior`:
    /// what the posterior is divided by.
    pub open spec fn evidence(self, prior: Belief, obs: int) -> int {
        self.joint(prior, obs, 0) + self.joint(prior, obs, 1) + self.joint(prior, obs, 2)
    }

    /// One step of the forward recursion: the belief after one transition
    /// from `prior` and the observation `obs`. Where the evidence is 0 the
    /// prior stays.
    pub open spec fn posterior(self, prior: Belief, obs: int) -> Belief {
        if self.evidence(prior, obs) > 0 {
            normalized(
                self.joint(prior, obs, 0),
                self.joint(prior, obs, 1),
                self.joint(prior, obs, 2),
            )
        } else {
            prior
        }
    }

    /// Whether the parameters are valid.
    pub fn is_valid(&self) -> (ok: bool)
        ensures
            ok == self.valid(),
    {
        let t = &self.transitions;
        if t[0] > PERCENT || t[1] > PERCENT || t[2] > PERCENT || t[3] > PERCENT || t[4] > PERCENT
            || t[5] > PERCENT || t[6] > PERCENT || t[7] > PERCENT || t[8] > PERCENT {
            return false;
        }
        if t[0] + t[1] + t[2] != PERCENT || t[3] + t[4] + t[5] != PERCENT || t[6] + t[7] + t[8]
            != PERCENT {
            return false;
        }
        if self.emission_floor < 1 || self.emission_floor > PERCENT {
            return false;
        }
        let mut k: usize = 0;
        while k < 78
            invariant
                k <= 78,
                forall|m: int| 0 <= m < k ==> #[trigger] self.emissions@[m] <= PERCENT,
            decreases 78 - k,
        {
            if self.emissions[k] > PERCENT {
                return false;
            }
            k += 1;
        }
        true
    }

    /// The weight of state `j` after one transition from `prior` and the
    /// observation `obs`.
    fn weigh(&self, prior: &Belief, obs: usize, j: usize) -> (w: u64)
        requires
            self.valid(),
            prior.is_distribution(),
            obs < BINS,
            j < STATES,
        ensures
            w == self.joint(*prior, obs as int, j as int),
            w >= self.predicted(*prior, j as int),
            w <= 2 * PERCENT * self.predicted(*prior, j as int),
            self.predicted(*prior, j as int) <= PERCENT * ONE,
    {
        let t0 = self.transitions[j];
        let t1 = self.transitions[3 + j];
        let t2 = self.transitions[6 + j];
        let like = self.emissions[26 * j + obs] + self.emission_floor;
        proof {
            let f = prior.flow as int;
            let i = prior.incubation as int;
            let s = prior.stuck as int;
            assert(0 <= f * t0 <= f * 100 && 0 <= i * t1 <= i * 100 && 0 <= s * t2 <= s * 100)
                by (nonlinear_arith)
                requires
                    0 <= f,
                    0 <= i,
                    0 <= s,
                    0 <= t0 <= 100,
                    0 <= t1 <= 100,
                    0 <= t2 <= 100,
            ;
            let p = f * t0 + i * t1 + s * t2;
            assert(p <= p * like <= p * 200 && p * 200 == 2 * 100 * p) by (nonlinear_arith)
                requires
                    0 <= p,
                    1 <= like <= 200,
            ;
        }
        let predicted = prior.flow * t0 + prior.incubation * t1 + prior.stuck * t2;
        predicted * like
    }

    /// The predictions for the three states share out the prior.
    pub proof fn lemma_predictions_sum(self, prior: Belief)
        requires
            self.valid(),
        ensures
            self.predicted(prior, 0) + self.predicted(prior, 1) + self.predicted(prior, 2)
                == PERCENT * prior.total(),
    {
        let f = prior.flow as int;
        let i = prior.incubation as int;
        let s = prior.stuck as int;
        let a0 = self.transition(0, 0);
        let a1 = self.transition(0, 1);
        let a2 = self.transition(0, 2);
        let b0 = self.transition(1, 0);
        let b1 = self.transition(1, 1);
        let b2 = self.transition(1, 2);
        let c0 = self.transition(2, 0);
        let c1 = self.transition(2, 1);
        let c2 = self.transition(2, 2);
        assert((f * a0 + i * b0 + s * c0) + (f * a1 + i * b1 + s * c1) + (f * a2 + i * b2 + s
            * c2) == 100 * (f + i + s)) by (nonlinear_arith)
            requires
                a0 + a1 + a2 == 100,
                b0 + b1 + b2 == 100,
                c0 + c1 + c2 == 100,
        ;
    }

    /// With valid parameters every observation has positive evidence under
    /// every distribution: the step never falls back to the prior.
    pub proof fn evidence_is_positive(self, prior: Belief, obs: int)
        requires
            self.valid(),
            prior.is_distribution(),
            0 <= obs < BINS,
        ensures
            self.evidence(prior, obs) >= PERCENT * (ONE - SLACK),
            self.posterior(prior, obs).is_distribution(),
    {
        self.lemma_predictions_sum(prior);
        self.lemma_joint_bounds(prior, obs, 0);
        self.lemma_joint_bounds(prior, obs, 1);
        self.lemma_joint_bounds(prior, obs, 2);
        lemma_normalized_is_distribution(
            self.joint(prior, obs, 0),
            self.joint(prior, obs, 1),
            self.joint(prior, obs, 2),
        );
    }

    /// The weight of a state is at least its prediction, and not negative.
    pub proof fn lemma_joint_bounds(self, prior: Belief, obs: int, j: int)
        requires
            self.valid(),
            0 <= obs < BINS,
            0 <= j < STATES,
        ensures
            0 <= self.predicted(prior, j) <= self.joint(prior, obs, j),
    {
        let f = prior.flow as int;
        let i = prior.incubation as int;
        let s = prior.stuck as int;
        let t0 = self.transition(0, j);
        let t1 = self.transition(1, j);
        let t2 = self.transition(2, j);
        assert(0 <= f * t0 && 0 <= i * t1 && 0 <= s * t2) by (nonlinear_arith)
            requires
                0 <= f,
                0 <= i,
                0 <= s,
                0 <= t0,
                0 <= t1,
                0 <= t2,
        ;
        let p = self.predicted(prior, j);
        let like = self.likelihood(j, obs);
        assert(self.emissions@[26 * j + obs] <= PERCENT);
        assert(p <= p * like) by (nonlinear_arith)
            requires
                0 <= p,
                1 <= like,
        ;
    }

    /// One step of the forward recursion.
    pub fn forward(&self, prior: &Belief, obs: usize) -> (r: Belief)
        requires
            self.valid(),
            prior.is_distribution(),
            obs < BINS,
        ensures
            r == self.posterior(*prior, obs as int),
            r.is_distribution(),
    {
        let w0 = self.weigh(prior, obs, 0);
        let w1 = self.weigh(prior, obs, 1);
        let w2 = self.weigh(prior, obs, 2);
        proof {
            self.lemma_predictions_sum(*prior);
            self.evidence_is_positive(*prior, obs as int);
        }
        match normalize(w0, w1, w2) {
            Some(shares) => shares,
            None => *prior,
        }
    }
}

/// The weight of the fresh posterior in what is shown, in quarters: a half
/// where the penalty fired, a quarter otherwise.
pub open spec fn hysteresis_weight(penalty: bool) -> int {
    if penalty {
        2
    } else {
        1
    }
}

/// What is shown after `fresh` arrives: the weighted mean of `fresh` and what
/// was `shown`, normalised again.
pub open spec fn blended(shown: Belief, fresh: Belief, penalty: bool) -> Belief {
    let w = hysteresis_weight(penalty);
    normalized(
        w * fresh.flow + (QUARTERS - w) * shown.flow,
        w * fresh.incubation + (QUARTERS - w) * shown.incubation,
        w * fresh.stuck + (QUARTERS - w) * shown.stuck,
    )
}

/// The hysteresis step: moves what is shown towards the fresh posterior.
pub fn blend(shown: &Belief, fresh: &Belief, penalty: bool) -> (r: Belief)
    requires
        shown.is_distribution(),
        fresh.is_distribution(),
    ensures
        r == blended(*shown, *fresh, penalty),
        r.is_distribution(),
{
    let mixed = if penalty {
        normalize(
            2 * fresh.flow + 2 * shown.flow,
            2 * fresh.incubation + 2 * shown.incubation,
            2 * fresh.stuck + 2 * shown.stuck,
        )
    } else {
        normalize(
            fresh.flow + 3 * shown.flow,
            fresh.incubation + 3 * shown.incubation,
            fresh.stuck + 3 * shown.stuck,
        )
    };
    match mixed {
        Some(shares) => shares,
        None => *shown,
    }
}

} // verus!
