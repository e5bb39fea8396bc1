//! Normalisation of behavioural features against a contextual baseline, and
//! their projection onto the two latent axes, Friction and Engagement.

use crate::features::{silence_features, Features};
use vstd::arithmetic::div_mod::{lemma_div_by_multiple, lemma_div_is_ordered};
use vstd::prelude::*;

verus! {

/// The fixed-point representation of 1.0 for normalised scores, latent axes
/// and probabilities.
pub const ONE: u64 = 1_000_000_000_000;

/// The fixed-point representation of 1.0 for behavioural features.
pub const MICRO: u64 = 1_000_000;

/// Width of the normalisation ramp, in baselines.
pub const KAPPA: u64 = 2;

/// Clamp of a score to the unit interval `[0, ONE]`.
pub open spec fn clamp_unit(v: int) -> int {
    if v < 0 {
        0
    } else if v > ONE {
        ONE as int
    } else {
        v
    }
}

/// `clamp((x - baseline) / (KAPPA * baseline), 0, 1)` in parts per `ONE`,
/// rounded down; `0` where the baseline is not positive.
pub open spec fn phi_spec(x: int, baseline: int) -> int {
    if baseline <= 0 {
        0
    } else {
        clamp_unit((x - baseline) * ONE / (KAPPA * baseline))
    }
}

/// Normalises `x` against `baseline`. Both are given in the same unit; the
/// result is in parts per `ONE`.
pub fn phi(x: u64, baseline: u64) -> (r: u64)
    ensures
        r == phi_spec(x as int, baseline as int),
        r <= ONE,
{
    if baseline == 0 {
        return 0;
    }
    if x <= baseline {
        proof {
            lemma_scaled_quotient_sign(x as int, baseline as int);
        }
        return 0;
    }
    let num: u128 = ((x - baseline) as u128) * (ONE as u128);
    let den: u128 = (KAPPA as u128) * (baseline as u128);
    let q: u128 = num / den;
    if q >= ONE as u128 {
        ONE
    } else {
        q as u64
    }
}

/// At or below the baseline the scaled quotient is not positive.
proof fn lemma_scaled_quotient_sign(x: int, baseline: int)
    requires
        baseline > 0,
        x <= baseline,
    ensures
        (x - baseline) * ONE / (KAPPA * baseline) <= 0,
{
    let n = (x - baseline) * ONE;
    let d = KAPPA * baseline;
    assert(n <= 0);
    assert(d > 0);
    assert(n / d <= 0) by (nonlinear_arith)
        requires
            n <= 0,
            d > 0,
    ;
}

/// Every normalised score lies in the unit interval.
pub proof fn phi_is_in_unit_interval(x: int, baseline: int)
    ensures
        0 <= phi_spec(x, baseline) <= ONE,
{
}

/// A value at its baseline scores 0.
pub proof fn phi_is_zero_at_baseline(baseline: int)
    ensures
        phi_spec(baseline, baseline) == 0,
{
    if baseline > 0 {
        lemma_scaled_quotient_sign(baseline, baseline);
        lemma_div_is_ordered(0, 0, KAPPA * baseline);
    }
}

/// A value of three baselines or more scores 1.
pub proof fn phi_saturates(x: int, baseline: int)
    requires
        baseline > 0,
        x >= 3 * baseline,
    ensures
        phi_spec(x, baseline) == ONE,
{
    let d = KAPPA * baseline;
    assert((x - baseline) * ONE >= ONE * d);
    lemma_div_is_ordered(ONE * d, (x - baseline) * ONE, d);
    lemma_div_by_multiple(ONE as int, d);
}

/// Against a baseline that is not positive every value scores 0.
pub proof fn phi_is_zero_without_baseline(x: int, baseline: int)
    requires
        baseline <= 0,
    ensures
        phi_spec(x, baseline) == 0,
{
}

/// The score does not fall as the value grows.
pub proof fn phi_is_monotonic(x1: int, x2: int, baseline: int)
    requires
        x1 <= x2,
    ensures
        phi_spec(x1, baseline) <= phi_spec(x2, baseline),
{
    if baseline > 0 {
        lemma_div_is_ordered((x1 - baseline) * ONE, (x2 - baseline) * ONE, KAPPA * baseline);
    }
}

/// The reference values of one input context, in millionths.
#[derive(Debug, Clone, Copy)]
pub struct Baseline {
    /// Median flight time in milliseconds.
    pub flight_time: u64,
    /// Share of key presses that are corrections.
    pub correction_rate: u64,
    /// Key presses per burst.
    pub burst_length: u64,
    /// Pauses per window.
    pub pause_count: u64,
    /// Share of corrections that a pause follows.
    pub pause_after_del_rate: u64,
}

/// The baseline of direct alphanumeric entry: fast flight times and long
/// bursts are the norm.
pub open spec fn coding_baseline() -> Baseline {
    Baseline {
        flight_time: 150_000_000,
        correction_rate: 60_000,
        burst_length: 5_000_000,
        pause_count: 2_000_000,
        pause_after_del_rate: 80_000,
    }
}

/// The baseline of composition through an input method: slower rhythm,
/// shorter bursts and more pauses are the norm.
pub open spec fn writing_baseline() -> Baseline {
    Baseline {
        flight_time: 220_000_000,
        correction_rate: 80_000,
        burst_length: 2_000_000,
        pause_count: 4_000_000,
        pause_after_del_rate: 120_000,
    }
}

/// The baseline of the context that the flag names: composition where it is
/// set, direct entry where it is not.
pub open spec fn baseline_for(ime_open: bool) -> Baseline {
    if ime_open {
        writing_baseline()
    } else {
        coding_baseline()
    }
}

/// The baseline of the context that the flag names.
pub fn select_baseline(ime_open: bool) -> (b: Baseline)
    ensures
        b == baseline_for(ime_open),
{
    if ime_open {
        Baseline {
            flight_time: 220_000_000,
            correction_rate: 80_000,
            burst_length: 2_000_000,
            pause_count: 4_000_000,
            pause_after_del_rate: 120_000,
        }
    } else {
        Baseline {
            flight_time: 150_000_000,
            correction_rate: 60_000,
            burst_length: 5_000_000,
            pause_count: 2_000_000,
            pause_after_del_rate: 80_000,
        }
    }
}

/// Friction, in parts per `ONE`:
/// `0.30 phi(F3) + 0.25 phi(F6) + 0.25 phi(F1) + 0.20 phi(F5)`, clamped to
/// the unit interval.
pub open spec fn friction(f: Features, b: Baseline) -> int {
    clamp_unit(
        (30 * phi_spec(f.f3_correction_rate as int, b.correction_rate as int) + 25 * phi_spec(
            f.f6_pause_after_del_rate as int,
            b.pause_after_del_rate as int,
        ) + 25 * phi_spec(f.f1_flight_time_median as int, b.flight_time as int) + 20 * phi_spec(
            f.f5_pause_count as int,
            b.pause_count as int,
        )) / 100,
    )
}

/// Engagement, in parts per `ONE`:
/// `0.40 phi(F4) + 0.35 (1 - phi(F1)) + 0.25 (1 - phi(F5))`, clamped to the
/// unit interval.
pub open spec fn engagement(f: Features, b: Baseline) -> int {
    clamp_unit(
        (40 * phi_spec(f.f4_burst_length as int, b.burst_length as int) + 35 * (ONE - phi_spec(
            f.f1_flight_time_median as int,
            b.flight_time as int,
        )) + 25 * (ONE - phi_spec(f.f5_pause_count as int, b.pause_count as int))) / 100,
    )
}

/// The point `(Friction, Engagement)` of `features` against `b`.
pub fn project(features: &Features, b: &Baseline) -> (p: (u64, u64))
    ensures
        p.0 == friction(*features, *b),
        p.1 == engagement(*features, *b),
        p.0 <= ONE,
        p.1 <= ONE,
{
    let phi1 = phi(features.f1_flight_time_median, b.flight_time);
    let phi3 = phi(features.f3_correction_rate, b.correction_rate);
    let phi4 = phi(features.f4_burst_length, b.burst_length);
    let phi5 = phi(features.f5_pause_count, b.pause_count);
    let phi6 = phi(features.f6_pause_after_del_rate, b.pause_after_del_rate);
    let x = (30 * phi3 + 25 * phi6 + 25 * phi1 + 20 * phi5) / 100;
    let y = (40 * phi4 + 35 * (ONE - phi1) + 25 * (ONE - phi5)) / 100;
    (x, y)
}

/// The longer a silence lasts, the lower the Engagement of the features that
/// stand for it, whatever the baseline.
pub proof fn silence_lowers_engagement(shorter_ms: u64, longer_ms: u64, b: Baseline)
    requires
        shorter_ms <= longer_ms,
    ensures
        engagement(silence_features(longer_ms), b) <= engagement(silence_features(shorter_ms), b),
{
    let early = silence_features(shorter_ms);
    let late = silence_features(longer_ms);
    assert(early.f5_pause_count <= late.f5_pause_count);
    phi_is_monotonic(
        early.f5_pause_count as int,
        late.f5_pause_count as int,
        b.pause_count as int,
    );
}

} // verus!
