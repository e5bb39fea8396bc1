//! Median and population variance of a sample of flight times.

use crate::baseline::MICRO;
use crate::features::PAUSE_MS;
use vstd::prelude::*;
use vstd::relations::{sorted_by, total_ordering};
use vstd::seq_lib::lemma_sorted_unique;

verus! {

/// One half, in millionths.
pub const HALF_MICRO: u64 = 500_000;

/// The square of the longest flight time, in millionths: no sample of flight
/// times has a larger variance.
pub const MAX_VARIANCE_MICRO: u64 = 3_996_001_000_000;

/// The order of the natural numbers, as a relation on samples.
pub open spec fn leq() -> spec_fn(u64, u64) -> bool {
    |a: u64, b: u64| a <= b
}

/// The sample in ascending order.
pub open spec fn ascending(s: Seq<u64>) -> Seq<u64> {
    s.sort_by(leq())
}

/// The median of `s` in millionths: the middle element of the ascending
/// sample, or the mean of the two middle elements where the sample has an
/// even size; 0 for the empty sample.
pub open spec fn median_micro(s: Seq<u64>) -> int {
    let n = s.len() as int;
    let t = ascending(s);
    if n == 0 {
        0
    } else if n % 2 == 0 {
        (t[n / 2 - 1] + t[n / 2]) * HALF_MICRO
    } else {
        t[n / 2] * MICRO
    }
}

/// The sum of the sample.
pub open spec fn sum(s: Seq<u64>) -> int
    decreases s.len(),
{
    if s.len() == 0 {
        0
    } else {
        sum(s.drop_last()) + s.last()
    }
}

/// The sum of the squares of the sample.
pub open spec fn sum_squares(s: Seq<u64>) -> int
    decreases s.len(),
{
    if s.len() == 0 {
        0
    } else {
        sum_squares(s.drop_last()) + s.last() * s.last()
    }
}

/// The population variance of `s` in millionths, rounded down: the mean of
/// the squares less the square of the mean. A sample of fewer than two
/// elements has variance 0.
pub open spec fn variance_micro(s: Seq<u64>) -> int {
    let n = s.len() as int;
    if n < 2 {
        0
    } else {
        (n * sum_squares(s) - sum(s) * sum(s)) * MICRO / (n * n)
    }
}

/// Every element of the sample is a flight time, that is, below `PAUSE_MS`.
pub open spec fn all_flight_times(s: Seq<u64>) -> bool {
    forall|i: int| 0 <= i < s.len() ==> #[trigger] s[i] < PAUSE_MS
}

/// The order of the natural numbers is a total order.
pub proof fn lemma_leq_is_total()
    ensures
        total_ordering(leq()),
{
    let r = leq();
    assert forall|x: u64, y: u64| #[trigger] r(x, y) || #[trigger] r(y, x) by {}
    assert forall|x: u64, y: u64, z: u64| #[trigger] r(x, y) && #[trigger] r(y, z) implies r(
        x,
        z,
    ) by {}
    assert forall|x: u64| #[trigger] r(x, x) by {}
    assert forall|x: u64, y: u64| #[trigger] r(x, y) && #[trigger] r(y, x) implies x == y by {}
}

/// An ascending sequence with the elements of `s` is the ascending sample.
pub proof fn lemma_ascending_is_unique(s: Seq<u64>, t: Seq<u64>)
    requires
        sorted_by(t, leq()),
        t.to_multiset() == s.to_multiset(),
    ensures
        t == ascending(s),
{
    lemma_leq_is_total();
    s.lemma_sort_by_ensures(leq());
    lemma_sorted_unique(t, ascending(s), leq());
}

/// The ascending sample keeps the size of the sample and, of a sample of
/// flight times, only flight times.
pub proof fn lemma_ascending_keeps(s: Seq<u64>)
    ensures
        ascending(s).len() == s.len(),
        all_flight_times(s) ==> all_flight_times(ascending(s)),
{
    broadcast use vstd::seq_lib::group_to_multiset_ensures;

    lemma_leq_is_total();
    s.lemma_sort_by_ensures(leq());
    let t = ascending(s);
    assert(t.to_multiset().len() == s.to_multiset().len());
    if all_flight_times(s) {
        assert forall|i: int| 0 <= i < t.len() implies #[trigger] t[i] < PAUSE_MS by {
            assert(t.to_multiset().count(t[i]) > 0);
            assert(s.to_multiset().count(t[i]) > 0);
            assert(s.contains(t[i]));
        }
    }
}

/// Inserts `x` into the ascending vector `v`, keeping it ascending.
fn insert_sorted(v: &mut Vec<u64>, x: u64)
    requires
        sorted_by(old(v)@, leq()),
    ensures
        sorted_by(final(v)@, leq()),
        final(v)@.to_multiset() == old(v)@.to_multiset().insert(x),
        final(v)@.len() == old(v)@.len() + 1,
{
    let n = v.len();
    let mut i: usize = 0;
    while i < n && v[i] <= x
        invariant
            n == v.len(),
            i <= n,
            v@ == old(v)@,
            forall|j: int| 0 <= j < i ==> #[trigger] v@[j] <= x,
        decreases n - i,
    {
        i += 1;
    }
    proof {
        let before = v@;
        let after = before.insert(i as int, x);
        vstd::seq_lib::to_multiset_insert(before, i as int, x);
        assert forall|a: int, b: int| 0 <= a < b < after.len() implies #[trigger] leq()(
            after[a],
            after[b],
        ) by {
            if b < i {
                assert(leq()(before[a], before[b]));
            } else if b == i {
            } else if a == i {
                assert(leq()(before[i as int], before[b - 1]));
            } else if a < i {
                assert(leq()(before[a], before[b - 1]));
            } else {
                assert(leq()(before[a - 1], before[b - 1]));
            }
        }
    }
    v.insert(i, x);
}

/// The median, in millionths, of the sample that the ascending vector `t`
/// holds.
fn median_of_sorted(t: &Vec<u64>) -> (m: u64)
    requires
        sorted_by(t@, leq()),
        all_flight_times(t@),
    ensures
        m == median_micro(t@),
        m < PAUSE_MS * MICRO,
{
    proof {
        lemma_ascending_is_unique(t@, t@);
    }
    let n = t.len();
    if n == 0 {
        0
    } else if n % 2 == 0 {
        let lo = t[n / 2 - 1];
        let hi = t[n / 2];
        assert(t@[n / 2 - 1] < PAUSE_MS && t@[n as int / 2] < PAUSE_MS);
        (lo + hi) * HALF_MICRO
    } else {
        assert(t@[n as int / 2] < PAUSE_MS);
        t[n / 2] * MICRO
    }
}

/// The ascending copy of `samples`.
pub fn sorted_copy(samples: &Vec<u64>) -> (t: Vec<u64>)
    ensures
        t@ == ascending(samples@),
        sorted_by(t@, leq()),
{
    let mut t: Vec<u64> = Vec::new();
    let n = samples.len();
    let mut i: usize = 0;
    assert(t@ =~= samples@.take(0));
    while i < n
        invariant
            n == samples.len(),
            i <= n,
            sorted_by(t@, leq()),
            t@.to_multiset() == samples@.take(i as int).to_multiset(),
        decreases n - i,
    {
        proof {
            samples@.lemma_take_succ_push(i as int);
            vstd::seq_lib::to_multiset_build(samples@.take(i as int), samples@[i as int]);
        }
        insert_sorted(&mut t, samples[i]);
        i += 1;
    }
    proof {
        samples@.lemma_take_len();
        lemma_ascending_is_unique(samples@, t@);
    }
    t
}

/// The median of `samples` in millionths.
pub(crate) fn median(samples: &Vec<u64>) -> (m: u64)
    requires
        all_flight_times(samples@),
    ensures
        m == median_micro(samples@),
        m < PAUSE_MS * MICRO,
{
    let t = sorted_copy(samples);
    proof {
        lemma_ascending_keeps(samples@);
        lemma_ascending_is_unique(t@, t@);
    }
    median_of_sorted(&t)
}

/// A sample of flight times has sums within these bounds.
pub proof fn lemma_sum_bounds(s: Seq<u64>)
    requires
        all_flight_times(s),
    ensures
        0 <= sum(s) <= 1_999 * s.len(),
        0 <= sum_squares(s) <= 3_996_001 * s.len(),
    decreases s.len(),
{
    if s.len() > 0 {
        let p = s.drop_last();
        let x = s.last() as int;
        assert(forall|i: int| 0 <= i < p.len() ==> p[i] == s[i]);
        lemma_sum_bounds(p);
        assert(0 <= x * x <= 3_996_001) by (nonlinear_arith)
            requires
                0 <= x <= 1_999,
        ;
    }
}

/// The sum of the squared distances of a sample from any point `y`, written
/// out, is not negative.
proof fn lemma_spread_about(s: Seq<u64>, y: int)
    ensures
        sum_squares(s) - 2 * y * sum(s) + s.len() * y * y >= 0,
    decreases s.len(),
{
    if s.len() > 0 {
        let p = s.drop_last();
        let x = s.last() as int;
        lemma_spread_about(p, y);
        let qp = sum_squares(p);
        let sp = sum(p);
        let np = p.len() as int;
        assert((qp + x * x) - 2 * y * (sp + x) + (np + 1) * y * y == (qp - 2 * y * sp + np * y
            * y) + (x - y) * (x - y)) by (nonlinear_arith);
        assert((x - y) * (x - y) >= 0) by (nonlinear_arith);
    }
}

/// The mean of the squares is at least the square of the mean.
pub proof fn lemma_variance_numerator(s: Seq<u64>)
    ensures
        s.len() * sum_squares(s) - sum(s) * sum(s) >= 0,
    decreases s.len(),
{
    if s.len() > 0 {
        let p = s.drop_last();
        let y = s.last() as int;
        lemma_variance_numerator(p);
        lemma_spread_about(p, y);
        let qp = sum_squares(p);
        let sp = sum(p);
        let np = p.len() as int;
        assert((np + 1) * (qp + y * y) - (sp + y) * (sp + y) == (np * qp - sp * sp) + (qp - 2
            * y * sp + np * y * y)) by (nonlinear_arith);
    }
}

/// The variance of a sample of flight times is below the square of
/// `PAUSE_MS`.
pub proof fn lemma_variance_bound(s: Seq<u64>)
    requires
        all_flight_times(s),
    ensures
        0 <= variance_micro(s) <= MAX_VARIANCE_MICRO,
{
    let n = s.len() as int;
    if n >= 2 {
        lemma_sum_bounds(s);
        lemma_variance_numerator(s);
        let q = sum_squares(s);
        let t = sum(s);
        let num = (n * q - t * t) * MICRO;
        let top = MAX_VARIANCE_MICRO as int;
        assert(0 <= num <= top * (n * n)) by (nonlinear_arith)
            requires
                num == (n * q - t * t) * 1_000_000,
                top == 3_996_001 * 1_000_000,
                n * q - t * t >= 0,
                0 <= q <= 3_996_001 * n,
                n >= 2,
        ;
        assert(n * n > 0) by (nonlinear_arith)
            requires
                n >= 2,
        ;
        vstd::arithmetic::div_mod::lemma_div_is_ordered(0, num, n * n);
        vstd::arithmetic::div_mod::lemma_div_is_ordered(num, top * (n * n), n * n);
        vstd::arithmetic::div_mod::lemma_div_by_multiple(top, n * n);
    }
}

/// The quotient of the variance, found without the product of the count and
/// the sum of squares: with the mean cut to a whole number `m` and the rest
/// `r` of the sum, the numerator is `n d - r r`, where `d` is the sum of the
/// squared distances from `m`; it is divided by `n` twice.
proof fn lemma_variance_in_steps(
    n: int,
    total: int,
    squares: int,
    m: int,
    r: int,
    d: int,
    q1: int,
    t1: int,
    up: int,
)
    requires
        n >= 2,
        n * squares - total * total >= 0,
        total == n * m + r,
        0 <= r < n,
        d == squares - n * m * m - 2 * m * r,
        r * MICRO == n * q1 + t1,
        0 <= t1 < n,
        0 <= n * up - r * t1 < n,
    ensures
        d * MICRO - r * q1 - up >= 0,
        (n * squares - total * total) * MICRO / (n * n) == (d * MICRO - r * q1 - up) / n,
{
    let x = (n * squares - total * total) * MICRO;
    let y = d * MICRO - r * q1 - up;
    let e = n * up - r * t1;
    assert(n * d - r * r == n * squares - total * total) by (nonlinear_arith)
        requires
            total == n * m + r,
            d == squares - n * m * m - 2 * m * r,
    ;
    assert(r * r * 1_000_000 == n * (r * q1) + r * t1) by (nonlinear_arith)
        requires
            r * 1_000_000 == n * q1 + t1,
    ;
    assert(x == n * y + e) by (nonlinear_arith)
        requires
            x == (n * d - r * r) * 1_000_000,
            y == d * 1_000_000 - r * q1 - up,
            e == n * up - r * t1,
            r * r * 1_000_000 == n * (r * q1) + r * t1,
    ;
    assert(x >= 0) by (nonlinear_arith)
        requires
            x == (n * squares - total * total) * 1_000_000,
            n * squares - total * total >= 0,
    ;
    assert(y >= 0) by (nonlinear_arith)
        requires
            x == n * y + e,
            x >= 0,
            0 <= e < n,
    ;
    vstd::arithmetic::div_mod::lemma_div_multiples_vanish_fancy(y, e, n);
    vstd::arithmetic::div_mod::lemma_div_denominator(x, n, n);
}

/// The population variance of `samples` in millionths, rounded down.
pub(crate) fn variance(samples: &Vec<u64>) -> (v: u64)
    requires
        all_flight_times(samples@),
    ensures
        v == variance_micro(samples@),
        v <= MAX_VARIANCE_MICRO,
{
    let n = samples.len();
    if n < 2 {
        return 0;
    }
    let mut total: u128 = 0;
    let mut squares: u128 = 0;
    let mut i: usize = 0;
    while i < n
        invariant
            n == samples.len(),
            i <= n,
            all_flight_times(samples@),
            total == sum(samples@.take(i as int)),
            squares == sum_squares(samples@.take(i as int)),
            total <= 1_999 * i,
            squares <= 3_996_001 * i,
        decreases n - i,
    {
        let x = samples[i] as u128;
        proof {
            assert(samples@[i as int] < PAUSE_MS);
            samples@.lemma_take_succ_push(i as int);
            assert(samples@.take(i + 1).drop_last() == samples@.take(i as int));
            assert(0 <= x * x <= 3_996_001) by (nonlinear_arith)
                requires
                    0 <= x <= 1_999,
            ;
        }
        total = total + x;
        squares = squares + x * x;
        i += 1;
    }
    let count: u128 = n as u128;
    let mean: u128 = total / count;
    let rest: u128 = total % count;
    proof {
        samples@.lemma_take_len();
        lemma_variance_numerator(samples@);
        lemma_variance_bound(samples@);
        lemma_spread_about(samples@, mean as int);
        let nn = n as int;
        let t = total as int;
        let m = mean as int;
        let r = rest as int;
        vstd::arithmetic::div_mod::lemma_fundamental_div_mod(t, nn);
        vstd::arithmetic::div_mod::lemma_div_is_ordered(t, 1_999 * nn, nn);
        vstd::arithmetic::div_mod::lemma_div_by_multiple(1_999, nn);
        assert(0 <= m <= 1_999);
        assert(0 <= nn * m <= 1_999 * nn && 0 <= nn * m * m <= 3_996_001 * nn && 0 <= 2 * m * r
            <= 3_998 * nn) by (nonlinear_arith)
            requires
                0 <= m <= 1_999,
                0 <= r < nn,
        ;
        assert(squares - nn * m * m - 2 * m * r == squares - 2 * m * t + nn * m * m)
            by (nonlinear_arith)
            requires
                t == nn * m + r,
        ;
    }
    let spread: u128 = squares - count * mean * mean - 2 * mean * rest;
    assert(rest < count <= 0xFFFF_FFFF_FFFF_FFFF);
    assert(rest * 1_000_000 <= 0xFFFF_FFFF_FFFF_FFFF * 1_000_000);
    let scaled_rest: u128 = rest * 1_000_000;
    let q1: u128 = scaled_rest / count;
    let t1: u128 = scaled_rest % count;
    proof {
        let nn = n as int;
        let r = rest as int;
        assert(scaled_rest == r * MICRO);
        vstd::arithmetic::div_mod::lemma_fundamental_div_mod(scaled_rest as int, nn);
        vstd::arithmetic::div_mod::lemma_div_is_ordered(r * MICRO, nn * MICRO, nn);
        vstd::arithmetic::div_mod::lemma_div_by_multiple(MICRO as int, nn);
        assert(nn * MICRO == MICRO * nn);
        assert(0 <= q1 <= MICRO);
        assert(0 <= r * t1 <= 0xFFFF_FFFF_FFFF_FFFF * 0xFFFF_FFFF_FFFF_FFFF && 0 <= r * q1
            <= 0xFFFF_FFFF_FFFF_FFFF * 1_000_000) by (nonlinear_arith)
            requires
                0 <= r <= 0xFFFF_FFFF_FFFF_FFFF,
                0 <= t1 <= 0xFFFF_FFFF_FFFF_FFFF,
                0 <= q1 <= 1_000_000,
        ;
    }
    let cross: u128 = rest * t1;
    let whole: u128 = cross / count;
    let up: u128 = if cross % count == 0 {
        whole
    } else {
        whole + 1
    };
    proof {
        let nn = n as int;
        vstd::arithmetic::div_mod::lemma_fundamental_div_mod(cross as int, nn);
        assert(nn * up - cross == if cross % count == 0 {
            0
        } else {
            nn - (cross % count) as int
        }) by (nonlinear_arith)
            requires
                cross == nn * whole + (cross % count) as int,
                up == if cross % count == 0 {
                    whole as int
                } else {
                    whole + 1
                },
        ;
        lemma_variance_in_steps(
            nn,
            total as int,
            squares as int,
            mean as int,
            rest as int,
            spread as int,
            q1 as int,
            t1 as int,
            up as int,
        );
        assert(spread * MICRO <= 3_996_001 * 0xFFFF_FFFF_FFFF_FFFF * 1_000_000);
    }
    let floor: u128 = (spread * (MICRO as u128) - rest * q1 - up) / count;
    floor as u64
}

} // verus!
