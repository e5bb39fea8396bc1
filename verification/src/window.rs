//! The behavioural features of the trailing window of a key-event history.

use crate::baseline::MICRO;
use crate::features::{
    flight_time_of, gap, is_correction, last_release, Features, InputEvent, BURST_GAP_MS,
    PAUSE_MS, VK_BACK, VK_DELETE, WINDOW_MS,
};
use crate::sample::{all_flight_times, median, median_micro, variance, variance_micro};
use std::collections::VecDeque;
use vstd::prelude::*;

verus! {

/// The events stamped at or after `cutoff`.
pub open spec fn since(cutoff: int) -> spec_fn(InputEvent) -> bool {
    |e: InputEvent| e.timestamp >= cutoff
}

/// The key presses.
pub open spec fn pressed() -> spec_fn(InputEvent) -> bool {
    |e: InputEvent| e.is_press
}

/// The Backspace and Delete events.
pub open spec fn corrected() -> spec_fn(InputEvent) -> bool {
    |e: InputEvent| is_correction(e)
}

/// Where the trailing window of `events` begins: `WINDOW_MS` before the most
/// recent event, but not before time 0.
pub open spec fn window_start(events: Seq<InputEvent>) -> int
    recommends
        events.len() > 0,
{
    let latest = events.last().timestamp;
    if latest >= WINDOW_MS {
        latest - WINDOW_MS
    } else {
        0
    }
}

/// The events of the trailing window, in order of arrival.
pub open spec fn window(events: Seq<InputEvent>) -> Seq<InputEvent> {
    events.filter(since(window_start(events)))
}

/// The key presses among `w`.
pub open spec fn presses(w: Seq<InputEvent>) -> Seq<InputEvent> {
    w.filter(pressed())
}

/// The Backspace and Delete events among `p`.
pub open spec fn corrections(p: Seq<InputEvent>) -> Seq<InputEvent> {
    p.filter(corrected())
}

/// The flight times of `w`: for each key press, the time since the most
/// recent release before it, where `flight_time_of` gives one.
pub open spec fn flight_times(w: Seq<InputEvent>) -> Seq<u64>
    decreases w.len(),
{
    if w.len() == 0 {
        Seq::empty()
    } else {
        let earlier = w.drop_last();
        match flight_time_of(last_release(earlier), w.last()) {
            Some(ft) => flight_times(earlier).push(ft),
            None => flight_times(earlier),
        }
    }
}

/// The bursts of a run of events: the closed ones by their number and the
/// key presses they hold, and the size of the one still open.
pub struct BurstTally {
    pub open_keys: nat,
    pub closed: nat,
    pub closed_keys: nat,
}

/// The bursts of `w`. A key press continues the open burst where less than
/// `BURST_GAP_MS` have passed since the most recent release; otherwise it
/// closes the open burst and opens one of its own. Until the first release
/// each key press opens the first burst anew.
pub open spec fn burst_tally(w: Seq<InputEvent>) -> BurstTally
    decreases w.len(),
{
    if w.len() == 0 {
        BurstTally { open_keys: 0, closed: 0, closed_keys: 0 }
    } else {
        let earlier = w.drop_last();
        let t = burst_tally(earlier);
        let e = w.last();
        if !e.is_press {
            t
        } else {
            match last_release(earlier) {
                None => BurstTally { open_keys: 1, closed: t.closed, closed_keys: t.closed_keys },
                Some(r) => if gap(r, e.timestamp) < BURST_GAP_MS {
                    BurstTally {
                        open_keys: t.open_keys + 1,
                        closed: t.closed,
                        closed_keys: t.closed_keys,
                    }
                } else {
                    BurstTally {
                        open_keys: 1,
                        closed: t.closed + if t.open_keys > 0 {
                            1nat
                        } else {
                            0nat
                        },
                        closed_keys: t.closed_keys + t.open_keys,
                    }
                },
            }
        }
    }
}

/// The number of bursts in the tally, the open one included.
pub open spec fn burst_count(t: BurstTally) -> nat {
    t.closed + if t.open_keys > 0 {
        1nat
    } else {
        0nat
    }
}

/// The number of key presses in the bursts of the tally.
pub open spec fn burst_keys(t: BurstTally) -> nat {
    t.closed_keys + t.open_keys
}

/// Whether a pause lies between the key presses `a` and `b`.
pub open spec fn pause_between(a: InputEvent, b: InputEvent) -> bool {
    gap(a.timestamp, b.timestamp) >= PAUSE_MS
}

/// The number of adjacent pairs of the key presses `p` with a pause between
/// them.
pub open spec fn pause_count(p: Seq<InputEvent>) -> nat
    decreases p.len(),
{
    if p.len() < 2 {
        0
    } else {
        pause_count(p.drop_last()) + if pause_between(p[p.len() - 2], p.last()) {
            1nat
        } else {
            0nat
        }
    }
}

/// The number of adjacent pairs of the key presses `p` whose first is a
/// Backspace or Delete and has a pause after it.
pub open spec fn pauses_after_correction(p: Seq<InputEvent>) -> nat
    decreases p.len(),
{
    if p.len() < 2 {
        0
    } else {
        pauses_after_correction(p.drop_last()) + if is_correction(p[p.len() - 2])
            && pause_between(p[p.len() - 2], p.last()) {
            1nat
        } else {
            0nat
        }
    }
}

/// `num / den` in millionths, rounded down; 0 where `den` is 0.
pub open spec fn ratio_micro(num: int, den: int) -> int {
    if den > 0 {
        num * MICRO / den
    } else {
        0
    }
}

/// `v`, or the largest value of 64 bits where `v` is larger: a window of more
/// than 2^44 key presses can have a mean burst length or a pause count that
/// does not fit in millionths.
pub open spec fn capped(v: int) -> int {
    if v > u64::MAX {
        u64::MAX as int
    } else {
        v
    }
}

/// Whether `f` holds the six features of the trailing window of `events`.
pub open spec fn is_features_of(f: Features, events: Seq<InputEvent>) -> bool {
    let w = window(events);
    let p = presses(w);
    let t = burst_tally(w);
    if events.len() == 0 {
        f == Features::zero()
    } else {
        &&& f.f1_flight_time_median == median_micro(flight_times(w))
        &&& f.f2_flight_time_variance == variance_micro(flight_times(w))
        &&& f.f3_correction_rate == ratio_micro(corrections(p).len() as int, p.len() as int)
        &&& f.f4_burst_length == capped(ratio_micro(burst_keys(t) as int, burst_count(t) as int))
        &&& f.f5_pause_count == capped(pause_count(p) * MICRO)
        &&& f.f6_pause_after_del_rate == ratio_micro(
            pauses_after_correction(p) as int,
            corrections(p).len() as int,
        )
    }
}

/// The six features of the trailing window of `events`.
pub open spec fn window_features(events: Seq<InputEvent>) -> Features {
    let w = window(events);
    let p = presses(w);
    let t = burst_tally(w);
    if events.len() == 0 {
        Features::zero()
    } else {
        Features {
            f1_flight_time_median: median_micro(flight_times(w)) as u64,
            f2_flight_time_variance: variance_micro(flight_times(w)) as u64,
            f3_correction_rate: ratio_micro(corrections(p).len() as int, p.len() as int) as u64,
            f4_burst_length: capped(
                ratio_micro(burst_keys(t) as int, burst_count(t) as int),
            ) as u64,
            f5_pause_count: capped(pause_count(p) * MICRO) as u64,
            f6_pause_after_del_rate: ratio_micro(
                pauses_after_correction(p) as int,
                corrections(p).len() as int,
            ) as u64,
        }
    }
}

/// What each statistic of a run of events becomes when one more event
/// arrives.
pub proof fn lemma_arrival(w: Seq<InputEvent>, e: InputEvent)
    ensures
        last_release(w.push(e)) == if e.is_press {
            last_release(w)
        } else {
            Some(e.timestamp)
        },
        flight_times(w.push(e)) == match flight_time_of(last_release(w), e) {
            Some(ft) => flight_times(w).push(ft),
            None => flight_times(w),
        },
        presses(w.push(e)) == if e.is_press {
            presses(w).push(e)
        } else {
            presses(w)
        },
        burst_tally(w.push(e)) == if !e.is_press {
            burst_tally(w)
        } else {
            match last_release(w) {
                None => BurstTally {
                    open_keys: 1,
                    closed: burst_tally(w).closed,
                    closed_keys: burst_tally(w).closed_keys,
                },
                Some(r) => if gap(r, e.timestamp) < BURST_GAP_MS {
                    BurstTally {
                        open_keys: burst_tally(w).open_keys + 1,
                        closed: burst_tally(w).closed,
                        closed_keys: burst_tally(w).closed_keys,
                    }
                } else {
                    BurstTally {
                        open_keys: 1,
                        closed: burst_count(burst_tally(w)),
                        closed_keys: burst_keys(burst_tally(w)),
                    }
                },
            }
        },
{
    assert(w.push(e).drop_last() =~= w);
    w.lemma_filter_push(e, pressed());
}

/// What each statistic of a run of key presses becomes when one more key
/// press arrives.
pub proof fn lemma_press_arrival(p: Seq<InputEvent>, e: InputEvent)
    ensures
        corrections(p.push(e)) == if is_correction(e) {
            corrections(p).push(e)
        } else {
            corrections(p)
        },
        pause_count(p.push(e)) == pause_count(p) + if p.len() > 0 && pause_between(p.last(), e) {
            1nat
        } else {
            0nat
        },
        pauses_after_correction(p.push(e)) == pauses_after_correction(p) + if p.len() > 0
            && is_correction(p.last()) && pause_between(p.last(), e) {
            1nat
        } else {
            0nat
        },
{
    assert(p.push(e).drop_last() =~= p);
    p.lemma_filter_push(e, corrected());
}

/// The trailing window of a history that is not empty holds at least its
/// most recent event.
pub proof fn window_holds_latest(events: Seq<InputEvent>)
    requires
        events.len() > 0,
    ensures
        window(events).len() > 0,
        window(events).last() == events.last(),
{
    let keep = since(window_start(events));
    assert(events.drop_last().push(events.last()) =~= events);
    events.drop_last().lemma_filter_push(events.last(), keep);
}

/// The flight times of a run of events are below `PAUSE_MS`, and there are
/// no more of them than key presses.
pub proof fn lemma_flight_times_bounded(w: Seq<InputEvent>)
    ensures
        all_flight_times(flight_times(w)),
        flight_times(w).len() <= presses(w).len() <= w.len(),
    decreases w.len(),
{
    w.lemma_filter_len(pressed());
    if w.len() > 0 {
        let earlier = w.drop_last();
        lemma_flight_times_bounded(earlier);
        assert(earlier.push(w.last()) =~= w);
        lemma_arrival(earlier, w.last());
    }
}

/// The bursts of a run of events hold no more key presses than the run, and
/// each closed burst holds at least one.
pub proof fn lemma_bursts_bounded(w: Seq<InputEvent>)
    ensures
        burst_tally(w).closed <= burst_tally(w).closed_keys,
        burst_keys(burst_tally(w)) <= presses(w).len(),
    decreases w.len(),
{
    if w.len() > 0 {
        let earlier = w.drop_last();
        lemma_bursts_bounded(earlier);
        assert(earlier.push(w.last()) =~= w);
        lemma_arrival(earlier, w.last());
    }
}

/// No more pauses follow a correction than there are corrections, and no
/// more pauses lie between the key presses than there are key presses.
pub proof fn lemma_pauses_bounded(p: Seq<InputEvent>)
    ensures
        pause_count(p) <= p.len(),
        p.len() > 0 ==> pauses_after_correction(p) <= corrections(p.drop_last()).len(),
        pauses_after_correction(p) <= corrections(p).len() <= p.len(),
    decreases p.len(),
{
    p.lemma_filter_len(corrected());
    if p.len() > 0 {
        let earlier = p.drop_last();
        lemma_pauses_bounded(earlier);
        assert(earlier.push(p.last()) =~= p);
        lemma_press_arrival(earlier, p.last());
        if earlier.len() > 0 {
            let before = earlier.drop_last();
            assert(before.push(earlier.last()) =~= earlier);
            lemma_press_arrival(before, earlier.last());
        }
    }
}

/// A share of a whole, in millionths, is at most `MICRO`.
pub proof fn lemma_ratio_of_part(part: int, whole: int)
    requires
        0 <= part <= whole,
    ensures
        0 <= ratio_micro(part, whole) <= MICRO,
        ratio_micro(part, whole) <= part * MICRO,
{
    if whole > 0 {
        vstd::arithmetic::div_mod::lemma_div_is_ordered(0, part * MICRO, whole);
        vstd::arithmetic::div_mod::lemma_div_is_ordered(part * MICRO, whole * MICRO, whole);
        vstd::arithmetic::div_mod::lemma_div_by_multiple(MICRO as int, whole);
        assert(whole * MICRO == MICRO * whole);
        vstd::arithmetic::div_mod::lemma_div_is_ordered_by_denominator(part * MICRO, 1, whole);
    }
}

/// The events of the trailing window among the first `i` of `events`.
pub open spec fn window_so_far(events: Seq<InputEvent>, i: int) -> Seq<InputEvent> {
    events.take(i).filter(since(window_start(events)))
}

/// `part / whole` in millionths, rounded down and capped; 0 where `whole` is
/// 0.
fn share(part: u64, whole: u64) -> (r: u64)
    ensures
        r == capped(ratio_micro(part as int, whole as int)),
{
    if whole > 0 {
        let q: u128 = (part as u128) * 1_000_000 / (whole as u128);
        if q > u64::MAX as u128 {
            u64::MAX
        } else {
            q as u64
        }
    } else {
        0
    }
}

/// The six features of the trailing window of `events`.
pub(crate) fn features_of(events: &VecDeque<InputEvent>) -> (f: Features)
    ensures
        is_features_of(f, events@),
        f == window_features(events@),
        f.f1_flight_time_median < PAUSE_MS * MICRO,
        f.f3_correction_rate <= MICRO,
        f.f6_pause_after_del_rate <= MICRO,
{
    let n = events.len();
    if n == 0 {
        return Features::default();
    }
    let latest = events[n - 1].timestamp;
    let cutoff = if latest >= WINDOW_MS {
        latest - WINDOW_MS
    } else {
        0
    };
    let mut fts: Vec<u64> = Vec::new();
    let mut release: Option<u64> = None;
    let mut previous: Option<InputEvent> = None;
    let mut press_count: u64 = 0;
    let mut correction_count: u64 = 0;
    let mut open_keys: u64 = 0;
    let mut closed: u64 = 0;
    let mut closed_keys: u64 = 0;
    let mut pauses: u64 = 0;
    let mut pauses_after: u64 = 0;
    let mut i: usize = 0;
    proof {
        reveal(Seq::filter);
        assert(events@.take(0) =~= Seq::<InputEvent>::empty());
        assert(window_so_far(events@, 0) =~= Seq::<InputEvent>::empty());
        assert(presses(window_so_far(events@, 0)) =~= Seq::<InputEvent>::empty());
        assert(corrections(presses(window_so_far(events@, 0))) =~= Seq::<InputEvent>::empty());
    }
    while i < n
        invariant
            n == events@.len(),
            i <= n,
            cutoff == window_start(events@),
            fts@ == flight_times(window_so_far(events@, i as int)),
            release == last_release(window_so_far(events@, i as int)),
            press_count == presses(window_so_far(events@, i as int)).len(),
            previous == if press_count > 0 {
                Some(presses(window_so_far(events@, i as int)).last())
            } else {
                None
            },
            correction_count == corrections(presses(window_so_far(events@, i as int))).len(),
            open_keys == burst_tally(window_so_far(events@, i as int)).open_keys,
            closed == burst_tally(window_so_far(events@, i as int)).closed,
            closed_keys == burst_tally(window_so_far(events@, i as int)).closed_keys,
            pauses == pause_count(presses(window_so_far(events@, i as int))),
            pauses_after == pauses_after_correction(presses(window_so_far(events@, i as int))),
            window_so_far(events@, i as int).len() <= i,
        decreases n - i,
    {
        let e = events[i];
        let ghost w = window_so_far(events@, i as int);
        proof {
            events@.lemma_take_succ_push(i as int);
            events@.take(i as int).lemma_filter_push(e, since(cutoff as int));
            lemma_flight_times_bounded(w);
            lemma_bursts_bounded(w);
            lemma_pauses_bounded(presses(w));
            lemma_arrival(w, e);
            lemma_press_arrival(presses(w), e);
        }
        if e.timestamp >= cutoff {
            if e.is_press {
                match release {
                    Some(r) => {
                        if e.timestamp >= r && e.timestamp - r < PAUSE_MS {
                            fts.push(e.timestamp - r);
                        }
                        let since_release = if e.timestamp >= r {
                            e.timestamp - r
                        } else {
                            0
                        };
                        if since_release < BURST_GAP_MS {
                            open_keys = open_keys + 1;
                        } else {
                            if open_keys > 0 {
                                closed = closed + 1;
                            }
                            closed_keys = closed_keys + open_keys;
                            open_keys = 1;
                        }
                    },
                    None => {
                        open_keys = 1;
                    },
                }
                match previous {
                    Some(before) => {
                        let since_press = if e.timestamp >= before.timestamp {
                            e.timestamp - before.timestamp
                        } else {
                            0
                        };
                        if since_press >= PAUSE_MS {
                            pauses = pauses + 1;
                            if before.vk_code == VK_BACK || before.vk_code == VK_DELETE {
                                pauses_after = pauses_after + 1;
                            }
                        }
                    },
                    None => {},
                }
                if e.vk_code == VK_BACK || e.vk_code == VK_DELETE {
                    correction_count = correction_count + 1;
                }
                press_count = press_count + 1;
                previous = Some(e);
            } else {
                release = Some(e.timestamp);
            }
        }
        i += 1;
    }
    let ghost w = window(events@);
    proof {
        events@.lemma_take_len();
        assert(w == window_so_far(events@, n as int));
        lemma_flight_times_bounded(w);
        lemma_bursts_bounded(w);
        lemma_pauses_bounded(presses(w));
        lemma_ratio_of_part(correction_count as int, press_count as int);
        lemma_ratio_of_part(pauses_after as int, correction_count as int);
    }
    let bursts = if open_keys > 0 {
        closed + 1
    } else {
        closed
    };
    Features {
        f1_flight_time_median: median(&fts),
        f2_flight_time_variance: variance(&fts),
        f3_correction_rate: share(correction_count, press_count),
        f4_burst_length: share(closed_keys + open_keys, bursts),
        f5_pause_count: share(pauses, 1),
        f6_pause_after_del_rate: share(pauses_after, correction_count),
    }
}

} // verus!
