//! The sliding-window feature extractor: a bounded history of key events and
//! the six behavioural features derived from its trailing window.

use crate::baseline::MICRO;
use crate::sample::{median, median_micro};
use crate::window::{features_of, is_features_of, window_features};
use std::collections::VecDeque;
use vstd::prelude::*;

verus! {

/// Virtual-key code of Backspace.
pub const VK_BACK: u32 = 0x08;

/// Virtual-key code of Delete.
pub const VK_DELETE: u32 = 0x2E;

/// Length of the trailing analysis window, in milliseconds.
pub const WINDOW_MS: u64 = 30_000;

/// A gap of at least this many milliseconds is a pause, not typing rhythm.
pub const PAUSE_MS: u64 = 2_000;

/// A flight time below this many milliseconds continues the current burst.
pub const BURST_GAP_MS: u64 = 200;

/// Flight time reported for a period of silence, in milliseconds: larger than
/// any baseline, so that the normalised flight time saturates.
pub const SILENCE_FLIGHT_MS: u64 = 2_000;

/// Millionths of a pause per millisecond of silence: one pause for every two
/// seconds.
pub const SILENCE_PAUSE_RATE: u64 = 500;

/// One key going down or up.
#[derive(Debug, Clone, Copy)]
pub struct InputEvent {
    pub vk_code: u32,
    /// Wall-clock time in milliseconds.
    pub timestamp: u64,
    pub is_press: bool,
}

/// The six behavioural features, each in millionths (`MICRO` stands for 1.0).
/// The all-zero vector stands for "no data".
#[derive(Debug, Clone, Copy)]
pub struct Features {
    /// F1: median flight time in milliseconds.
    pub f1_flight_time_median: u64,
    /// F2: population variance of the flight times.
    pub f2_flight_time_variance: u64,
    /// F3: share of key presses that are Backspace or Delete.
    pub f3_correction_rate: u64,
    /// F4: mean number of key presses per burst.
    pub f4_burst_length: u64,
    /// F5: number of pauses between consecutive key presses.
    pub f5_pause_count: u64,
    /// F6: share of Backspace or Delete presses that a pause follows.
    pub f6_pause_after_del_rate: u64,
}

impl Features {
    /// The vector that stands for "no data".
    pub open spec fn zero() -> Features {
        Features {
            f1_flight_time_median: 0,
            f2_flight_time_variance: 0,
            f3_correction_rate: 0,
            f4_burst_length: 0,
            f5_pause_count: 0,
            f6_pause_after_del_rate: 0,
        }
    }
}

impl Default for Features {
    fn default() -> (f: Self)
        ensures
            f == Features::zero(),
    {
        Features {
            f1_flight_time_median: 0,
            f2_flight_time_variance: 0,
            f3_correction_rate: 0,
            f4_burst_length: 0,
            f5_pause_count: 0,
            f6_pause_after_del_rate: 0,
        }
    }
}

/// Whether the event is a Backspace or a Delete.
pub open spec fn is_correction(e: InputEvent) -> bool {
    e.vk_code == VK_BACK || e.vk_code == VK_DELETE
}

/// `later - earlier`, or 0 where the clock went backwards.
pub open spec fn gap(earlier: u64, later: u64) -> int {
    if later >= earlier {
        later - earlier
    } else {
        0
    }
}

/// The timestamp of the most recent key release among `events`.
pub open spec fn last_release(events: Seq<InputEvent>) -> Option<u64>
    decreases events.len(),
{
    if events.len() == 0 {
        None
    } else if !events.last().is_press {
        Some(events.last().timestamp)
    } else {
        last_release(events.drop_last())
    }
}

/// The flight time that `event` completes, given the most recent release
/// before it: the time from that release to this press. Releases, presses
/// that no release precedes, presses stamped before that release, and gaps of
/// `PAUSE_MS` or more give none.
pub open spec fn flight_time_of(release: Option<u64>, event: InputEvent) -> Option<u64> {
    match release {
        Some(r) => if event.is_press && event.timestamp >= r && event.timestamp - r < PAUSE_MS {
            Some((event.timestamp - r) as u64)
        } else {
            None
        },
        None => None,
    }
}

/// The number of pauses that a silence of `silence_ms` milliseconds stands
/// for, in millionths: one for every two seconds, capped at what 64 bits
/// hold.
pub open spec fn silence_pauses(silence_ms: u64) -> int {
    if silence_ms * SILENCE_PAUSE_RATE <= u64::MAX {
        silence_ms * SILENCE_PAUSE_RATE
    } else {
        u64::MAX as int
    }
}

/// The features that stand for `silence_ms` milliseconds without a key
/// event: a saturating flight time, no typing rhythm, and a pause count that
/// grows with the silence.
pub open spec fn silence_features(silence_ms: u64) -> Features {
    Features {
        f1_flight_time_median: (SILENCE_FLIGHT_MS * MICRO) as u64,
        f2_flight_time_variance: 0,
        f3_correction_rate: 0,
        f4_burst_length: 0,
        f5_pause_count: silence_pauses(silence_ms) as u64,
        f6_pause_after_del_rate: 0,
    }
}

/// What a ring buffer of capacity `capacity` holds after `item` arrives: the
/// oldest element leaves first where the buffer is full.
pub open spec fn ring_push<T>(s: Seq<T>, item: T, capacity: int) -> Seq<T> {
    if s.len() >= capacity && s.len() > 0 {
        s.subrange(1, s.len() as int).push(item)
    } else {
        s.push(item)
    }
}

/// A ring buffer never outgrows its capacity, or one element where the
/// capacity is 0, and the newest element is its last.
pub proof fn ring_push_is_bounded<T>(s: Seq<T>, item: T, capacity: int)
    requires
        capacity >= 0,
        s.len() <= capacity || s.len() <= 1,
    ensures
        ring_push(s, item, capacity).len() <= capacity || ring_push(s, item, capacity).len() == 1,
        ring_push(s, item, capacity).last() == item,
        s.len() < capacity ==> ring_push(s, item, capacity) == s.push(item),
{
}

/// Keeps a bounded history of key events and of the flight times between
/// them.
pub struct FeatureExtractor {
    buffer: VecDeque<InputEvent>,
    capacity: usize,
    last_release_time: Option<u64>,
    flight_times: VecDeque<u64>,
}

impl FeatureExtractor {
    /// The buffered events, oldest first.
    pub closed spec fn events(&self) -> Seq<InputEvent> {
        self.buffer@
    }

    /// The recorded flight times in milliseconds, oldest first.
    pub closed spec fn collected_flight_times(&self) -> Seq<u64> {
        self.flight_times@
    }

    /// The timestamp of the most recent key release seen.
    pub closed spec fn last_release_time(&self) -> Option<u64> {
        self.last_release_time
    }

    /// The capacity the extractor was built with.
    pub closed spec fn capacity(&self) -> usize {
        self.capacity
    }

    /// The number of elements either history can hold: the capacity, but at
    /// least one.
    pub open spec fn room(&self) -> int {
        if self.capacity() == 0 {
            1
        } else {
            self.capacity() as int
        }
    }

    /// The invariant of the extractor. It holds of every extractor.
    #[verifier::type_invariant]
    pub open spec fn wf(&self) -> bool {
        &&& self.events().len() <= self.room()
        &&& self.collected_flight_times().len() <= self.room()
        &&& forall|i: int|
            0 <= i < self.collected_flight_times().len()
                ==> #[trigger] self.collected_flight_times()[i] < PAUSE_MS
    }

    /// An empty extractor that holds at most `capacity` events.
    pub fn new(capacity: usize) -> (fx: Self)
        ensures
            fx.wf(),
            fx.capacity() == capacity,
            fx.events() == Seq::<InputEvent>::empty(),
            fx.collected_flight_times() == Seq::<u64>::empty(),
            fx.last_release_time() == None::<u64>,
    {
        FeatureExtractor {
            buffer: VecDeque::new(),
            capacity,
            last_release_time: None,
            flight_times: VecDeque::new(),
        }
    }

    /// Appends `event` to the history. A release is remembered; a press
    /// records the flight time since the remembered release, if it has one.
    pub fn process_event(&mut self, event: InputEvent)
        ensures
            final(self).wf(),
            final(self).capacity() == old(self).capacity(),
            final(self).events() == ring_push(
                old(self).events(),
                event,
                old(self).capacity() as int,
            ),
            final(self).last_release_time() == if event.is_press {
                old(self).last_release_time()
            } else {
                Some(event.timestamp)
            },
            final(self).collected_flight_times() == match flight_time_of(
                old(self).last_release_time(),
                event,
            ) {
                Some(ft) => ring_push(
                    old(self).collected_flight_times(),
                    ft,
                    old(self).capacity() as int,
                ),
                None => old(self).collected_flight_times(),
            },
    {
        proof {
            use_type_invariant(&*self);
        }
        // The buffer is taken out while it changes, and put back whole.
        let mut buffer = VecDeque::new();
        std::mem::swap(&mut buffer, &mut self.buffer);
        if buffer.len() >= self.capacity {
            buffer.pop_front();
        }
        buffer.push_back(event);
        self.buffer = buffer;

        if event.is_press {
            match self.last_release_time {
                Some(release_time) => {
                    if event.timestamp >= release_time {
                        let flight_time = event.timestamp - release_time;
                        if flight_time < PAUSE_MS {
                            self.add_flight_time(flight_time);
                        }
                    }
                },
                None => {},
            }
        } else {
            self.last_release_time = Some(event.timestamp);
        }
    }

    /// Records one flight time, evicting the oldest where the history is
    /// full. A time of `PAUSE_MS` or more is a pause and is not recorded.
    pub fn add_flight_time(&mut self, ft: u64)
        ensures
            final(self).wf(),
            final(self).capacity() == old(self).capacity(),
            final(self).events() == old(self).events(),
            final(self).last_release_time() == old(self).last_release_time(),
            final(self).collected_flight_times() == if ft < PAUSE_MS {
                ring_push(old(self).collected_flight_times(), ft, old(self).capacity() as int)
            } else {
                old(self).collected_flight_times()
            },
    {
        proof {
            use_type_invariant(&*self);
        }
        if ft >= PAUSE_MS {
            return ;
        }
        let mut flight_times = VecDeque::new();
        std::mem::swap(&mut flight_times, &mut self.flight_times);
        if flight_times.len() >= self.capacity {
            flight_times.pop_front();
        }
        flight_times.push_back(ft);
        self.flight_times = flight_times;
    }

    /// The median of all recorded flight times, in millionths of a
    /// millisecond; 0 where none is recorded.
    pub fn calculate_flight_time_median(&self) -> (m: u64)
        ensures
            m == median_micro(self.collected_flight_times()),
            m < PAUSE_MS * MICRO,
    {
        proof {
            use_type_invariant(self);
        }
        let n = self.flight_times.len();
        let mut samples: Vec<u64> = Vec::new();
        let mut i: usize = 0;
        while i < n
            invariant
                n == self.flight_times@.len(),
                i <= n,
                samples@ == self.flight_times@.take(i as int),
            decreases n - i,
        {
            proof {
                self.flight_times@.lemma_take_succ_push(i as int);
            }
            samples.push(self.flight_times[i]);
            i += 1;
        }
        proof {
            self.flight_times@.lemma_take_len();
        }
        median(&samples)
    }

    /// The six features of the trailing window of the buffered events; the
    /// zero vector where nothing is buffered.
    pub fn calculate_features(&self) -> (f: Features)
        ensures
            is_features_of(f, self.events()),
            f == window_features(self.events()),
            f.f1_flight_time_median < PAUSE_MS * MICRO,
            f.f3_correction_rate <= MICRO,
            f.f6_pause_after_del_rate <= MICRO,
    {
        proof {
            use_type_invariant(self);
        }
        features_of(&self.buffer)
    }

    /// The synthetic features for a period without key events, or `None`
    /// where the silence is shorter than a pause.
    pub fn make_silence_observation(&self, silence_ms: u64) -> (r: Option<Features>)
        ensures
            r == if silence_ms < PAUSE_MS {
                None
            } else {
                Some(silence_features(silence_ms))
            },
    {
        if silence_ms < PAUSE_MS {
            return None;
        }
        let pauses = if silence_ms <= u64::MAX / SILENCE_PAUSE_RATE {
            silence_ms * SILENCE_PAUSE_RATE
        } else {
            u64::MAX
        };
        Some(
            Features {
                f1_flight_time_median: SILENCE_FLIGHT_MS * MICRO,
                f2_flight_time_variance: 0,
                f3_correction_rate: 0,
                f4_burst_length: 0,
                f5_pause_count: pauses,
                f6_pause_after_del_rate: 0,
            },
        )
    }
}

} // verus!
