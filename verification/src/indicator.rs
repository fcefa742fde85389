//! Which prayer rows the menu marks as current/next for the configured
//! indicator variant.
use vstd::prelude::*;
use crate::conf::TimeIndicator;
use crate::prayer::{upcoming_index, PrayerTimes};

verus! {

/// passive timeline char, a thin line hugging the left cell edge so it aligns
/// with the marker triangles' straight edge
pub const AXIS: &'static str = "\u{258F}";

/// top half of the fused arrow, sits on the current prayer row
pub const MARKER_CURRENT: &'static str = "\u{25E3}";

/// bottom half of the fused arrow, sits on the next prayer row
pub const MARKER_NEXT: &'static str = "\u{25E4}";

/// single Powerline arrow shown while a prayer is inside the notification
/// window (its `>` shape points at the prayer's row)
pub const MARKER_SINGLE: &'static str = "\u{E0B0}";

/// rows of the prayer list: [Fajr, Sun, Dhuhur, Asr, Magrib, Isha]
pub const PRAYER_ROW_COUNT: usize = 6;

/// the two rows hosting the marker arrow, `current` on top / `next` below
#[derive(Debug, Clone, Copy, PartialEq, Eq, Structural)]
pub struct Pair {
    pub current: usize,
    pub next: usize,
}

/// where the marker arrow(s) go for the configured indicator variant
#[derive(Debug, Clone, Copy, PartialEq, Eq, Structural)]
pub enum IndicatorMarker {
    /// fused arrow marking the current-to-next boundary
    Pair(Pair),
    /// lone arrow pointing at the prayer inside the notification window
    Single(usize),
}

/// what to draw in the menu for the configured indicator variant
#[derive(Debug, Clone, Copy, PartialEq, Eq, Structural, Default)]
pub struct IndicatorData {
    /// row to reverse-highlight, if any
    pub highlight: Option<usize>,
    /// rows hosting the arrow(s), if any
    pub marker: Option<IndicatorMarker>,
}

/// Distance in minutes between two times of day.
pub open spec fn dist(a: int, b: int) -> int {
    if a >= b {
        a - b
    } else {
        b - a
    }
}

/// `r` is the prayer nearest to `now` among those within `window` minutes
/// of it, the earlier row winning a tie; `None` when no prayer is within
/// the window.
pub open spec fn nearest_within(times: Seq<u32>, now: int, window: int, r: Option<usize>) -> bool {
    match r {
        None => forall|j: int| 0 <= j < times.len() ==> dist(now, times[j] as int) > window,
        Some(i) => {
            &&& i < times.len()
            &&& dist(now, times[i as int] as int) <= window
            &&& forall|j: int|
                0 <= j < times.len() ==> dist(now, times[i as int] as int) <= dist(
                    now,
                    #[trigger] times[j] as int,
                )
            &&& forall|j: int|
                0 <= j < i ==> dist(now, times[i as int] as int) < dist(now, #[trigger] times[j] as int)
        },
    }
}

/// At most one answer meets `nearest_within`.
pub proof fn lemma_nearest_unique(
    times: Seq<u32>,
    now: int,
    window: int,
    a: Option<usize>,
    b: Option<usize>,
)
    requires
        nearest_within(times, now, window, a),
        nearest_within(times, now, window, b),
    ensures
        a == b,
{
    match (a, b) {
        (Some(i), Some(j)) => {
            assert(dist(now, times[i as int] as int) <= dist(now, times[j as int] as int));
            assert(dist(now, times[j as int] as int) <= dist(now, times[i as int] as int));
            if i < j {
                assert(dist(now, times[j as int] as int) < dist(now, times[i as int] as int));
            } else if j < i {
                assert(dist(now, times[i as int] as int) < dist(now, times[j as int] as int));
            }
        },
        (Some(i), None) => {
            assert(dist(now, times[i as int] as int) > window);
        },
        (None, Some(j)) => {
            assert(dist(now, times[j as int] as int) > window);
        },
        (None, None) => {},
    }
}

/// The row before the upcoming one, wrapping so that before Fajr and after
/// Isha it is Isha.
pub open spec fn last_passed(upcoming: int) -> int {
    (upcoming + 5) % 6
}

/// What `indicator` shows for `mode` at minute `now`.
pub open spec fn indicator_ok(
    mode: TimeIndicator,
    p: PrayerTimes,
    now: int,
    window: int,
    d: IndicatorData,
) -> bool {
    let up = upcoming_index(p.times(), now);
    let last = last_passed(up);
    match mode {
        TimeIndicator::Empty => d.highlight is None && d.marker is None,
        TimeIndicator::Current => d.highlight == Some(last as usize) && d.marker is None,
        TimeIndicator::Next => d.highlight == Some(up as usize) && d.marker is None,
        TimeIndicator::Inbetween => {
            &&& d.highlight is None
            &&& exists|r: Option<usize>|
                #![trigger nearest_within(p.times(), now, window, r)]
                nearest_within(p.times(), now, window, r) && d.marker == Some(
                    match r {
                        Some(row) => IndicatorMarker::Single(row),
                        None => IndicatorMarker::Pair(
                            Pair { current: last as usize, next: up as usize },
                        ),
                    },
                )
        },
    }
}

fn abs_diff(a: u32, b: u32) -> (d: u32)
    ensures
        d == dist(a as int, b as int),
{
    if a >= b {
        a - b
    } else {
        b - a
    }
}

/// nearest prayer within `window` minutes of `now_min` (first row wins ties)
pub fn prayers_within(times: &PrayerTimes, now_min: u32, window: u32) -> (r: Option<usize>)
    ensures
        nearest_within(times.times(), now_min as int, window as int, r),
{
    let v = times.to_vec();
    let ghost t = times.times();
    let mut best: Option<usize> = None;
    let mut best_d: u32 = 0;
    for i in 0..6
        invariant
            v@ == t,
            t.len() == 6,
            match best {
                None => forall|j: int| 0 <= j < i ==> dist(now_min as int, t[j] as int) > window,
                Some(b) => {
                    &&& b < i
                    &&& best_d == dist(now_min as int, t[b as int] as int)
                    &&& best_d <= window
                    &&& forall|j: int|
                        0 <= j < i ==> best_d <= dist(now_min as int, #[trigger] t[j] as int)
                            || dist(now_min as int, t[j] as int) > window
                    &&& forall|j: int|
                        0 <= j < b ==> best_d < dist(now_min as int, #[trigger] t[j] as int)
                },
            },
    {
        let d = abs_diff(now_min, v[i]);
        if d <= window {
            match best {
                None => {
                    best = Some(i);
                    best_d = d;
                },
                Some(_) => {
                    if d < best_d {
                        best = Some(i);
                        best_d = d;
                    }
                },
            }
        }
    }
    best
}

/// compute the indicator for `now_min` (minutes since local midnight).
///
/// `upcoming` is the first prayer strictly after `now_min`; `last_passed`
/// wraps so before Fajr and after Isha it lands on Isha. The `Inbetween`
/// marker is the fused current-to-next arrow; while any prayer sits within
/// `window_min` minutes of `now_min` it collapses to a single arrow on the
/// nearest such prayer (window 0 => only exactly on the prayer's minute).
pub fn indicator(mode: TimeIndicator, times: &PrayerTimes, now_min: u32, window_min: u32) -> (d:
    IndicatorData)
    ensures
        indicator_ok(mode, *times, now_min as int, window_min as int, d),
{
    let upcoming = times.current_index_at(now_min);
    let last = (upcoming + 5) % PRAYER_ROW_COUNT;
    match mode {
        TimeIndicator::Empty => IndicatorData { highlight: None, marker: None },
        TimeIndicator::Current => IndicatorData { highlight: Some(last), marker: None },
        TimeIndicator::Next => IndicatorData { highlight: Some(upcoming), marker: None },
        TimeIndicator::Inbetween => {
            let r = prayers_within(times, now_min, window_min);
            let marker = match r {
                Some(row) => IndicatorMarker::Single(row),
                None => IndicatorMarker::Pair(Pair { current: last, next: upcoming }),
            };
            let d = IndicatorData { highlight: None, marker: Some(marker) };
            assert(nearest_within(times.times(), now_min as int, window_min as int, r));
            d
        },
    }
}

} // verus!
