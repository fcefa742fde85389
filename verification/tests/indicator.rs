use salatui::conf::TimeIndicator;
use salatui::indicator::{indicator, prayers_within, IndicatorData, IndicatorMarker, Pair};
use salatui::prayer::PrayerTimes;

// from_vec reads prayers from list[2..=7]: Fajr 293, Sun 365, Dhuhur 736,
// Asr 932, Magrib 1098, Isha 1171
fn times() -> PrayerTimes {
    PrayerTimes::from_vec(vec![77, 225, 293, 365, 736, 932, 1098, 1171])
}

#[test]
fn empty_has_no_marker_or_highlight() {
    let data = indicator(TimeIndicator::Empty, &times(), 800, 0);
    assert_eq!(data, IndicatorData { highlight: None, marker: None });
}

#[test]
fn current_highlights_last_passed_at_midday() {
    // 13:20 -> Dhuhur(736) passed, Asr(932) upcoming => current is Dhuhur
    let data = indicator(TimeIndicator::Current, &times(), 800, 0);
    assert_eq!(data.highlight, Some(2));
    assert_eq!(data.marker, None);
}

#[test]
fn next_highlights_upcoming_at_midday() {
    let data = indicator(TimeIndicator::Next, &times(), 800, 0);
    assert_eq!(data.highlight, Some(3));
    assert_eq!(data.marker, None);
}

#[test]
fn inbetween_marks_current_and_next_at_midday() {
    let data = indicator(TimeIndicator::Inbetween, &times(), 800, 0);
    assert_eq!(data.highlight, None);
    assert_eq!(data.marker, Some(IndicatorMarker::Pair(Pair { current: 2, next: 3 })));
}

#[test]
fn before_fajr_wraps_to_overnight_boundary() {
    // 01:40 < Fajr(293) => upcoming 0, last_passed Isha(5)
    assert_eq!(indicator(TimeIndicator::Current, &times(), 100, 0).highlight, Some(5));
    let data = indicator(TimeIndicator::Inbetween, &times(), 100, 0);
    assert_eq!(data.highlight, None);
    assert_eq!(data.marker, Some(IndicatorMarker::Pair(Pair { current: 5, next: 0 })));
    assert_eq!(indicator(TimeIndicator::Next, &times(), 100, 0).highlight, Some(0));
}

#[test]
fn after_isha_wraps_to_overnight_boundary() {
    // 21:40 > Isha(1171) => upcoming 0
    assert_eq!(indicator(TimeIndicator::Current, &times(), 1300, 0).highlight, Some(5));
    let data = indicator(TimeIndicator::Inbetween, &times(), 1300, 0);
    assert_eq!(data.highlight, None);
    assert_eq!(data.marker, Some(IndicatorMarker::Pair(Pair { current: 5, next: 0 })));
    assert_eq!(indicator(TimeIndicator::Next, &times(), 1300, 0).highlight, Some(0));
}

#[test]
fn exact_minute_shows_single_arrow() {
    // 12:16 == Dhuhur(736) => window 0 still matches
    let data = indicator(TimeIndicator::Inbetween, &times(), 736, 0);
    assert_eq!(data.highlight, None);
    assert_eq!(data.marker, Some(IndicatorMarker::Single(2)));
    // one minute later the exact-match window no longer contains Dhuhur
    let data = indicator(TimeIndicator::Inbetween, &times(), 737, 0);
    assert_eq!(data.marker, Some(IndicatorMarker::Pair(Pair { current: 2, next: 3 })));
}

#[test]
fn in_window_before_prayer_shows_single() {
    // 12:11, five minutes before Dhuhur(736) with window 5
    let data = indicator(TimeIndicator::Inbetween, &times(), 731, 5);
    assert_eq!(data.highlight, None);
    assert_eq!(data.marker, Some(IndicatorMarker::Single(2)));
}

#[test]
fn in_window_after_prayer_shows_single() {
    // 12:21, five minutes after Dhuhur(736) with window 5
    let data = indicator(TimeIndicator::Inbetween, &times(), 741, 5);
    assert_eq!(data.highlight, None);
    assert_eq!(data.marker, Some(IndicatorMarker::Single(2)));
}

#[test]
fn outside_window_keeps_pair() {
    // 13:20, neither Fajr nor Asr within 5 minutes
    let data = indicator(TimeIndicator::Inbetween, &times(), 800, 5);
    assert_eq!(data.highlight, None);
    assert_eq!(data.marker, Some(IndicatorMarker::Pair(Pair { current: 2, next: 3 })));
}

#[test]
fn nearest_prayer_wins_when_windows_overlap() {
    // 05:30, 37 min to Fajr(293) and 35 min to Sun(365) with window 40
    let data = indicator(TimeIndicator::Inbetween, &times(), 330, 40);
    assert_eq!(data.marker, Some(IndicatorMarker::Single(1)));
}

#[test]
fn equal_distances_pick_the_earlier_row() {
    let p = PrayerTimes::from_vec(vec![0, 0, 100, 120, 500, 600, 700, 800]);
    // 110 is 10 minutes from both Fajr and Sun
    assert_eq!(prayers_within(&p, 110, 10), Some(0));
    assert_eq!(prayers_within(&p, 110, 9), None);
}
