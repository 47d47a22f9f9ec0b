use rlviser::clock::{break_down_seconds, game_time_segments, DAY, HOUR, MONTH, WEEK, YEAR};

#[test]
fn small_durations_break_into_hours_minutes_seconds() {
    let t = break_down_seconds(3661);
    assert_eq!(t.years, 0);
    assert_eq!(t.months, 0);
    assert_eq!(t.weeks, 0);
    assert_eq!(t.days, 0);
    assert_eq!(t.hours, 1);
    assert_eq!(t.minutes, 1);
    assert_eq!(t.seconds, 1);
}

#[test]
fn large_durations_use_every_segment() {
    let total = 2 * YEAR + 3 * MONTH + 1 * WEEK + 4 * DAY + 5 * HOUR + 6 * 60 + 7;
    let t = break_down_seconds(total);
    assert_eq!(t.years, 2);
    assert_eq!(t.months, 3);
    assert_eq!(t.weeks, 1);
    assert_eq!(t.days, 4);
    assert_eq!(t.hours, 5);
    assert_eq!(t.minutes, 6);
    assert_eq!(t.seconds, 7);
    // The segments recompose to the total.
    assert_eq!(
        t.years * YEAR + t.months * MONTH + t.weeks * WEEK + t.days * DAY + t.hours * HOUR
            + t.minutes * 60 + t.seconds,
        total
    );
}

#[test]
fn zero_seconds_is_all_zero() {
    let t = break_down_seconds(0);
    assert_eq!((t.years, t.months, t.weeks, t.days), (0, 0, 0, 0));
    assert_eq!((t.hours, t.minutes, t.seconds), (0, 0, 0));
}

#[test]
fn segment_bounds_hold_at_the_edges() {
    // One second short of a year: twelve 30-day months plus four days.
    let t = break_down_seconds(YEAR - 1);
    assert_eq!(t.years, 0);
    assert_eq!(t.months, 12);
    assert_eq!(t.weeks, 0);
    assert_eq!(t.days, 4);
    assert_eq!((t.hours, t.minutes, t.seconds), (23, 59, 59));

    let t = break_down_seconds(59);
    assert_eq!((t.minutes, t.seconds), (0, 59));
    let t = break_down_seconds(60);
    assert_eq!((t.minutes, t.seconds), (1, 0));
}

#[test]
fn game_time_comes_from_ticks_over_tick_rate() {
    // 12000 ticks at 120 per second: 100 seconds, shown as 1m 40s.
    let t = game_time_segments(12000, 120).expect("a nonzero tick rate has a time");
    assert_eq!(t.minutes, 1);
    assert_eq!(t.seconds, 40);

    // A zero tick rate has no defined time: the frame is skipped, not a
    // division by zero.
    assert!(game_time_segments(12000, 0).is_none());
}
