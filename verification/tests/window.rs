use chrono::Datelike;
use eink_schedule::time::{
    compute_date_window, compute_hour_window, ChronoRange, DateTime, TimeInterval,
};
use eink_schedule::ScheduleError;

fn day_of(y: i32, m: u32, d: u32) -> i32 {
    chrono::NaiveDate::from_ymd_opt(y, m, d).unwrap().num_days_from_ce()
}

fn interval(day: i32, start_min: u32, end_min: u32, label: &str) -> TimeInterval {
    TimeInterval::new(
        DateTime::new(day, start_min),
        DateTime::new(day, end_min),
        label.to_string(),
    )
}

#[test]
fn hour_window_centered() {
    // now = 13:30, hours_to_show = 12: candidate [07:30, 19:30], both
    // bounds truncated to the start of their hour.
    let now = DateTime::new(1000, 13 * 60 + 30);
    let (start, end) = compute_hour_window(now, 12);
    assert_eq!(start, DateTime::new(1000, 7 * 60));
    assert_eq!(end, DateTime::new(1000, 19 * 60));
}

#[test]
fn hour_window_even_span_whole_hours() {
    for h in [2i32, 4, 6, 8, 10, 12, 16, 20, 24] {
        for minute in [0u32, 29, 30, 719, 720, 1439] {
            let now = DateTime::new(5000, minute);
            let (start, end) = compute_hour_window(now, h);
            let span = (end.day as i64 - start.day as i64) * 1440 + end.minute as i64
                - start.minute as i64;
            assert_eq!(span, h as i64 * 60);
            assert_eq!(start.minute % 60, 0);
            assert_eq!(end.minute % 60, 0);
        }
    }
}

#[test]
fn hour_window_start_clamped_to_midnight() {
    // now = 01:30: the candidate start 19:30 of the previous day is
    // clamped to midnight and the excess shifted onto the end.
    let now = DateTime::new(1000, 90);
    let (start, end) = compute_hour_window(now, 12);
    assert_eq!(start, DateTime::new(1000, 0));
    assert_eq!(end, DateTime::new(1000, 12 * 60));
}

#[test]
fn hour_window_end_clamped_to_end_of_day() {
    // now = 22:30: the candidate end 04:30 of the next day is clamped to
    // the end of the day and the excess shifted onto the start.
    let now = DateTime::new(1000, 22 * 60 + 30);
    let (start, end) = compute_hour_window(now, 12);
    assert_eq!(start, DateTime::new(1000, 12 * 60));
    assert_eq!(end, DateTime::new(1001, 0));
}

#[test]
fn hour_window_odd_biases() {
    // An odd count cannot center exactly; the extra hour goes onto the
    // future side, so the span is still hours_to_show hours.
    let now = DateTime::new(1000, 13 * 60 + 30);
    let (start, end) = compute_hour_window(now, 5);
    assert_eq!(start, DateTime::new(1000, 11 * 60));
    assert_eq!(end, DateTime::new(1000, 16 * 60));

    let (start, end) = compute_hour_window(now, 1);
    assert_eq!(start, DateTime::new(1000, 13 * 60));
    assert_eq!(end, DateTime::new(1000, 14 * 60));
}

#[test]
fn hour_window_contains_now() {
    // For every supported count the window spans exactly that many
    // hours, on whole-hour bounds, and the clock reading lies inside it.
    for h in 1i32..=24 {
        for minute in [0u32, 29, 59, 719, 720, 1380, 1439] {
            let now = DateTime::new(5000, minute);
            let (start, end) = compute_hour_window(now, h);
            let start_total = start.total_minutes() as i64;
            let end_total = end.total_minutes() as i64;
            let now_total = now.total_minutes() as i64;
            assert_eq!(end_total - start_total, h as i64 * 60);
            assert_eq!(start.minute % 60, 0);
            assert_eq!(end.minute % 60, 0);
            assert!(start_total <= now_total && now_total < end_total);
        }
    }
}

#[test]
fn date_window_excludes_past_events() {
    let today = day_of(2025, 1, 2);
    let now = DateTime::new(today, 600);
    let events = vec![
        interval(today - 1, 600, 660, "yesterday"),
        interval(today + 1, 600, 660, "tomorrow"),
        interval(today + 3, 600, 660, "later"),
    ];
    let (first, last) = compute_date_window(&events, now).unwrap();
    assert_eq!(first, today + 1);
    assert_eq!(last, today + 3);
}

#[test]
fn date_window_spans_min_start_to_max_end() {
    let today = 70000;
    let now = DateTime::new(today, 0);
    let events = vec![
        TimeInterval::new(
            DateTime::new(today + 2, 60),
            DateTime::new(today + 5, 120),
            "long".to_string(),
        ),
        interval(today, 600, 660, "short"),
    ];
    let (first, last) = compute_date_window(&events, now).unwrap();
    assert_eq!(first, today);
    assert_eq!(last, today + 5);
}

#[test]
fn date_window_empty_after_filter() {
    let now = DateTime::new(1000, 0);
    let events = vec![interval(999, 600, 660, "past")];
    assert_eq!(
        compute_date_window(&events, now),
        Err(ScheduleError::NoVisibleEvents)
    );
    assert_eq!(
        compute_date_window(&Vec::new(), now),
        Err(ScheduleError::NoVisibleEvents)
    );
}

#[test]
fn chrono_range_walks_days_and_hours() {
    let range = ChronoRange::new(DateTime::new(100, 0), DateTime::new(103, 0));
    let days = range.iter_days();
    assert_eq!(days.len(), 4);
    assert_eq!(days[0], DateTime::new(100, 0));
    assert_eq!(days[3], DateTime::new(103, 0));

    let hours = ChronoRange::new(DateTime::new(100, 7 * 60), DateTime::new(100, 10 * 60));
    let stops = hours.iter_hours();
    assert_eq!(stops.len(), 4);
    assert_eq!(stops[1], DateTime::new(100, 8 * 60));
    assert_eq!(hours.start(), DateTime::new(100, 7 * 60));
}

#[test]
fn chrono_range_iter_with_step() {
    let range = ChronoRange::new(DateTime::new(100, 0), DateTime::new(100, 90));
    let stops = range.iter(45);
    assert_eq!(stops.len(), 3);
    assert_eq!(stops[2], DateTime::new(100, 90));
    // an empty range yields no stops
    let empty = ChronoRange::new(DateTime::new(101, 0), DateTime::new(100, 0));
    assert_eq!(empty.iter(60).len(), 0);
}

#[test]
fn datetime_total_minutes_round_trip() {
    let dt = DateTime::new(12345, 678);
    let total = dt.total_minutes();
    assert_eq!(total, 12345 * 1440 + 678);
    assert_eq!(DateTime::from_total_minutes(total), dt);
    assert_eq!(dt.hour(), 11);
}
