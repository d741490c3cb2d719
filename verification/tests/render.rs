use chrono::Datelike;
use eink_schedule::color::UnifiedColor;
use eink_schedule::geometry::{Point, Size};
use eink_schedule::render::{DrawCommand, FontKind};
use eink_schedule::table::ScheduleTable;
use eink_schedule::time::{DateTime, TimeInterval};
use eink_schedule::ScheduleError;

fn day_of(y: i32, m: u32, d: u32) -> i32 {
    chrono::NaiveDate::from_ymd_opt(y, m, d).unwrap().num_days_from_ce()
}

fn interval(day: i32, start_min: u32, end_min: u32, label: &str) -> TimeInterval {
    TimeInterval::new(
        DateTime::new(day, start_min),
        DateTime::new(day, end_min),
        label.to_string(),
    )
}

/// A 800x520 table showing 2025-01-02 13:30 with a 12-hour window
/// [07:00, 19:00] over the given events.
fn demo_table(events: Vec<TimeInterval>) -> ScheduleTable {
    ScheduleTable::new(
        Point::new(0, 0),
        Size::new(800, 520),
        DateTime::new(day_of(2025, 1, 2), 13 * 60 + 30),
        events,
        12,
    )
    .unwrap()
}

fn rounded_rects(cmds: &[DrawCommand]) -> Vec<(i32, i32, i32, i32)> {
    cmds.iter()
        .filter_map(|c| match c {
            DrawCommand::RoundedRect { x, y, width, height, .. } => Some((*x, *y, *width, *height)),
            _ => None,
        })
        .collect()
}

fn texts(cmds: &[DrawCommand]) -> Vec<(String, FontKind, UnifiedColor)> {
    cmds.iter()
        .filter_map(|c| match c {
            DrawCommand::Text { content, font, color, .. } => {
                Some((content.clone(), *font, *color))
            }
            _ => None,
        })
        .collect()
}

#[test]
fn new_rejects_nonpositive_hours() {
    let r = ScheduleTable::new(
        Point::new(0, 0),
        Size::new(800, 520),
        DateTime::new(1000, 600),
        Vec::new(),
        0,
    );
    assert_eq!(r.err(), Some(ScheduleError::DegenerateWindow));
}

#[test]
fn new_collapses_to_single_day_without_events() {
    let today = day_of(2025, 1, 2);
    let table = demo_table(vec![interval(today - 1, 600, 660, "past")]);
    assert!(table.no_visible_events);
    assert_eq!(table.date_range.start.day, today);
    assert_eq!(table.date_range.end.day, today);
    // the empty grid still renders, with no event rectangle
    let cmds = table.draw();
    assert!(rounded_rects(&cmds).is_empty());
}

#[test]
fn render_is_idempotent() {
    let today = day_of(2025, 1, 2);
    let events = || {
        vec![
            interval(today, 8 * 60, 10 * 60, "alpha"),
            interval(today + 1, 9 * 60, 12 * 60, "beta"),
        ]
    };
    let first = demo_table(events()).draw();
    let second = demo_table(events()).draw();
    assert_eq!(first, second);
}

#[test]
fn render_stage_order() {
    let today = day_of(2025, 1, 2);
    let table = demo_table(vec![interval(today, 8 * 60, 10 * 60, "alpha")]);
    let cmds = table.draw();
    // Cleared: the full bounding box filled with background first.
    assert_eq!(
        cmds[0],
        DrawCommand::FillRect { x: 0, y: 0, width: 800, height: 520, color: UnifiedColor::White }
    );
    // BorderDrawn: thin outer border, then the bold header rule.
    assert_eq!(
        cmds[1],
        DrawCommand::OutlineRect {
            x: 0,
            y: 0,
            width: 800,
            height: 520,
            stroke_width: 1,
            color: UnifiedColor::Black,
        }
    );
    assert_eq!(
        cmds[2],
        DrawCommand::Line {
            x0: 0,
            y0: 40,
            x1: 800,
            y1: 40,
            stroke_width: 2,
            color: UnifiedColor::Black,
        }
    );
    // NowLineDrawn: the highlighted rule comes last, over everything,
    // at 13:30 within [07:00, 19:00]: 6.5 rows of 40px below the content
    // top, spanning the time column and the first day column only.
    let last = cmds.last().unwrap();
    assert_eq!(
        *last,
        DrawCommand::Line {
            x0: 0,
            y0: 40 + 6 * 40 + 20,
            x1: 60 + (800 - 60),
            y1: 40 + 6 * 40 + 20,
            stroke_width: 4,
            color: UnifiedColor::Chromatic,
        }
    );
}

#[test]
fn overlapping_events_draw_in_input_order() {
    let today = day_of(2025, 1, 2);
    // three overlapping events on the same day, deliberately out of
    // chronological order
    let table = demo_table(vec![
        interval(today, 9 * 60, 11 * 60 + 30, "third"),
        interval(today, 8 * 60, 10 * 60, "first"),
        interval(today, 8 * 60 + 30, 10 * 60 + 30, "second"),
    ]);
    let cmds = table.draw();
    let rects = rounded_rects(&cmds);
    assert_eq!(rects.len(), 3);
    // single-day grid: every rectangle sits in the one column
    assert!(rects.iter().all(|r| r.0 == 60 + 4));
    // tops follow input order (09:00, 08:00, 08:30 past the 07:00 start)
    assert_eq!(rects[0].1, 40 + 2 * 40 + 4);
    assert_eq!(rects[1].1, 40 + 40 + 4);
    assert_eq!(rects[2].1, 40 + 60 + 4);
}

#[test]
fn event_rectangle_insets_and_radius() {
    let today = day_of(2025, 1, 2);
    let table = demo_table(vec![interval(today, 8 * 60, 10 * 60, "alpha")]);
    let cmds = table.draw();
    let rect = cmds
        .iter()
        .find_map(|c| match c {
            DrawCommand::RoundedRect {
                x,
                y,
                width,
                height,
                corner_radius,
                stroke_width,
                stroke_color,
                fill_color,
            } => Some((
                *x,
                *y,
                *width,
                *height,
                *corner_radius,
                *stroke_width,
                *stroke_color,
                *fill_color,
            )),
            _ => None,
        })
        .unwrap();
    // one day column of 740px, event one hour below the 07:00 start,
    // two hours (80px) tall, inset 4px from the cell edges
    assert_eq!(rect.0, 60 + 4);
    assert_eq!(rect.1, 40 + 40 + 4);
    assert_eq!(rect.2, 740 - 8);
    assert_eq!(rect.3, 80 - 8);
    assert_eq!(rect.4, 4);
    assert_eq!(rect.5, 2);
    assert_eq!(rect.6, UnifiedColor::Black);
    assert_eq!(rect.7, UnifiedColor::White);
}

#[test]
fn header_labels_match_calendar() {
    let today = day_of(2025, 1, 2);
    let table = demo_table(vec![
        interval(today, 8 * 60, 10 * 60, "alpha"),
        interval(today + 1, 8 * 60, 10 * 60, "beta"),
    ]);
    let cmds = table.draw();
    let all = texts(&cmds);
    // the time-column header
    assert!(all.iter().any(|t| t.0 == "Time" && t.1 == FontKind::Body));
    // one date header per visible day, in dd.mm.yyyy form; these values
    // are written out independently of the engine's formatter
    assert!(all.iter().any(|t| t.0 == "02.01.2025"));
    assert!(all.iter().any(|t| t.0 == "03.01.2025"));
    assert!(!all.iter().any(|t| t.0 == "01.01.2025"));
}

#[test]
fn hour_labels_cover_window_bounds() {
    let today = day_of(2025, 1, 2);
    let table = demo_table(vec![interval(today, 8 * 60, 10 * 60, "alpha")]);
    let cmds = table.draw();
    let labels: Vec<String> = texts(&cmds)
        .into_iter()
        .filter(|t| t.1 == FontKind::Body && t.0.contains(':'))
        .map(|t| t.0)
        .collect();
    // window [07:00, 19:00]: thirteen whole-hour labels, bounds included
    for h in 7..=19 {
        let expected = format!("{:02}:00", h);
        assert!(labels.contains(&expected), "missing hour label {expected}");
    }
    assert!(!labels.contains(&"06:00".to_string()));
    assert!(!labels.contains(&"20:00".to_string()));
}

#[test]
fn event_labels_and_halo() {
    let today = day_of(2025, 1, 2);
    let table = demo_table(vec![interval(today, 8 * 60, 10 * 60, "alpha")]);
    let cmds = table.draw();
    let all = texts(&cmds);
    // the body label fits (80px >= one 20px text line)
    assert!(all
        .iter()
        .any(|t| t.0 == "alpha" && t.1 == FontKind::Body && t.2 == UnifiedColor::Black));
    // the halo: each timestamp stamped 8 times in background, once in ink
    let small: Vec<_> = all.iter().filter(|t| t.1 == FontKind::Small).collect();
    assert_eq!(small.len(), 18);
    assert_eq!(small.iter().filter(|t| t.2 == UnifiedColor::White).count(), 16);
    assert_eq!(small.iter().filter(|t| t.2 == UnifiedColor::Black).count(), 2);
    assert_eq!(small.iter().filter(|t| t.0 == "08:00").count(), 9);
    assert_eq!(small.iter().filter(|t| t.0 == "10:00").count(), 9);
}

#[test]
fn short_event_omits_body_label_and_fill() {
    let today = day_of(2025, 1, 2);
    // five minutes: a 3px sliver, thinner than the 4px insets and far
    // below one text line
    let table = demo_table(vec![interval(today, 8 * 60, 8 * 60 + 5, "tiny")]);
    let cmds = table.draw();
    assert!(rounded_rects(&cmds).is_empty());
    let all = texts(&cmds);
    assert!(!all.iter().any(|t| t.0 == "tiny"));
    // the timestamps still mark the sliver
    assert!(all.iter().any(|t| t.0 == "08:05" && t.1 == FontKind::Small));
}

#[test]
fn past_event_is_not_drawn() {
    let today = day_of(2025, 1, 2);
    let table = demo_table(vec![
        interval(today - 1, 8 * 60, 10 * 60, "past"),
        interval(today, 8 * 60, 10 * 60, "current"),
    ]);
    let cmds = table.draw();
    assert_eq!(rounded_rects(&cmds).len(), 1);
    assert!(!texts(&cmds).iter().any(|t| t.0 == "past"));
}

#[test]
fn rgb565_classification() {
    assert_eq!(UnifiedColor::from_rgb565(0x0000), UnifiedColor::Black);
    assert_eq!(UnifiedColor::from_rgb565(0xffff), UnifiedColor::Chromatic);
    // bright in all channels: (16, 16, 16) packed as RGB565
    assert_eq!(
        UnifiedColor::from_rgb565((16 << 11) | (16 << 5) | 16),
        UnifiedColor::Chromatic
    );
    // dim in one channel: background
    assert_eq!(
        UnifiedColor::from_rgb565((15 << 11) | (63 << 5) | 31),
        UnifiedColor::White
    );
    assert_eq!(UnifiedColor::from_rgb565(0x0001), UnifiedColor::White);
}
