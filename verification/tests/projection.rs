use eink_schedule::geometry::{GridGeometry, Point, Rect, Size};
use eink_schedule::project::project;
use eink_schedule::time::{ChronoRange, DateTime, TimeInterval};
use eink_schedule::ScheduleError;

fn geometry() -> GridGeometry {
    // 800x520 box: 40px header, 60px time column, 4 day columns of 185px,
    // 12 hour rows of 40px (exact division, no remainder).
    GridGeometry::build(
        Rect { origin: Point::new(0, 0), size: Size::new(800, 520) },
        4,
        12,
    )
    .unwrap()
}

fn dates() -> ChronoRange {
    ChronoRange::new(DateTime::new(1000, 0), DateTime::new(1003, 0))
}

fn hours() -> ChronoRange {
    // visible hour span [08:00, 20:00]
    ChronoRange::new(DateTime::new(1000, 8 * 60), DateTime::new(1000, 20 * 60))
}

fn event(day: i32, start_min: u32, end_min: u32) -> TimeInterval {
    TimeInterval::new(
        DateTime::new(day, start_min),
        DateTime::new(day, end_min),
        "A".to_string(),
    )
}

#[test]
fn geometry_build_partitions_box() {
    let g = geometry();
    assert_eq!(g.header_height, 40);
    assert_eq!(g.time_column_width, 60);
    assert_eq!(g.date_column_width, (800 - 60) / 4);
    assert_eq!(g.row_height, (520 - 40) / 12);
    assert_eq!(g.content_top(), 40);
    assert_eq!(g.content_bottom(), 520);
    assert_eq!(g.content_left(), 60);
    assert_eq!(g.right_edge(), 800);
}

#[test]
fn geometry_build_rejects_degenerate_window() {
    let bounds = Rect { origin: Point::new(0, 0), size: Size::new(800, 520) };
    assert_eq!(
        GridGeometry::build(bounds, 0, 12),
        Err(ScheduleError::DegenerateWindow)
    );
    assert_eq!(
        GridGeometry::build(bounds, 4, 0),
        Err(ScheduleError::DegenerateWindow)
    );
}

#[test]
fn geometry_build_absorbs_remainder() {
    // 7 columns do not divide 740 evenly; the remainder stays unused.
    let g = GridGeometry::build(
        Rect { origin: Point::new(0, 0), size: Size::new(800, 520) },
        7,
        11,
    )
    .unwrap();
    assert_eq!(g.date_column_width, 740 / 7);
    assert!(g.date_column_width * g.day_count + g.time_column_width <= g.width);
    assert_eq!(g.row_height, 480 / 11);
    assert!(g.row_height * g.hour_count <= g.height - g.header_height);
}

#[test]
fn project_fully_inside_window() {
    // 09:00 - 10:30 in [08:00, 20:00]: one hour below the top, spanning
    // one and a half 40px rows.
    let p = project(&event(1001, 9 * 60, 10 * 60 + 30), &dates(), &hours(), &geometry());
    assert!(p.visible);
    assert_eq!(p.column_index, 1);
    assert_eq!(p.top_y, 40 + 40);
    assert_eq!(p.bottom_y, 40 + 100);
    assert!(40 <= p.top_y && p.top_y < p.bottom_y && p.bottom_y <= 520);
}

#[test]
fn project_clips_start_to_content_top() {
    // 06:00 - 12:15 against [08:00, 20:00]: the top clamps to the content
    // top edge, the bottom lands 4.25 rows below it.
    let p = project(&event(1000, 6 * 60, 12 * 60 + 15), &dates(), &hours(), &geometry());
    assert!(p.visible);
    assert_eq!(p.column_index, 0);
    assert_eq!(p.top_y, 40);
    assert_eq!(p.bottom_y, 40 + (255 * 40) / 60);
    assert_eq!(p.bottom_y, 40 + 170);
}

#[test]
fn project_clips_end_to_content_bottom() {
    // 19:00 - 23:00: the bottom clamps to the content bottom edge.
    let p = project(&event(1000, 19 * 60, 23 * 60), &dates(), &hours(), &geometry());
    assert!(p.visible);
    assert_eq!(p.top_y, 40 + 11 * 40);
    assert_eq!(p.bottom_y, 520);
}

#[test]
fn project_skips_event_before_window() {
    // 05:00 - 07:30 lies entirely before 08:00: zero height, skipped.
    let p = project(&event(1000, 5 * 60, 7 * 60 + 30), &dates(), &hours(), &geometry());
    assert!(!p.visible);
    assert_eq!(p.top_y, p.bottom_y);
}

#[test]
fn project_skips_event_after_window() {
    // 20:30 - 21:00 lies entirely after 20:00 and the rows fill the
    // content area exactly: nothing visible remains.
    let p = project(&event(1000, 20 * 60 + 30, 21 * 60), &dates(), &hours(), &geometry());
    assert!(!p.visible);
    assert!(p.top_y >= p.bottom_y);
}

#[test]
fn project_skips_invisible_day() {
    let p = project(&event(1004, 9 * 60, 10 * 60), &dates(), &hours(), &geometry());
    assert!(!p.visible);
    let p = project(&event(999, 9 * 60, 10 * 60), &dates(), &hours(), &geometry());
    assert!(!p.visible);
}
