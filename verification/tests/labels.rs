use eink_schedule::geometry::{GridGeometry, Point, Rect, Size};
use eink_schedule::labels::{place_event_labels, place_header_labels, place_hour_labels};
use eink_schedule::project::ProjectedInterval;
use eink_schedule::render::{DrawCommand, FontKind, TextAnchor};
use eink_schedule::time::{ChronoRange, DateTime, TimeInterval};

fn geometry() -> GridGeometry {
    GridGeometry::build(
        Rect { origin: Point::new(0, 0), size: Size::new(800, 520) },
        2,
        12,
    )
    .unwrap()
}

fn text_fields(c: &DrawCommand) -> (i32, i32, String, FontKind, TextAnchor) {
    match c {
        DrawCommand::Text { x, y, content, font, anchor, .. } => {
            (*x, *y, content.clone(), *font, *anchor)
        }
        _ => panic!("expected a text command"),
    }
}

#[test]
fn header_labels_centered_per_column() {
    // two visible days starting at 2025-01-01 (day 739252)
    let dates = ChronoRange::new(DateTime::new(739252, 0), DateTime::new(739253, 0));
    let geom = geometry();
    let cmds = place_header_labels(&geom, &dates);
    assert_eq!(cmds.len(), 3);

    let (x, y, content, font, anchor) = text_fields(&cmds[0]);
    assert_eq!(content, "Time");
    // centered in the 60px time column: 30 - (4 glyphs * 10px) / 2
    assert_eq!(x, 30 - 20);
    assert_eq!(y, 6);
    assert_eq!(font, FontKind::Body);
    assert_eq!(anchor, TextAnchor::Top);

    let (x1, _, first, _, _) = text_fields(&cmds[1]);
    let (x2, _, second, _, _) = text_fields(&cmds[2]);
    assert_eq!(first, "01.01.2025");
    assert_eq!(second, "02.01.2025");
    // centered in each 370px day column: ten 10px glyphs
    assert_eq!(x1, 60 + 370 / 2 - 50);
    assert_eq!(x2, 60 + 370 + 370 / 2 - 50);
}

#[test]
fn hour_labels_one_per_whole_hour() {
    let hours = ChronoRange::new(DateTime::new(739252, 7 * 60), DateTime::new(739252, 19 * 60));
    let geom = geometry();
    let cmds = place_hour_labels(&geom, &hours);
    assert_eq!(cmds.len(), 13);
    let (x, y, content, _, _) = text_fields(&cmds[0]);
    assert_eq!(content, "07:00");
    assert_eq!(x, 30 - 25);
    assert_eq!(y, 40 + 6);
    let (_, y_last, last, _, _) = text_fields(&cmds[12]);
    assert_eq!(last, "19:00");
    assert_eq!(y_last, 40 + 12 * 40 + 6);
}

#[test]
fn hour_labels_wrap_past_midnight() {
    // a window clamped to the end of the day ends at the next midnight
    let hours = ChronoRange::new(DateTime::new(739252, 12 * 60), DateTime::new(739253, 0));
    let cmds = place_hour_labels(&geometry(), &hours);
    assert_eq!(cmds.len(), 13);
    let (_, _, last, _, _) = text_fields(&cmds[12]);
    assert_eq!(last, "00:00");
}

#[test]
fn event_labels_halo_shape() {
    let geom = geometry();
    let ev = TimeInterval::new(
        DateTime::new(739252, 8 * 60),
        DateTime::new(739252, 10 * 60),
        "alpha".to_string(),
    );
    let p = ProjectedInterval { column_index: 1, top_y: 80, bottom_y: 160, visible: true };
    let cmds = place_event_labels(&ev, &p, &geom);
    // one body label plus nine stampings of each timestamp
    assert_eq!(cmds.len(), 19);

    let (x, y, content, font, anchor) = text_fields(&cmds[0]);
    assert_eq!(content, "alpha");
    assert_eq!(font, FontKind::Body);
    assert_eq!(anchor, TextAnchor::Middle);
    let col_x = 60 + 370;
    assert_eq!(x, col_x + 370 / 2 - (5 * 10) / 2);
    assert_eq!(y, 80 + 40);

    // the first halo stamp sits one pixel up-left of the nominal anchors
    let (sx, sy, start_text, font, anchor) = text_fields(&cmds[1]);
    assert_eq!(start_text, "08:00");
    assert_eq!(font, FontKind::Small);
    assert_eq!(anchor, TextAnchor::Top);
    assert_eq!(sx, col_x + (5 * 6) / 3 - 1);
    assert_eq!(sy, 80 - 4 - 1);
    let (ex, ey, end_text, _, anchor) = text_fields(&cmds[2]);
    assert_eq!(end_text, "10:00");
    assert_eq!(anchor, TextAnchor::Bottom);
    assert_eq!(ex, col_x + 370 - 5 * 6 - 8 - 1);
    assert_eq!(ey, 160 - 1);

    // the final pair sits at the nominal position
    let (fx, fy, _, _, _) = text_fields(&cmds[17]);
    assert_eq!((fx, fy), (col_x + 10, 80 - 4));
    let (gx, gy, _, _, _) = text_fields(&cmds[18]);
    assert_eq!((gx, gy), (col_x + 370 - 38, 160));
}
