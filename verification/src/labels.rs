//! Label layout: text placement for date headers, hour labels and
//! per-event timestamps.
//!
//! All text is horizontally centered by the mono-spaced rule `advance
//! width times label length`.  Event timestamps are drawn with a halo:
//! the same text stamped in the background color at the eight
//! neighboring pixel offsets, then in the foreground color at the
//! nominal position, so it stays legible over grid lines without alpha
//! blending.

use vstd::prelude::*;

use crate::color::UnifiedColor;
use crate::geometry::{div_floor, GridGeometry, FONT_HEIGHT, FONT_WIDTH, SMALL_FONT_WIDTH};
use crate::project::ProjectedInterval;
use crate::render::{cmds_view, lemma_cmds_view_push, CmdV, DrawCommand, FontKind, TextAnchor};
use crate::textfmt::{date_label_of, format_date_label, format_hhmm, hhmm_chars};
use crate::time::{ChronoRange, TimeInterval};
use vstd::arithmetic::div_mod::lemma_fundamental_div_mod_converse_div;
use vstd::arithmetic::div_mod::lemma_fundamental_div_mod_converse_mod;

verus! {

/// The `Time` label above the time column.
pub open spec fn spec_time_header_cmd(geom: GridGeometry) -> CmdV {
    CmdV::Text {
        x: geom.origin.x + geom.time_column_width / 2 - (("Time")@.len() * FONT_WIDTH) / 2,
        y: geom.origin.y + FONT_HEIGHT / 3,
        content: ("Time")@,
        font: FontKind::Body,
        anchor: TextAnchor::Top,
        color: UnifiedColor::Black,
    }
}

/// The date header label of visible day `i`, centered in its column.
pub open spec fn spec_date_label_cmd(geom: GridGeometry, dates: ChronoRange, i: int) -> CmdV {
    let text = date_label_of(dates.start.day + i);
    CmdV::Text {
        x: geom.spec_content_left() + i * geom.date_column_width + geom.date_column_width / 2 - (
        text.len() * FONT_WIDTH) / 2,
        y: geom.origin.y + FONT_HEIGHT / 3,
        content: text,
        font: FontKind::Body,
        anchor: TextAnchor::Top,
        color: UnifiedColor::Black,
    }
}

/// All header-band labels: the `Time` label, then one date label per
/// visible day.
pub open spec fn spec_header_labels(geom: GridGeometry, dates: ChronoRange) -> Seq<CmdV> {
    seq![spec_time_header_cmd(geom)] + Seq::new(
        dates.count_with_step(1440) as nat,
        |i: int| spec_date_label_cmd(geom, dates, i),
    )
}

/// The hour label of row `i`: the wall-clock time `i` whole hours past
/// the window start, centered in the time column at the row's top edge.
pub open spec fn spec_hour_label_cmd(geom: GridGeometry, hours: ChronoRange, i: int) -> CmdV {
    let minute_of_day = (hours.start.total() + i * 60) % 1440;
    let text = hhmm_chars(minute_of_day / 60, minute_of_day % 60);
    CmdV::Text {
        x: geom.origin.x + geom.time_column_width / 2 - (text.len() * FONT_WIDTH) / 2,
        y: geom.spec_content_top() + i * geom.row_height + FONT_HEIGHT / 3,
        content: text,
        font: FontKind::Body,
        anchor: TextAnchor::Top,
        color: UnifiedColor::Black,
    }
}

/// All hour labels, one per whole hour of the visible span, bounds
/// included.
pub open spec fn spec_hour_labels(geom: GridGeometry, hours: ChronoRange) -> Seq<CmdV> {
    Seq::new(hours.count_with_step(60) as nat, |i: int| spec_hour_label_cmd(geom, hours, i))
}

/// A start-timestamp text anchored at the top and an end-timestamp text
/// anchored at the bottom, both offset by `(dx, dy)`.
pub open spec fn spec_text_pair(
    sx: int,
    sy: int,
    ex: int,
    ey: int,
    st: Seq<char>,
    et: Seq<char>,
    dx: int,
    dy: int,
    color: UnifiedColor,
) -> Seq<CmdV> {
    seq![
        CmdV::Text {
            x: sx + dx,
            y: sy + dy,
            content: st,
            font: FontKind::Small,
            anchor: TextAnchor::Top,
            color,
        },
        CmdV::Text {
            x: ex + dx,
            y: ey + dy,
            content: et,
            font: FontKind::Small,
            anchor: TextAnchor::Bottom,
            color,
        },
    ]
}

/// The halo of an event's timestamps: the pair stamped in the
/// background color at the eight neighboring pixel offsets, then in the
/// primary color at the nominal position.
pub open spec fn spec_halo(sx: int, sy: int, ex: int, ey: int, st: Seq<char>, et: Seq<char>) -> Seq<
    CmdV,
> {
    spec_text_pair(sx, sy, ex, ey, st, et, -1, -1, UnifiedColor::White) + spec_text_pair(
        sx,
        sy,
        ex,
        ey,
        st,
        et,
        -1,
        0,
        UnifiedColor::White,
    ) + spec_text_pair(sx, sy, ex, ey, st, et, -1, 1, UnifiedColor::White) + spec_text_pair(
        sx,
        sy,
        ex,
        ey,
        st,
        et,
        0,
        -1,
        UnifiedColor::White,
    ) + spec_text_pair(sx, sy, ex, ey, st, et, 0, 1, UnifiedColor::White) + spec_text_pair(
        sx,
        sy,
        ex,
        ey,
        st,
        et,
        1,
        -1,
        UnifiedColor::White,
    ) + spec_text_pair(sx, sy, ex, ey, st, et, 1, 0, UnifiedColor::White) + spec_text_pair(
        sx,
        sy,
        ex,
        ey,
        st,
        et,
        1,
        1,
        UnifiedColor::White,
    ) + spec_text_pair(sx, sy, ex, ey, st, et, 0, 0, UnifiedColor::Black)
}

/// The labels of one projected event: the body label if the visible
/// height allows a text line (omitted otherwise, a legibility policy),
/// then the haloed start/end timestamps.
pub open spec fn spec_event_labels(
    ev: TimeInterval,
    p: ProjectedInterval,
    geom: GridGeometry,
) -> Seq<CmdV> {
    let col_x = geom.spec_content_left() + p.column_index * geom.date_column_width;
    let st = hhmm_chars(ev.start.minute as int / 60, ev.start.minute as int % 60);
    let et = hhmm_chars(ev.end.minute as int / 60, ev.end.minute as int % 60);
    let sx = col_x + (et.len() * SMALL_FONT_WIDTH) / 3;
    let ex = col_x + geom.date_column_width - et.len() * SMALL_FONT_WIDTH - 8;
    let label_part: Seq<CmdV> = if p.bottom_y - p.top_y >= FONT_HEIGHT {
        seq![
            CmdV::Text {
                x: col_x + geom.date_column_width / 2 - (ev.label@.len() * FONT_WIDTH) / 2,
                y: p.top_y + (p.bottom_y - p.top_y) / 2,
                content: ev.label@,
                font: FontKind::Body,
                anchor: TextAnchor::Middle,
                color: UnifiedColor::Black,
            },
        ]
    } else {
        Seq::empty()
    };
    label_part + spec_halo(sx, p.top_y - 4, ex, p.bottom_y as int, st, et)
}

/// Places the `Time` label and the date header labels.
pub fn place_header_labels(geom: &GridGeometry, dates: &ChronoRange) -> (cmds: Vec<DrawCommand>)
    requires
        geom.wf(),
        dates.wf(),
        dates.start.minute == 0,
        dates.end.minute == 0,
        geom.day_count == dates.count_with_step(1440),
    ensures
        cmds_view(cmds@) == spec_header_labels(*geom, *dates),
{
    let mut cmds: Vec<DrawCommand> = Vec::new();

    let time_text = String::from_str("Time");
    proof {
        reveal_strlit("Time");
    }
    let time_len = time_text.as_str().unicode_len();
    let x0 = geom.origin.x + div_floor(geom.time_column_width, 2) - div_floor(
        (time_len as i32) * FONT_WIDTH,
        2,
    );
    let y0 = geom.origin.y + 6;
    cmds.push(
        DrawCommand::Text {
            x: x0,
            y: y0,
            content: time_text,
            font: FontKind::Body,
            anchor: TextAnchor::Top,
            color: UnifiedColor::Black,
        },
    );
    proof {
        lemma_cmds_view_push(Seq::empty(), cmds@[0]);
        assert(cmds_view(cmds@) =~= seq![spec_time_header_cmd(*geom)]);
    }

    let days = dates.iter_days();
    let content_left = geom.content_left();
    let mut i: usize = 0;
    while i < days.len()
        invariant
            geom.wf(),
            dates.wf(),
            dates.start.minute == 0,
            geom.day_count == dates.count_with_step(1440),
            days@.len() == dates.count_with_step(1440),
            forall|k: int|
                0 <= k < days@.len() ==> (#[trigger] days@[k]).total() == dates.start.total() + k
                    * 1440,
            forall|k: int| 0 <= k < days@.len() ==> (#[trigger] days@[k]).wf(),
            content_left == geom.spec_content_left(),
            i <= days@.len(),
            cmds_view(cmds@) == seq![spec_time_header_cmd(*geom)] + Seq::new(
                i as nat,
                |k: int| spec_date_label_cmd(*geom, *dates, k),
            ),
        decreases days@.len() - i,
    {
        let day_point = days[i];
        proof {
            // The range starts at a midnight, so stop `i` is exactly day
            // `start.day + i` at midnight.
            lemma_fundamental_div_mod_converse_div(
                day_point.total(),
                1440,
                dates.start.day + i,
                0,
            );
            lemma_fundamental_div_mod_converse_div(
                day_point.total(),
                1440,
                day_point.day as int,
                day_point.minute as int,
            );
            assert((i as int) * geom.date_column_width <= geom.day_count
                * geom.date_column_width) by (nonlinear_arith)
                requires
                    0 <= (i as int) < geom.day_count,
                    0 <= geom.date_column_width,
            ;
            assert(geom.day_count * geom.date_column_width == geom.date_column_width
                * geom.day_count) by (nonlinear_arith);
        }
        let text = format_date_label(day_point.day);
        let text_len = text.as_str().unicode_len();
        let x = content_left + (i as i32) * geom.date_column_width + div_floor(
            geom.date_column_width,
            2,
        ) - div_floor((text_len as i32) * FONT_WIDTH, 2);
        let y = geom.origin.y + 6;
        let ghost before = cmds@;
        cmds.push(
            DrawCommand::Text {
                x,
                y,
                content: text,
                font: FontKind::Body,
                anchor: TextAnchor::Top,
                color: UnifiedColor::Black,
            },
        );
        proof {
            lemma_cmds_view_push(before, cmds@[cmds@.len() - 1]);
            assert(cmds_view(cmds@) =~= seq![spec_time_header_cmd(*geom)] + Seq::new(
                (i + 1) as nat,
                |k: int| spec_date_label_cmd(*geom, *dates, k),
            ));
        }
        i = i + 1;
    }
    cmds
}

/// Places the hour labels along the time column.
pub fn place_hour_labels(geom: &GridGeometry, hours: &ChronoRange) -> (cmds: Vec<DrawCommand>)
    requires
        geom.wf(),
        hours.wf(),
        hours.count_with_step(60) <= 25,
    ensures
        cmds_view(cmds@) == spec_hour_labels(*geom, *hours),
{
    let mut cmds: Vec<DrawCommand> = Vec::new();
    let points = hours.iter_hours();
    let content_top = geom.content_top();
    let mut i: usize = 0;
    while i < points.len()
        invariant
            geom.wf(),
            hours.wf(),
            points@.len() == hours.count_with_step(60),
            points@.len() <= 25,
            forall|k: int|
                0 <= k < points@.len() ==> (#[trigger] points@[k]).total() == hours.start.total()
                    + k * 60,
            forall|k: int| 0 <= k < points@.len() ==> (#[trigger] points@[k]).wf(),
            content_top == geom.spec_content_top(),
            i <= points@.len(),
            cmds_view(cmds@) == Seq::new(i as nat, |k: int| spec_hour_label_cmd(*geom, *hours, k)),
        decreases points@.len() - i,
    {
        let point = points[i];
        proof {
            // The stop's minute of the day is the spec's `(start + i*60) %
            // 1440`.
            lemma_fundamental_div_mod_converse_mod(
                point.total(),
                1440,
                point.day as int,
                point.minute as int,
            );
        }
        let text = format_hhmm(point.minute / 60, point.minute % 60);
        let text_len = text.as_str().unicode_len();
        proof {
            assert(text@.len() == 5);
        }
        let x = geom.origin.x + div_floor(geom.time_column_width, 2) - div_floor(
            (text_len as i32) * FONT_WIDTH,
            2,
        );
        proof {
            assert(0 <= (i as int) * geom.row_height <= 24 * geom.row_height)
                by (nonlinear_arith)
                requires
                    0 <= (i as int) < 25,
                    0 <= geom.row_height,
            ;
        }
        let y = content_top + (i as i32) * geom.row_height + 6;
        let ghost before = cmds@;
        cmds.push(
            DrawCommand::Text {
                x,
                y,
                content: text,
                font: FontKind::Body,
                anchor: TextAnchor::Top,
                color: UnifiedColor::Black,
            },
        );
        proof {
            lemma_cmds_view_push(before, cmds@[cmds@.len() - 1]);
            assert(cmds_view(cmds@) =~= Seq::new(
                (i + 1) as nat,
                |k: int| spec_hour_label_cmd(*geom, *hours, k),
            ));
        }
        i = i + 1;
    }
    cmds
}

/// Pushes one haloed text pair at offset `(dx, dy)`.
fn push_text_pair(
    cmds: &mut Vec<DrawCommand>,
    sx: i32,
    sy: i32,
    ex: i32,
    ey: i32,
    st: &String,
    et: &String,
    dx: i32,
    dy: i32,
    color: UnifiedColor,
)
    requires
        -0x40_0000 <= sx <= 0x40_0000,
        -0x40_0000 <= sy <= 0x40_0000,
        -0x40_0000 <= ex <= 0x40_0000,
        -0x40_0000 <= ey <= 0x40_0000,
        -1 <= dx <= 1,
        -1 <= dy <= 1,
    ensures
        cmds_view(final (cmds)@) == cmds_view(old(cmds)@) + spec_text_pair(
            sx as int,
            sy as int,
            ex as int,
            ey as int,
            st@,
            et@,
            dx as int,
            dy as int,
            color,
        ),
{
    let ghost before0 = cmds@;
    cmds.push(
        DrawCommand::Text {
            x: sx + dx,
            y: sy + dy,
            content: st.clone(),
            font: FontKind::Small,
            anchor: TextAnchor::Top,
            color,
        },
    );
    let ghost before1 = cmds@;
    cmds.push(
        DrawCommand::Text {
            x: ex + dx,
            y: ey + dy,
            content: et.clone(),
            font: FontKind::Small,
            anchor: TextAnchor::Bottom,
            color,
        },
    );
    proof {
        lemma_cmds_view_push(before0, before1[before1.len() - 1]);
        lemma_cmds_view_push(before1, cmds@[cmds@.len() - 1]);
        assert(cmds_view(cmds@) =~= cmds_view(before0) + spec_text_pair(
            sx as int,
            sy as int,
            ex as int,
            ey as int,
            st@,
            et@,
            dx as int,
            dy as int,
            color,
        ));
    }
}

/// Places the labels of one projected event: the body label when the
/// visible height holds a text line, then the haloed start and end
/// timestamps anchored to the interval's top and bottom edges.
pub fn place_event_labels(
    ev: &TimeInterval,
    p: &ProjectedInterval,
    geom: &GridGeometry,
) -> (cmds: Vec<DrawCommand>)
    requires
        ev.wf(),
        geom.wf(),
        0 <= p.column_index < geom.day_count,
        geom.spec_content_top() <= p.top_y,
        p.top_y <= p.bottom_y,
        p.bottom_y <= geom.spec_content_bottom(),
    ensures
        cmds_view(cmds@) == spec_event_labels(*ev, *p, *geom),
{
    let mut cmds: Vec<DrawCommand> = Vec::new();
    proof {
        assert((p.column_index as int) * geom.date_column_width <= geom.day_count
            * geom.date_column_width) by (nonlinear_arith)
            requires
                0 <= (p.column_index as int) < geom.day_count,
                0 <= geom.date_column_width,
        ;
        assert(geom.day_count * geom.date_column_width == geom.date_column_width
            * geom.day_count) by (nonlinear_arith);
        assert(0 <= (p.column_index as int) * geom.date_column_width) by (nonlinear_arith)
            requires
                0 <= p.column_index,
                0 <= geom.date_column_width,
        ;
    }
    let col_x = geom.content_left() + p.column_index * geom.date_column_width;

    if p.bottom_y - p.top_y >= FONT_HEIGHT {
        let label_len = ev.label.as_str().unicode_len();
        let lx = col_x + div_floor(geom.date_column_width, 2) - div_floor(
            (label_len as i32) * FONT_WIDTH,
            2,
        );
        let ly = p.top_y + div_floor(p.bottom_y - p.top_y, 2);
        let ghost before = cmds@;
        cmds.push(
            DrawCommand::Text {
                x: lx,
                y: ly,
                content: ev.label.clone(),
                font: FontKind::Body,
                anchor: TextAnchor::Middle,
                color: UnifiedColor::Black,
            },
        );
        proof {
            lemma_cmds_view_push(before, cmds@[cmds@.len() - 1]);
        }
    }
    let ghost label_part = cmds_view(cmds@);

    let st = format_hhmm(ev.start.minute / 60, ev.start.minute % 60);
    let et = format_hhmm(ev.end.minute / 60, ev.end.minute % 60);
    let et_len = et.as_str().unicode_len();
    proof {
        assert(et@.len() == 5);
    }
    let sx = col_x + div_floor((et_len as i32) * SMALL_FONT_WIDTH, 3);
    let ex = col_x + geom.date_column_width - (et_len as i32) * SMALL_FONT_WIDTH - 8;
    let sy = p.top_y - 4;
    let ey = p.bottom_y;

    push_text_pair(&mut cmds, sx, sy, ex, ey, &st, &et, -1, -1, UnifiedColor::White);
    push_text_pair(&mut cmds, sx, sy, ex, ey, &st, &et, -1, 0, UnifiedColor::White);
    push_text_pair(&mut cmds, sx, sy, ex, ey, &st, &et, -1, 1, UnifiedColor::White);
    push_text_pair(&mut cmds, sx, sy, ex, ey, &st, &et, 0, -1, UnifiedColor::White);
    push_text_pair(&mut cmds, sx, sy, ex, ey, &st, &et, 0, 1, UnifiedColor::White);
    push_text_pair(&mut cmds, sx, sy, ex, ey, &st, &et, 1, -1, UnifiedColor::White);
    push_text_pair(&mut cmds, sx, sy, ex, ey, &st, &et, 1, 0, UnifiedColor::White);
    push_text_pair(&mut cmds, sx, sy, ex, ey, &st, &et, 1, 1, UnifiedColor::White);
    push_text_pair(&mut cmds, sx, sy, ex, ey, &st, &et, 0, 0, UnifiedColor::Black);
    proof {
        assert(cmds_view(cmds@) =~= spec_event_labels(*ev, *p, *geom));
    }
    cmds
}

} // verus!
