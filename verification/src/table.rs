//! The schedule table: construction and the render pass.
//!
//! [`ScheduleTable::new`] computes the visible window once;
//! [`ScheduleTable::draw`] replays the whole grid as a command sequence
//! in a fixed order — clear, border, header rule, grid lines, header
//! and hour labels, event intervals in input order, and the now-line
//! last, drawn over everything so it stays visible.  Overlapping events
//! are drawn in input order and later ones occlude earlier ones; the
//! engine does not detect or resolve overlap.

use vstd::arithmetic::div_mod::{lemma_div_is_ordered, lemma_fundamental_div_mod_converse_div};
use vstd::pervasive::unreached;
use vstd::prelude::*;

use crate::color::UnifiedColor;
use crate::geometry::{GridGeometry, Point, Rect, Size};
use crate::labels::{
    place_event_labels, place_header_labels, place_hour_labels, spec_event_labels,
    spec_header_labels, spec_hour_labels,
};
use crate::project::{
    lemma_projection_bounds, project, scale_minutes, spec_project,
};
use crate::render::{
    cmds_view, lemma_cmds_view_add, lemma_cmds_view_push, CmdV, DrawCommand,
};
use crate::time::{
    compute_date_window, compute_hour_window, is_date_window, lemma_date_window_excludes_past,
    lemma_day_count, lemma_hour_window_in_day, lemma_hour_window_span, some_event_kept,
    spec_hour_window_end, spec_hour_window_start, ChronoRange, DateTime, TimeInterval, MAX_DAY,
};
use crate::ScheduleError;

verus! {

/// A schedule grid, ready to render.
pub struct ScheduleTable {
    /// Top-left corner of the component on the surface.
    pub top_left: Point,
    /// Pixel extent of the component.
    pub size: Size,
    /// The clock reading the window was computed from.
    pub current_time: DateTime,
    /// The visible date span, one column per day, both days included.
    pub date_range: ChronoRange,
    /// The events, in input order; past events stay in the list and are
    /// skipped by projection.
    pub time_intervals: Vec<TimeInterval>,
    /// Number of hour rows.
    pub hours_to_show: i32,
    /// The visible hour span, whole-hour aligned.
    pub hours_range: ChronoRange,
    /// Whether no current-or-future event remained, collapsing the date
    /// span to the single day of `current_time`.
    pub no_visible_events: bool,
}

impl ScheduleTable {
    /// Number of visible day columns.
    pub open spec fn spec_day_count(self) -> int {
        self.date_range.end.day - self.date_range.start.day + 1
    }

    /// The invariant [`ScheduleTable::new`] establishes.
    pub open spec fn wf(self) -> bool {
        &&& self.top_left.wf()
        &&& self.size.wf()
        &&& self.size.width >= 60
        &&& self.size.height >= 40
        &&& self.current_time.wf()
        &&& self.current_time.day < MAX_DAY
        &&& 1 <= self.hours_to_show <= 24
        &&& forall|i: int|
            0 <= i < self.time_intervals@.len() ==> (#[trigger] self.time_intervals@[i]).wf()
        &&& self.date_range.wf()
        &&& self.date_range.start.minute == 0
        &&& self.date_range.end.minute == 0
        &&& self.date_range.start.day <= self.date_range.end.day
        &&& self.hours_range.wf()
        &&& self.hours_range.start.total() == spec_hour_window_start(
            self.current_time,
            self.hours_to_show as int,
        )
        &&& self.hours_range.end.total() == spec_hour_window_end(
            self.current_time,
            self.hours_to_show as int,
        )
        &&& self.hours_range.start.day == self.current_time.day
        &&& (self.no_visible_events <==> !some_event_kept(
            self.time_intervals@,
            self.current_time,
        ))
        &&& (!self.no_visible_events ==> is_date_window(
            self.time_intervals@,
            self.current_time,
            self.date_range.start.day as int,
            self.date_range.end.day as int,
        ))
        &&& (self.no_visible_events ==> self.date_range.start.day == self.current_time.day
            && self.date_range.end.day == self.current_time.day)
    }

    /// The grid geometry of this table.
    pub open spec fn spec_geometry(self) -> GridGeometry {
        GridGeometry::spec_build(
            Rect { origin: self.top_left, size: self.size },
            self.spec_day_count(),
            self.hours_to_show as int,
        )
    }

    /// Constructs the engine: filters the event list down to the visible
    /// date span (collapsing to the single day of `current_time` when no
    /// current-or-future event remains) and computes the visible hour
    /// span centered on `current_time`.  A non-positive `hours_to_show`
    /// would yield a grid with zero hour rows and is rejected as
    /// [`ScheduleError::DegenerateWindow`].
    pub fn new(
        top_left: Point,
        size: Size,
        current_time: DateTime,
        time_intervals: Vec<TimeInterval>,
        hours_to_show: i32,
    ) -> (r: Result<ScheduleTable, ScheduleError>)
        requires
            top_left.wf(),
            size.wf(),
            size.width >= 60,
            size.height >= 40,
            current_time.wf(),
            current_time.day < MAX_DAY,
            hours_to_show <= 24,
            forall|i: int|
                0 <= i < time_intervals@.len() ==> (#[trigger] time_intervals@[i]).wf(),
        ensures
            r is Err <==> hours_to_show < 1,
            r is Err ==> r == Err::<ScheduleTable, ScheduleError>(ScheduleError::DegenerateWindow),
            r is Ok ==> {
                let t = r->Ok_0;
                &&& t.wf()
                &&& t.top_left == top_left
                &&& t.size == size
                &&& t.current_time == current_time
                &&& t.time_intervals@ == time_intervals@
                &&& t.hours_to_show == hours_to_show
                &&& (t.no_visible_events <==> !some_event_kept(time_intervals@, current_time))
            },
    {
        if hours_to_show < 1 {
            return Err(ScheduleError::DegenerateWindow);
        }
        let window = compute_hour_window(current_time, hours_to_show);
        let date_window = compute_date_window(&time_intervals, current_time);
        let no_visible_events = date_window.is_err();
        let (first_day, last_day) = match date_window {
            Ok(days) => days,
            Err(_) => (current_time.day, current_time.day),
        };
        proof {
            if !no_visible_events {
                lemma_date_window_excludes_past(
                    time_intervals@,
                    current_time,
                    first_day as int,
                    last_day as int,
                );
                let w = choose|i: int|
                    0 <= i < time_intervals@.len() && crate::time::event_kept(
                        time_intervals@[i],
                        current_time,
                    ) && time_intervals@[i].start.day == first_day;
                let v = choose|i: int|
                    0 <= i < time_intervals@.len() && crate::time::event_kept(
                        time_intervals@[i],
                        current_time,
                    ) && time_intervals@[i].end.day == last_day;
                assert(time_intervals@[w].wf());
                assert(time_intervals@[v].wf());
            }
        }
        let date_range = ChronoRange::new(
            DateTime::new(first_day, 0),
            DateTime::new(last_day, 0),
        );
        let hours_range = ChronoRange::new(window.0, window.1);
        Ok(
            ScheduleTable {
                top_left,
                size,
                current_time,
                date_range,
                time_intervals,
                hours_to_show,
                hours_range,
                no_visible_events,
            },
        )
    }
}

/// The clear of the whole bounding box to the background color, the
/// first command of every pass: stale pixels from a previous frame
/// never bleed through.
pub open spec fn spec_clear_cmd(g: GridGeometry) -> CmdV {
    CmdV::FillRect {
        x: g.origin.x as int,
        y: g.origin.y as int,
        width: g.width as int,
        height: g.height as int,
        color: UnifiedColor::White,
    }
}

/// The thin outer border.
pub open spec fn spec_border_cmd(g: GridGeometry) -> CmdV {
    CmdV::OutlineRect {
        x: g.origin.x as int,
        y: g.origin.y as int,
        width: g.width as int,
        height: g.height as int,
        stroke_width: 1,
        color: UnifiedColor::Black,
    }
}

/// The bold rule under the header band.
pub open spec fn spec_header_rule_cmd(g: GridGeometry) -> CmdV {
    CmdV::Line {
        x0: g.origin.x as int,
        y0: g.spec_content_top(),
        x1: g.spec_right_edge(),
        y1: g.spec_content_top(),
        stroke_width: 2,
        color: UnifiedColor::Black,
    }
}

/// The thin horizontal rule above hour row `i`.
pub open spec fn spec_hour_line_cmd(g: GridGeometry, i: int) -> CmdV {
    CmdV::Line {
        x0: g.origin.x as int,
        y0: g.spec_content_top() + i * g.row_height,
        x1: g.spec_right_edge(),
        y1: g.spec_content_top() + i * g.row_height,
        stroke_width: 1,
        color: UnifiedColor::Black,
    }
}

/// The interior hour rules, skipping the edges shared with the border.
pub open spec fn spec_hour_lines(g: GridGeometry) -> Seq<CmdV> {
    Seq::new((g.hour_count - 1) as nat, |i: int| spec_hour_line_cmd(g, i + 1))
}

/// The thin vertical rule right of the time column.
pub open spec fn spec_time_column_rule_cmd(g: GridGeometry) -> CmdV {
    CmdV::Line {
        x0: g.spec_content_left(),
        y0: g.origin.y as int,
        x1: g.spec_content_left(),
        y1: g.spec_content_bottom(),
        stroke_width: 1,
        color: UnifiedColor::Black,
    }
}

/// The thin vertical rule left of day column `i`.
pub open spec fn spec_day_line_cmd(g: GridGeometry, i: int) -> CmdV {
    CmdV::Line {
        x0: g.spec_content_left() + i * g.date_column_width,
        y0: g.origin.y as int,
        x1: g.spec_content_left() + i * g.date_column_width,
        y1: g.spec_content_bottom(),
        stroke_width: 1,
        color: UnifiedColor::Black,
    }
}

/// The interior day rules, skipping the edges shared with the border.
pub open spec fn spec_day_lines(g: GridGeometry) -> Seq<CmdV> {
    Seq::new((g.day_count - 1) as nat, |i: int| spec_day_line_cmd(g, i + 1))
}

/// The commands of one event: nothing when the projection is invisible;
/// otherwise the rounded-rectangle fill (four-pixel corner radius and
/// four-pixel inset from the cell edges, skipped when the visible sliver
/// is thinner than the insets) followed by the event's labels.
pub open spec fn spec_interval_cmds(
    ev: TimeInterval,
    dates: ChronoRange,
    hours: ChronoRange,
    g: GridGeometry,
) -> Seq<CmdV> {
    let p = spec_project(ev, dates, hours, g);
    if !p.visible {
        Seq::empty()
    } else {
        let col_x = g.spec_content_left() + p.column_index * g.date_column_width;
        let rect_part: Seq<CmdV> = if p.bottom_y - p.top_y >= 8 && g.date_column_width >= 8 {
            seq![
                CmdV::RoundedRect {
                    x: col_x + 4,
                    y: p.top_y + 4,
                    width: g.date_column_width - 8,
                    height: (p.bottom_y - p.top_y) - 8,
                    corner_radius: 4,
                    stroke_width: 2,
                    stroke_color: UnifiedColor::Black,
                    fill_color: UnifiedColor::White,
                },
            ]
        } else {
            Seq::empty()
        };
        rect_part + spec_event_labels(ev, p, g)
    }
}

/// The commands of all events, in input order.
pub open spec fn spec_intervals(
    events: Seq<TimeInterval>,
    dates: ChronoRange,
    hours: ChronoRange,
    g: GridGeometry,
) -> Seq<CmdV>
    decreases events.len(),
{
    if events.len() == 0 {
        Seq::empty()
    } else {
        spec_intervals(events.drop_last(), dates, hours, g) + spec_interval_cmds(
            events.last(),
            dates,
            hours,
            g,
        )
    }
}

/// The thick highlighted now-line at the row of the current time,
/// spanning the time column and the first day column only.
pub open spec fn spec_now_line_cmd(now: DateTime, hours: ChronoRange, g: GridGeometry) -> CmdV {
    let y = g.spec_content_top() + (now.spec_hour() - hours.start.spec_hour()) * g.row_height + ((
    now.minute as int % 60) * g.row_height) / 60;
    CmdV::Line {
        x0: g.origin.x as int,
        y0: y,
        x1: g.spec_content_left() + g.date_column_width,
        y1: y,
        stroke_width: 4,
        color: UnifiedColor::Chromatic,
    }
}

/// The whole render pass of a table, in draw order.
pub open spec fn spec_draw(t: ScheduleTable) -> Seq<CmdV> {
    let g = t.spec_geometry();
    seq![spec_clear_cmd(g), spec_border_cmd(g), spec_header_rule_cmd(g)] + spec_hour_lines(g)
        + seq![spec_time_column_rule_cmd(g)] + spec_day_lines(g) + spec_header_labels(
        g,
        t.date_range,
    ) + spec_hour_labels(g, t.hours_range) + spec_intervals(
        t.time_intervals@,
        t.date_range,
        t.hours_range,
        g,
    ) + seq![spec_now_line_cmd(t.current_time, t.hours_range, g)]
}

/// Rendering is deterministic: two passes over identical inputs emit
/// identical command sequences, so replaying them against two freshly
/// cleared surfaces produces pixel-identical output.
pub proof fn lemma_draw_deterministic(t: ScheduleTable, out1: Seq<CmdV>, out2: Seq<CmdV>)
    requires
        out1 == spec_draw(t),
        out2 == spec_draw(t),
    ensures
        out1 == out2,
{
}

/// Emits the clear, the outer border and the header rule.
fn push_frame(cmds: &mut Vec<DrawCommand>, g: &GridGeometry)
    requires
        g.wf(),
    ensures
        cmds_view(final (cmds)@) == cmds_view(old(cmds)@) + seq![
            spec_clear_cmd(*g),
            spec_border_cmd(*g),
            spec_header_rule_cmd(*g),
        ],
{
    let ghost b0 = cmds@;
    cmds.push(
        DrawCommand::FillRect {
            x: g.origin.x,
            y: g.origin.y,
            width: g.width,
            height: g.height,
            color: UnifiedColor::White,
        },
    );
    let ghost b1 = cmds@;
    cmds.push(
        DrawCommand::OutlineRect {
            x: g.origin.x,
            y: g.origin.y,
            width: g.width,
            height: g.height,
            stroke_width: 1,
            color: UnifiedColor::Black,
        },
    );
    let ghost b2 = cmds@;
    let y = g.content_top();
    let right = g.right_edge();
    cmds.push(
        DrawCommand::Line {
            x0: g.origin.x,
            y0: y,
            x1: right,
            y1: y,
            stroke_width: 2,
            color: UnifiedColor::Black,
        },
    );
    proof {
        lemma_cmds_view_push(b0, b1[b1.len() - 1]);
        lemma_cmds_view_push(b1, b2[b2.len() - 1]);
        lemma_cmds_view_push(b2, cmds@[cmds@.len() - 1]);
        assert(cmds_view(cmds@) =~= cmds_view(b0) + seq![
            spec_clear_cmd(*g),
            spec_border_cmd(*g),
            spec_header_rule_cmd(*g),
        ]);
    }
}

/// Emits the interior hour rules.
fn push_hour_lines(cmds: &mut Vec<DrawCommand>, g: &GridGeometry)
    requires
        g.wf(),
        g.hour_count <= 24,
    ensures
        cmds_view(final (cmds)@) == cmds_view(old(cmds)@) + spec_hour_lines(*g),
{
    let content_top = g.content_top();
    let right = g.right_edge();
    let mut i: i32 = 1;
    while i < g.hour_count
        invariant
            g.wf(),
            g.hour_count <= 24,
            1 <= i <= g.hour_count,
            content_top == g.spec_content_top(),
            right == g.spec_right_edge(),
            cmds_view(cmds@) == cmds_view(old(cmds)@) + Seq::new(
                (i - 1) as nat,
                |k: int| spec_hour_line_cmd(*g, k + 1),
            ),
        decreases g.hour_count - i,
    {
        proof {
            assert(0 <= i * g.row_height <= 24 * g.row_height) by (nonlinear_arith)
                requires
                    0 <= i <= 24,
                    0 <= g.row_height,
            ;
        }
        let y = content_top + i * g.row_height;
        let ghost before = cmds@;
        cmds.push(
            DrawCommand::Line {
                x0: g.origin.x,
                y0: y,
                x1: right,
                y1: y,
                stroke_width: 1,
                color: UnifiedColor::Black,
            },
        );
        proof {
            lemma_cmds_view_push(before, cmds@[cmds@.len() - 1]);
            assert(cmds_view(cmds@) =~= cmds_view(old(cmds)@) + Seq::new(
                i as nat,
                |k: int| spec_hour_line_cmd(*g, k + 1),
            ));
        }
        i = i + 1;
    }
    proof {
        assert(cmds_view(cmds@) =~= cmds_view(old(cmds)@) + spec_hour_lines(*g));
    }
}

/// Emits the vertical rule right of the time column.
fn push_time_rule(cmds: &mut Vec<DrawCommand>, g: &GridGeometry)
    requires
        g.wf(),
    ensures
        cmds_view(final (cmds)@) == cmds_view(old(cmds)@) + seq![spec_time_column_rule_cmd(*g)],
{
    let x = g.content_left();
    let bottom = g.content_bottom();
    let ghost before = cmds@;
    cmds.push(
        DrawCommand::Line {
            x0: x,
            y0: g.origin.y,
            x1: x,
            y1: bottom,
            stroke_width: 1,
            color: UnifiedColor::Black,
        },
    );
    proof {
        lemma_cmds_view_push(before, cmds@[cmds@.len() - 1]);
        assert(cmds_view(cmds@) =~= cmds_view(before) + seq![spec_time_column_rule_cmd(*g)]);
    }
}

/// Emits the interior day rules.
fn push_day_lines(cmds: &mut Vec<DrawCommand>, g: &GridGeometry)
    requires
        g.wf(),
    ensures
        cmds_view(final (cmds)@) == cmds_view(old(cmds)@) + spec_day_lines(*g),
{
    let content_left = g.content_left();
    let bottom = g.content_bottom();
    let mut i: i32 = 1;
    while i < g.day_count
        invariant
            g.wf(),
            1 <= i <= g.day_count,
            content_left == g.spec_content_left(),
            bottom == g.spec_content_bottom(),
            cmds_view(cmds@) == cmds_view(old(cmds)@) + Seq::new(
                (i - 1) as nat,
                |k: int| spec_day_line_cmd(*g, k + 1),
            ),
        decreases g.day_count - i,
    {
        proof {
            assert(0 <= i * g.date_column_width <= g.day_count * g.date_column_width)
                by (nonlinear_arith)
                requires
                    0 <= i <= g.day_count,
                    0 <= g.date_column_width,
            ;
            assert(g.day_count * g.date_column_width == g.date_column_width * g.day_count)
                by (nonlinear_arith);
        }
        let x = content_left + i * g.date_column_width;
        let ghost before = cmds@;
        cmds.push(
            DrawCommand::Line {
                x0: x,
                y0: g.origin.y,
                x1: x,
                y1: bottom,
                stroke_width: 1,
                color: UnifiedColor::Black,
            },
        );
        proof {
            lemma_cmds_view_push(before, cmds@[cmds@.len() - 1]);
            assert(cmds_view(cmds@) =~= cmds_view(old(cmds)@) + Seq::new(
                i as nat,
                |k: int| spec_day_line_cmd(*g, k + 1),
            ));
        }
        i = i + 1;
    }
    proof {
        assert(cmds_view(cmds@) =~= cmds_view(old(cmds)@) + spec_day_lines(*g));
    }
}

/// Emits the commands of all events, in input order.
fn push_intervals(
    cmds: &mut Vec<DrawCommand>,
    events: &Vec<TimeInterval>,
    dates: &ChronoRange,
    hours: &ChronoRange,
    g: &GridGeometry,
)
    requires
        g.wf(),
        dates.wf(),
        hours.wf(),
        forall|i: int| 0 <= i < events@.len() ==> (#[trigger] events@[i]).wf(),
        g.day_count == dates.end.day - dates.start.day + 1,
    ensures
        cmds_view(final (cmds)@) == cmds_view(old(cmds)@) + spec_intervals(
            events@,
            *dates,
            *hours,
            *g,
        ),
{
    let mut j: usize = 0;
    while j < events.len()
        invariant
            g.wf(),
            dates.wf(),
            hours.wf(),
            forall|i: int| 0 <= i < events@.len() ==> (#[trigger] events@[i]).wf(),
            g.day_count == dates.end.day - dates.start.day + 1,
            j <= events@.len(),
            cmds_view(cmds@) == cmds_view(old(cmds)@) + spec_intervals(
                events@.take(j as int),
                *dates,
                *hours,
                *g,
            ),
        decreases events@.len() - j,
    {
        let ev = &events[j];
        let ghost round_start = cmds_view(cmds@);
        let p = project(ev, dates, hours, g);
        if p.visible {
            proof {
                lemma_projection_bounds(
                    *g,
                    ev.start.minute as int - hours.start.minute as int,
                );
                lemma_projection_bounds(*g, ev.end.minute as int - hours.start.minute as int);
                assert(0 <= (p.column_index as int) * g.date_column_width <= g.day_count
                    * g.date_column_width) by (nonlinear_arith)
                    requires
                        0 <= p.column_index as int <= g.day_count,
                        0 <= g.date_column_width,
                ;
                assert(g.day_count * g.date_column_width == g.date_column_width * g.day_count)
                    by (nonlinear_arith);
            }
            let col_x = g.content_left() + p.column_index * g.date_column_width;
            if p.bottom_y - p.top_y >= 8 && g.date_column_width >= 8 {
                let ghost before = cmds@;
                cmds.push(
                    DrawCommand::RoundedRect {
                        x: col_x + 4,
                        y: p.top_y + 4,
                        width: g.date_column_width - 8,
                        height: (p.bottom_y - p.top_y) - 8,
                        corner_radius: 4,
                        stroke_width: 2,
                        stroke_color: UnifiedColor::Black,
                        fill_color: UnifiedColor::White,
                    },
                );
                proof {
                    lemma_cmds_view_push(before, cmds@[cmds@.len() - 1]);
                }
            }
            let ghost after_rect = cmds@;
            let mut label_cmds = place_event_labels(ev, &p, g);
            let ghost labels_snapshot = label_cmds@;
            cmds.append(&mut label_cmds);
            proof {
                lemma_cmds_view_add(after_rect, labels_snapshot);
                assert(cmds_view(cmds@) =~= round_start + spec_interval_cmds(
                    events@[j as int],
                    *dates,
                    *hours,
                    *g,
                ));
            }
        } else {
            proof {
                assert(spec_interval_cmds(events@[j as int], *dates, *hours, *g)
                    =~= Seq::<CmdV>::empty());
                assert(cmds_view(cmds@) =~= round_start + spec_interval_cmds(
                    events@[j as int],
                    *dates,
                    *hours,
                    *g,
                ));
            }
        }
        proof {
            assert(events@.take(j as int + 1).drop_last() =~= events@.take(j as int));
            assert(events@.take(j as int + 1).last() == events@[j as int]);
            assert(cmds_view(cmds@) =~= cmds_view(old(cmds)@) + spec_intervals(
                events@.take(j as int + 1),
                *dates,
                *hours,
                *g,
            ));
        }
        j = j + 1;
    }
    proof {
        assert(events@.take(events@.len() as int) =~= events@);
    }
}

/// Emits the now-line.
fn push_now_line(cmds: &mut Vec<DrawCommand>, now: DateTime, hours: &ChronoRange, g: &GridGeometry)
    requires
        g.wf(),
        now.wf(),
        hours.start.minute <= now.minute,
    ensures
        cmds_view(final (cmds)@) == cmds_view(old(cmds)@) + seq![spec_now_line_cmd(
            now,
            *hours,
            *g,
        )],
{
    proof {
        lemma_div_is_ordered(hours.start.minute as int, now.minute as int, 60);
        lemma_div_is_ordered(now.minute as int, 1439, 60);
    }
    let hour_diff = now.minute / 60 - hours.start.minute / 60;
    proof {
        assert(0 <= (hour_diff as int) * g.row_height <= 24 * g.row_height) by (nonlinear_arith)
            requires
                0 <= hour_diff as int <= 24,
                0 <= g.row_height,
        ;
    }
    let y = g.content_top() + (hour_diff as i32) * g.row_height + scale_minutes(
        now.minute % 60,
        g.row_height,
    );
    let x1 = g.content_left() + g.date_column_width;
    let ghost before = cmds@;
    cmds.push(
        DrawCommand::Line {
            x0: g.origin.x,
            y0: y,
            x1,
            y1: y,
            stroke_width: 4,
            color: UnifiedColor::Chromatic,
        },
    );
    proof {
        lemma_cmds_view_push(before, cmds@[cmds@.len() - 1]);
        assert(cmds_view(cmds@) =~= cmds_view(before) + seq![spec_now_line_cmd(now, *hours, *g)]);
    }
}

impl ScheduleTable {
    /// Renders the whole grid as an ordered command sequence: clear,
    /// border, header rule, grid lines, header and hour labels, event
    /// intervals in input order, and the now-line last, drawn over
    /// everything.
    pub fn draw(&self) -> (cmds: Vec<DrawCommand>)
        requires
            self.wf(),
        ensures
            cmds_view(cmds@) == spec_draw(*self),
    {
        let day_count = self.date_range.end.day - self.date_range.start.day + 1;
        let bounds = Rect { origin: self.top_left, size: self.size };
        let geometry = match GridGeometry::build(bounds, day_count, self.hours_to_show) {
            Ok(g) => g,
            // the invariant guarantees at least one visible day and hour
            Err(_) => unreached(),
        };
        proof {
            lemma_day_count(self.date_range);
            lemma_hour_window_span(self.current_time, self.hours_to_show as int);
            lemma_hour_window_in_day(self.current_time, self.hours_to_show as int);
            let span = self.hours_range.end.total() - self.hours_range.start.total();
            lemma_fundamental_div_mod_converse_div(span, 60, self.hours_to_show as int, 0);
            // The window start lies between the midnight of `current_time`
            // and `current_time` itself, so its minute of the day is no
            // later than the clock's.
            assert(self.hours_range.start.minute <= self.current_time.minute);
        }
        let mut cmds: Vec<DrawCommand> = Vec::new();
        push_frame(&mut cmds, &geometry);
        push_hour_lines(&mut cmds, &geometry);
        push_time_rule(&mut cmds, &geometry);
        push_day_lines(&mut cmds, &geometry);
        let mut header_cmds = place_header_labels(&geometry, &self.date_range);
        let ghost header_snapshot = header_cmds@;
        let ghost before_headers = cmds@;
        cmds.append(&mut header_cmds);
        proof {
            lemma_cmds_view_add(before_headers, header_snapshot);
        }
        let mut hour_label_cmds = place_hour_labels(&geometry, &self.hours_range);
        let ghost hour_snapshot = hour_label_cmds@;
        let ghost before_hours = cmds@;
        cmds.append(&mut hour_label_cmds);
        proof {
            lemma_cmds_view_add(before_hours, hour_snapshot);
        }
        push_intervals(
            &mut cmds,
            &self.time_intervals,
            &self.date_range,
            &self.hours_range,
            &geometry,
        );
        push_now_line(&mut cmds, self.current_time, &self.hours_range, &geometry);
        proof {
            assert(cmds_view(cmds@) =~= spec_draw(*self));
        }
        cmds
    }
}

} // verus!
