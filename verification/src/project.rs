//! The interval projector: maps an event's time bounds onto a day column
//! and a vertical pixel range, clipped to the visible window.
//!
//! Clipping is load-bearing: an event that started before the visible
//! hour span or ends after it still renders its visible remainder,
//! truncated cleanly at the content edges and never drawn outside them.

use vstd::arithmetic::div_mod::{lemma_div_is_ordered, lemma_fundamental_div_mod,
    lemma_fundamental_div_mod_converse_div};
use vstd::prelude::*;

use crate::geometry::GridGeometry;
use crate::time::{ChronoRange, TimeInterval};

verus! {

/// An event's time range converted to pixel coordinates, post-clipping.
#[derive(Clone, Copy, Debug, PartialEq, Eq, Structural)]
pub struct ProjectedInterval {
    /// Position of the event's start day within the visible date list;
    /// 0 when the day is not visible (and `visible` is false).
    pub column_index: i32,
    /// Top pixel row, clamped to the content top edge.
    pub top_y: i32,
    /// Bottom pixel row, clamped to the content bottom edge.
    pub bottom_y: i32,
    /// Whether anything of the event remains to draw.
    pub visible: bool,
}

/// The event's start-of-day offset from the window start, in minutes;
/// negative when the event starts before the visible hour span.  Only
/// the time of day enters the vertical projection; the day picks the
/// column.
pub open spec fn rel_minutes(minute_of_day: int, window_start_minute: int) -> int {
    minute_of_day - window_start_minute
}

/// Scales a minute offset into a pixel row below the content top,
/// clamped from below to the content top edge.
pub open spec fn spec_top_y(geom: GridGeometry, rel: int) -> int {
    if rel <= 0 {
        geom.spec_content_top()
    } else {
        geom.spec_content_top() + (rel * geom.row_height) / 60
    }
}

/// Scales a minute offset into a pixel row below the content top,
/// clamped from above to the content bottom edge; an offset at or before
/// the window start pins the row to the content top (nothing below it is
/// visible).
pub open spec fn spec_bottom_y(geom: GridGeometry, rel: int) -> int {
    if rel <= 0 {
        geom.spec_content_top()
    } else {
        let y = geom.spec_content_top() + (rel * geom.row_height) / 60;
        if y >= geom.spec_content_bottom() {
            geom.spec_content_bottom()
        } else {
            y
        }
    }
}

/// True when the event's start day lies within the visible date span.
pub open spec fn spec_day_visible(ev: TimeInterval, dates: ChronoRange) -> bool {
    dates.start.day <= ev.start.day <= dates.end.day
}

/// The projection [`project`] computes.
pub open spec fn spec_project(
    ev: TimeInterval,
    dates: ChronoRange,
    hours: ChronoRange,
    geom: GridGeometry,
) -> ProjectedInterval {
    let top = spec_top_y(geom, rel_minutes(ev.start.minute as int, hours.start.minute as int));
    let bottom = spec_bottom_y(geom, rel_minutes(ev.end.minute as int, hours.start.minute as int));
    ProjectedInterval {
        column_index: if spec_day_visible(ev, dates) {
            (ev.start.day - dates.start.day) as i32
        } else {
            0
        },
        top_y: top as i32,
        bottom_y: bottom as i32,
        visible: spec_day_visible(ev, dates) && top < bottom,
    }
}

/// Scales a non-negative minute offset into pixels: `rel * row_height / 60`,
/// minutes filling their row proportionally.
pub(crate) fn scale_minutes(rel: u32, row_height: i32) -> (px: i32)
    requires
        rel < 1440,
        0 <= row_height <= crate::geometry::COORD_LIMIT,
    ensures
        px == (rel * row_height) / 60,
        0 <= px <= 24 * row_height,
{
    proof {
        assert(0 <= rel * row_height <= 1440 * row_height) by (nonlinear_arith)
            requires
                0 <= rel < 1440,
                0 <= row_height,
        ;
    }
    let px = (rel * (row_height as u32)) / 60;
    proof {
        lemma_div_is_ordered(0, rel * row_height, 60);
        lemma_div_is_ordered(rel * row_height, 1440 * row_height, 60);
        lemma_fundamental_div_mod(1440 * row_height, 60);
        assert((1440 * row_height) / 60 == 24 * row_height) by (nonlinear_arith)
            requires
                1440 * row_height == 60 * ((1440 * row_height) / 60) + (1440 * row_height) % 60,
                0 <= (1440 * row_height) % 60 < 60,
        ;
    }
    px as i32
}

/// Projects one event onto the grid.  The column is the position of the
/// event's start day within the visible date list; an event on an
/// invisible day is skipped (not an error).  The vertical extent scales
/// the event's time-of-day offsets from the window start linearly by the
/// row height, then clamps to the content edges; when nothing remains
/// between the clamped edges the event is invisible.
pub fn project(
    ev: &TimeInterval,
    dates: &ChronoRange,
    hours: &ChronoRange,
    geom: &GridGeometry,
) -> (p: ProjectedInterval)
    requires
        ev.wf(),
        dates.wf(),
        hours.wf(),
        geom.wf(),
    ensures
        p == spec_project(*ev, *dates, *hours, *geom),
{
    let content_top = geom.content_top();
    let content_bottom = geom.content_bottom();
    let window_minute = hours.start.minute;

    let top_y = if ev.start.minute <= window_minute {
        content_top
    } else {
        content_top + scale_minutes(ev.start.minute - window_minute, geom.row_height)
    };
    let bottom_y = if ev.end.minute <= window_minute {
        content_top
    } else {
        let y = content_top + scale_minutes(ev.end.minute - window_minute, geom.row_height);
        if y >= content_bottom {
            content_bottom
        } else {
            y
        }
    };

    if dates.start.day <= ev.start.day && ev.start.day <= dates.end.day {
        ProjectedInterval {
            column_index: ev.start.day - dates.start.day,
            top_y,
            bottom_y,
            visible: top_y < bottom_y,
        }
    } else {
        ProjectedInterval { column_index: 0, top_y, bottom_y, visible: false }
    }
}

/// The clamped projection of any minute offset of a day stays between
/// the content top edge and, for the bottom edge, the content bottom;
/// the top edge never drops more than the full span of rows below the
/// content top.
pub proof fn lemma_projection_bounds(geom: GridGeometry, rel: int)
    requires
        geom.wf(),
        -1440 < rel < 1440,
    ensures
        geom.spec_content_top() <= spec_top_y(geom, rel),
        spec_top_y(geom, rel) <= geom.spec_content_top() + 24 * geom.row_height,
        geom.spec_content_top() <= spec_bottom_y(geom, rel),
        spec_bottom_y(geom, rel) <= geom.spec_content_bottom(),
        geom.spec_content_top() <= geom.spec_content_bottom(),
{
    let rh = geom.row_height;
    assert(0 <= geom.row_height * geom.hour_count) by (nonlinear_arith)
        requires
            0 <= geom.row_height,
            0 <= geom.hour_count,
    ;
    if rel > 0 {
        assert(0 <= rel * rh <= 1440 * rh) by (nonlinear_arith)
            requires
                0 < rel < 1440,
                0 <= rh,
        ;
        lemma_fundamental_div_mod_converse_div(0, 60, 0, 0);
        lemma_div_is_ordered(0, rel * rh, 60);
        lemma_div_is_ordered(rel * rh, 1440 * rh, 60);
        lemma_fundamental_div_mod(1440 * rh, 60);
        assert((1440 * rh) / 60 == 24 * rh) by (nonlinear_arith)
            requires
                1440 * rh == 60 * ((1440 * rh) / 60) + (1440 * rh) % 60,
                0 <= (1440 * rh) % 60 < 60,
        ;
    }
}

/// An event fully inside the visible window projects to a non-degenerate
/// pixel range lying within the content area.  The offsets are the
/// event's start and end minutes relative to the window start; `fully
/// inside` means both lie within the window's rows, and the event must
/// span at least one pixel (an event shorter than a pixel row collapses
/// to zero height under integer scaling and is skipped instead).
pub proof fn lemma_project_inside(geom: GridGeometry, rel_start: int, rel_end: int)
    requires
        geom.wf(),
        0 <= rel_start,
        rel_end <= geom.hour_count * 60,
        (rel_end - rel_start) * geom.row_height >= 60,
    ensures
        geom.spec_content_top() <= spec_top_y(geom, rel_start),
        spec_top_y(geom, rel_start) < spec_bottom_y(geom, rel_end),
        spec_bottom_y(geom, rel_end) <= geom.spec_content_bottom(),
{
    let rh = geom.row_height;
    let ct = geom.spec_content_top();
    let cb = geom.spec_content_bottom();
    assert(rel_start * rh + 60 <= rel_end * rh) by (nonlinear_arith)
        requires
            (rel_end - rel_start) * rh >= 60,
    ;
    assert(rel_end > 0) by (nonlinear_arith)
        requires
            (rel_end - rel_start) * rh >= 60,
            0 <= rel_start,
            0 <= rh,
    ;
    lemma_fundamental_div_mod(rel_start * rh, 60);
    lemma_fundamental_div_mod(rel_end * rh, 60);
    assert((rel_start * rh) / 60 < (rel_end * rh) / 60) by (nonlinear_arith)
        requires
            rel_start * rh == 60 * ((rel_start * rh) / 60) + (rel_start * rh) % 60,
            rel_end * rh == 60 * ((rel_end * rh) / 60) + (rel_end * rh) % 60,
            0 <= (rel_start * rh) % 60 < 60,
            0 <= (rel_end * rh) % 60 < 60,
            rel_start * rh + 60 <= rel_end * rh,
    ;
    if rel_start > 0 {
        lemma_div_is_ordered(0, rel_start * rh, 60);
        assert(0 <= rel_start * rh) by (nonlinear_arith)
            requires
                0 <= rel_start,
                0 <= rh,
        ;
    }
    // The end offset stays within the rows, so the unclamped bottom stays
    // within the content area.
    assert(rel_end * rh <= geom.hour_count * 60 * rh) by (nonlinear_arith)
        requires
            rel_end <= geom.hour_count * 60,
            0 <= rh,
    ;
    lemma_div_is_ordered(rel_end * rh, geom.hour_count * 60 * rh, 60);
    lemma_fundamental_div_mod(geom.hour_count * 60 * rh, 60);
    assert((geom.hour_count * 60 * rh) / 60 == geom.hour_count * rh) by (nonlinear_arith)
        requires
            geom.hour_count * 60 * rh == 60 * ((geom.hour_count * 60 * rh) / 60) + (geom.hour_count
                * 60 * rh) % 60,
            0 <= (geom.hour_count * 60 * rh) % 60 < 60,
    ;
    assert(geom.hour_count * rh <= geom.height - geom.header_height);
}

/// Clipping skips what lies outside the window: an event ending at or
/// before the window start collapses onto the content top edge, and an
/// event starting far enough below the content area (in particular, one
/// starting at or after the window end when the rows fill the content
/// area exactly) collapses against the content bottom edge; either way
/// the projected range is empty.
pub proof fn lemma_project_clipped(geom: GridGeometry, rel_start: int, rel_end: int)
    requires
        geom.wf(),
    ensures
        rel_end <= 0 ==> spec_top_y(geom, rel_start) >= spec_bottom_y(geom, rel_end),
        rel_start * geom.row_height >= 60 * (geom.height - geom.header_height)
            ==> spec_top_y(geom, rel_start) >= spec_bottom_y(geom, rel_end),
{
    let rh = geom.row_height;
    if rel_end <= 0 {
        if rel_start > 0 {
            lemma_div_is_ordered(0, rel_start * rh, 60);
            assert(0 <= rel_start * rh) by (nonlinear_arith)
                requires
                    0 <= rel_start,
                    0 <= rh,
            ;
        }
    }
    if rel_start * rh >= 60 * (geom.height - geom.header_height) {
        assert(rel_start > 0 || geom.height - geom.header_height <= 0) by (nonlinear_arith)
            requires
                rel_start * rh >= 60 * (geom.height - geom.header_height),
                0 <= rh,
        ;
        lemma_fundamental_div_mod(rel_start * rh, 60);
        lemma_div_is_ordered(60 * (geom.height - geom.header_height), rel_start * rh, 60);
        lemma_fundamental_div_mod(60 * (geom.height - geom.header_height), 60);
        assert((60 * (geom.height - geom.header_height)) / 60 == geom.height
            - geom.header_height) by (nonlinear_arith)
            requires
                60 * (geom.height - geom.header_height) == 60 * ((60 * (geom.height
                    - geom.header_height)) / 60) + (60 * (geom.height - geom.header_height)) % 60,
                0 <= (60 * (geom.height - geom.header_height)) % 60 < 60,
        ;
    }
}

} // verus!
