//! Pixel geometry of the grid.
//!
//! [`GridGeometry::build`] partitions a bounding box into a header band,
//! a time-label column, one column per visible day and one row per
//! visible hour.  Integer division absorbs any remainder pixels at the
//! right and bottom edges; this is the accepted rounding policy of the
//! engine, proved as the containment invariants of [`GridGeometry::wf`].

use vstd::arithmetic::div_mod::lemma_fundamental_div_mod;
use vstd::prelude::*;

use crate::ScheduleError;

verus! {

/// Every coordinate and size handed to the engine stays within this
/// bound, which keeps all intermediate pixel arithmetic far inside
/// `i32`.
pub const COORD_LIMIT: i32 = 1_048_576;

/// Glyph height in pixels of the header and body font.
pub const FONT_HEIGHT: i32 = 20;

/// Glyph advance width in pixels of the header and body font.
pub const FONT_WIDTH: i32 = 10;

/// Glyph advance width in pixels of the small timestamp font.
pub const SMALL_FONT_WIDTH: i32 = 6;

/// A pixel position.
#[derive(Clone, Copy, Debug, PartialEq, Eq, Structural)]
pub struct Point {
    pub x: i32,
    pub y: i32,
}

impl Point {
    pub open spec fn wf(self) -> bool {
        &&& -COORD_LIMIT <= self.x <= COORD_LIMIT
        &&& -COORD_LIMIT <= self.y <= COORD_LIMIT
    }

    pub fn new(x: i32, y: i32) -> (p: Point)
        ensures
            p == (Point { x, y }),
    {
        Point { x, y }
    }
}

/// A pixel extent.
#[derive(Clone, Copy, Debug, PartialEq, Eq, Structural)]
pub struct Size {
    pub width: u32,
    pub height: u32,
}

impl Size {
    pub open spec fn wf(self) -> bool {
        &&& self.width <= COORD_LIMIT
        &&& self.height <= COORD_LIMIT
    }

    pub fn new(width: u32, height: u32) -> (s: Size)
        ensures
            s == (Size { width, height }),
    {
        Size { width, height }
    }
}

/// An axis-aligned pixel rectangle.
#[derive(Clone, Copy, Debug, PartialEq, Eq, Structural)]
pub struct Rect {
    pub origin: Point,
    pub size: Size,
}

impl Rect {
    pub open spec fn wf(self) -> bool {
        self.origin.wf() && self.size.wf()
    }
}

/// The derived pixel partition of a schedule grid.
#[derive(Clone, Copy, Debug, PartialEq, Eq, Structural)]
pub struct GridGeometry {
    /// Top-left corner of the component.
    pub origin: Point,
    /// Total component width in pixels.
    pub width: i32,
    /// Total component height in pixels.
    pub height: i32,
    /// Height of the header band: two text lines.
    pub header_height: i32,
    /// Width of the time-label column: a fixed-length `HH:MM` label.
    pub time_column_width: i32,
    /// Width of each day column; remainder pixels stay unused at the
    /// right edge.
    pub date_column_width: i32,
    /// Height of each hour row; remainder pixels stay unused at the
    /// bottom edge.
    pub row_height: i32,
    /// Number of visible day columns.
    pub day_count: i32,
    /// Number of visible hour rows.
    pub hour_count: i32,
}

impl GridGeometry {
    /// Invariant of a built geometry: the columns and rows fit inside
    /// the bounding box, the integer-division remainders never overflow
    /// it.
    pub open spec fn wf(self) -> bool {
        &&& self.origin.wf()
        &&& 0 <= self.width <= COORD_LIMIT
        &&& 0 <= self.height <= COORD_LIMIT
        &&& self.header_height == 2 * FONT_HEIGHT
        &&& self.time_column_width == 6 * FONT_WIDTH
        &&& 1 <= self.day_count
        &&& 1 <= self.hour_count
        &&& 0 <= self.date_column_width
        &&& 0 <= self.row_height
        &&& self.date_column_width <= self.width
        &&& self.row_height <= self.height
        &&& self.date_column_width * self.day_count + self.time_column_width <= self.width
        &&& self.row_height * self.hour_count <= self.height - self.header_height
    }

    /// Pixel row where the content area (below the header band) starts.
    pub open spec fn spec_content_top(self) -> int {
        self.origin.y + self.header_height
    }

    /// Pixel row of the bottom edge of the component.
    pub open spec fn spec_content_bottom(self) -> int {
        self.origin.y + self.height
    }

    /// Pixel column where the day columns (right of the time column)
    /// start.
    pub open spec fn spec_content_left(self) -> int {
        self.origin.x + self.time_column_width
    }

    /// Pixel column of the right edge of the component.
    pub open spec fn spec_right_edge(self) -> int {
        self.origin.x + self.width
    }

    pub fn content_top(&self) -> (y: i32)
        requires
            self.wf(),
        ensures
            y == self.spec_content_top(),
    {
        self.origin.y + self.header_height
    }

    pub fn content_bottom(&self) -> (y: i32)
        requires
            self.wf(),
        ensures
            y == self.spec_content_bottom(),
    {
        self.origin.y + self.height
    }

    pub fn content_left(&self) -> (x: i32)
        requires
            self.wf(),
        ensures
            x == self.spec_content_left(),
    {
        self.origin.x + self.time_column_width
    }

    pub fn right_edge(&self) -> (x: i32)
        requires
            self.wf(),
        ensures
            x == self.spec_right_edge(),
    {
        self.origin.x + self.width
    }

    /// The geometry [`GridGeometry::build`] yields on success.
    pub open spec fn spec_build(bounds: Rect, day_count: int, hour_count: int) -> GridGeometry {
        GridGeometry {
            origin: bounds.origin,
            width: bounds.size.width as i32,
            height: bounds.size.height as i32,
            header_height: 40,
            time_column_width: 60,
            date_column_width: ((bounds.size.width - 60) / day_count) as i32,
            row_height: ((bounds.size.height - 40) / hour_count) as i32,
            day_count: day_count as i32,
            hour_count: hour_count as i32,
        }
    }

    /// Partitions the bounding box: the header band is two text lines
    /// high, the time column is as wide as a fixed-length `HH:MM` label,
    /// and the rest is divided evenly (integer division, remainder
    /// pixels unused) among the day columns and hour rows.  A window
    /// with zero visible days or zero visible hours is rejected as
    /// [`ScheduleError::DegenerateWindow`].
    pub fn build(bounds: Rect, day_count: i32, hour_count: i32) -> (r: Result<
        GridGeometry,
        ScheduleError,
    >)
        requires
            bounds.wf(),
            bounds.size.width >= 6 * FONT_WIDTH,
            bounds.size.height >= 2 * FONT_HEIGHT,
            0 <= day_count,
            0 <= hour_count,
        ensures
            r is Err <==> (day_count == 0 || hour_count == 0),
            r is Err ==> r == Err::<GridGeometry, ScheduleError>(ScheduleError::DegenerateWindow),
            r is Ok ==> r->Ok_0 == Self::spec_build(bounds, day_count as int, hour_count as int),
            r is Ok ==> r->Ok_0.wf(),
    {
        if day_count == 0 || hour_count == 0 {
            return Err(ScheduleError::DegenerateWindow);
        }
        let date_column_width = ((bounds.size.width - 60) / (day_count as u32)) as i32;
        let row_height = ((bounds.size.height - 40) / (hour_count as u32)) as i32;
        proof {
            lemma_div_fits(bounds.size.width - 60, day_count as int);
            lemma_div_fits(bounds.size.height - 40, hour_count as int);
        }
        Ok(
            GridGeometry {
                origin: bounds.origin,
                width: bounds.size.width as i32,
                height: bounds.size.height as i32,
                header_height: 40,
                time_column_width: 60,
                date_column_width,
                row_height,
                day_count,
                hour_count,
            },
        )
    }
}

/// Integer division of a non-negative pixel measure by a positive
/// divisor.
pub(crate) fn div_floor(v: i32, d: u32) -> (q: i32)
    requires
        v >= 0,
        d >= 1,
    ensures
        q == v as int / d as int,
        0 <= q <= v,
{
    proof {
        lemma_div_fits(v as int, d as int);
    }
    ((v as u32) / d) as i32
}

/// Integer division of a non-negative budget among a positive number of
/// slots never hands out more than the budget in total, and each slot is
/// at most the budget.
proof fn lemma_div_fits(budget: int, slots: int)
    requires
        0 <= budget,
        1 <= slots,
    ensures
        0 <= budget / slots <= budget,
        (budget / slots) * slots <= budget,
{
    lemma_fundamental_div_mod(budget, slots);
    assert(0 <= budget / slots <= budget && (budget / slots) * slots <= budget)
        by (nonlinear_arith)
        requires
            budget == slots * (budget / slots) + budget % slots,
            0 <= budget % slots < slots,
            1 <= slots,
            0 <= budget,
    ;
}

} // verus!
