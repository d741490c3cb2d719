//! A calendar-grid layout and rendering engine for low-color displays.
//!
//! The engine turns a list of time-bounded events into a pixel-accurate,
//! multi-day / multi-hour schedule grid.  It is a pure function from a
//! bounding box, a clock reading and an event list to an ordered sequence
//! of [`render::DrawCommand`] values; the caller replays those commands
//! against whatever drawing surface it owns and then presents the surface.

use vstd::prelude::*;

pub mod color;
pub mod geometry;
pub mod labels;
pub mod project;
pub mod render;
pub mod table;
pub mod textfmt;
pub mod time;

verus! {

/// The failure conditions of the engine.
#[derive(Clone, Copy, Debug, PartialEq, Eq, Structural)]
pub enum ScheduleError {
    /// The grid would have zero visible days or zero visible hours;
    /// fatal, nothing is drawn.
    DegenerateWindow,
    /// No current-or-future event remains after filtering; not fatal,
    /// the grid collapses to the single day containing the clock reading.
    NoVisibleEvents,
}

} // verus!
