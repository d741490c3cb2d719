//! The draw primitives the engine emits.
//!
//! A render pass is a pure function from the schedule inputs to an
//! ordered sequence of these commands; the caller replays them against
//! its drawing surface in order.  Every command names a logical color;
//! the caller's adapter maps it to the surface's native color type.

use vstd::prelude::*;

use crate::color::UnifiedColor;

verus! {

/// The two fonts of the grid: the 10x20 header/body font and the 6x12
/// timestamp font.  Font selection is fixed; the metrics live in
/// [`crate::geometry`].
#[derive(Clone, Copy, Debug, PartialEq, Eq, Structural)]
pub enum FontKind {
    /// The 10x20 font of headers, hour labels and event labels.
    Body,
    /// The 6x12 font of the per-event start/end timestamps.
    Small,
}

/// How a text run's position anchors to its glyphs.
#[derive(Clone, Copy, Debug, PartialEq, Eq, Structural)]
pub enum TextAnchor {
    /// The position is the top-left corner of the text.
    Top,
    /// The position is the middle of the left edge.
    Middle,
    /// The position is the bottom-left corner.
    Bottom,
}

/// One drawing primitive, in one of the three logical colors.
#[derive(Clone, Debug, PartialEq, Eq)]
pub enum DrawCommand {
    /// An axis-aligned rectangle filled with a single color.
    FillRect { x: i32, y: i32, width: i32, height: i32, color: UnifiedColor },
    /// An axis-aligned rectangle outline.
    OutlineRect { x: i32, y: i32, width: i32, height: i32, stroke_width: i32, color: UnifiedColor },
    /// A straight line segment.
    Line { x0: i32, y0: i32, x1: i32, y1: i32, stroke_width: i32, color: UnifiedColor },
    /// A stroked and filled rectangle with rounded corners.
    RoundedRect {
        x: i32,
        y: i32,
        width: i32,
        height: i32,
        corner_radius: i32,
        stroke_width: i32,
        stroke_color: UnifiedColor,
        fill_color: UnifiedColor,
    },
    /// A left-to-right fixed-width text run.
    Text { x: i32, y: i32, content: String, font: FontKind, anchor: TextAnchor, color: UnifiedColor },
}

/// The mathematical view of a draw command: the same shape over
/// unbounded integers and character sequences.
pub enum CmdV {
    FillRect { x: int, y: int, width: int, height: int, color: UnifiedColor },
    OutlineRect { x: int, y: int, width: int, height: int, stroke_width: int, color: UnifiedColor },
    Line { x0: int, y0: int, x1: int, y1: int, stroke_width: int, color: UnifiedColor },
    RoundedRect {
        x: int,
        y: int,
        width: int,
        height: int,
        corner_radius: int,
        stroke_width: int,
        stroke_color: UnifiedColor,
        fill_color: UnifiedColor,
    },
    Text { x: int, y: int, content: Seq<char>, font: FontKind, anchor: TextAnchor, color: UnifiedColor },
}

impl View for DrawCommand {
    type V = CmdV;

    open spec fn view(&self) -> CmdV {
        match self {
            DrawCommand::FillRect { x, y, width, height, color } => CmdV::FillRect {
                x: *x as int,
                y: *y as int,
                width: *width as int,
                height: *height as int,
                color: *color,
            },
            DrawCommand::OutlineRect { x, y, width, height, stroke_width, color } => CmdV::OutlineRect {
                x: *x as int,
                y: *y as int,
                width: *width as int,
                height: *height as int,
                stroke_width: *stroke_width as int,
                color: *color,
            },
            DrawCommand::Line { x0, y0, x1, y1, stroke_width, color } => CmdV::Line {
                x0: *x0 as int,
                y0: *y0 as int,
                x1: *x1 as int,
                y1: *y1 as int,
                stroke_width: *stroke_width as int,
                color: *color,
            },
            DrawCommand::RoundedRect {
                x,
                y,
                width,
                height,
                corner_radius,
                stroke_width,
                stroke_color,
                fill_color,
            } => CmdV::RoundedRect {
                x: *x as int,
                y: *y as int,
                width: *width as int,
                height: *height as int,
                corner_radius: *corner_radius as int,
                stroke_width: *stroke_width as int,
                stroke_color: *stroke_color,
                fill_color: *fill_color,
            },
            DrawCommand::Text { x, y, content, font, anchor, color } => CmdV::Text {
                x: *x as int,
                y: *y as int,
                content: content@,
                font: *font,
                anchor: *anchor,
                color: *color,
            },
        }
    }
}

/// The view of a command sequence, command by command.
pub open spec fn cmds_view(cmds: Seq<DrawCommand>) -> Seq<CmdV> {
    cmds.map_values(|c: DrawCommand| c@)
}

/// Appending one command appends its view.
pub proof fn lemma_cmds_view_push(cmds: Seq<DrawCommand>, c: DrawCommand)
    ensures
        cmds_view(cmds.push(c)) == cmds_view(cmds).push(c@),
{
    assert(cmds_view(cmds.push(c)) =~= cmds_view(cmds).push(c@));
}

/// Concatenating command sequences concatenates their views.
pub proof fn lemma_cmds_view_add(a: Seq<DrawCommand>, b: Seq<DrawCommand>)
    ensures
        cmds_view(a + b) == cmds_view(a) + cmds_view(b),
{
    assert(cmds_view(a + b) =~= cmds_view(a) + cmds_view(b));
}

} // verus!
