//! The three logical colors of the engine.
//!
//! The engine never touches a native color type: every draw command names
//! one of the logical colors below, and the caller supplies the mapping to
//! the target display's own color representation when it replays the
//! commands.

use vstd::prelude::*;

verus! {

/// A logical color: primary ink, background, or highlight.
#[derive(Clone, Copy, Debug, PartialEq, Eq, Structural)]
pub enum UnifiedColor {
    /// Primary ink.
    Black,
    /// Background.
    White,
    /// Highlight (red on tri-color e-paper panels).
    Chromatic,
}

/// The red channel of a raw RGB565 pixel value (5 bits).
pub open spec fn red_channel(raw: u16) -> u16 {
    (raw >> 11) & 0x1f
}

/// The green channel of a raw RGB565 pixel value (6 bits).
pub open spec fn green_channel(raw: u16) -> u16 {
    (raw >> 5) & 0x3f
}

/// The blue channel of a raw RGB565 pixel value (5 bits).
pub open spec fn blue_channel(raw: u16) -> u16 {
    raw & 0x1f
}

impl UnifiedColor {
    /// Classifies a raw RGB565 pixel value (the 16-bit storage word,
    /// red in the top 5 bits) into a logical color by simple
    /// thresholding: bright in all three channels counts as highlight,
    /// pure black as ink, everything else as background.
    pub fn from_rgb565(raw: u16) -> (c: UnifiedColor)
        ensures
            c == UnifiedColor::Chromatic <==> (red_channel(raw) > 15 && green_channel(raw) > 15
                && blue_channel(raw) > 15),
            c == UnifiedColor::Black <==> (!(red_channel(raw) > 15 && green_channel(raw) > 15
                && blue_channel(raw) > 15) && red_channel(raw) == 0 && green_channel(raw) == 0
                && blue_channel(raw) == 0),
    {
        let r = (raw >> 11) & 0x1f;
        let g = (raw >> 5) & 0x3f;
        let b = raw & 0x1f;

        if r > 15 && g > 15 && b > 15 {
            UnifiedColor::Chromatic
        } else if r == 0 && g == 0 && b == 0 {
            UnifiedColor::Black
        } else {
            UnifiedColor::White
        }
    }
}

} // verus!
