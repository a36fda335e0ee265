//! What a frame is made of.

use crate::color::Rgb;
use crate::layout::Rect;
use vstd::prelude::*;

verus! {

/// Font size of the letter drawn on each cell.
pub const FONT_SIZE: u32 = 12;

/// How a cell's displayed colour follows from its state.
#[derive(Clone, Copy, Debug, PartialEq, Eq, Structural)]
pub enum RepaintPolicy {
    /// An untouched cell flickers: it is filled with a fresh random colour in
    /// every frame. A touched cell shows its stored colour, which the touch
    /// pinned to black.
    RandomUnlessPinned,
    /// An untouched cell is black. A touched cell is filled with a fresh
    /// random colour in every frame; its stored colour is never shown.
    BlackUntilTouched,
}

/// One step of drawing a frame.
#[derive(Debug, PartialEq, Eq)]
pub enum DrawCommand {
    /// Fill the whole canvas with one colour.
    Background { color: Rgb },
    /// Fill a rectangle with one colour.
    Rectangle { rect: Rect, color: Rgb },
    /// Write `text` centred on the point (`x2`, `y2`), given in half units.
    Text { text: String, x2: i64, y2: i64, font_size: u32, color: Rgb },
}

} // verus!
