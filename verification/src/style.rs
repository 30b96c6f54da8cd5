//! Colours, line styles and font metrics used by the page model.

use vstd::prelude::*;

use crate::geometry::Mm;

verus! {

/// A colour.
#[derive(Clone, Copy, Debug, PartialEq, Eq, Structural)]
pub enum Color {
    Rgb(u8, u8, u8),
    Cmyk(u8, u8, u8, u8),
    Greyscale(u8),
}

/// The thickness and colour of a line.
#[derive(Clone, Copy, Debug, PartialEq, Eq, Structural)]
pub struct LineStyle {
    pub thickness: Mm,
    pub color: Color,
}

/// The vertical metrics of a font at a size.
#[derive(Clone, Copy, Debug, PartialEq, Eq, Structural)]
pub struct Metrics {
    /// The distance between two baselines.
    pub line_height: Mm,
    /// The height of the tallest glyph.
    pub glyph_height: Mm,
}

} // verus!
