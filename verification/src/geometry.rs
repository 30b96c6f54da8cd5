//! Lengths, positions, sizes and margins.

use vstd::prelude::*;

verus! {

/// A length, counted in micrometres (thousandths of a millimetre).
#[derive(Clone, Copy, Debug, PartialEq, Eq, Structural)]
pub struct Mm(pub i64);

/// A point, given by its distance from a reference corner.
#[derive(Clone, Copy, Debug, PartialEq, Eq, Structural)]
pub struct Position {
    pub x: Mm,
    pub y: Mm,
}

/// The width and height of a rectangle.
#[derive(Clone, Copy, Debug, PartialEq, Eq, Structural)]
pub struct Size {
    pub width: Mm,
    pub height: Mm,
}

/// The four margins of a rectangle.
#[derive(Clone, Copy, Debug, PartialEq, Eq, Structural)]
pub struct Margins {
    pub top: Mm,
    pub right: Mm,
    pub bottom: Mm,
    pub left: Mm,
}

/// Whether an integer can be held in a length.
pub open spec fn fits(v: int) -> bool {
    i64::MIN <= v <= i64::MAX
}

/// Tells whether an integer can be held in a length.
pub fn in_range(v: i128) -> (b: bool)
    ensures
        b == fits(v as int),
{
    -0x8000_0000_0000_0000 <= v && v <= 0x7fff_ffff_ffff_ffff
}

} // verus!
