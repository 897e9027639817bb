use vstd::prelude::*;

verus! {

/// One beam sample: a position in device units, a 16-bit color and whether
/// the beam is on.
#[derive(Clone, Copy, Debug, PartialEq, Eq, Structural)]
pub struct Point {
    pub x: i16,
    pub y: i16,
    pub r: u16,
    pub g: u16,
    pub b: u16,
    pub lit: bool,
}

/// A point as an animation source stores it: 8-bit color channels.
#[derive(Clone, Copy, Debug, PartialEq, Eq, Structural)]
pub struct SourcePoint {
    pub x: i16,
    pub y: i16,
    pub r: u8,
    pub g: u8,
    pub b: u8,
}

pub open spec fn blank_spec(x: i16, y: i16) -> Point {
    Point { x, y, r: 0, g: 0, b: 0, lit: false }
}

impl Point {
    /// A lit point of the given color.
    pub fn xy_rgb(x: i16, y: i16, r: u16, g: u16, b: u16) -> (p: Point)
        ensures
            p == (Point { x, y, r, g, b, lit: true }),
    {
        Point { x, y, r, g, b, lit: true }
    }

    /// A blanked point: beam off, color zeroed.
    pub fn blank(x: i16, y: i16) -> (p: Point)
        ensures
            p == blank_spec(x, y),
    {
        Point { x, y, r: 0, g: 0, b: 0, lit: false }
    }
}

} // verus!
