use vstd::prelude::*;

verus! {

/// An RGB color with 8 bits per channel.
#[derive(Clone, Copy, Debug, PartialEq, Eq, Structural)]
pub struct Color {
    pub r: u8,
    pub g: u8,
    pub b: u8,
}

/// The channel-wise mean of two colors, rounded down.
pub open spec fn mean(a: u8, b: u8) -> u8 {
    ((a + b) / 2) as u8
}

impl Color {
    pub fn new(r: u8, g: u8, b: u8) -> (color: Color)
        ensures
            color == (Color { r, g, b }),
    {
        Color { r, g, b }
    }

    pub fn black() -> (color: Color)
        ensures
            color == (Color { r: 0, g: 0, b: 0 }),
    {
        Color { r: 0, g: 0, b: 0 }
    }

    pub open spec fn spec_avg_with(self, other: Color) -> Color {
        Color { r: mean(self.r, other.r), g: mean(self.g, other.g), b: mean(self.b, other.b) }
    }

    /// The average of two colors, taken channel by channel and rounded down.
    pub fn avg_with(self, other: Color) -> (color: Color)
        ensures
            color == self.spec_avg_with(other),
    {
        Color {
            r: ((self.r as u16 + other.r as u16) / 2) as u8,
            g: ((self.g as u16 + other.g as u16) / 2) as u8,
            b: ((self.b as u16 + other.b as u16) / 2) as u8,
        }
    }
}

/// A position, in terminal cells or in page pixels depending on the caller.
#[derive(Clone, Copy, Debug, PartialEq, Eq, Structural)]
pub struct Point {
    pub x: i32,
    pub y: i32,
}

impl Point {
    pub fn new(x: i32, y: i32) -> (p: Point)
        ensures
            p == (Point { x, y }),
    {
        Point { x, y }
    }
}

/// A size, in terminal cells or in page pixels depending on the caller.
#[derive(Clone, Copy, Debug, PartialEq, Eq, Structural)]
pub struct Size {
    pub width: u32,
    pub height: u32,
}

impl Size {
    pub fn new(width: u32, height: u32) -> (s: Size)
        ensures
            s == (Size { width, height }),
    {
        Size { width, height }
    }
}

/// A rectangle given by its top left corner and its size.
#[derive(Clone, Copy, Debug, PartialEq, Eq, Structural)]
pub struct Rect {
    pub origin: Point,
    pub size: Size,
}

impl Rect {
    pub fn new(x: i32, y: i32, width: u32, height: u32) -> (r: Rect)
        ensures
            r == (Rect { origin: Point { x, y }, size: Size { width, height } }),
    {
        Rect { origin: Point { x, y }, size: Size { width, height } }
    }
}

} // verus!
