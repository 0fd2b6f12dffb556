//! Rectangles and their areas, computed from plain widths and heights.

use vstd::prelude::*;

verus! {

/// An axis-aligned rectangle, held as its width and height in pixels.
pub struct Rectangle {
    pub width: u32,
    pub height: u32,
}

impl Rectangle {
    /// A rectangle with the given width and height.
    pub fn new(width: u32, height: u32) -> (r: Self)
        ensures
            r.width == width,
            r.height == height,
    {
        Self { width, height }
    }

    /// The rectangle's area: width times height.
    pub fn calc_area(&self) -> (r: u32)
        requires
            self.width * self.height <= u32::MAX,
        ensures
            r == self.width * self.height,
    {
        self.width * self.height
    }

    /// Whether `rec` is strictly wider and strictly taller than `self`.
    pub fn can_hold(&self, rec: &Rectangle) -> (r: bool)
        ensures
            r == (self.width < rec.width && self.height < rec.height),
    {
        self.width < rec.width && self.height < rec.height
    }
}

/// The area of a rectangle given as two plain values.
pub fn area(width: u32, height: u32) -> (r: u32)
    requires
        width * height <= u32::MAX,
    ensures
        r == width * height,
{
    width * height
}

/// The area of a rectangle given as a (width, height) pair.
pub fn area_tup(dimensions: (u32, u32)) -> (r: u32)
    requires
        dimensions.0 * dimensions.1 <= u32::MAX,
    ensures
        r == dimensions.0 * dimensions.1,
{
    dimensions.0 * dimensions.1
}

/// The area of a borrowed rectangle.
pub fn area_struct(rec: &Rectangle) -> (r: u32)
    requires
        rec.width * rec.height <= u32::MAX,
    ensures
        r == rec.width * rec.height,
{
    rec.width * rec.height
}

} // verus!
