//! Rectangle geometry: area, containment, squares, and doubling.

use vstd::prelude::*;

verus! {

/// An axis-aligned rectangle, measured in pixels.
#[derive(Debug, Clone, Copy, PartialEq, Eq, Structural)]
pub struct Rectangle {
    pub width: u32,
    pub height: u32,
}

impl Rectangle {
    /// The rectangle's area.
    pub fn area(&self) -> (area: u32)
        requires
            self.width * self.height <= u32::MAX,
        ensures
            area == self.width * self.height,
    {
        self.width * self.height
    }

    /// Whether `other` fits strictly inside this rectangle.
    pub fn can_hold(&self, other: &Rectangle) -> (fits: bool)
        ensures
            fits == (self.width > other.width && self.height > other.height),
    {
        self.width > other.width && self.height > other.height
    }

    /// A square of the given side length.
    pub fn square(size: u32) -> (square: Rectangle)
        ensures
            square.width == size,
            square.height == size,
    {
        Rectangle { width: size, height: size }
    }

    /// The rectangle with both sides doubled.
    pub fn double(&self) -> (doubled: Rectangle)
        requires
            2 * self.width <= u32::MAX,
            2 * self.height <= u32::MAX,
        ensures
            doubled.width == 2 * self.width,
            doubled.height == 2 * self.height,
    {
        Rectangle { width: self.width * 2, height: self.height * 2 }
    }
}

} // verus!
