//! Coordinates, dimensions and pixels as plain integer values.

use vstd::prelude::*;

verus! {

/// A signed position on the pixel grid. It may lie outside any buffer.
#[derive(Clone, Copy, Debug, PartialEq, Eq, Structural)]
pub struct Point {
    pub x: i32,
    pub y: i32,
}

/// The extent of a pixel grid.
#[derive(Clone, Copy, Debug, PartialEq, Eq, Structural)]
pub struct Size {
    pub width: u32,
    pub height: u32,
}

/// One pixel write: where, and which colour.
#[derive(Debug, PartialEq, Eq)]
pub struct Pixel<C>(pub Point, pub C);

impl<C: Copy> Clone for Pixel<C> {
    fn clone(&self) -> (copy: Self)
        ensures
            copy == *self,
    {
        *self
    }
}

impl<C: Copy> Copy for Pixel<C> {

}

impl Point {
    /// The point in column `x` and row `y`.
    pub fn new(x: i32, y: i32) -> (point: Point)
        ensures
            point == (Point { x, y }),
    {
        Point { x, y }
    }
}

impl Size {
    /// The size of a grid with `width` columns and `height` rows.
    pub fn new(width: u32, height: u32) -> (size: Size)
        ensures
            size == (Size { width, height }),
    {
        Size { width, height }
    }

    /// The number of grid cells, as a mathematical integer.
    pub open spec fn area(self) -> nat {
        (self.width * self.height) as nat
    }

    /// Whether `point` names a cell of a grid of this size.
    pub open spec fn contains(self, point: Point) -> bool {
        0 <= point.x < self.width && 0 <= point.y < self.height
    }

    /// The row-major slot of `point`, for the points the grid contains.
    pub open spec fn index_of(self, point: Point) -> Option<int> {
        if self.contains(point) {
            Some(point.x + point.y * self.width)
        } else {
            None
        }
    }

    /// Whether every cell's column and row fit a `Point`: the grid is empty,
    /// or neither side is longer than 2^31.
    pub open spec fn addressable(self) -> bool {
        self.area() == 0 || (self.width <= 0x8000_0000 && self.height <= 0x8000_0000)
    }

    /// The point that slot `index` decodes to: column `index mod width`,
    /// row `index div width`, each cut down to 32 signed bits.
    pub open spec fn point_at(self, index: int) -> Point {
        Point { x: (index % (self.width as int)) as i32, y: (index / (self.width as int)) as i32 }
    }
}

/// Both coordinates as unsigned numbers, where neither is negative.
pub open spec fn unsigned_coordinates(point: Point) -> Option<(u32, u32)> {
    if point.x >= 0 && point.y >= 0 {
        Some((point.x as u32, point.y as u32))
    } else {
        None
    }
}

/// Calls embedded-graphics' `TryFrom<Point> for (u32, u32)`, which converts
/// each coordinate with `i32 -> u32` `try_into` and fails when either one is
/// negative. The contract restates exactly that; it is not proved here.
#[verifier::external_body]
pub(crate) fn to_unsigned(point: Point) -> (coordinates: Option<(u32, u32)>)
    ensures
        coordinates == unsigned_coordinates(point),
{
    let point = embedded_graphics::geometry::Point::new(point.x, point.y);
    <(u32, u32)>::try_from(point).ok()
}

} // verus!
