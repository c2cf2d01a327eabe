//! Screen-coordinate geometry: rectangles, points, and the inclusive
//! point-in-rectangle test used by the hit tester.

use vstd::prelude::*;

verus! {

/// A bounding box in screen coordinates, as reported by the accessibility
/// provider for one on-screen element.  A rectangle whose right edge lies
/// left of its left edge (or bottom above top) is degenerate and contains
/// no point.
#[derive(Debug, Clone, Copy, PartialEq, Eq, Structural)]
pub struct Rect {
    pub left: i32,
    pub top: i32,
    pub right: i32,
    pub bottom: i32,
}

impl Rect {
    /// A point lies inside the rectangle; all four edges count as inside.
    pub open spec fn spec_contains(self, x: int, y: int) -> bool {
        self.left <= x <= self.right && self.top <= y <= self.bottom
    }

    /// The area of the rectangle, `(right - left) * (bottom - top)`;
    /// negative when the rectangle is inverted on exactly one axis.
    pub open spec fn spec_area(self) -> int {
        (self.right - self.left) * (self.bottom - self.top)
    }

    pub fn new(left: i32, top: i32, right: i32, bottom: i32) -> (r: Rect)
        ensures
            r == (Rect { left, top, right, bottom }),
    {
        Rect { left, top, right, bottom }
    }
}

/// A screen position, such as the current pointer position.
#[derive(Debug, Clone, Copy, PartialEq, Eq, Structural)]
pub struct Point {
    pub x: i32,
    pub y: i32,
}

/// A point exactly on an edge (for example `x == rect.right`) is inside.
pub fn is_inside_rectancle(rect: &Rect, x: i32, y: i32) -> (r: bool)
    ensures
        r == rect.spec_contains(x as int, y as int),
{
    x >= rect.left && x <= rect.right && y >= rect.top && y <= rect.bottom
}

} // verus!
