//! Screen-space rectangles as the window system reports them.

use vstd::prelude::*;

verus! {

/// An axis-aligned rectangle in screen coordinates; `right` and `bottom` are
/// exclusive edges.
#[derive(Clone, Copy, PartialEq, Eq, Structural, Debug)]
pub struct Rect {
    pub left: i32,
    pub top: i32,
    pub right: i32,
    pub bottom: i32,
}

impl Rect {
    /// The width, as the unbounded difference of the edges.
    pub open spec fn width(self) -> int {
        self.right - self.left
    }

    /// The height, as the unbounded difference of the edges.
    pub open spec fn height(self) -> int {
        self.bottom - self.top
    }

    /// The edges are ordered and the extents small enough that offset
    /// arithmetic on them stays within `i32`.
    pub open spec fn wf(self) -> bool {
        &&& self.left <= self.right
        &&& self.top <= self.bottom
        &&& self.width() <= 1000000
        &&& self.height() <= 1000000
    }

    /// A new rectangle, well-formed whenever the edges are ordered and the
    /// extents modest.
    pub fn new(left: i32, top: i32, right: i32, bottom: i32) -> (r: Rect)
        ensures
            r == (Rect { left, top, right, bottom }),
    {
        Rect { left, top, right, bottom }
    }

    /// Whether the point `(x, y)` lies inside the rectangle.
    pub fn contains_point(&self, x: i32, y: i32) -> (r: bool)
        ensures
            r == (self.left <= x < self.right && self.top <= y < self.bottom),
    {
        self.left <= x && x < self.right && self.top <= y && y < self.bottom
    }
}

} // verus!
