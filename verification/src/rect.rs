//! Rectangles: the footprint of a room while a level is generated.

use vstd::prelude::*;

verus! {

/// Half of `n`, rounded towards zero.
pub open spec fn half(n: int) -> int {
    if n >= 0 {
        n / 2
    } else {
        -((-n) / 2)
    }
}

/// An axis-aligned rectangle with corners `(x1, y1)` and `(x2, y2)`. Its
/// interior, the floor of the room, is what lies strictly between them.
#[derive(Clone, Copy, Debug, PartialEq, Eq, Structural)]
pub struct Rect {
    pub x1: i32,
    pub y1: i32,
    pub x2: i32,
    pub y2: i32,
}

impl Rect {
    /// The centre as mathematical integers.
    pub open spec fn spec_center(self) -> (int, int) {
        (half(self.x1 + self.x2), half(self.y1 + self.y2))
    }

    /// Whether the two rectangles share a point, their edges included.
    pub open spec fn spec_intersects_with(self, other: Rect) -> bool {
        self.x1 <= other.x2 && self.x2 >= other.x1 && self.y1 <= other.y2 && self.y2 >= other.y1
    }

    /// Whether `(x, y)` lies strictly inside the rectangle.
    pub open spec fn contains(self, x: int, y: int) -> bool {
        self.x1 < x < self.x2 && self.y1 < y < self.y2
    }

    /// The rectangle with top-left corner `(x, y)`, `w` wide and `h` high.
    pub fn new(x: i32, y: i32, w: i32, h: i32) -> (rect: Rect)
        requires
            i32::MIN <= x + w <= i32::MAX,
            i32::MIN <= y + h <= i32::MAX,
        ensures
            rect == (Rect { x1: x, y1: y, x2: (x + w) as i32, y2: (y + h) as i32 }),
    {
        Rect { x1: x, y1: y, x2: x + w, y2: y + h }
    }

    /// The centre of the rectangle, each coordinate rounded towards zero.
    pub fn center(&self) -> (c: (i32, i32))
        requires
            i32::MIN <= self.x1 + self.x2 <= i32::MAX,
            i32::MIN <= self.y1 + self.y2 <= i32::MAX,
        ensures
            (c.0 as int, c.1 as int) == self.spec_center(),
    {
        let center_x: i32 = (self.x1 + self.x2) / 2;
        let center_y: i32 = (self.y1 + self.y2) / 2;
        (center_x, center_y)
    }

    /// Returns true if this rectangle intersects with another one. Rectangles
    /// that only touch along an edge intersect.
    pub fn intersects_with(&self, other: &Rect) -> (hit: bool)
        ensures
            hit == self.spec_intersects_with(*other),
    {
        (self.x1 <= other.x2) && (self.x2 >= other.x1) && (self.y1 <= other.y2) && (self.y2
            >= other.y1)
    }
}

/// Intersection does not depend on the order of the two rectangles.
pub proof fn lemma_intersects_symmetric(a: Rect, b: Rect)
    ensures
        a.spec_intersects_with(b) == b.spec_intersects_with(a),
{
}

/// Rectangles that do not intersect have no interior point in common.
pub proof fn lemma_disjoint_interiors(a: Rect, b: Rect, x: int, y: int)
    requires
        !a.spec_intersects_with(b),
    ensures
        !(a.contains(x, y) && b.contains(x, y)),
{
}

} // verus!
