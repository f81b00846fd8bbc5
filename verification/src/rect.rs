//! Axis-aligned rectangles used for dungeon rooms.

use vstd::prelude::*;

verus! {

/// An axis-aligned rectangle with inclusive corner coordinates.
/// A room's floor area is the interior, `(x1+1..=x2, y1+1..=y2)`.
#[derive(Clone, Copy, PartialEq, Eq, Structural, Debug)]
pub struct Rect {
    pub x1: i32,
    pub x2: i32,
    pub y1: i32,
    pub y2: i32,
}

impl Rect {
    /// Inclusive-bound rectangle intersection test.
    pub open spec fn overlaps(self, other: Rect) -> bool {
        self.x1 <= other.x2 && self.x2 >= other.x1 && self.y1 <= other.y2 && self.y2 >= other.y1
    }

    /// The interior of a room: every cell strictly inside the low edges
    /// and up to the high edges. This is exactly the area generation
    /// carves to floor.
    pub open spec fn interior_contains(self, x: int, y: int) -> bool {
        self.x1 + 1 <= x <= self.x2 && self.y1 + 1 <= y <= self.y2
    }

    /// The centre cell of the rectangle.
    pub open spec fn center_spec(self) -> (int, int)
        recommends
            self.x1 + self.x2 >= 0,
            self.y1 + self.y2 >= 0,
    {
        ((self.x1 + self.x2) / 2, (self.y1 + self.y2) / 2)
    }

    /// The centre of a rectangle with ordered non-negative corners lies
    /// between those corners.
    pub proof fn lemma_center_in_range(self)
        requires
            0 <= self.x1 <= self.x2,
            0 <= self.y1 <= self.y2,
        ensures
            self.x1 <= self.center_spec().0 <= self.x2,
            self.y1 <= self.center_spec().1 <= self.y2,
    {
        assert(self.x1 <= (self.x1 + self.x2) / 2 <= self.x2) by (nonlinear_arith)
            requires
                0 <= self.x1 <= self.x2,
        ;
        assert(self.y1 <= (self.y1 + self.y2) / 2 <= self.y2) by (nonlinear_arith)
            requires
                0 <= self.y1 <= self.y2,
        ;
    }

    pub fn new(x: i32, y: i32, w: i32, h: i32) -> (r: Rect)
        requires
            i32::MIN <= x + w <= i32::MAX,
            i32::MIN <= y + h <= i32::MAX,
        ensures
            r == (Rect { x1: x, x2: (x + w) as i32, y1: y, y2: (y + h) as i32 }),
    {
        Rect { x1: x, x2: x + w, y1: y, y2: y + h }
    }

    pub fn width(&self) -> (r: i32)
        requires
            -i32::MAX <= self.x2 - self.x1 <= i32::MAX,
        ensures
            r == vstd::math::abs(self.x2 - self.x1),
    {
        let d = self.x2 - self.x1;
        if d < 0 {
            -d
        } else {
            d
        }
    }

    pub fn height(&self) -> (r: i32)
        requires
            -i32::MAX <= self.y2 - self.y1 <= i32::MAX,
        ensures
            r == vstd::math::abs(self.y2 - self.y1),
    {
        let d = self.y2 - self.y1;
        if d < 0 {
            -d
        } else {
            d
        }
    }

    pub fn intersect(&self, other: &Rect) -> (r: bool)
        ensures
            r == self.overlaps(*other),
    {
        self.x1 <= other.x2 && self.x2 >= other.x1 && self.y1 <= other.y2 && self.y2 >= other.y1
    }

    pub fn center(&self) -> (r: (i32, i32))
        requires
            0 <= self.x1 + self.x2 <= i32::MAX,
            0 <= self.y1 + self.y2 <= i32::MAX,
        ensures
            (r.0 as int, r.1 as int) == self.center_spec(),
    {
        ((self.x1 + self.x2) / 2, (self.y1 + self.y2) / 2)
    }
}

} // verus!
