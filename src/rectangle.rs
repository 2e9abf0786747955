//! Axis-aligned integer rectangles used as dungeon rooms.
use vstd::prelude::*;

verus! {

/// A rectangle given by its upper-left corner and its lower-right corner,
/// both inclusive.
#[derive(Clone, Copy, Debug, PartialEq, Eq, Structural)]
pub struct Rectangle {
    pub upper_x: i32,
    pub upper_y: i32,
    pub lower_x: i32,
    pub lower_y: i32,
}

/// Integer halving that rounds toward zero, as machine division does.
pub open spec fn half_toward_zero(v: int) -> int {
    if v >= 0 {
        v / 2
    } else {
        -((-v) / 2)
    }
}

impl Rectangle {
    /// Inclusive overlap on both axes.
    pub open spec fn intersects_spec(self, other: Rectangle) -> bool {
        self.upper_x <= other.lower_x && self.lower_x >= other.upper_x && self.upper_y
            <= other.lower_y && self.lower_y >= other.upper_y
    }

    pub open spec fn center_spec(self) -> (int, int) {
        (
            half_toward_zero(self.upper_x + self.lower_x),
            half_toward_zero(self.upper_y + self.lower_y),
        )
    }

    /// The rectangle whose upper-left corner is `(x, y)` and which spans
    /// `width` by `height` cells beyond it.
    pub fn new(x: i32, y: i32, width: i32, height: i32) -> (r: Rectangle)
        requires
            i32::MIN <= x + width <= i32::MAX,
            i32::MIN <= y + height <= i32::MAX,
        ensures
            r.upper_x == x,
            r.upper_y == y,
            r.lower_x == x + width,
            r.lower_y == y + height,
    {
        Rectangle { upper_x: x, upper_y: y, lower_x: x + width, lower_y: y + height }
    }

    /// True when this rectangle overlaps `other`, edges included.
    pub fn intersect(&self, other: &Rectangle) -> (r: bool)
        ensures
            r == self.intersects_spec(*other),
    {
        self.upper_x <= other.lower_x && self.lower_x >= other.upper_x && self.upper_y
            <= other.lower_y && self.lower_y >= other.upper_y
    }

    /// The center cell, each coordinate the midpoint rounded toward zero.
    pub fn center(&self) -> (r: (i32, i32))
        ensures
            r.0 == self.center_spec().0,
            r.1 == self.center_spec().1,
    {
        let sx: i64 = self.upper_x as i64 + self.lower_x as i64;
        let sy: i64 = self.upper_y as i64 + self.lower_y as i64;
        let cx: i64 = if sx >= 0 {
            sx / 2
        } else {
            -((-sx) / 2)
        };
        let cy: i64 = if sy >= 0 {
            sy / 2
        } else {
            -((-sy) / 2)
        };
        (cx as i32, cy as i32)
    }
}

/// Overlap does not depend on which rectangle is asked.
pub proof fn lemma_intersect_symmetric(a: Rectangle, b: Rectangle)
    ensures
        a.intersects_spec(b) == b.intersects_spec(a),
{
}

} // verus!
