//! Axis-aligned boxes in screen coordinates.

use vstd::prelude::*;

verus! {

/// Whether `v` is a value of `i32`.
pub open spec fn in_i32(v: int) -> bool {
    i32::MIN <= v <= i32::MAX
}

/// The box at (`x`, `y`), `width` by `height` pixels.
#[derive(Debug, Clone, Copy, PartialEq, Eq)]
pub struct BoundingBox {
    pub x: i32,
    pub y: i32,
    pub width: u32,
    pub height: u32,
}

impl BoundingBox {
    /// The box at (`x`, `y`) of `width` by `height`.
    pub fn new(x: i32, y: i32, width: u32, height: u32) -> (b: Self)
        ensures
            b == (BoundingBox { x, y, width, height }),
    {
        BoundingBox { x, y, width, height }
    }

    /// Whether the box's right and bottom edges are `i32` values.
    pub open spec fn edges_fit(&self) -> bool {
        &&& self.width <= i32::MAX
        &&& self.height <= i32::MAX
        &&& in_i32(self.x + self.width)
        &&& in_i32(self.y + self.height)
    }

    /// Whether the point (`px`, `py`) lies in the box.
    pub open spec fn holds(&self, px: int, py: int) -> bool {
        self.x <= px < self.x + self.width && self.y <= py < self.y + self.height
    }

    /// Whether (`x`, `y`) lies in the box.
    pub fn contains(&self, x: i32, y: i32) -> (r: bool)
        requires
            self.edges_fit(),
        ensures
            r == self.holds(x as int, y as int),
    {
        x >= self.x && x < (self.x + self.width as i32) && y >= self.y && y < (self.y
            + self.height as i32)
    }
}

/// Whether two boxes overlap: some point lies in both.
pub open spec fn boxes_overlap(a: BoundingBox, b: BoundingBox) -> bool {
    a.x < b.x + b.width && b.x < a.x + a.width && a.y < b.y + b.height && b.y < a.y + a.height
}

/// Two boxes that share a point overlap.
pub proof fn law_shared_point_overlaps(a: BoundingBox, b: BoundingBox, px: int, py: int)
    requires
        a.holds(px, py),
        b.holds(px, py),
    ensures
        boxes_overlap(a, b),
{
}

} // verus!
