//! Screen rectangles and hit tests, in terminal cells.

use vstd::prelude::*;

verus! {

/// A rectangle of terminal cells.
#[derive(Clone, Copy, Debug)]
pub struct Area {
    pub x: u16,
    pub y: u16,
    pub width: u16,
    pub height: u16,
}

impl Area {
    /// The empty rectangle at the origin.
    pub fn zero() -> (a: Area)
        ensures
            a == (Area { x: 0, y: 0, width: 0, height: 0 }),
    {
        Area { x: 0, y: 0, width: 0, height: 0 }
    }

    /// Right and bottom edges are representable, as for every rectangle a
    /// screen layout hands out.
    pub open spec fn fits(self) -> bool {
        self.x + self.width <= u16::MAX && self.y + self.height <= u16::MAX
    }

    pub open spec fn spec_contains(self, px: int, py: int) -> bool {
        self.x <= px < self.x + self.width && self.y <= py < self.y + self.height
    }
}

/// Whether the cell `(x, y)` lies inside `rect`.
pub fn contains_point(rect: Area, x: u16, y: u16) -> (b: bool)
    requires
        x >= rect.x ==> rect.x + rect.width <= u16::MAX,
        rect.x <= x < rect.x + rect.width && y >= rect.y ==> rect.y + rect.height <= u16::MAX,
    ensures
        b == rect.spec_contains(x as int, y as int),
{
    x >= rect.x && x < rect.x + rect.width && y >= rect.y && y < rect.y + rect.height
}

} // verus!
