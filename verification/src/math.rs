//! Integer vectors and rectangles in texture space.

use vstd::prelude::*;

verus! {

/// A point or an extent in texture space, in pixels.
#[derive(Clone, Copy, Debug, PartialEq, Eq, Structural)]
pub struct Vec2u32 {
    pub x: u32,
    pub y: u32,
}

impl Vec2u32 {
    /// The vector `(x, y)`.
    pub fn new(x: u32, y: u32) -> (v: Vec2u32)
        ensures
            v == (Vec2u32 { x, y }),
    {
        Vec2u32 { x, y }
    }

    /// The vector with both components equal to `value`.
    pub fn all(value: u32) -> (v: Vec2u32)
        ensures
            v == (Vec2u32 { x: value, y: value }),
    {
        Vec2u32 { x: value, y: value }
    }
}

/// A displacement in window space, in pixels.
#[derive(Clone, Copy, Debug, PartialEq, Eq, Structural)]
pub struct Vec2i32 {
    pub x: i32,
    pub y: i32,
}

impl Vec2i32 {
    /// The vector `(x, y)`.
    pub fn new(x: i32, y: i32) -> (v: Vec2i32)
        ensures
            v == (Vec2i32 { x, y }),
    {
        Vec2i32 { x, y }
    }

    /// The vector `(0, 0)`.
    pub fn zeroed() -> (v: Vec2i32)
        ensures
            v == (Vec2i32 { x: 0, y: 0 }),
    {
        Vec2i32 { x: 0, y: 0 }
    }
}

/// An axis-aligned rectangle of pixels: the half-open box
/// `[pos.x, pos.x + size.x) x [pos.y, pos.y + size.y)`.
#[derive(Clone, Copy, Debug, PartialEq, Eq, Structural)]
pub struct RectU32 {
    pub pos: Vec2u32,
    pub size: Vec2u32,
}

impl RectU32 {
    /// Whether the pixel `(x, y)` lies inside the rectangle.
    pub open spec fn contains(self, x: int, y: int) -> bool {
        &&& self.pos.x <= x < self.pos.x + self.size.x
        &&& self.pos.y <= y < self.pos.y + self.size.y
    }

    /// Whether the two rectangles have no pixel in common.
    pub open spec fn disjoint(self, other: RectU32) -> bool {
        forall|x: int, y: int| !(#[trigger] self.contains(x, y) && other.contains(x, y))
    }

    /// The number of pixels in the rectangle.
    pub open spec fn area(self) -> nat {
        (self.size.x * self.size.y) as nat
    }

    /// The rectangle with origin `pos` and extent `size`.
    pub fn pos_size(pos: Vec2u32, size: Vec2u32) -> (r: RectU32)
        ensures
            r == (RectU32 { pos, size }),
    {
        RectU32 { pos, size }
    }
}

} // verus!
