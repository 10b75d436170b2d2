use vstd::prelude::*;

verus! {

/// A rectangle for packing operations
#[derive(Debug, Clone, Copy, PartialEq, Eq, Structural)]
pub struct Rect {
    pub x: u32,
    pub y: u32,
    pub width: u32,
    pub height: u32,
}

impl Rect {
    /// The x coordinate just past the right edge.
    pub open spec fn right(self) -> int {
        self.x + self.width
    }

    /// The y coordinate just past the bottom edge.
    pub open spec fn bottom(self) -> int {
        self.y + self.height
    }

    /// Width times height, as a mathematical integer.
    pub open spec fn spec_area(self) -> int {
        self.width * self.height
    }

    /// The rectangle has no extent on one of the axes.
    pub open spec fn spec_is_empty(self) -> bool {
        self.width == 0 || self.height == 0
    }

    /// The two rectangles overlap with nonzero extent on both axes. A
    /// rectangle without extent intersects nothing.
    pub open spec fn spec_intersects(self, other: Rect) -> bool {
        &&& !self.spec_is_empty()
        &&& !other.spec_is_empty()
        &&& self.x < other.right()
        &&& self.right() > other.x
        &&& self.y < other.bottom()
        &&& self.bottom() > other.y
    }

    /// The bounds of `other` lie within those of `self`, edges included.
    pub open spec fn spec_contains(self, other: Rect) -> bool {
        &&& self.x <= other.x
        &&& self.y <= other.y
        &&& self.right() >= other.right()
        &&& self.bottom() >= other.bottom()
    }

    /// The rectangle with the given origin and size.
    pub fn new(x: u32, y: u32, width: u32, height: u32) -> (r: Self)
        ensures
            r.x == x,
            r.y == y,
            r.width == width,
            r.height == height,
    {
        Self { x, y, width, height }
    }

    /// Width times height, widened so that it cannot overflow.
    pub fn area(&self) -> (a: u64)
        ensures
            a == self.spec_area(),
    {
        let w: u64 = self.width as u64;
        let h: u64 = self.height as u64;
        assert(w * h <= 0xFFFF_FFFF * 0xFFFF_FFFF) by (nonlinear_arith)
            requires
                w <= 0xFFFF_FFFF,
                h <= 0xFFFF_FFFF,
        ;
        w * h
    }

    /// Check if this rectangle intersects with another
    pub fn intersects(&self, other: &Rect) -> (b: bool)
        ensures
            b == self.spec_intersects(*other),
    {
        self.width > 0 && self.height > 0 && other.width > 0 && other.height > 0
            && (self.x as u64) < other.x as u64 + other.width as u64
            && self.x as u64 + self.width as u64 > other.x as u64
            && (self.y as u64) < other.y as u64 + other.height as u64
            && self.y as u64 + self.height as u64 > other.y as u64
    }

    /// Check if this rectangle fully contains another
    pub fn contains(&self, other: &Rect) -> (b: bool)
        ensures
            b == self.spec_contains(*other),
    {
        self.x <= other.x && self.y <= other.y
            && self.x as u64 + self.width as u64 >= other.x as u64 + other.width as u64
            && self.y as u64 + self.height as u64 >= other.y as u64 + other.height as u64
    }
}

} // verus!
