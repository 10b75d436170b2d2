use vstd::prelude::*;

verus! {

/// Width and height of a sprite or of a bin.
#[derive(Debug, Clone, Copy, PartialEq, Eq, Structural)]
pub struct Size {
    pub width: u32,
    pub height: u32,
}

impl Size {
    /// Width times height, as a mathematical integer.
    pub open spec fn spec_area(self) -> int {
        self.width * self.height
    }

    /// The longer of the two sides.
    pub open spec fn spec_long_side(self) -> int {
        if self.width >= self.height {
            self.width as int
        } else {
            self.height as int
        }
    }

    /// The shorter of the two sides.
    pub open spec fn spec_short_side(self) -> int {
        if self.width <= self.height {
            self.width as int
        } else {
            self.height as int
        }
    }

    /// A size of the given width and height.
    pub fn new(width: u32, height: u32) -> (s: Self)
        ensures
            s.width == width,
            s.height == height,
    {
        Self { width, height }
    }

    /// Width times height, widened so that it cannot overflow.
    pub fn area(&self) -> (a: u64)
        ensures
            a == self.spec_area(),
    {
        let w: u64 = self.width as u64;
        let h: u64 = self.height as u64;
        assert(w * h <= 0xFFFF_FFFF * 0xFFFF_FFFF) by (nonlinear_arith)
            requires
                w <= 0xFFFF_FFFF,
                h <= 0xFFFF_FFFF,
        ;
        w * h
    }

    /// The longer of the two sides.
    pub fn long_side(&self) -> (m: u32)
        ensures
            m == self.spec_long_side(),
    {
        if self.width >= self.height {
            self.width
        } else {
            self.height
        }
    }

    /// The shorter of the two sides.
    pub fn short_side(&self) -> (m: u32)
        ensures
            m == self.spec_short_side(),
    {
        if self.width <= self.height {
            self.width
        } else {
            self.height
        }
    }
}

} // verus!
