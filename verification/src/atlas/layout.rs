use vstd::prelude::*;
use crate::atlas::plan::{LayoutModel, Placement};
use crate::packing::maxrects::Occupancy;

verus! {

/// The result of one trial: which sprites went where, and which found no
/// place.
#[derive(Debug)]
pub struct Layout {
    /// The sprites placed, in placement order.
    pub placements: Vec<Placement>,
    /// The sprites that found no place, in the order in which they were tried.
    pub unplaced: Vec<usize>,
    /// Right edge of the placed content.
    pub max_x: u32,
    /// Bottom edge of the placed content.
    pub max_y: u32,
    /// Summed area of the placed sprites with their rims.
    pub placed_area: u64,
}

impl View for Layout {
    type V = LayoutModel;

    open spec fn view(&self) -> LayoutModel {
        LayoutModel {
            placements: self.placements@,
            unplaced: self.unplaced@,
            max_x: self.max_x as int,
            max_y: self.max_y as int,
            placed_area: self.placed_area as int,
        }
    }
}

impl Layout {
    /// Area of the bounding box of the placed content.
    pub fn used_area(&self) -> (a: u64)
        ensures
            a == self@.used_area(),
    {
        let w: u64 = self.max_x as u64;
        let h: u64 = self.max_y as u64;
        assert(w * h <= 0xFFFF_FFFF * 0xFFFF_FFFF) by (nonlinear_arith)
            requires
                w <= 0xFFFF_FFFF,
                h <= 0xFFFF_FFFF,
        ;
        w * h
    }

    /// Whether this layout is strictly better than `other`: more sprites
    /// placed; or as many in a smaller bounding box; or as many in an equal
    /// bounding box with a higher occupancy.
    pub fn is_better_than(&self, other: &Layout) -> (b: bool)
        ensures
            b == self@.better_than(other@),
    {
        let mine: usize = self.placements.len();
        let theirs: usize = other.placements.len();
        if mine != theirs {
            return mine > theirs;
        }
        let used: u64 = self.used_area();
        let other_used: u64 = other.used_area();
        if used != other_used {
            return used < other_used;
        }
        proof {
            let pa = self.placed_area as int;
            let pb = other.placed_area as int;
            let u = used as int;
            assert((pa * u > pb * u) <==> (u > 0 && pa > pb)) by (nonlinear_arith)
                requires
                    u >= 0,
                    pa >= 0,
                    pb >= 0,
            ;
        }
        used > 0 && self.placed_area > other.placed_area
    }

    /// The share of its bounding box that the placed content fills.
    pub fn occupancy(&self) -> (o: Occupancy)
        ensures
            o.used == self@.placed_area,
            o.total == self@.used_area(),
    {
        Occupancy { used: self.placed_area, total: self.used_area() }
    }
}

} // verus!
