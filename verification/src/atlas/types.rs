use vstd::prelude::*;
use crate::bitmap::{can_allocate, Bitmap, Color};
use crate::packing::maxrects::Occupancy;
use crate::sprite::sprite::PackedSprite;

verus! {

/// A completed texture atlas
#[derive(Debug)]
pub struct Atlas {
    /// Atlas index (for multi-atlas support)
    pub index: usize,
    /// Atlas width
    pub width: u32,
    /// Atlas height
    pub height: u32,
    /// Rendered atlas image
    pub image: Bitmap,
    /// All sprites packed into this atlas
    pub sprites: Vec<PackedSprite>,
    /// Packing efficiency (ratio of sprite area to atlas area)
    pub occupancy: Occupancy,
}

impl Atlas {
    /// An atlas of the given size without sprites: its image is
    /// transparent, its occupancy zero.
    pub fn new(index: usize, width: u32, height: u32) -> (a: Self)
        requires
            can_allocate(width, height),
        ensures
            a.index == index,
            a.width == width,
            a.height == height,
            a.image@.width == width,
            a.image@.height == height,
            forall|x: int, y: int|
                a.image@.has(x, y) ==> #[trigger] a.image@.at(x, y) == (Color {
                    r: 0,
                    g: 0,
                    b: 0,
                    a: 0,
                }),
            a.sprites@.len() == 0,
            a.occupancy.used == 0,
            a.occupancy.total == width * height,
    {
        let w: u64 = width as u64;
        let h: u64 = height as u64;
        assert(w * h <= 0xFFFF_FFFF * 0xFFFF_FFFF) by (nonlinear_arith)
            requires
                w <= 0xFFFF_FFFF,
                h <= 0xFFFF_FFFF,
        ;
        Self {
            index,
            width,
            height,
            image: Bitmap::blank(width, height),
            sprites: Vec::new(),
            occupancy: Occupancy { used: 0, total: w * h },
        }
    }
}

} // verus!
