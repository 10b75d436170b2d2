//! The mathematical model of a build: one trial of one ordering under one
//! heuristic, the comparison of trials, the search for the best layout of a
//! bin, and the sequence of bins.

use vstd::prelude::*;
use crate::atlas::order::{sorted_order, SpriteOrder};
use crate::cli::{PackMode, PackingHeuristic};
use crate::packing::model::PackerState;
use crate::packing::rect::Rect;
use crate::packing::size::Size;

verus! {

/// The bin that every trial packs into, and the rim that each sprite gets.
pub struct Bin {
    /// Maximum width of an atlas.
    pub width: u32,
    /// Maximum height of an atlas.
    pub height: u32,
    /// Width of the rim around each sprite: padding plus extrusion.
    pub border: int,
}

/// What the packing of a sprite list depends on.
pub struct PackSettings {
    pub bin: Bin,
    pub heuristic: PackingHeuristic,
    pub pack_mode: PackMode,
}

/// Where one sprite went in a bin.
#[derive(Debug, Clone, Copy, PartialEq, Eq, Structural)]
pub struct Placement {
    /// Index of the sprite in the input list.
    pub index: usize,
    /// The area reserved for the sprite and the rim around it.
    pub rect: Rect,
}

/// Width of a sprite with its rim.
pub open spec fn padded_width(size: Size, border: int) -> int {
    size.width + 2 * border
}

/// Height of a sprite with its rim.
pub open spec fn padded_height(size: Size, border: int) -> int {
    size.height + 2 * border
}

/// The sprite with its rim fits an empty bin.
pub open spec fn size_fits(size: Size, bin: Bin) -> bool {
    padded_width(size, bin.border) <= bin.width && padded_height(size, bin.border) <= bin.height
}

/// Every sprite with its rim fits an empty bin.
pub open spec fn all_fit(sizes: Seq<Size>, bin: Bin) -> bool {
    forall|i: int| 0 <= i < sizes.len() ==> size_fits(#[trigger] sizes[i], bin)
}

/// Every entry of the list is an index into a list of `n` sprites.
pub open spec fn all_below(items: Seq<usize>, n: int) -> bool {
    forall|i: int| 0 <= i < items.len() ==> (#[trigger] items[i]) < n
}

/// The sizes of the listed sprites.
pub open spec fn sizes_of(sizes: Seq<Size>, items: Seq<usize>) -> Seq<Size> {
    Seq::new(items.len(), |k: int| sizes[items[k] as int])
}

/// The listed sprites in the given order.
pub open spec fn arranged(sizes: Seq<Size>, items: Seq<usize>, order: SpriteOrder) -> Seq<usize> {
    let perm = sorted_order(sizes_of(sizes, items), order);
    Seq::new(perm.len(), |k: int| items[perm[k] as int])
}

// ---------------------------------------------------------------------
// One trial
// ---------------------------------------------------------------------

/// State of a trial: the packer, the sprites placed and those that found
/// no place, both in the order in which they were tried.
pub struct TrialState {
    pub packer: PackerState,
    pub placements: Seq<Placement>,
    pub unplaced: Seq<usize>,
}

/// The trial after one more sprite was offered to the packer.
pub open spec fn trial_step(
    t: TrialState,
    index: usize,
    size: Size,
    bin: Bin,
    heuristic: PackingHeuristic,
) -> TrialState {
    let w = padded_width(size, bin.border) as u32;
    let h = padded_height(size, bin.border) as u32;
    match t.packer.placement(w, h, heuristic) {
        Some(r) => TrialState {
            packer: t.packer.place(r),
            placements: t.placements.push(Placement { index, rect: r }),
            unplaced: t.unplaced,
        },
        None => TrialState {
            packer: t.packer,
            placements: t.placements,
            unplaced: t.unplaced.push(index),
        },
    }
}

/// The trial after the first `n` sprites of `order` were offered to a
/// fresh packer one after the other.
pub open spec fn trial_upto(
    sizes: Seq<Size>,
    bin: Bin,
    order: Seq<usize>,
    heuristic: PackingHeuristic,
    n: int,
) -> TrialState
    decreases n,
{
    if n <= 0 {
        TrialState {
            packer: PackerState::empty(bin.width, bin.height),
            placements: seq![],
            unplaced: seq![],
        }
    } else {
        trial_step(
            trial_upto(sizes, bin, order, heuristic, n - 1),
            order[n - 1],
            sizes[order[n - 1] as int],
            bin,
            heuristic,
        )
    }
}

// ---------------------------------------------------------------------
// Layouts and their comparison
// ---------------------------------------------------------------------

/// The result of one trial.
pub struct LayoutModel {
    /// The sprites placed, in placement order.
    pub placements: Seq<Placement>,
    /// The sprites that found no place, in the order in which they were tried.
    pub unplaced: Seq<usize>,
    /// Right edge of the placed content.
    pub max_x: int,
    /// Bottom edge of the placed content.
    pub max_y: int,
    /// Summed area of the placed sprites with their rims.
    pub placed_area: int,
}

/// Right edge of the first `n` placements.
pub open spec fn extent_x(p: Seq<Placement>, n: int) -> int
    decreases n,
{
    if n <= 0 {
        0
    } else if p[n - 1].rect.right() > extent_x(p, n - 1) {
        p[n - 1].rect.right()
    } else {
        extent_x(p, n - 1)
    }
}

/// Bottom edge of the first `n` placements.
pub open spec fn extent_y(p: Seq<Placement>, n: int) -> int
    decreases n,
{
    if n <= 0 {
        0
    } else if p[n - 1].rect.bottom() > extent_y(p, n - 1) {
        p[n - 1].rect.bottom()
    } else {
        extent_y(p, n - 1)
    }
}

/// Summed area of the first `n` placements.
pub open spec fn area_of(p: Seq<Placement>, n: int) -> int
    decreases n,
{
    if n <= 0 {
        0
    } else {
        area_of(p, n - 1) + p[n - 1].rect.spec_area()
    }
}

/// The layout that a list of placements and a list of unplaced sprites make.
pub open spec fn layout_of(placements: Seq<Placement>, unplaced: Seq<usize>) -> LayoutModel {
    LayoutModel {
        placements,
        unplaced,
        max_x: extent_x(placements, placements.len() as int),
        max_y: extent_y(placements, placements.len() as int),
        placed_area: area_of(placements, placements.len() as int),
    }
}

/// The layout that the trial of `order` under `heuristic` ends with.
pub open spec fn trial_layout(
    sizes: Seq<Size>,
    bin: Bin,
    order: Seq<usize>,
    heuristic: PackingHeuristic,
) -> LayoutModel {
    let t = trial_upto(sizes, bin, order, heuristic, order.len() as int);
    layout_of(t.placements, t.unplaced)
}

impl LayoutModel {
    /// Area of the bounding box of the placed content.
    pub open spec fn used_area(self) -> int {
        self.max_x * self.max_y
    }

    /// The share of its bounding box that the placed content fills is
    /// greater in `self` than in `other`.
    pub open spec fn denser_than(self, other: LayoutModel) -> bool {
        self.placed_area * other.used_area() > other.placed_area * self.used_area()
    }

    /// `self` is strictly better than `other`: it places more sprites; or
    /// as many in a smaller bounding box; or as many in an equal bounding
    /// box, more densely.
    pub open spec fn better_than(self, other: LayoutModel) -> bool {
        ||| self.placements.len() > other.placements.len()
        ||| self.placements.len() == other.placements.len() && self.used_area()
            < other.used_area()
        ||| self.placements.len() == other.placements.len() && self.used_area()
            == other.used_area() && self.denser_than(other)
    }
}

// ---------------------------------------------------------------------
// The search
// ---------------------------------------------------------------------

/// The orderings that a pack mode asks for, in the order in which they are
/// tried.
pub open spec fn orders_of(mode: PackMode) -> Seq<SpriteOrder> {
    match mode {
        PackMode::Single => seq![SpriteOrder::Original],
        PackMode::Best => seq![
            SpriteOrder::Original,
            SpriteOrder::Area,
            SpriteOrder::Perimeter,
            SpriteOrder::LongSide,
            SpriteOrder::Width,
            SpriteOrder::Height,
            SpriteOrder::AspectRatio,
            SpriteOrder::Diagonal,
        ],
    }
}

/// The heuristics that a heuristic setting asks for, in the order in which
/// they are tried.
pub open spec fn heuristics_of(heuristic: PackingHeuristic) -> Seq<PackingHeuristic> {
    match heuristic {
        PackingHeuristic::Best => seq![
            PackingHeuristic::BestShortSideFit,
            PackingHeuristic::BestLongSideFit,
            PackingHeuristic::BestAreaFit,
            PackingHeuristic::BottomLeft,
            PackingHeuristic::ContactPoint,
        ],
        h => seq![h],
    }
}

/// The running best after one more candidate: the candidate takes the
/// place of the best so far only if it is strictly better.
pub open spec fn pick(best: Option<LayoutModel>, candidate: LayoutModel) -> Option<LayoutModel> {
    match best {
        None => Some(candidate),
        Some(b) => if candidate.better_than(b) {
            Some(candidate)
        } else {
            Some(b)
        },
    }
}

/// The running best after the first `m` heuristics were tried on one
/// ordering of the sprites.
pub open spec fn search_heuristics(
    sizes: Seq<Size>,
    bin: Bin,
    order: Seq<usize>,
    heuristics: Seq<PackingHeuristic>,
    m: int,
    best: Option<LayoutModel>,
) -> Option<LayoutModel>
    decreases m,
{
    if m <= 0 {
        best
    } else {
        pick(
            search_heuristics(sizes, bin, order, heuristics, m - 1, best),
            trial_layout(sizes, bin, order, heuristics[m - 1]),
        )
    }
}

/// The running best after the first `k` orderings were tried, each with
/// every heuristic.
pub open spec fn search_orders(
    sizes: Seq<Size>,
    bin: Bin,
    items: Seq<usize>,
    orders: Seq<SpriteOrder>,
    heuristics: Seq<PackingHeuristic>,
    k: int,
) -> Option<LayoutModel>
    decreases k,
{
    if k <= 0 {
        None
    } else {
        search_heuristics(
            sizes,
            bin,
            arranged(sizes, items, orders[k - 1]),
            heuristics,
            heuristics.len() as int,
            search_orders(sizes, bin, items, orders, heuristics, k - 1),
        )
    }
}

/// The layout of one bin for the listed sprites: the best among the trials
/// of every ordering and heuristic that the settings ask for, the earliest
/// of them among equals.
pub open spec fn best_layout(sizes: Seq<Size>, s: PackSettings, items: Seq<usize>) -> LayoutModel {
    search_orders(
        sizes,
        s.bin,
        items,
        orders_of(s.pack_mode),
        heuristics_of(s.heuristic),
        orders_of(s.pack_mode).len() as int,
    ).unwrap()
}

/// The layouts of the bins that the listed sprites take: the best layout
/// of the first bin, then the layouts for what it left unplaced.
pub open spec fn plan_from(sizes: Seq<Size>, s: PackSettings, items: Seq<usize>) -> Seq<
    LayoutModel,
>
    decreases items.len(),
{
    if items.len() == 0 {
        seq![]
    } else {
        let first = best_layout(sizes, s, items);
        if first.unplaced.len() < items.len() {
            seq![first] + plan_from(sizes, s, first.unplaced)
        } else {
            seq![first]
        }
    }
}

/// The indices `0, 1, .., n - 1`.
pub open spec fn all_indices(n: int) -> Seq<usize> {
    Seq::new(n as nat, |i: int| i as usize)
}

/// The layouts of all bins of a build.
pub open spec fn plan(sizes: Seq<Size>, s: PackSettings) -> Seq<LayoutModel> {
    plan_from(sizes, s, all_indices(sizes.len() as int))
}

} // verus!
