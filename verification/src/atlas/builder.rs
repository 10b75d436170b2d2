use std::sync::atomic::AtomicBool;
use std::sync::Arc;
use vstd::prelude::*;
use crate::atlas::laws::{
    layout_ok, layout_packed, lemma_arranged, lemma_best_layout_ok, lemma_extent, lemma_layout_area,
    lemma_plan_from, lemma_plan_places_each_once, lemma_push_prefix, lemma_sprites_disjoint,
    lemma_trial_upto_ok, placed_indices, rects_of, sprite_rect,
};
use crate::atlas::layout::Layout;
use crate::atlas::order::{sorted_indices, SpriteOrder};
use crate::atlas::plan::{
    all_below, all_fit, all_indices, area_of, arranged, best_layout, extent_x, extent_y,
    heuristics_of, orders_of, plan, plan_from, search_heuristics, search_orders, size_fits,
    sizes_of, trial_layout, trial_upto, Bin, LayoutModel, PackSettings, Placement,
};
use crate::atlas::pow2::{
    lemma_next_power_of_two, lemma_next_power_of_two_monotone, next_power_of_two,
    spec_next_power_of_two,
};
use crate::atlas::render::{draw_sprite, rendered_color};
use crate::atlas::types::Atlas;
use crate::bitmap::can_allocate;
use crate::cli::{PackMode, PackingHeuristic};
use crate::error::BentoError;
use crate::packing::maxrects::MaxRectsPacker;
use crate::packing::rect::Rect;
use crate::packing::size::Size;
use crate::sprite::sprite::{PackedSprite, SourceSprite};

verus! {

/// Configuration for atlas building
pub struct AtlasBuilder {
    pub max_width: u32,
    pub max_height: u32,
    pub padding: u32,
    pub heuristic: PackingHeuristic,
    pub power_of_two: bool,
    pub extrude: u32,
    pub pack_mode: PackMode,
    pub cancel_token: Option<Arc<AtomicBool>>,
}

/// The models of a list of layouts.
pub open spec fn views(layouts: Seq<Layout>) -> Seq<LayoutModel> {
    Seq::new(layouts.len(), |i: int| layouts[i]@)
}

/// The model of a layout that may be missing.
pub open spec fn view_of(layout: Option<Layout>) -> Option<LayoutModel> {
    match layout {
        Some(l) => Some(l@),
        None => None,
    }
}

/// The sizes of the sprites.
pub open spec fn sprite_sizes(sprites: Seq<SourceSprite>) -> Seq<Size> {
    Seq::new(sprites.len(), |i: int| sprites[i].spec_size())
}

/// The packed sprite is the sprite of the placement, `border` pixels
/// inside the reserved area, in atlas `atlas_index`.
pub open spec fn describes(
    packed: PackedSprite,
    p: Placement,
    sprites: Seq<SourceSprite>,
    border: int,
    atlas_index: int,
) -> bool {
    let source = sprites[p.index as int];
    &&& packed.name@ == source.name@
    &&& packed.x == p.rect.x + border
    &&& packed.y == p.rect.y + border
    &&& packed.width == source.image@.width
    &&& packed.height == source.image@.height
    &&& packed.trim_info == source.trim_info
    &&& packed.atlas_index == atlas_index
}

/// The rectangle that a packed sprite takes in its atlas.
pub open spec fn packed_rect(packed: PackedSprite) -> Rect {
    Rect { x: packed.x, y: packed.y, width: packed.width, height: packed.height }
}

/// Sprite `i` is the first that does not fit the bin.
pub open spec fn is_first_oversized(sizes: Seq<Size>, bin: Bin, i: int) -> bool {
    &&& 0 <= i < sizes.len()
    &&& !size_fits(sizes[i], bin)
    &&& forall|j: int| 0 <= j < i ==> size_fits(#[trigger] sizes[j], bin)
}

/// The orderings that a pack mode asks for.
pub fn orders_for(mode: PackMode) -> (v: Vec<SpriteOrder>)
    ensures
        v@ == orders_of(mode),
{
    let mut v: Vec<SpriteOrder> = Vec::new();
    v.push(SpriteOrder::Original);
    match mode {
        PackMode::Single => {},
        PackMode::Best => {
            v.push(SpriteOrder::Area);
            v.push(SpriteOrder::Perimeter);
            v.push(SpriteOrder::LongSide);
            v.push(SpriteOrder::Width);
            v.push(SpriteOrder::Height);
            v.push(SpriteOrder::AspectRatio);
            v.push(SpriteOrder::Diagonal);
        },
    }
    assert(v@ =~= orders_of(mode));
    v
}

/// The heuristics that a heuristic setting asks for.
pub fn heuristics_for(heuristic: PackingHeuristic) -> (v: Vec<PackingHeuristic>)
    ensures
        v@ == heuristics_of(heuristic),
{
    let mut v: Vec<PackingHeuristic> = Vec::new();
    match heuristic {
        PackingHeuristic::Best => {
            v.push(PackingHeuristic::BestShortSideFit);
            v.push(PackingHeuristic::BestLongSideFit);
            v.push(PackingHeuristic::BestAreaFit);
            v.push(PackingHeuristic::BottomLeft);
            v.push(PackingHeuristic::ContactPoint);
        },
        h => {
            v.push(h);
        },
    }
    assert(v@ =~= heuristics_of(heuristic));
    v
}

/// The listed sprites in the given order.
pub fn arrange(sizes: &Vec<Size>, items: &Vec<usize>, order: SpriteOrder) -> (v: Vec<usize>)
    requires
        all_below(items@, sizes@.len() as int),
    ensures
        v@ == arranged(sizes@, items@, order),
{
    let n: usize = items.len();
    let mut local: Vec<Size> = Vec::new();
    let mut i: usize = 0;
    while i < n
        invariant
            n == items.len(),
            i <= n,
            all_below(items@, sizes@.len() as int),
            local@ == sizes_of(sizes@, items@).take(i as int),
        decreases n - i,
    {
        local.push(sizes[items[i]]);
        assert(local@ =~= sizes_of(sizes@, items@).take(i + 1));
        i += 1;
    }
    assert(local@ =~= sizes_of(sizes@, items@));
    let perm: Vec<usize> = sorted_indices(&local, order);
    let mut out: Vec<usize> = Vec::new();
    let mut k: usize = 0;
    while k < n
        invariant
            n == items.len(),
            n == perm.len(),
            k <= n,
            forall|j: int| 0 <= j < perm.len() ==> (#[trigger] perm@[j]) < n,
            out@ == arranged(sizes@, items@, order).take(k as int),
            perm@ == crate::atlas::order::sorted_order(sizes_of(sizes@, items@), order),
        decreases n - k,
    {
        out.push(items[perm[k]]);
        assert(out@ =~= arranged(sizes@, items@, order).take(k + 1));
        k += 1;
    }
    assert(out@ =~= arranged(sizes@, items@, order));
    out
}

impl AtlasBuilder {
    /// The bin that this builder packs into and the rim that it gives each
    /// sprite.
    pub open spec fn bin(self) -> Bin {
        Bin { width: self.max_width, height: self.max_height, border: self.padding + self.extrude }
    }

    /// What the packing of a sprite list depends on.
    pub open spec fn settings(self) -> PackSettings {
        PackSettings { bin: self.bin(), heuristic: self.heuristic, pack_mode: self.pack_mode }
    }

    /// A builder for atlases of at most the given size, with a padding
    /// of one pixel, the short-side heuristic, the input order only, no
    /// rounding, no extrusion and no cancellation flag.
    pub fn new(max_width: u32, max_height: u32) -> (b: Self)
        ensures
            b.max_width == max_width,
            b.max_height == max_height,
            b.padding == 1,
            b.heuristic == PackingHeuristic::BestShortSideFit,
            !b.power_of_two,
            b.extrude == 0,
            b.pack_mode == PackMode::Single,
            b.cancel_token is None,
    {
        Self {
            max_width,
            max_height,
            padding: 1,
            heuristic: PackingHeuristic::BestShortSideFit,
            power_of_two: false,
            extrude: 0,
            pack_mode: PackMode::Single,
            cancel_token: None,
        }
    }

    /// Set the empty space kept around each sprite, in pixels.
    pub fn padding(self, padding: u32) -> (b: Self)
        ensures
            b == (AtlasBuilder { padding, ..self }),
    {
        Self { padding, ..self }
    }

    /// Set the heuristic, or `Best` to try all five.
    pub fn heuristic(self, heuristic: PackingHeuristic) -> (b: Self)
        ensures
            b == (AtlasBuilder { heuristic, ..self }),
    {
        Self { heuristic, ..self }
    }

    /// Set whether the sides of each atlas are rounded up to powers of two.
    pub fn power_of_two(self, pot: bool) -> (b: Self)
        ensures
            b == (AtlasBuilder { power_of_two: pot, ..self }),
    {
        Self { power_of_two: pot, ..self }
    }

    /// Set how many times the outer pixel ring of each sprite is replicated
    /// outward.
    pub fn extrude(self, extrude: u32) -> (b: Self)
        ensures
            b == (AtlasBuilder { extrude, ..self }),
    {
        Self { extrude, ..self }
    }

    /// Set whether only the input order or all eight orderings are tried.
    pub fn pack_mode(self, pack_mode: PackMode) -> (b: Self)
        ensures
            b == (AtlasBuilder { pack_mode, ..self }),
    {
        Self { pack_mode, ..self }
    }

    /// Hand the builder a flag that the caller may set to stop the build.
    pub fn cancel_token(self, token: Arc<AtomicBool>) -> (b: Self)
        ensures
            b == (AtlasBuilder { cancel_token: Some(token), ..self }),
    {
        Self { cancel_token: Some(token), ..self }
    }

    /// Whether the caller asked to stop. Without a cancellation flag the
    /// answer is always no; with one, it is whatever the flag holds now.
    pub fn is_cancelled(&self) -> (b: bool)
        ensures
            self.cancel_token is None ==> !b,
    {
        match &self.cancel_token {
            Some(token) => token.load(std::sync::atomic::Ordering::Relaxed),
            None => false,
        }
    }

    /// Whether a sprite of this size, with padding and extrusion on every
    /// side, fits the maximum atlas size.
    pub fn sprite_fits(&self, size: &Size) -> (b: bool)
        ensures
            b == size_fits(*size, self.bin()),
    {
        let border: u64 = self.padding as u64 + self.extrude as u64;
        size.width as u64 + 2 * border <= self.max_width as u64 && size.height as u64 + 2
            * border <= self.max_height as u64
    }

    /// The first sprite that does not fit the maximum atlas size.
    pub fn first_oversized(&self, sizes: &Vec<Size>) -> (r: Option<usize>)
        ensures
            match r {
                None => all_fit(sizes@, self.bin()),
                Some(i) => {
                    &&& i < sizes@.len()
                    &&& !size_fits(sizes@[i as int], self.bin())
                    &&& forall|j: int| 0 <= j < i ==> size_fits(#[trigger] sizes@[j], self.bin())
                },
            },
    {
        let n: usize = sizes.len();
        let mut i: usize = 0;
        while i < n
            invariant
                n == sizes.len(),
                i <= n,
                forall|j: int| 0 <= j < i ==> size_fits(#[trigger] sizes@[j], self.bin()),
            decreases n - i,
        {
            if !self.sprite_fits(&sizes[i]) {
                return Some(i);
            }
            i += 1;
        }
        None
    }

    /// One trial: offer the sprites to a fresh packer in the given order,
    /// under one heuristic. Returns nothing if the build was cancelled.
    pub fn run_trial(&self, sizes: &Vec<Size>, order: &Vec<usize>, heuristic: PackingHeuristic) -> (r:
        Option<Layout>)
        requires
            all_below(order@, sizes@.len() as int),
            all_fit(sizes@, self.bin()),
        ensures
            r matches Some(l) ==> l@ == trial_layout(sizes@, self.bin(), order@, heuristic),
            r is None ==> self.cancel_token is Some,
    {
        let ghost bin = self.bin();
        let border: u64 = self.padding as u64 + self.extrude as u64;
        let mut packer = MaxRectsPacker::new(self.max_width, self.max_height);
        let mut placements: Vec<Placement> = Vec::new();
        let mut unplaced: Vec<usize> = Vec::new();
        let mut max_x: u32 = 0;
        let mut max_y: u32 = 0;
        let mut placed_area: u64 = 0;
        let n: usize = order.len();
        let mut i: usize = 0;
        while i < n
            invariant
                n == order.len(),
                i <= n,
                bin == self.bin(),
                border == bin.border,
                all_below(order@, sizes@.len() as int),
                all_fit(sizes@, bin),
                packer@ == trial_upto(sizes@, bin, order@, heuristic, i as int).packer,
                placements@ == trial_upto(sizes@, bin, order@, heuristic, i as int).placements,
                unplaced@ == trial_upto(sizes@, bin, order@, heuristic, i as int).unplaced,
                max_x == extent_x(placements@, placements@.len() as int),
                max_y == extent_y(placements@, placements@.len() as int),
                placed_area == area_of(placements@, placements@.len() as int),
            decreases n - i,
        {
            if self.is_cancelled() {
                return None;
            }
            proof {
                lemma_trial_upto_ok(sizes@, bin, order@, heuristic, i as int);
                lemma_trial_upto_ok(sizes@, bin, order@, heuristic, i + 1);
            }
            let index: usize = order[i];
            let size: Size = sizes[index];
            assert(size_fits(sizes@[index as int], bin));
            let padded_w: u32 = (size.width as u64 + 2 * border) as u32;
            let padded_h: u32 = (size.height as u64 + 2 * border) as u32;
            match packer.insert(padded_w, padded_h, heuristic) {
                Some(rect) => {
                    let ghost earlier = placements@;
                    placements.push(Placement { index, rect });
                    proof {
                        lemma_push_prefix(
                            earlier,
                            Placement { index, rect },
                            earlier.len() as int,
                        );
                        let next = trial_upto(sizes@, bin, order@, heuristic, i + 1);
                        assert(placements@ == next.placements);
                        assert(rects_of(placements@)[placements@.len() - 1] == rect);
                        lemma_layout_area(placements@, bin.width, bin.height);
                        lemma_extent(
                            placements@,
                            placements@.len() as int,
                            bin.width,
                            bin.height,
                        );
                        assert(extent_x(placements@, placements@.len() as int) * extent_y(
                            placements@,
                            placements@.len() as int,
                        ) <= 0xFFFF_FFFF * 0xFFFF_FFFF) by (nonlinear_arith)
                            requires
                                0 <= extent_x(placements@, placements@.len() as int)
                                    <= 0xFFFF_FFFF,
                                0 <= extent_y(placements@, placements@.len() as int)
                                    <= 0xFFFF_FFFF,
                        ;
                    }
                    let right: u32 = rect.x + rect.width;
                    let bottom: u32 = rect.y + rect.height;
                    if right > max_x {
                        max_x = right;
                    }
                    if bottom > max_y {
                        max_y = bottom;
                    }
                    placed_area = placed_area + rect.area();
                },
                None => {
                    unplaced.push(index);
                },
            }
            i += 1;
        }
        Some(Layout { placements, unplaced, max_x, max_y, placed_area })
    }

    /// The layout of one bin for the listed sprites: the best among the
    /// trials of every ordering and heuristic asked for. Returns nothing if
    /// the build was cancelled.
    pub fn pack_bin(&self, sizes: &Vec<Size>, items: &Vec<usize>) -> (r: Option<Layout>)
        requires
            all_below(items@, sizes@.len() as int),
            all_fit(sizes@, self.bin()),
        ensures
            r matches Some(l) ==> l@ == best_layout(sizes@, self.settings(), items@),
            r is None ==> self.cancel_token is Some,
    {
        let ghost bin = self.bin();
        let count: usize = items.len();
        let orders: Vec<SpriteOrder> = orders_for(self.pack_mode);
        let heuristics: Vec<PackingHeuristic> = heuristics_for(self.heuristic);
        let mut best: Option<Layout> = None;
        let mut k: usize = 0;
        while k < orders.len()
            invariant
                k <= orders.len(),
                bin == self.bin(),
                count == items@.len(),
                orders@ == orders_of(self.pack_mode),
                heuristics@ == heuristics_of(self.heuristic),
                all_below(items@, sizes@.len() as int),
                all_fit(sizes@, bin),
                view_of(best) == search_orders(
                    sizes@,
                    bin,
                    items@,
                    orders@,
                    heuristics@,
                    k as int,
                ),
            decreases orders.len() - k,
        {
            if self.is_cancelled() {
                return None;
            }
            let order: Vec<usize> = arrange(sizes, items, orders[k]);
            proof {
                lemma_arranged(sizes@, items@, orders@[k as int]);
            }
            let ghost before = view_of(best);
            let mut m: usize = 0;
            while m < heuristics.len()
                invariant
                    m <= heuristics.len(),
                    k < orders.len(),
                    bin == self.bin(),
                    all_below(order@, sizes@.len() as int),
                    all_fit(sizes@, bin),
                    order@ == arranged(sizes@, items@, orders@[k as int]),
                    view_of(best) == search_heuristics(
                        sizes@,
                        bin,
                        order@,
                        heuristics@,
                        m as int,
                        before,
                    ),
                decreases heuristics.len() - m,
            {
                if self.is_cancelled() {
                    return None;
                }
                let layout: Layout = match self.run_trial(sizes, &order, heuristics[m]) {
                    Some(l) => l,
                    None => {
                        return None;
                    },
                };
                best =
                match best {
                    None => Some(layout),
                    Some(b) => if layout.is_better_than(&b) {
                        Some(layout)
                    } else {
                        Some(b)
                    },
                };
                m += 1;
            }
            k += 1;
        }
        assert(orders@.len() > 0);
        best
    }

    /// The layouts of all bins for sprites of the given sizes. Returns
    /// nothing if the build was cancelled.
    pub fn plan_layouts(&self, sizes: &Vec<Size>) -> (r: Option<Vec<Layout>>)
        requires
            all_fit(sizes@, self.bin()),
        ensures
            r matches Some(v) ==> views(v@) == plan(sizes@, self.settings()),
            r is None ==> self.cancel_token is Some,
    {
        let ghost s = self.settings();
        let n: usize = sizes.len();
        let mut remaining: Vec<usize> = Vec::new();
        let mut i: usize = 0;
        while i < n
            invariant
                n == sizes.len(),
                i <= n,
                remaining@ == all_indices(n as int).take(i as int),
            decreases n - i,
        {
            remaining.push(i);
            assert(remaining@ =~= all_indices(n as int).take(i + 1));
            i += 1;
        }
        assert(remaining@ =~= all_indices(n as int));
        let mut layouts: Vec<Layout> = Vec::new();
        assert(views(layouts@) + plan_from(sizes@, s, remaining@) =~= plan(sizes@, s));
        while remaining.len() > 0
            invariant
                s == self.settings(),
                all_fit(sizes@, s.bin),
                all_below(remaining@, sizes@.len() as int),
                views(layouts@) + plan_from(sizes@, s, remaining@) == plan(sizes@, s),
            decreases remaining.len(),
        {
            if self.is_cancelled() {
                return None;
            }
            let count: usize = remaining.len();
            let layout: Layout = match self.pack_bin(sizes, &remaining) {
                Some(l) => l,
                None => {
                    return None;
                },
            };
            proof {
                lemma_best_layout_ok(sizes@, s, remaining@);
                assert(layout_ok(layout@, sizes@, s.bin, remaining@));
                assert(plan_from(sizes@, s, remaining@) == seq![layout@] + plan_from(
                    sizes@,
                    s,
                    layout@.unplaced,
                ));
            }
            let ghost done = views(layouts@);
            let ghost rest = plan_from(sizes@, s, layout@.unplaced);
            let mut next: Vec<usize> = Vec::new();
            let mut j: usize = 0;
            while j < layout.unplaced.len()
                invariant
                    j <= layout.unplaced.len(),
                    next@ == layout.unplaced@.take(j as int),
                decreases layout.unplaced.len() - j,
            {
                next.push(layout.unplaced[j]);
                assert(next@ =~= layout.unplaced@.take(j + 1));
                j += 1;
            }
            assert(next@ =~= layout.unplaced@);
            remaining = next;
            layouts.push(layout);
            assert(views(layouts@) =~= done.push(layout@));
            assert(views(layouts@) + rest =~= done + (seq![layout@] + rest));
        }
        assert(views(layouts@) + plan_from(sizes@, s, remaining@) =~= views(layouts@));
        Some(layouts)
    }

    /// Width or height of an atlas whose content extends to `extent`.
    pub open spec fn atlas_side(self, extent: int) -> int {
        if self.power_of_two {
            spec_next_power_of_two(extent as u32) as int
        } else {
            extent
        }
    }

    /// The canvas of the largest atlas that this builder can produce can be
    /// allocated, and with power-of-two rounding its sides are `u32` values.
    pub open spec fn spec_canvas_fits(self) -> bool {
        if self.power_of_two {
            &&& self.max_width <= 0x8000_0000
            &&& self.max_height <= 0x8000_0000
            &&& can_allocate(
                spec_next_power_of_two(self.max_width),
                spec_next_power_of_two(self.max_height),
            )
        } else {
            can_allocate(self.max_width, self.max_height)
        }
    }

    /// The atlas is layout `l` rendered as atlas `index`: its size is the
    /// extent of the content, rounded if asked for; its sprites are those
    /// of the placements in their order; its occupancy is the placed area
    /// over the area of the content's bounding box; and its image shows
    /// the sprites drawn one after the other on a transparent canvas.
    pub open spec fn renders(
        self,
        atlas: Atlas,
        index: int,
        l: LayoutModel,
        sprites: Seq<SourceSprite>,
    ) -> bool {
        &&& atlas.index == index
        &&& atlas.width == self.atlas_side(l.max_x)
        &&& atlas.height == self.atlas_side(l.max_y)
        &&& atlas.image@.width == atlas.width
        &&& atlas.image@.height == atlas.height
        &&& atlas.sprites@.len() == l.placements.len()
        &&& forall|k: int|
            0 <= k < l.placements.len() ==> describes(
                #[trigger] atlas.sprites@[k],
                l.placements[k],
                sprites,
                self.bin().border,
                index,
            )
        &&& atlas.occupancy.used == l.placed_area
        &&& atlas.occupancy.total == l.used_area()
        &&& forall|px: int, py: int|
            atlas.image@.has(px, py) ==> #[trigger] atlas.image@.at(px, py) == rendered_color(
                sprites,
                l.placements,
                self.bin().border,
                self.extrude as int,
                l.placements.len() as int,
                px,
                py,
            )
    }

    /// Whether the canvas of the largest atlas that this builder can
    /// produce can be allocated.
    pub fn canvas_fits(&self) -> (b: bool)
        ensures
            b == self.spec_canvas_fits(),
    {
        let limit: u128 = isize::MAX as u128;
        if self.power_of_two {
            if self.max_width > 0x8000_0000 || self.max_height > 0x8000_0000 {
                return false;
            }
            let w: u128 = next_power_of_two(self.max_width) as u128;
            let h: u128 = next_power_of_two(self.max_height) as u128;
            assert(4 * w * h <= 4 * 0xFFFF_FFFF * 0xFFFF_FFFF) by (nonlinear_arith)
                requires
                    w <= 0xFFFF_FFFF,
                    h <= 0xFFFF_FFFF,
            ;
            4 * w * h <= limit
        } else {
            let w: u128 = self.max_width as u128;
            let h: u128 = self.max_height as u128;
            assert(4 * w * h <= 4 * 0xFFFF_FFFF * 0xFFFF_FFFF) by (nonlinear_arith)
                requires
                    w <= 0xFFFF_FFFF,
                    h <= 0xFFFF_FFFF,
            ;
            4 * w * h <= limit
        }
    }

    /// Render one layout into a new atlas.
    pub fn pack_atlas(&self, index: usize, sprites: &Vec<SourceSprite>, layout: &Layout) -> (atlas:
        Atlas)
        requires
            self.spec_canvas_fits(),
            layout_packed(layout@, sprite_sizes(sprites@), self.bin()),
        ensures
            self.renders(atlas, index as int, layout@, sprites@),
    {
        let ghost sizes = sprite_sizes(sprites@);
        let ghost bin = self.bin();
        let border: u64 = self.padding as u64 + self.extrude as u64;
        // Determine final atlas dimensions
        let final_width: u32 = if self.power_of_two {
            next_power_of_two(layout.max_x)
        } else {
            layout.max_x
        };
        let final_height: u32 = if self.power_of_two {
            next_power_of_two(layout.max_y)
        } else {
            layout.max_y
        };
        proof {
            let (full_w, full_h) = if self.power_of_two {
                lemma_next_power_of_two_monotone(layout.max_x, self.max_width);
                lemma_next_power_of_two_monotone(layout.max_y, self.max_height);
                (
                    spec_next_power_of_two(self.max_width) as int,
                    spec_next_power_of_two(self.max_height) as int,
                )
            } else {
                (self.max_width as int, self.max_height as int)
            };
            assert(4 * final_width * final_height <= 4 * full_w * full_h) by (nonlinear_arith)
                requires
                    0 <= final_width <= full_w,
                    0 <= final_height <= full_h,
            ;
        }
        let mut atlas = Atlas::new(index, final_width, final_height);
        let n: usize = layout.placements.len();
        let mut k: usize = 0;
        // Render sprites to atlas
        while k < n
            invariant
                n == layout.placements@.len(),
                k <= n,
                sizes == sprite_sizes(sprites@),
                bin == self.bin(),
                border == bin.border,
                layout_packed(layout@, sizes, bin),
                atlas.index == index,
                atlas.width == final_width,
                atlas.height == final_height,
                final_width >= layout.max_x,
                final_height >= layout.max_y,
                atlas.image@.width == final_width,
                atlas.image@.height == final_height,
                atlas.occupancy.used == 0,
                atlas.sprites@.len() == k,
                forall|j: int|
                    0 <= j < k ==> describes(
                        #[trigger] atlas.sprites@[j],
                        layout.placements@[j],
                        sprites@,
                        bin.border,
                        index as int,
                    ),
                forall|px: int, py: int|
                    atlas.image@.has(px, py) ==> #[trigger] atlas.image@.at(px, py)
                        == rendered_color(
                        sprites@,
                        layout.placements@,
                        bin.border,
                        self.extrude as int,
                        k as int,
                        px,
                        py,
                    ),
            decreases n - k,
        {
            let p: Placement = layout.placements[k];
            proof {
                assert(p.index < sizes.len());
                assert(rects_of(layout.placements@)[k as int] == p.rect);
                lemma_extent(layout.placements@, n as int, bin.width, bin.height);
                assert(sizes[p.index as int] == sprites@[p.index as int].spec_size());
            }
            let source: &SourceSprite = &sprites[p.index];
            let sprite_x: u32 = (p.rect.x as u64 + border) as u32;
            let sprite_y: u32 = (p.rect.y as u64 + border) as u32;
            draw_sprite(&mut atlas.image, &source.image, sprite_x, sprite_y, self.extrude);
            let ghost before = atlas.sprites@;
            atlas.sprites.push(
                PackedSprite {
                    name: source.name.clone(),
                    x: sprite_x,
                    y: sprite_y,
                    width: source.width(),
                    height: source.height(),
                    trim_info: source.trim_info,
                    atlas_index: index,
                },
            );
            assert forall|j: int| 0 <= j < k + 1 implies describes(
                #[trigger] atlas.sprites@[j],
                layout.placements@[j],
                sprites@,
                bin.border,
                index as int,
            ) by {
                if j < k {
                    assert(atlas.sprites@[j] == before[j]);
                }
            }
            k += 1;
        }
        atlas.occupancy = layout.occupancy();
        atlas
    }

    /// Build atlases from the given sprites
    ///
    /// Fails without sprites, and fails naming the first sprite that, with
    /// padding and extrusion on every side, exceeds the maximum atlas
    /// size. Otherwise the sprites are packed bin after bin, each bin with
    /// the best layout that the orderings and heuristics asked for give,
    /// and every layout is rendered into an atlas; with a cancellation
    /// flag, the build may instead end as cancelled.
    pub fn build(&self, sprites: Vec<SourceSprite>) -> (r: Result<Vec<Atlas>, BentoError>)
        requires
            self.spec_canvas_fits(),
        ensures
            match r {
                Ok(atlases) => {
                    let layouts = plan(sprite_sizes(sprites@), self.settings());
                    &&& sprites@.len() > 0
                    &&& all_fit(sprite_sizes(sprites@), self.bin())
                    &&& atlases@.len() == layouts.len()
                    &&& atlases@.len() > 0
                    &&& forall|a: int|
                        0 <= a < atlases@.len() ==> self.renders(
                            #[trigger] atlases@[a],
                            a,
                            layouts[a],
                            sprites@,
                        )
                    &&& forall|a: int, i: int, j: int|
                        0 <= a < atlases@.len() && 0 <= i < atlases@[a].sprites@.len() && 0 <= j
                            < atlases@[a].sprites@.len() && i != j ==> !packed_rect(
                            #[trigger] atlases@[a].sprites@[i],
                        ).spec_intersects(packed_rect(#[trigger] atlases@[a].sprites@[j]))
                    &&& forall|a: int, i: int|
                        0 <= a < atlases@.len() && 0 <= i < atlases@[a].sprites@.len() ==> {
                            &&& packed_rect(#[trigger] atlases@[a].sprites@[i]).right()
                                <= atlases@[a].width
                            &&& packed_rect(atlases@[a].sprites@[i]).bottom() <= atlases@[a].height
                        }
                    &&& forall|v: usize|
                        placed_indices(layouts).to_multiset().count(v) == (if v < sprites@.len() {
                            1nat
                        } else {
                            0nat
                        })
                    &&& forall|a: int|
                        0 <= a < atlases@.len() ==> (#[trigger] atlases@[a]).occupancy.in_unit_range()
                },
                Err(BentoError::NoImages) => sprites@.len() == 0,
                Err(BentoError::SpriteTooLarge { name, width, height, max_width, max_height }) => {
                    &&& max_width == self.max_width
                    &&& max_height == self.max_height
                    &&& exists|i: int|
                        {
                            &&& is_first_oversized(sprite_sizes(sprites@), self.bin(), i)
                            &&& name@ == sprites@[i].name@
                            &&& width == sprites@[i].image@.width
                            &&& height == sprites@[i].image@.height
                        }
                },
                Err(BentoError::Cancelled) => {
                    &&& self.cancel_token is Some
                    &&& sprites@.len() > 0
                    &&& all_fit(sprite_sizes(sprites@), self.bin())
                },
            },
    {
        let n: usize = sprites.len();
        if n == 0 {
            return Err(BentoError::NoImages);
        }
        let mut sizes: Vec<Size> = Vec::new();
        let mut i: usize = 0;
        while i < n
            invariant
                n == sprites.len(),
                i <= n,
                sizes@ == sprite_sizes(sprites@).take(i as int),
            decreases n - i,
        {
            sizes.push(sprites[i].size());
            assert(sizes@ =~= sprite_sizes(sprites@).take(i + 1));
            i += 1;
        }
        assert(sizes@ =~= sprite_sizes(sprites@));
        // Validate all sprites can fit
        match self.first_oversized(&sizes) {
            Some(i) => {
                assert(is_first_oversized(sprite_sizes(sprites@), self.bin(), i as int));
                return Err(
                    BentoError::SpriteTooLarge {
                        name: sprites[i].name.clone(),
                        width: sprites[i].width(),
                        height: sprites[i].height(),
                        max_width: self.max_width,
                        max_height: self.max_height,
                    },
                );
            },
            None => {},
        }
        let layouts: Vec<Layout> = match self.plan_layouts(&sizes) {
            Some(l) => l,
            None => {
                return Err(BentoError::Cancelled);
            },
        };
        let ghost models = plan(sizes@, self.settings());
        proof {
            lemma_plan_from(sizes@, self.settings(), all_indices(sizes@.len() as int));
            lemma_plan_places_each_once(sizes@, self.settings());
            assert(models.len() == layouts@.len());
        }
        let mut atlases: Vec<Atlas> = Vec::new();
        let count: usize = layouts.len();
        let mut a: usize = 0;
        while a < count
            invariant
                count == layouts@.len(),
                a <= count,
                self.spec_canvas_fits(),
                sizes@ == sprite_sizes(sprites@),
                models == plan(sizes@, self.settings()),
                views(layouts@) == models,
                forall|b: int|
                    0 <= b < models.len() ==> layout_packed(#[trigger] models[b], sizes@, self.bin()),
                atlases@.len() == a,
                forall|b: int|
                    0 <= b < a ==> self.renders(#[trigger] atlases@[b], b, models[b], sprites@),
            decreases count - a,
        {
            assert(layouts@[a as int]@ == models[a as int]);
            let atlas = self.pack_atlas(a, &sprites, &layouts[a]);
            let ghost before = atlases@;
            atlases.push(atlas);
            assert forall|b: int| 0 <= b < a + 1 implies self.renders(
                #[trigger] atlases@[b],
                b,
                models[b],
                sprites@,
            ) by {
                if b < a {
                    assert(atlases@[b] == before[b]);
                }
            }
            a += 1;
        }
        proof {
            self.lemma_rendered_apart(atlases@, models, sprites@);
        }
        Ok(atlases)
    }

    /// In atlases that render sound layouts no two sprites intersect, every
    /// sprite lies inside its atlas, and no occupancy exceeds one.
    pub proof fn lemma_rendered_apart(
        self,
        atlases: Seq<Atlas>,
        layouts: Seq<LayoutModel>,
        sprites: Seq<SourceSprite>,
    )
        requires
            atlases.len() == layouts.len(),
            self.spec_canvas_fits(),
            forall|b: int|
                0 <= b < layouts.len() ==> layout_packed(
                    #[trigger] layouts[b],
                    sprite_sizes(sprites),
                    self.bin(),
                ),
            forall|b: int|
                0 <= b < atlases.len() ==> self.renders(#[trigger] atlases[b], b, layouts[b], sprites),
        ensures
            forall|a: int, i: int, j: int|
                0 <= a < atlases.len() && 0 <= i < atlases[a].sprites@.len() && 0 <= j
                    < atlases[a].sprites@.len() && i != j ==> !packed_rect(
                    #[trigger] atlases[a].sprites@[i],
                ).spec_intersects(packed_rect(#[trigger] atlases[a].sprites@[j])),
            forall|a: int, i: int|
                0 <= a < atlases.len() && 0 <= i < atlases[a].sprites@.len() ==> {
                    &&& packed_rect(#[trigger] atlases[a].sprites@[i]).right() <= atlases[a].width
                    &&& packed_rect(atlases[a].sprites@[i]).bottom() <= atlases[a].height
                },
            forall|a: int| 0 <= a < atlases.len() ==> (#[trigger] atlases[a]).occupancy.in_unit_range(),
    {
        let sizes = sprite_sizes(sprites);
        let bin = self.bin();
        assert forall|a: int, i: int|
            0 <= a < atlases.len() && 0 <= i < atlases[a].sprites@.len() implies {
            &&& packed_rect(#[trigger] atlases[a].sprites@[i]) == sprite_rect(
                layouts[a].placements[i],
                sizes,
                bin,
            )
            &&& packed_rect(atlases[a].sprites@[i]).right() <= atlases[a].width
            &&& packed_rect(atlases[a].sprites@[i]).bottom() <= atlases[a].height
        } by {
            let l = layouts[a];
            assert(self.renders(atlases[a], a, l, sprites));
            assert(layout_packed(l, sizes, bin));
            assert(describes(atlases[a].sprites@[i], l.placements[i], sprites, bin.border, a));
            let p = l.placements[i];
            assert(rects_of(l.placements)[i] == p.rect);
            lemma_extent(l.placements, l.placements.len() as int, bin.width, bin.height);
            assert(sizes[p.index as int] == sprites[p.index as int].spec_size());
            if self.power_of_two {
                lemma_next_power_of_two(l.max_x as u32);
                lemma_next_power_of_two(l.max_y as u32);
            }
        }
        assert forall|a: int, i: int, j: int|
            0 <= a < atlases.len() && 0 <= i < atlases[a].sprites@.len() && 0 <= j
                < atlases[a].sprites@.len() && i != j implies !packed_rect(
            #[trigger] atlases[a].sprites@[i],
        ).spec_intersects(packed_rect(#[trigger] atlases[a].sprites@[j])) by {
            assert(self.renders(atlases[a], a, layouts[a], sprites));
            lemma_sprites_disjoint(layouts[a], sizes, bin, i, j);
        }
        assert forall|a: int| 0 <= a < atlases.len() implies (#[trigger] atlases[a])
            .occupancy.in_unit_range() by {
            assert(self.renders(atlases[a], a, layouts[a], sprites));
            assert(layout_packed(layouts[a], sizes, bin));
        }
    }
}

} // verus!
