use vstd::prelude::*;
use crate::cli::PackingHeuristic;
use crate::packing::cover::{
    all_covered, lemma_empty_covered, lemma_insert_covered, lemma_used_area,
};
use crate::packing::lemmas::{
    lemma_best_fit_upto, lemma_first_mergeable_unique, lemma_insert_wf, lemma_merge_pair_ok,
    lemma_placement, lemma_place_wf, lemma_prune_upto_ok, lemma_split_ok,
};
use crate::packing::model::{
    all_free_ok, best_fit_upto, bin_contact, contact_score, dominated, fits, free_ok, is_best_fit,
    is_first_mergeable, kept_upto, merge_all, merge_pair, mergeable, merged, overlap_len,
    placed_contact, prune_upto, pruned, score, score_less, slivers, slivers_upto, split_free,
    touch_len, within_bin, PackerState,
};
use crate::packing::rect::Rect;

verus! {

/// Sum of the areas of the first `n` rectangles.
pub open spec fn area_sum(s: Seq<Rect>, n: int) -> int
    decreases n,
{
    if n <= 0 {
        0
    } else {
        area_sum(s, n - 1) + s[n - 1].spec_area()
    }
}

/// The bin's area less the summed areas of the free rectangles, and 0 where
/// that sum exceeds the bin's area (free rectangles may overlap).
pub open spec fn used_area(st: PackerState) -> int {
    let total = st.bin_width * st.bin_height;
    let free = area_sum(st.free, st.free.len() as int);
    if free >= total {
        0
    } else {
        total - free
    }
}

/// A ratio of two areas, the part over the whole.
#[derive(Debug, Clone, Copy, PartialEq, Eq, Structural)]
pub struct Occupancy {
    /// The occupied area.
    pub used: u64,
    /// The area it is measured against.
    pub total: u64,
}

impl Occupancy {
    /// The ratio lies between 0 and 1.
    pub open spec fn in_unit_range(self) -> bool {
        self.used <= self.total
    }

    /// The ratio is exactly 1.
    pub open spec fn spec_is_full(self) -> bool {
        self.used == self.total && self.total > 0
    }

    /// Whether the ratio is exactly 1.
    pub fn is_full(&self) -> (b: bool)
        ensures
            b == self.spec_is_full(),
    {
        self.used == self.total && self.total > 0
    }
}

/// MaxRects bin packer implementation
pub struct MaxRectsPacker {
    bin_width: u32,
    bin_height: u32,
    free_rects: Vec<Rect>,
    placed_rects: Vec<Rect>,
}

impl View for MaxRectsPacker {
    type V = PackerState;

    closed spec fn view(&self) -> PackerState {
        PackerState {
            bin_width: self.bin_width,
            bin_height: self.bin_height,
            free: self.free_rects@,
            placed: self.placed_rects@,
        }
    }
}

fn overlap(a0: u64, a1: u64, b0: u64, b1: u64) -> (r: u64)
    ensures
        r == overlap_len(a0 as int, a1 as int, b0 as int, b1 as int),
        r <= a1,
{
    let lo: u64 = if a0 >= b0 { a0 } else { b0 };
    let hi: u64 = if a1 <= b1 { a1 } else { b1 };
    if hi > lo {
        hi - lo
    } else {
        0
    }
}

fn score_lt(a: (i128, i128), b: (i128, i128)) -> (r: bool)
    ensures
        r == score_less((a.0 as int, a.1 as int), (b.0 as int, b.1 as int)),
{
    a.0 < b.0 || (a.0 == b.0 && a.1 < b.1)
}

fn can_merge(a: &Rect, b: &Rect) -> (r: bool)
    ensures
        r == mergeable(*a, *b),
{
    let sideways: bool = a.y == b.y && a.height == b.height && (a.x as u64 + a.width as u64
        == b.x as u64 || b.x as u64 + b.width as u64 == a.x as u64);
    let upright: bool = a.x == b.x && a.width == b.width && (a.y as u64 + a.height as u64
        == b.y as u64 || b.y as u64 + b.height as u64 == a.y as u64);
    sideways || upright
}

/// The first mergeable pair of the list, if it has one.
fn find_mergeable(v: &Vec<Rect>) -> (r: Option<(usize, usize)>)
    ensures
        match r {
            Some((i, j)) => is_first_mergeable(v@, i as int, j as int),
            None => forall|a: int, b: int| !is_first_mergeable(v@, a, b),
        },
{
    let n: usize = v.len();
    let mut i: usize = 0;
    while i < n
        invariant
            n == v.len(),
            i <= n,
            forall|a: int, b: int|
                0 <= a < b < n && a < i ==> !mergeable(#[trigger] v@[a], #[trigger] v@[b]),
        decreases n - i,
    {
        let mut j: usize = i + 1;
        while j < n
            invariant
                n == v.len(),
                i < j <= n,
                forall|a: int, b: int|
                    0 <= a < b < n && (a < i || (a == i && b < j)) ==> !mergeable(
                        #[trigger] v@[a],
                        #[trigger] v@[b],
                    ),
            decreases n - j,
        {
            if can_merge(&v[i], &v[j]) {
                return Some((i, j));
            }
            j += 1;
        }
        i += 1;
    }
    None
}

impl MaxRectsPacker {
    /// A packer for an empty bin of the given size.
    pub fn new(width: u32, height: u32) -> (p: Self)
        ensures
            p@ == PackerState::empty(width, height),
            p@.wf(),
            all_covered(p@),
    {
        let initial_rect = Rect::new(0, 0, width, height);
        let mut free_rects: Vec<Rect> = Vec::new();
        free_rects.push(initial_rect);
        let p = Self { bin_width: width, bin_height: height, free_rects, placed_rects: Vec::new() };
        proof {
            assert(p@.free =~= PackerState::empty(width, height).free);
            assert(p@.placed =~= PackerState::empty(width, height).placed);
            lemma_empty_covered(width, height);
        }
        p
    }

    /// Width of the bin.
    pub fn bin_width(&self) -> (w: u32)
        ensures
            w == self@.bin_width,
    {
        self.bin_width
    }

    /// Height of the bin.
    pub fn bin_height(&self) -> (h: u32)
        ensures
            h == self@.bin_height,
    {
        self.bin_height
    }

    /// The rectangles placed so far, in placement order.
    pub fn placed(&self) -> (v: &Vec<Rect>)
        ensures
            v@ == self@.placed,
    {
        &self.placed_rects
    }

    /// The free rectangles, in scan order.
    pub fn free(&self) -> (v: &Vec<Rect>)
        ensures
            v@ == self@.free,
    {
        &self.free_rects
    }

    /// Try to insert a rectangle with the given dimensions
    /// Returns the placed rectangle if successful
    pub fn insert(&mut self, width: u32, height: u32, heuristic: PackingHeuristic) -> (r: Option<
        Rect,
    >)
        requires
            old(self)@.wf(),
        ensures
            r == old(self)@.placement(width, height, heuristic),
            final(self)@ == old(self)@.insert(width, height, heuristic),
            final(self)@.wf(),
            r is Some <==> old(self)@.can_fit(width, height),
            r is None ==> final(self)@ == old(self)@,
            all_covered(old(self)@) ==> all_covered(final(self)@),
            r matches Some(p) ==> {
                &&& p.width == width
                &&& p.height == height
                &&& within_bin(p, old(self)@.bin_width, old(self)@.bin_height)
                &&& forall|k: int|
                    0 <= k < old(self)@.placed.len() ==> !p.spec_intersects(
                        #[trigger] old(self)@.placed[k],
                    )
                &&& final(self)@.placed == old(self)@.placed.push(p)
            },
    {
        proof {
            lemma_insert_wf(self@, width, height, heuristic);
            if all_covered(self@) {
                lemma_insert_covered(self@, width, height, heuristic);
            }
        }
        match self.find_position(width, height, heuristic) {
            Some(best_rect) => {
                self.place_rect(best_rect);
                Some(best_rect)
            },
            None => None,
        }
    }

    /// Check if a rectangle of the given size can fit
    pub fn can_fit(&self, width: u32, height: u32) -> (b: bool)
        ensures
            b == self@.can_fit(width, height),
    {
        let n: usize = self.free_rects.len();
        let mut i: usize = 0;
        while i < n
            invariant
                n == self.free_rects.len(),
                i <= n,
                forall|j: int| 0 <= j < i ==> !fits(#[trigger] self@.free[j], width, height),
            decreases n - i,
        {
            if width <= self.free_rects[i].width && height <= self.free_rects[i].height {
                assert(fits(self@.free[i as int], width, height));
                return true;
            }
            i += 1;
        }
        false
    }

    /// The position for a rectangle of the given size: the origin of the
    /// first free rectangle of least score among those that can host it.
    pub fn find_position(&self, width: u32, height: u32, heuristic: PackingHeuristic) -> (r:
        Option<Rect>)
        ensures
            r == self@.placement(width, height, heuristic),
            r is Some <==> self@.can_fit(width, height),
            r matches Some(p) ==> exists|i: int|
                {
                    &&& is_best_fit(self@, i, width, height, heuristic)
                    &&& p.x == self@.free[i].x
                    &&& p.y == self@.free[i].y
                    &&& p.width == width
                    &&& p.height == height
                },
    {
        proof {
            lemma_placement(self@, width, height, heuristic);
        }
        let n: usize = self.free_rects.len();
        let mut best_score: (i128, i128) = (0, 0);
        let mut best: Option<usize> = None;
        let mut i: usize = 0;
        while i < n
            invariant
                n == self.free_rects.len(),
                i <= n,
                match best {
                    Some(b) => best_fit_upto(self@, i as int, width, height, heuristic) == Some(
                        b as int,
                    ) && b < i && fits(self@.free[b as int], width, height) && (
                    best_score.0 as int,
                    best_score.1 as int,
                    ) == score(self@, heuristic, self@.free[b as int], width, height),
                    None => best_fit_upto(self@, i as int, width, height, heuristic) is None,
                },
            decreases n - i,
        {
            proof {
                lemma_best_fit_upto(self@, i as int, width, height, heuristic);
            }
            let free_rect: Rect = self.free_rects[i];
            if width <= free_rect.width && height <= free_rect.height {
                let s = self.score_rect(&free_rect, width, height, heuristic);
                let better: bool = match best {
                    None => true,
                    Some(_) => score_lt(s, best_score),
                };
                if better {
                    best_score = s;
                    best = Some(i);
                }
            }
            i += 1;
        }
        match best {
            Some(b) => Some(Rect::new(self.free_rects[b].x, self.free_rects[b].y, width, height)),
            None => None,
        }
    }

    /// Shared edge length of a candidate position with the bin's edges and
    /// with the rectangles placed so far.
    pub fn contact_score(&self, c: &Rect) -> (total: u128)
        ensures
            total == contact_score(*c, self@),
    {
        let right: u64 = c.x as u64 + c.width as u64;
        let bottom: u64 = c.y as u64 + c.height as u64;
        let mut total: u128 = 0;
        if c.x == 0 {
            total = total + c.height as u128;
        }
        if right == self.bin_width as u64 {
            total = total + c.height as u128;
        }
        if c.y == 0 {
            total = total + c.width as u128;
        }
        if bottom == self.bin_height as u64 {
            total = total + c.width as u128;
        }
        let n: usize = self.placed_rects.len();
        let mut k: usize = 0;
        while k < n
            invariant
                n == self.placed_rects.len(),
                k <= n,
                right == c.right(),
                bottom == c.bottom(),
                total == bin_contact(*c, self@.bin_width, self@.bin_height) + placed_contact(
                    *c,
                    self@.placed,
                    k as int,
                ),
                total <= 0x4_0000_0000 + k * 0x4_0000_0000,
            decreases n - k,
        {
            let u: Rect = self.placed_rects[k];
            let u_right: u64 = u.x as u64 + u.width as u64;
            let u_bottom: u64 = u.y as u64 + u.height as u64;
            let mut touch: u64 = 0;
            if u.x as u64 == right || u_right == c.x as u64 {
                touch = touch + overlap(u.y as u64, u_bottom, c.y as u64, bottom);
            }
            if u.y as u64 == bottom || u_bottom == c.y as u64 {
                touch = touch + overlap(u.x as u64, u_right, c.x as u64, right);
            }
            assert(touch == touch_len(*c, u));
            assert((k + 1) * 0x4_0000_0000 == k * 0x4_0000_0000 + 0x4_0000_0000) by (nonlinear_arith);
            assert(k * 0x4_0000_0000 <= 0xFFFF_FFFF_FFFF_FFFF * 0x4_0000_0000) by (nonlinear_arith)
                requires
                    k <= 0xFFFF_FFFF_FFFF_FFFF,
            ;
            total = total + touch as u128;
            k += 1;
        }
        total
    }

    /// The score of hosting `width` x `height` at the origin of a free
    /// rectangle that fits; the smaller score is the better one.
    pub fn score_rect(
        &self,
        free_rect: &Rect,
        width: u32,
        height: u32,
        heuristic: PackingHeuristic,
    ) -> (s: (i128, i128))
        requires
            fits(*free_rect, width, height),
        ensures
            (s.0 as int, s.1 as int) == score(self@, heuristic, *free_rect, width, height),
    {
        let leftover_h: i128 = (free_rect.width - width) as i128;
        let leftover_v: i128 = (free_rect.height - height) as i128;
        let short: i128 = if leftover_h <= leftover_v { leftover_h } else { leftover_v };
        let long: i128 = if leftover_h >= leftover_v { leftover_h } else { leftover_v };
        match heuristic {
            PackingHeuristic::BestShortSideFit => (short, long),
            PackingHeuristic::BestLongSideFit => (long, short),
            PackingHeuristic::BestAreaFit => {
                let area: i128 = free_rect.area() as i128;
                (area, short)
            },
            PackingHeuristic::BottomLeft => {
                let top: i128 = free_rect.y as i128 + height as i128;
                let left: i128 = free_rect.x as i128;
                (top, left)
            },
            PackingHeuristic::ContactPoint => {
                let candidate = Rect::new(free_rect.x, free_rect.y, width, height);
                let contact: u128 = self.contact_score(&candidate);
                let n: usize = self.placed_rects.len();
                assert(n * 0x2_0000_0000 <= 0xFFFF_FFFF_FFFF_FFFF * 0x2_0000_0000)
                    by (nonlinear_arith)
                    requires
                        n <= 0xFFFF_FFFF_FFFF_FFFF,
                ;
                proof {
                    Self::lemma_contact_bound(candidate, self@, n as int);
                }
                (-(contact as i128), 0)
            },
            PackingHeuristic::Best => (short, long),
        }
    }

    proof fn lemma_contact_bound(c: Rect, st: PackerState, n: int)
        requires
            0 <= n <= st.placed.len(),
        ensures
            0 <= placed_contact(c, st.placed, n) <= n * 0x2_0000_0000,
            0 <= bin_contact(c, st.bin_width, st.bin_height) <= 0x4_0000_0000,
        decreases n,
    {
        if n > 0 {
            Self::lemma_contact_bound(c, st, n - 1);
            assert(n * 0x2_0000_0000 == (n - 1) * 0x2_0000_0000 + 0x2_0000_0000)
                by (nonlinear_arith);
        }
    }

    /// Place a rectangle that lies in the bin, clear of the placed ones:
    /// split the free rectangles around it, prune, merge, and record it.
    pub fn place_rect(&mut self, rect: Rect)
        requires
            old(self)@.wf(),
            free_ok(rect, old(self)@.bin_width, old(self)@.bin_height, old(self)@.placed),
        ensures
            final(self)@ == old(self)@.place(rect),
            final(self)@.wf(),
    {
        proof {
            lemma_place_wf(self@, rect);
            lemma_split_ok(
                self@.free,
                rect,
                self@.bin_width,
                self@.bin_height,
                self@.placed,
            );
        }
        let ghost before = self@;
        self.split_free_rects(rect);
        self.placed_rects.push(rect);
        assert(self@.placed == before.placed.push(rect));
        self.prune_free_rects();
        proof {
            let s1 = split_free(before.free, rect);
            lemma_prune_upto_ok(
                s1,
                s1.len() as int,
                before.bin_width,
                before.bin_height,
                before.placed.push(rect),
            );
        }
        self.merge_free_rects();
    }

    /// Replace every free rectangle that `rect` cuts by its slivers.
    fn split_free_rects(&mut self, rect: Rect)
        requires
            all_free_ok(
                old(self)@.free,
                old(self)@.bin_width,
                old(self)@.bin_height,
                old(self)@.placed,
            ),
            within_bin(rect, old(self)@.bin_width, old(self)@.bin_height),
        ensures
            final(self)@.free == split_free(old(self)@.free, rect),
            final(self)@.placed == old(self)@.placed,
            final(self)@.bin_width == old(self)@.bin_width,
            final(self)@.bin_height == old(self)@.bin_height,
    {
        let n: usize = self.free_rects.len();
        let mut kept: Vec<Rect> = Vec::new();
        let mut new_rects: Vec<Rect> = Vec::new();
        let rect_right: u32 = rect.x + rect.width;
        let rect_bottom: u32 = rect.y + rect.height;
        let mut i: usize = 0;
        while i < n
            invariant
                *self == *old(self),
                n == self.free_rects.len(),
                i <= n,
                all_free_ok(self@.free, self@.bin_width, self@.bin_height, self@.placed),
                within_bin(rect, self@.bin_width, self@.bin_height),
                rect_right == rect.right(),
                rect_bottom == rect.bottom(),
                kept@ == kept_upto(self@.free, rect, i as int),
                new_rects@ == slivers_upto(self@.free, rect, i as int),
            decreases n - i,
        {
            let free_rect: Rect = self.free_rects[i];
            assert(free_ok(self@.free[i as int], self@.bin_width, self@.bin_height, self@.placed));
            if !rect.intersects(&free_rect) {
                kept.push(free_rect);
            } else {
                let free_right: u32 = free_rect.x + free_rect.width;
                let free_bottom: u32 = free_rect.y + free_rect.height;
                let ghost base = new_rects@;
                let ghost mut added: Seq<Rect> = seq![];
                // Left portion
                if rect.x > free_rect.x {
                    let r = Rect::new(
                        free_rect.x,
                        free_rect.y,
                        rect.x - free_rect.x,
                        free_rect.height,
                    );
                    new_rects.push(r);
                    proof {
                        added = added.push(r);
                    }
                }
                // Right portion
                if rect_right < free_right {
                    let r = Rect::new(
                        rect_right,
                        free_rect.y,
                        free_right - rect_right,
                        free_rect.height,
                    );
                    new_rects.push(r);
                    proof {
                        added = added.push(r);
                    }
                }
                // Top portion
                if rect.y > free_rect.y {
                    let r = Rect::new(
                        free_rect.x,
                        free_rect.y,
                        free_rect.width,
                        rect.y - free_rect.y,
                    );
                    new_rects.push(r);
                    proof {
                        added = added.push(r);
                    }
                }
                // Bottom portion
                if rect_bottom < free_bottom {
                    let r = Rect::new(
                        free_rect.x,
                        rect_bottom,
                        free_rect.width,
                        free_bottom - rect_bottom,
                    );
                    new_rects.push(r);
                    proof {
                        added = added.push(r);
                    }
                }
                proof {
                    assert(added =~= slivers(free_rect, rect));
                    assert(new_rects@ =~= base + added);
                }
            }
            i += 1;
        }
        kept.append(&mut new_rects);
        self.free_rects = kept;
    }

    /// Rectangle `i` of the free list is contained in another one.
    fn is_dominated(&self, i: usize) -> (b: bool)
        requires
            i < self@.free.len(),
        ensures
            b == dominated(self@.free, i as int),
    {
        let n: usize = self.free_rects.len();
        let mut j: usize = 0;
        while j < n
            invariant
                n == self.free_rects.len(),
                i < n,
                j <= n,
                forall|m: int|
                    0 <= m < j ==> !(m != i && (#[trigger] self@.free[m]).spec_contains(
                        self@.free[i as int],
                    ) && (self@.free[m] != self@.free[i as int] || m < i)),
            decreases n - j,
        {
            if j != i && self.free_rects[j].contains(&self.free_rects[i]) && (self.free_rects[j]
                != self.free_rects[i] || j < i) {
                return true;
            }
            j += 1;
        }
        false
    }

    /// Drop every free rectangle that is fully contained in another one.
    pub fn prune_free_rects(&mut self)
        ensures
            final(self)@.free == pruned(old(self)@.free),
            final(self)@.placed == old(self)@.placed,
            final(self)@.bin_width == old(self)@.bin_width,
            final(self)@.bin_height == old(self)@.bin_height,
    {
        let n: usize = self.free_rects.len();
        let mut out: Vec<Rect> = Vec::new();
        let mut i: usize = 0;
        while i < n
            invariant
                *self == *old(self),
                n == self.free_rects.len(),
                i <= n,
                out@ == prune_upto(self@.free, i as int),
            decreases n - i,
        {
            if !self.is_dominated(i) {
                out.push(self.free_rects[i]);
            }
            i += 1;
        }
        self.free_rects = out;
    }

    /// Merge free rectangles that share a full edge, until none do.
    pub fn merge_free_rects(&mut self)
        requires
            all_free_ok(
                old(self)@.free,
                old(self)@.bin_width,
                old(self)@.bin_height,
                old(self)@.placed,
            ),
        ensures
            final(self)@.free == merge_all(old(self)@.free),
            final(self)@.placed == old(self)@.placed,
            final(self)@.bin_width == old(self)@.bin_width,
            final(self)@.bin_height == old(self)@.bin_height,
    {
        loop
            invariant_except_break
                all_free_ok(self@.free, self@.bin_width, self@.bin_height, self@.placed),
                merge_all(self@.free) == merge_all(old(self)@.free),
            invariant
                self@.placed == old(self)@.placed,
                self@.bin_width == old(self)@.bin_width,
                self@.bin_height == old(self)@.bin_height,
            ensures
                self@.free == merge_all(old(self)@.free),
            decreases self.free_rects.len(),
        {
            match find_mergeable(&self.free_rects) {
                None => {
                    break ;
                },
                Some((i, j)) => {
                    let ghost before = self@.free;
                    let a: Rect = self.free_rects[i];
                    let b: Rect = self.free_rects[j];
                    proof {
                        let (ci, cj) = choose|ci: int, cj: int|
                            is_first_mergeable(self@.free, ci, cj);
                        lemma_first_mergeable_unique(self@.free, i as int, j as int, ci, cj);
                        lemma_merge_pair_ok(
                            self@.free,
                            i as int,
                            j as int,
                            self@.bin_width,
                            self@.bin_height,
                            self@.placed,
                        );
                    }
                    let sideways: bool = a.y == b.y && a.height == b.height && (a.x as u64
                        + a.width as u64 == b.x as u64 || b.x as u64 + b.width as u64
                        == a.x as u64);
                    let union: Rect = if sideways {
                        Rect::new(if a.x <= b.x { a.x } else { b.x }, a.y, a.width + b.width, a.height)
                    } else {
                        Rect::new(a.x, if a.y <= b.y { a.y } else { b.y }, a.width, a.height + b.height)
                    };
                    assert(union == merged(a, b));
                    self.free_rects.set(i, union);
                    self.free_rects.remove(j);
                    assert(self@.free == merge_pair(before, i as int, j as int));
                },
            }
        }
    }

    /// The part of the bin that the free rectangles do not account for, over
    /// the bin's area. Free rectangles may overlap, so the figure is only
    /// approximate: it never exceeds the area of the rectangles placed, and
    /// is exact once no free rectangle is left.
    pub fn occupancy(&self) -> (o: Occupancy)
        ensures
            o.total == self@.bin_width * self@.bin_height,
            o.used == used_area(self@),
            o.in_unit_range(),
            self@.wf() && all_covered(self@) ==> o.used <= area_sum(
                self@.placed,
                self@.placed.len() as int,
            ),
            self@.wf() && all_covered(self@) && self@.free.len() == 0 ==> o.used == o.total
                && o.used == area_sum(self@.placed, self@.placed.len() as int),
    {
        proof {
            if self@.wf() && all_covered(self@) {
                lemma_used_area(self@);
            }
        }
        let w: u64 = self.bin_width as u64;
        let h: u64 = self.bin_height as u64;
        assert(w * h <= 0xFFFF_FFFF * 0xFFFF_FFFF) by (nonlinear_arith)
            requires
                w <= 0xFFFF_FFFF,
                h <= 0xFFFF_FFFF,
        ;
        let total_area: u64 = w * h;
        let n: usize = self.free_rects.len();
        let mut free_area: u128 = 0;
        let mut i: usize = 0;
        while i < n
            invariant
                n == self.free_rects.len(),
                i <= n,
                free_area == area_sum(self@.free, i as int),
                free_area <= i * 0xFFFF_FFFF_FFFF_FFFF,
            decreases n - i,
        {
            let a: u64 = self.free_rects[i].area();
            assert((i + 1) * 0xFFFF_FFFF_FFFF_FFFF == i * 0xFFFF_FFFF_FFFF_FFFF
                + 0xFFFF_FFFF_FFFF_FFFF) by (nonlinear_arith);
            assert(i * 0xFFFF_FFFF_FFFF_FFFF <= 0xFFFF_FFFF_FFFF_FFFF * 0xFFFF_FFFF_FFFF_FFFF)
                by (nonlinear_arith)
                requires
                    i <= 0xFFFF_FFFF_FFFF_FFFF,
            ;
            free_area = free_area + a as u128;
            i += 1;
        }
        let used: u64 = if free_area >= total_area as u128 {
            0
        } else {
            (total_area as u128 - free_area) as u64
        };
        Occupancy { used, total: total_area }
    }
}

} // verus!
