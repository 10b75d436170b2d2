//! The mathematical model of the packer: its state as sequences of
//! rectangles, and each step of an insertion as a function on that state.

use vstd::prelude::*;
use crate::cli::PackingHeuristic;
use crate::packing::rect::Rect;

verus! {

/// The smaller of two integers.
pub open spec fn min_int(a: int, b: int) -> int {
    if a <= b { a } else { b }
}

/// The larger of two integers.
pub open spec fn max_int(a: int, b: int) -> int {
    if a >= b { a } else { b }
}

/// The rectangle with the given origin and size.
pub open spec fn rect_of(x: int, y: int, width: int, height: int) -> Rect {
    Rect { x: x as u32, y: y as u32, width: width as u32, height: height as u32 }
}

/// A free rectangle can host a `width` x `height` rectangle.
pub open spec fn fits(free: Rect, width: u32, height: u32) -> bool {
    width <= free.width && height <= free.height
}

/// The rectangle lies inside a bin of the given size.
pub open spec fn within_bin(r: Rect, bin_width: u32, bin_height: u32) -> bool {
    r.right() <= bin_width && r.bottom() <= bin_height
}

/// State of one packer: the bin size, the free rectangles in scan order and
/// the rectangles placed so far in placement order.
pub struct PackerState {
    pub bin_width: u32,
    pub bin_height: u32,
    pub free: Seq<Rect>,
    pub placed: Seq<Rect>,
}

/// A free rectangle is sound: inside the bin and clear of every placed one.
pub open spec fn free_ok(r: Rect, bin_width: u32, bin_height: u32, placed: Seq<Rect>) -> bool {
    &&& within_bin(r, bin_width, bin_height)
    &&& forall|k: int| 0 <= k < placed.len() ==> !r.spec_intersects(#[trigger] placed[k])
}

/// Every free rectangle of the list is sound.
pub open spec fn all_free_ok(
    s: Seq<Rect>,
    bin_width: u32,
    bin_height: u32,
    placed: Seq<Rect>,
) -> bool {
    forall|i: int| 0 <= i < s.len() ==> free_ok(#[trigger] s[i], bin_width, bin_height, placed)
}

/// No two rectangles of the sequence intersect.
pub open spec fn pairwise_disjoint(s: Seq<Rect>) -> bool {
    forall|k: int, l: int|
        0 <= k < l < s.len() ==> !(#[trigger] s[k]).spec_intersects(#[trigger] s[l])
}

/// Every rectangle of the list lies inside the bin.
pub open spec fn all_within(s: Seq<Rect>, bin_width: u32, bin_height: u32) -> bool {
    forall|k: int| 0 <= k < s.len() ==> within_bin(#[trigger] s[k], bin_width, bin_height)
}

// ---------------------------------------------------------------------
// Scores
// ---------------------------------------------------------------------

/// Length of the part that the intervals `[a0, a1)` and `[b0, b1)` share.
pub open spec fn overlap_len(a0: int, a1: int, b0: int, b1: int) -> int {
    let lo = max_int(a0, b0);
    let hi = min_int(a1, b1);
    if hi > lo { hi - lo } else { 0 }
}

/// Length along which the candidate lies flush with the edges of the bin:
/// each of the four bin edges that it touches counts the full side.
pub open spec fn bin_contact(c: Rect, bin_width: u32, bin_height: u32) -> int {
    (if c.x == 0 { c.height as int } else { 0 })
        + (if c.right() == bin_width { c.height as int } else { 0 })
        + (if c.y == 0 { c.width as int } else { 0 })
        + (if c.bottom() == bin_height { c.width as int } else { 0 })
}

/// Length of the edge that the candidate shares with one placed rectangle:
/// the vertical overlap where they are side by side, the horizontal overlap
/// where one lies on top of the other.
pub open spec fn touch_len(c: Rect, u: Rect) -> int {
    (if u.x == c.right() || u.right() == c.x {
        overlap_len(u.y as int, u.bottom(), c.y as int, c.bottom())
    } else {
        0
    }) + (if u.y == c.bottom() || u.bottom() == c.y {
        overlap_len(u.x as int, u.right(), c.x as int, c.right())
    } else {
        0
    })
}

/// Shared edge length of the candidate with the first `n` placed rectangles.
pub open spec fn placed_contact(c: Rect, placed: Seq<Rect>, n: int) -> int
    decreases n,
{
    if n <= 0 {
        0
    } else {
        placed_contact(c, placed, n - 1) + touch_len(c, placed[n - 1])
    }
}

/// The contact-length score of a candidate position.
pub open spec fn contact_score(c: Rect, st: PackerState) -> int {
    bin_contact(c, st.bin_width, st.bin_height) + placed_contact(
        c,
        st.placed,
        st.placed.len() as int,
    )
}

/// The score of hosting `width` x `height` at the origin of `free`; the
/// smaller score in lexicographic order is the better one. The meta-value
/// `Best` scores as the default rule, `BestShortSideFit`.
pub open spec fn score(
    st: PackerState,
    heuristic: PackingHeuristic,
    free: Rect,
    width: u32,
    height: u32,
) -> (int, int) {
    let leftover_w = free.width - width;
    let leftover_h = free.height - height;
    let short = min_int(leftover_w, leftover_h);
    let long = max_int(leftover_w, leftover_h);
    match heuristic {
        PackingHeuristic::BestShortSideFit => (short, long),
        PackingHeuristic::BestLongSideFit => (long, short),
        PackingHeuristic::BestAreaFit => (free.spec_area(), short),
        PackingHeuristic::BottomLeft => (free.y + height, free.x as int),
        PackingHeuristic::ContactPoint => (
            -contact_score(rect_of(free.x as int, free.y as int, width as int, height as int), st),
            0,
        ),
        PackingHeuristic::Best => (short, long),
    }
}

/// Lexicographic order on scores.
pub open spec fn score_less(a: (int, int), b: (int, int)) -> bool {
    a.0 < b.0 || (a.0 == b.0 && a.1 < b.1)
}

// ---------------------------------------------------------------------
// Choice of the position
// ---------------------------------------------------------------------

/// Index of the chosen free rectangle among the first `n`: the one of
/// least score that fits, the first of them in scan order.
pub open spec fn best_fit_upto(
    st: PackerState,
    n: int,
    width: u32,
    height: u32,
    heuristic: PackingHeuristic,
) -> Option<int>
    decreases n,
{
    if n <= 0 {
        None
    } else {
        let prev = best_fit_upto(st, n - 1, width, height, heuristic);
        let f = st.free[n - 1];
        if !fits(f, width, height) {
            prev
        } else {
            match prev {
                None => Some(n - 1),
                Some(b) => if score_less(
                    score(st, heuristic, f, width, height),
                    score(st, heuristic, st.free[b], width, height),
                ) {
                    Some(n - 1)
                } else {
                    Some(b)
                },
            }
        }
    }
}

/// `i` is the first free rectangle of least score among those that fit.
pub open spec fn is_best_fit(
    st: PackerState,
    i: int,
    width: u32,
    height: u32,
    heuristic: PackingHeuristic,
) -> bool {
    &&& 0 <= i < st.free.len()
    &&& fits(st.free[i], width, height)
    &&& forall|j: int|
        0 <= j < i && fits(#[trigger] st.free[j], width, height) ==> score_less(
            score(st, heuristic, st.free[i], width, height),
            score(st, heuristic, st.free[j], width, height),
        )
    &&& forall|j: int|
        i < j < st.free.len() && fits(#[trigger] st.free[j], width, height) ==> !score_less(
            score(st, heuristic, st.free[j], width, height),
            score(st, heuristic, st.free[i], width, height),
        )
}

// ---------------------------------------------------------------------
// Splitting the free rectangles around a placed one
// ---------------------------------------------------------------------

/// What is left of the free rectangle `f` around the placed rectangle `p`:
/// the parts to its left, to its right, above and below it, in this order,
/// each over the full height or width of `f`.
pub open spec fn slivers(f: Rect, p: Rect) -> Seq<Rect> {
    let left = if p.x > f.x {
        seq![rect_of(f.x as int, f.y as int, p.x - f.x, f.height as int)]
    } else {
        seq![]
    };
    let right = if p.right() < f.right() {
        seq![rect_of(p.right(), f.y as int, f.right() - p.right(), f.height as int)]
    } else {
        seq![]
    };
    let top = if p.y > f.y {
        seq![rect_of(f.x as int, f.y as int, f.width as int, p.y - f.y)]
    } else {
        seq![]
    };
    let bottom = if p.bottom() < f.bottom() {
        seq![rect_of(f.x as int, p.bottom(), f.width as int, f.bottom() - p.bottom())]
    } else {
        seq![]
    };
    left + right + top + bottom
}

/// Those of the first `n` free rectangles that `p` leaves untouched.
pub open spec fn kept_upto(free: Seq<Rect>, p: Rect, n: int) -> Seq<Rect>
    decreases n,
{
    if n <= 0 {
        seq![]
    } else if p.spec_intersects(free[n - 1]) {
        kept_upto(free, p, n - 1)
    } else {
        kept_upto(free, p, n - 1).push(free[n - 1])
    }
}

/// The slivers of those of the first `n` free rectangles that `p` cuts.
pub open spec fn slivers_upto(free: Seq<Rect>, p: Rect, n: int) -> Seq<Rect>
    decreases n,
{
    if n <= 0 {
        seq![]
    } else if p.spec_intersects(free[n - 1]) {
        slivers_upto(free, p, n - 1) + slivers(free[n - 1], p)
    } else {
        slivers_upto(free, p, n - 1)
    }
}

/// The free list after `p` is placed: the untouched rectangles in their
/// order, then the slivers of the cut ones.
pub open spec fn split_free(free: Seq<Rect>, p: Rect) -> Seq<Rect> {
    kept_upto(free, p, free.len() as int) + slivers_upto(free, p, free.len() as int)
}

// ---------------------------------------------------------------------
// Pruning
// ---------------------------------------------------------------------

/// Rectangle `i` is redundant: another one of the list contains it. Of
/// several equal rectangles every one but the first is redundant.
pub open spec fn dominated(s: Seq<Rect>, i: int) -> bool {
    exists|j: int|
        0 <= j < s.len() && j != i && (#[trigger] s[j]).spec_contains(s[i]) && (s[j] != s[i] || j
            < i)
}

/// The first `n` rectangles without the redundant ones, in their order.
pub open spec fn prune_upto(s: Seq<Rect>, n: int) -> Seq<Rect>
    decreases n,
{
    if n <= 0 {
        seq![]
    } else if dominated(s, n - 1) {
        prune_upto(s, n - 1)
    } else {
        prune_upto(s, n - 1).push(s[n - 1])
    }
}

/// The list without its redundant rectangles, in their order.
pub open spec fn pruned(s: Seq<Rect>) -> Seq<Rect> {
    prune_upto(s, s.len() as int)
}

// ---------------------------------------------------------------------
// Merging
// ---------------------------------------------------------------------

/// The two rectangles lie side by side and share a full vertical edge.
pub open spec fn joins_sideways(a: Rect, b: Rect) -> bool {
    a.y == b.y && a.height == b.height && (a.right() == b.x || b.right() == a.x)
}

/// One rectangle lies on top of the other and they share a full horizontal edge.
pub open spec fn joins_upright(a: Rect, b: Rect) -> bool {
    a.x == b.x && a.width == b.width && (a.bottom() == b.y || b.bottom() == a.y)
}

/// The two rectangles share a full edge.
pub open spec fn mergeable(a: Rect, b: Rect) -> bool {
    joins_sideways(a, b) || joins_upright(a, b)
}

/// The union of two mergeable rectangles.
pub open spec fn merged(a: Rect, b: Rect) -> Rect {
    if joins_sideways(a, b) {
        rect_of(min_int(a.x as int, b.x as int), a.y as int, a.width + b.width, a.height as int)
    } else {
        rect_of(a.x as int, min_int(a.y as int, b.y as int), a.width as int, a.height + b.height)
    }
}

/// `(i, j)` is the first mergeable pair of the list: `i < j`, and no pair
/// with a smaller first index, or the same first and a smaller second
/// index, is mergeable.
pub open spec fn is_first_mergeable(s: Seq<Rect>, i: int, j: int) -> bool {
    &&& 0 <= i < j < s.len()
    &&& mergeable(s[i], s[j])
    &&& forall|a: int, b: int|
        0 <= a < b < s.len() && (a < i || (a == i && b < j)) ==> !mergeable(
            #[trigger] s[a],
            #[trigger] s[b],
        )
}

/// One merge step: the union takes the place of the first rectangle and
/// the second one leaves the list.
pub open spec fn merge_pair(s: Seq<Rect>, i: int, j: int) -> Seq<Rect> {
    s.update(i, merged(s[i], s[j])).remove(j)
}

/// The list after merging its first mergeable pair again and again, until
/// no two of its rectangles are mergeable.
pub open spec fn merge_all(s: Seq<Rect>) -> Seq<Rect>
    decreases s.len(),
{
    if exists|i: int, j: int| is_first_mergeable(s, i, j) {
        let (i, j) = choose|i: int, j: int| is_first_mergeable(s, i, j);
        merge_all(merge_pair(s, i, j))
    } else {
        s
    }
}

// ---------------------------------------------------------------------
// Insertion
// ---------------------------------------------------------------------

impl PackerState {
    /// The state of a fresh packer: the whole bin is free.
    pub open spec fn empty(bin_width: u32, bin_height: u32) -> PackerState {
        PackerState {
            bin_width,
            bin_height,
            free: seq![rect_of(0, 0, bin_width as int, bin_height as int)],
            placed: seq![],
        }
    }

    /// Every free and placed rectangle lies in the bin, no free rectangle
    /// intersects a placed one, and no two placed ones intersect.
    pub open spec fn wf(self) -> bool {
        &&& all_free_ok(self.free, self.bin_width, self.bin_height, self.placed)
        &&& all_within(self.placed, self.bin_width, self.bin_height)
        &&& pairwise_disjoint(self.placed)
    }

    /// Some free rectangle can host a `width` x `height` rectangle.
    pub open spec fn can_fit(self, width: u32, height: u32) -> bool {
        exists|i: int| 0 <= i < self.free.len() && fits(#[trigger] self.free[i], width, height)
    }

    /// Where a `width` x `height` rectangle goes: at the origin of the
    /// chosen free rectangle, or nowhere if none can host it.
    pub open spec fn placement(
        self,
        width: u32,
        height: u32,
        heuristic: PackingHeuristic,
    ) -> Option<Rect> {
        match best_fit_upto(self, self.free.len() as int, width, height, heuristic) {
            Some(i) => Some(
                rect_of(self.free[i].x as int, self.free[i].y as int, width as int, height as int),
            ),
            None => None,
        }
    }

    /// The state after `p` is placed: the free list is split around `p`,
    /// pruned and merged, and `p` joins the placed rectangles.
    pub open spec fn place(self, p: Rect) -> PackerState {
        PackerState {
            bin_width: self.bin_width,
            bin_height: self.bin_height,
            free: merge_all(pruned(split_free(self.free, p))),
            placed: self.placed.push(p),
        }
    }

    /// The state after an insertion.
    pub open spec fn insert(
        self,
        width: u32,
        height: u32,
        heuristic: PackingHeuristic,
    ) -> PackerState {
        match self.placement(width, height, heuristic) {
            Some(p) => self.place(p),
            None => self,
        }
    }
}

} // verus!
