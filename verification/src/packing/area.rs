//! Rectangles that do not intersect cover no more than the box around
//! them: the bound that keeps every occupancy at or below one.

use vstd::prelude::*;
use vstd::set_lib::{lemma_len_subset, lemma_set_disjoint_lens};
use crate::packing::maxrects::area_sum;
use crate::packing::model::pairwise_disjoint;
use crate::packing::rect::Rect;

verus! {

/// The unit cells of the box with origin `(x0, y0)`, `w` wide and `h` high.
pub open spec fn grid(x0: int, y0: int, w: int, h: int) -> Set<(int, int)> {
    Set::new(|p: (int, int)| x0 <= p.0 < x0 + w && y0 <= p.1 < y0 + h)
}

/// The unit cells that a rectangle covers.
pub open spec fn cells(r: Rect) -> Set<(int, int)> {
    grid(r.x as int, r.y as int, r.width as int, r.height as int)
}

/// The unit cells that the first `n` rectangles cover.
pub open spec fn covered(s: Seq<Rect>, n: int) -> Set<(int, int)>
    decreases n,
{
    if n <= 0 {
        Set::empty()
    } else {
        covered(s, n - 1) + cells(s[n - 1])
    }
}

proof fn lemma_row(x0: int, y0: int, w: int)
    requires
        0 <= w,
    ensures
        grid(x0, y0, w, 1).finite(),
        grid(x0, y0, w, 1).len() == w,
    decreases w,
{
    if w == 0 {
        assert(grid(x0, y0, w, 1) =~= Set::empty());
    } else {
        lemma_row(x0, y0, w - 1);
        let prev = grid(x0, y0, w - 1, 1);
        assert(grid(x0, y0, w, 1) =~= prev.insert((x0 + w - 1, y0)));
        assert(!prev.contains((x0 + w - 1, y0)));
    }
}

/// A box of `w` by `h` cells has `w * h` cells.
pub proof fn lemma_grid(x0: int, y0: int, w: int, h: int)
    requires
        0 <= w,
        0 <= h,
    ensures
        grid(x0, y0, w, h).finite(),
        grid(x0, y0, w, h).len() == w * h,
    decreases h,
{
    if h == 0 {
        assert(grid(x0, y0, w, h) =~= Set::empty());
        assert(w * h == 0) by (nonlinear_arith)
            requires
                h == 0,
        ;
    } else {
        lemma_grid(x0, y0, w, h - 1);
        lemma_row(x0, y0 + h - 1, w);
        let below = grid(x0, y0, w, h - 1);
        let row = grid(x0, y0 + h - 1, w, 1);
        assert(grid(x0, y0, w, h) =~= below + row);
        assert(below.disjoint(row));
        lemma_set_disjoint_lens(below, row);
        assert(w * (h - 1) + w == w * h) by (nonlinear_arith);
    }
}

/// Two rectangles that share a cell intersect.
proof fn lemma_shared_cell(a: Rect, b: Rect, p: (int, int))
    requires
        cells(a).contains(p),
        cells(b).contains(p),
    ensures
        a.spec_intersects(b),
{
}

proof fn lemma_covered(s: Seq<Rect>, n: int, width: int, height: int)
    requires
        0 <= n <= s.len(),
        pairwise_disjoint(s),
        forall|k: int| 0 <= k < s.len() ==> (#[trigger] s[k]).right() <= width && s[k].bottom() <= height,
        0 <= width,
        0 <= height,
    ensures
        covered(s, n).finite(),
        covered(s, n).len() == area_sum(s, n),
        covered(s, n).subset_of(grid(0, 0, width, height)),
        forall|p: (int, int)| #[trigger]
            covered(s, n).contains(p) ==> exists|k: int| 0 <= k < n && cells(#[trigger] s[k]).contains(p),
    decreases n,
{
    if n > 0 {
        lemma_covered(s, n - 1, width, height);
        let before = covered(s, n - 1);
        let last = s[n - 1];
        lemma_grid(last.x as int, last.y as int, last.width as int, last.height as int);
        assert(before.disjoint(cells(last))) by {
            assert forall|p: (int, int)| before.contains(p) implies !cells(last).contains(p) by {
                let k = choose|k: int| 0 <= k < n - 1 && cells(#[trigger] s[k]).contains(p);
                if cells(last).contains(p) {
                    lemma_shared_cell(s[k], last, p);
                    assert(!s[k].spec_intersects(s[n - 1]));
                }
            }
        }
        lemma_set_disjoint_lens(before, cells(last));
        assert forall|p: (int, int)| #[trigger] covered(s, n).contains(p) implies exists|k: int|
            0 <= k < n && cells(#[trigger] s[k]).contains(p) by {
            if before.contains(p) {
                let k = choose|k: int| 0 <= k < n - 1 && cells(#[trigger] s[k]).contains(p);
                assert(0 <= k < n && cells(s[k]).contains(p));
            } else {
                assert(cells(s[n - 1]).contains(p));
            }
        }
    }
}

/// Rectangles that pairwise do not intersect and lie in a box of `width`
/// by `height` have a summed area of at most `width * height`.
pub proof fn lemma_disjoint_area_bound(s: Seq<Rect>, width: int, height: int)
    requires
        pairwise_disjoint(s),
        forall|k: int| 0 <= k < s.len() ==> (#[trigger] s[k]).right() <= width && s[k].bottom() <= height,
        0 <= width,
        0 <= height,
    ensures
        0 <= area_sum(s, s.len() as int) <= width * height,
{
    lemma_covered(s, s.len() as int, width, height);
    lemma_grid(0, 0, width, height);
    lemma_len_subset(covered(s, s.len() as int), grid(0, 0, width, height));
}

} // verus!
