//! The free rectangles cover all of the bin that the placed rectangles
//! leave: no free space is lost by a placement.

use vstd::prelude::*;
use vstd::set_lib::{lemma_len_subset, lemma_len_union};
use crate::cli::PackingHeuristic;
use crate::packing::area::{cells, covered, grid, lemma_disjoint_area_bound, lemma_grid};
use crate::packing::lemmas::{lemma_insert_wf, lemma_prune_upto_ok, lemma_split_ok};
use crate::packing::maxrects::{area_sum, used_area};
use crate::packing::model::{
    dominated, free_ok, is_first_mergeable, kept_upto, merge_all, merge_pair, mergeable, merged,
    prune_upto, pruned, slivers, slivers_upto, split_free, within_bin, PackerState,
};
use crate::packing::rect::Rect;

verus! {

/// The unit cell at `c` lies in the rectangle.
pub open spec fn has_cell(r: Rect, c: (int, int)) -> bool {
    r.x <= c.0 < r.right() && r.y <= c.1 < r.bottom()
}

/// The unit cell at `c` lies in one of the rectangles.
pub open spec fn covers(s: Seq<Rect>, c: (int, int)) -> bool {
    exists|i: int| 0 <= i < s.len() && has_cell(#[trigger] s[i], c)
}

/// Every unit cell of the bin lies in a placed or in a free rectangle.
pub open spec fn all_covered(st: PackerState) -> bool {
    forall|c: (int, int)|
        0 <= c.0 < st.bin_width && 0 <= c.1 < st.bin_height ==> #[trigger] covers(st.placed, c)
            || covers(st.free, c)
}

proof fn lemma_covers_concat(a: Seq<Rect>, b: Seq<Rect>, c: (int, int))
    ensures
        covers(a + b, c) <==> covers(a, c) || covers(b, c),
{
    if covers(a + b, c) {
        let i = choose|i: int| 0 <= i < (a + b).len() && has_cell(#[trigger] (a + b)[i], c);
        if i < a.len() {
            assert(has_cell(a[i], c));
        } else {
            assert(has_cell(b[i - a.len()], c));
        }
    }
    if covers(a, c) {
        let i = choose|i: int| 0 <= i < a.len() && has_cell(#[trigger] a[i], c);
        assert(has_cell((a + b)[i], c));
    }
    if covers(b, c) {
        let i = choose|i: int| 0 <= i < b.len() && has_cell(#[trigger] b[i], c);
        assert(has_cell((a + b)[a.len() + i], c));
    }
}

proof fn lemma_covers_push(a: Seq<Rect>, r: Rect, c: (int, int))
    ensures
        covers(a.push(r), c) <==> covers(a, c) || has_cell(r, c),
{
    assert(a.push(r) =~= a + seq![r]);
    lemma_covers_concat(a, seq![r], c);
    if has_cell(r, c) {
        assert(has_cell(seq![r][0], c));
    }
}

/// A cell of a free rectangle that the placed rectangle leaves lies in one
/// of the slivers.
proof fn lemma_sliver_covers(f: Rect, p: Rect, c: (int, int), bin_width: u32, bin_height: u32)
    requires
        within_bin(f, bin_width, bin_height),
        within_bin(p, bin_width, bin_height),
        p.spec_intersects(f),
        has_cell(f, c),
        !has_cell(p, c),
    ensures
        covers(slivers(f, p), c),
{
    let s = slivers(f, p);
    if c.0 < p.x {
        assert(has_cell(s[0], c));
    } else if c.0 >= p.right() {
        let k = if p.x > f.x { 1int } else { 0int };
        assert(has_cell(s[k], c));
    } else if c.1 < p.y {
        let k = (if p.x > f.x { 1int } else { 0int }) + (if p.right() < f.right() { 1int } else { 0int });
        assert(has_cell(s[k], c));
    } else {
        let k = (if p.x > f.x { 1int } else { 0int }) + (if p.right() < f.right() { 1int } else { 0int })
            + (if p.y > f.y { 1int } else { 0int });
        assert(has_cell(s[k], c));
    }
}

proof fn lemma_split_upto_covers(
    free: Seq<Rect>,
    p: Rect,
    n: int,
    c: (int, int),
    bin_width: u32,
    bin_height: u32,
)
    requires
        0 <= n <= free.len(),
        forall|i: int| 0 <= i < free.len() ==> within_bin(#[trigger] free[i], bin_width, bin_height),
        within_bin(p, bin_width, bin_height),
        !has_cell(p, c),
        covers(free.take(n), c),
    ensures
        covers(kept_upto(free, p, n), c) || covers(slivers_upto(free, p, n), c),
    decreases n,
{
    if n > 0 {
        let last = free[n - 1];
        assert(free.take(n) =~= free.take(n - 1).push(last));
        lemma_covers_push(free.take(n - 1), last, c);
        if covers(free.take(n - 1), c) {
            lemma_split_upto_covers(free, p, n - 1, c, bin_width, bin_height);
        }
        if p.spec_intersects(last) {
            lemma_covers_concat(slivers_upto(free, p, n - 1), slivers(last, p), c);
            if has_cell(last, c) {
                lemma_sliver_covers(last, p, c, bin_width, bin_height);
            }
        } else {
            lemma_covers_push(kept_upto(free, p, n - 1), last, c);
        }
    } else {
        assert(free.take(n).len() == 0);
    }
}

/// What the free list covered outside the placed rectangle, the split
/// list covers.
pub proof fn lemma_split_covers(
    free: Seq<Rect>,
    p: Rect,
    c: (int, int),
    bin_width: u32,
    bin_height: u32,
)
    requires
        forall|i: int| 0 <= i < free.len() ==> within_bin(#[trigger] free[i], bin_width, bin_height),
        within_bin(p, bin_width, bin_height),
        !has_cell(p, c),
        covers(free, c),
    ensures
        covers(split_free(free, p), c),
{
    assert(free.take(free.len() as int) =~= free);
    lemma_split_upto_covers(free, p, free.len() as int, c, bin_width, bin_height);
    lemma_covers_concat(
        kept_upto(free, p, free.len() as int),
        slivers_upto(free, p, free.len() as int),
        c,
    );
}

/// Pruning keeps every rectangle that no other one makes redundant.
proof fn lemma_prune_keeps(s: Seq<Rect>, n: int, k: int)
    requires
        0 <= k < n <= s.len(),
        !dominated(s, k),
    ensures
        exists|m: int| 0 <= m < prune_upto(s, n).len() && #[trigger] prune_upto(s, n)[m] == s[k],
    decreases n,
{
    if k == n - 1 {
        let t = prune_upto(s, n);
        assert(t[t.len() - 1] == s[k]);
    } else {
        lemma_prune_keeps(s, n - 1, k);
        let m = choose|m: int|
            0 <= m < prune_upto(s, n - 1).len() && #[trigger] prune_upto(s, n - 1)[m] == s[k];
        assert(prune_upto(s, n)[m] == s[k]);
    }
}

/// Every rectangle of a list lies in one that pruning keeps.
proof fn lemma_prune_contains(s: Seq<Rect>, i: int)
    requires
        0 <= i < s.len(),
    ensures
        exists|m: int|
            0 <= m < pruned(s).len() && (#[trigger] pruned(s)[m]).spec_contains(s[i]),
    decreases 0x2_0000_0000 - (s[i].width + s[i].height), i,
{
    if dominated(s, i) {
        let j = choose|j: int|
            0 <= j < s.len() && j != i && (#[trigger] s[j]).spec_contains(s[i]) && (s[j] != s[i]
                || j < i);
        lemma_prune_contains(s, j);
        let m = choose|m: int|
            0 <= m < pruned(s).len() && (#[trigger] pruned(s)[m]).spec_contains(s[j]);
        assert(pruned(s)[m].spec_contains(s[i]));
    } else {
        lemma_prune_keeps(s, s.len() as int, i);
        let m = choose|m: int| 0 <= m < pruned(s).len() && #[trigger] pruned(s)[m] == s[i];
        assert(pruned(s)[m].spec_contains(s[i]));
    }
}

/// What a list covers, the pruned list covers.
pub proof fn lemma_prune_covers(s: Seq<Rect>, c: (int, int))
    requires
        covers(s, c),
    ensures
        covers(pruned(s), c),
{
    let i = choose|i: int| 0 <= i < s.len() && has_cell(#[trigger] s[i], c);
    lemma_prune_contains(s, i);
    let m = choose|m: int|
        0 <= m < pruned(s).len() && (#[trigger] pruned(s)[m]).spec_contains(s[i]);
    assert(has_cell(pruned(s)[m], c));
}

/// What a list covers, the list covers after a merge step.
proof fn lemma_merge_pair_covers(
    s: Seq<Rect>,
    i: int,
    j: int,
    c: (int, int),
    bin_width: u32,
    bin_height: u32,
)
    requires
        0 <= i < j < s.len(),
        mergeable(s[i], s[j]),
        forall|k: int| 0 <= k < s.len() ==> within_bin(#[trigger] s[k], bin_width, bin_height),
        covers(s, c),
    ensures
        covers(merge_pair(s, i, j), c),
{
    let k = choose|k: int| 0 <= k < s.len() && has_cell(#[trigger] s[k], c);
    let t = merge_pair(s, i, j);
    let u = s.update(i, merged(s[i], s[j]));
    assert(within_bin(s[i], bin_width, bin_height));
    assert(within_bin(s[j], bin_width, bin_height));
    if k == i || k == j {
        assert(t[i] == u[i]);
        assert(has_cell(t[i], c));
    } else if k < j {
        assert(t[k] == u[k]);
        assert(has_cell(t[k], c));
    } else {
        assert(t[k - 1] == u[k]);
        assert(has_cell(t[k - 1], c));
    }
}

/// What a list covers, the merged list covers.
pub proof fn lemma_merge_covers(s: Seq<Rect>, c: (int, int), bin_width: u32, bin_height: u32)
    requires
        forall|k: int| 0 <= k < s.len() ==> within_bin(#[trigger] s[k], bin_width, bin_height),
        covers(s, c),
    ensures
        covers(merge_all(s), c),
    decreases s.len(),
{
    if exists|i: int, j: int| is_first_mergeable(s, i, j) {
        let (i, j) = choose|i: int, j: int| is_first_mergeable(s, i, j);
        lemma_merge_pair_covers(s, i, j, c, bin_width, bin_height);
        let t = merge_pair(s, i, j);
        let u = s.update(i, merged(s[i], s[j]));
        assert(within_bin(s[i], bin_width, bin_height));
        assert(within_bin(s[j], bin_width, bin_height));
        assert forall|k: int| 0 <= k < t.len() implies within_bin(
            #[trigger] t[k],
            bin_width,
            bin_height,
        ) by {
            if k < j {
                assert(t[k] == u[k]);
                if k != i {
                    assert(u[k] == s[k]);
                }
            } else {
                assert(t[k] == u[k + 1]);
                assert(u[k + 1] == s[k + 1]);
            }
        }
        lemma_merge_covers(t, c, bin_width, bin_height);
    }
}

/// Placing a rectangle loses no free space: what the placed and the free
/// rectangles covered of the bin, they cover afterwards.
pub proof fn lemma_place_covered(st: PackerState, p: Rect)
    requires
        st.wf(),
        all_covered(st),
        free_ok(p, st.bin_width, st.bin_height, st.placed),
    ensures
        all_covered(st.place(p)),
{
    let after = st.place(p);
    let s1 = split_free(st.free, p);
    lemma_split_ok(st.free, p, st.bin_width, st.bin_height, st.placed);
    lemma_prune_upto_ok(
        s1,
        s1.len() as int,
        st.bin_width,
        st.bin_height,
        st.placed.push(p),
    );
    assert forall|c: (int, int)|
        0 <= c.0 < after.bin_width && 0 <= c.1 < after.bin_height implies #[trigger] covers(
        after.placed,
        c,
    ) || covers(after.free, c) by {
        lemma_covers_push(st.placed, p, c);
        if !has_cell(p, c) && !covers(st.placed, c) {
            assert(covers(st.placed, c) || covers(st.free, c));
            assert forall|i: int| 0 <= i < st.free.len() implies within_bin(
                #[trigger] st.free[i],
                st.bin_width,
                st.bin_height,
            ) by {
                assert(free_ok(st.free[i], st.bin_width, st.bin_height, st.placed));
            }
            lemma_split_covers(st.free, p, c, st.bin_width, st.bin_height);
            lemma_prune_covers(s1, c);
            assert forall|k: int| 0 <= k < pruned(s1).len() implies within_bin(
                #[trigger] pruned(s1)[k],
                st.bin_width,
                st.bin_height,
            ) by {
                assert(free_ok(pruned(s1)[k], st.bin_width, st.bin_height, st.placed.push(p)));
            }
            lemma_merge_covers(pruned(s1), c, st.bin_width, st.bin_height);
        }
    }
}

/// The one free rectangle of an empty packer covers its bin.
pub proof fn lemma_empty_covered(bin_width: u32, bin_height: u32)
    ensures
        all_covered(PackerState::empty(bin_width, bin_height)),
{
    let e = PackerState::empty(bin_width, bin_height);
    assert forall|c: (int, int)|
        0 <= c.0 < e.bin_width && 0 <= c.1 < e.bin_height implies #[trigger] covers(e.placed, c)
        || covers(e.free, c) by {
        assert(has_cell(e.free[0], c));
    }
}

/// An insertion loses no free space.
pub proof fn lemma_insert_covered(
    st: PackerState,
    width: u32,
    height: u32,
    heuristic: PackingHeuristic,
)
    requires
        st.wf(),
        all_covered(st),
    ensures
        all_covered(st.insert(width, height, heuristic)),
{
    lemma_insert_wf(st, width, height, heuristic);
    match st.placement(width, height, heuristic) {
        Some(p) => {
            lemma_place_covered(st, p);
        },
        None => {},
    }
}

/// The cells that rectangles cover are no more than their summed area.
proof fn lemma_covered_at_most(s: Seq<Rect>, n: int)
    requires
        0 <= n <= s.len(),
    ensures
        covered(s, n).finite(),
        covered(s, n).len() <= area_sum(s, n),
        forall|c: (int, int)|
            (exists|i: int| 0 <= i < n && has_cell(#[trigger] s[i], c)) ==> covered(s, n).contains(
                c,
            ),
    decreases n,
{
    if n > 0 {
        lemma_covered_at_most(s, n - 1);
        let last = s[n - 1];
        lemma_grid(last.x as int, last.y as int, last.width as int, last.height as int);
        lemma_len_union(covered(s, n - 1), cells(last));
        assert forall|c: (int, int)|
            (exists|i: int| 0 <= i < n && has_cell(#[trigger] s[i], c)) implies covered(
            s,
            n,
        ).contains(c) by {
            let i = choose|i: int| 0 <= i < n && has_cell(#[trigger] s[i], c);
            if i < n - 1 {
                assert(covered(s, n - 1).contains(c));
            } else {
                assert(cells(last).contains(c));
            }
        }
    }
}

/// The figure that the packer gives for its used area never exceeds the
/// area of the rectangles placed, and is exact once no free rectangle is
/// left: then the placed rectangles fill the bin.
pub proof fn lemma_used_area(st: PackerState)
    requires
        st.wf(),
        all_covered(st),
    ensures
        0 <= used_area(st) <= area_sum(st.placed, st.placed.len() as int),
        area_sum(st.placed, st.placed.len() as int) <= st.bin_width * st.bin_height,
        st.free.len() == 0 ==> used_area(st) == area_sum(st.placed, st.placed.len() as int),
        st.free.len() == 0 ==> used_area(st) == st.bin_width * st.bin_height,
{
    let w = st.bin_width as int;
    let h = st.bin_height as int;
    assert forall|k: int| 0 <= k < st.placed.len() implies (#[trigger] st.placed[k]).right() <= w
        && st.placed[k].bottom() <= h by {
        assert(within_bin(st.placed[k], st.bin_width, st.bin_height));
    }
    lemma_disjoint_area_bound(st.placed, w, h);
    lemma_covered_at_most(st.placed, st.placed.len() as int);
    lemma_covered_at_most(st.free, st.free.len() as int);
    lemma_grid(0, 0, w, h);
    let placed_cells = covered(st.placed, st.placed.len() as int);
    let free_cells = covered(st.free, st.free.len() as int);
    assert(grid(0, 0, w, h).subset_of(placed_cells + free_cells)) by {
        assert forall|c: (int, int)| grid(0, 0, w, h).contains(c) implies (placed_cells
            + free_cells).contains(c) by {
            assert(covers(st.placed, c) || covers(st.free, c));
        }
    }
    lemma_len_union(placed_cells, free_cells);
    lemma_len_subset(grid(0, 0, w, h), placed_cells + free_cells);
    assert(area_sum(st.free, 0) == 0);
}

} // verus!
