//! What holds of the packer's model: the free list stays sound through a
//! placement, and the chosen position is the first of least score.

use vstd::prelude::*;
use crate::cli::PackingHeuristic;
use crate::packing::model::{
    all_free_ok, best_fit_upto, fits, free_ok, is_best_fit, is_first_mergeable, kept_upto,
    merge_all, merge_pair, mergeable, merged, prune_upto, pruned, rect_of, score, score_less,
    slivers, slivers_upto, split_free, within_bin, PackerState,
};
use crate::packing::rect::Rect;

verus! {

/// A rectangle inside a sound free rectangle is itself inside the bin and
/// clear of every placed rectangle.
pub proof fn lemma_inside_free_ok(
    r: Rect,
    f: Rect,
    bin_width: u32,
    bin_height: u32,
    placed: Seq<Rect>,
)
    requires
        free_ok(f, bin_width, bin_height, placed),
        f.spec_contains(r),
    ensures
        free_ok(r, bin_width, bin_height, placed),
{
    assert forall|k: int| 0 <= k < placed.len() implies !r.spec_intersects(
        #[trigger] placed[k],
    ) by {
        assert(!f.spec_intersects(placed[k]));
    }
}

/// The position at the origin of a sound free rectangle that fits.
pub proof fn lemma_position_ok(
    f: Rect,
    width: u32,
    height: u32,
    bin_width: u32,
    bin_height: u32,
    placed: Seq<Rect>,
)
    requires
        free_ok(f, bin_width, bin_height, placed),
        fits(f, width, height),
    ensures
        ({
            let p = rect_of(f.x as int, f.y as int, width as int, height as int);
            &&& p.x == f.x && p.y == f.y && p.width == width && p.height == height
            &&& f.spec_contains(p)
            &&& free_ok(p, bin_width, bin_height, placed)
        }),
{
    let p = rect_of(f.x as int, f.y as int, width as int, height as int);
    lemma_inside_free_ok(p, f, bin_width, bin_height, placed);
}

/// Each sliver of a sound free rectangle around `p` is sound once `p` is
/// placed.
pub proof fn lemma_slivers_ok(
    f: Rect,
    p: Rect,
    bin_width: u32,
    bin_height: u32,
    placed: Seq<Rect>,
)
    requires
        free_ok(f, bin_width, bin_height, placed),
        p.spec_intersects(f),
    ensures
        all_free_ok(slivers(f, p), bin_width, bin_height, placed.push(p)),
        slivers(f, p).len() <= 4,
{
    let s = slivers(f, p);
    let after = placed.push(p);
    assert forall|m: int| 0 <= m < s.len() implies free_ok(
        #[trigger] s[m],
        bin_width,
        bin_height,
        after,
    ) by {
        let r = s[m];
        assert(f.spec_contains(r));
        assert(!r.spec_intersects(p));
        lemma_inside_free_ok(r, f, bin_width, bin_height, placed);
        assert forall|k: int| 0 <= k < after.len() implies !r.spec_intersects(
            #[trigger] after[k],
        ) by {
            if k < placed.len() {
                assert(after[k] == placed[k]);
            } else {
                assert(after[k] == p);
            }
        }
    }
}

/// A free rectangle that `p` does not touch stays sound once `p` is placed.
pub proof fn lemma_kept_ok(f: Rect, p: Rect, bin_width: u32, bin_height: u32, placed: Seq<Rect>)
    requires
        free_ok(f, bin_width, bin_height, placed),
        !p.spec_intersects(f),
    ensures
        free_ok(f, bin_width, bin_height, placed.push(p)),
{
    let after = placed.push(p);
    assert forall|k: int| 0 <= k < after.len() implies !f.spec_intersects(#[trigger] after[k]) by {
        if k < placed.len() {
            assert(after[k] == placed[k]);
        } else {
            assert(after[k] == p);
        }
    }
}

pub proof fn lemma_kept_upto_ok(
    free: Seq<Rect>,
    p: Rect,
    n: int,
    bin_width: u32,
    bin_height: u32,
    placed: Seq<Rect>,
)
    requires
        all_free_ok(free, bin_width, bin_height, placed),
        0 <= n <= free.len(),
    ensures
        all_free_ok(kept_upto(free, p, n), bin_width, bin_height, placed.push(p)),
        kept_upto(free, p, n).len() <= n,
    decreases n,
{
    if n > 0 {
        lemma_kept_upto_ok(free, p, n - 1, bin_width, bin_height, placed);
        if !p.spec_intersects(free[n - 1]) {
            lemma_kept_ok(free[n - 1], p, bin_width, bin_height, placed);
        }
    }
}

pub proof fn lemma_slivers_upto_ok(
    free: Seq<Rect>,
    p: Rect,
    n: int,
    bin_width: u32,
    bin_height: u32,
    placed: Seq<Rect>,
)
    requires
        all_free_ok(free, bin_width, bin_height, placed),
        0 <= n <= free.len(),
    ensures
        all_free_ok(slivers_upto(free, p, n), bin_width, bin_height, placed.push(p)),
        slivers_upto(free, p, n).len() <= 4 * n,
    decreases n,
{
    if n > 0 {
        lemma_slivers_upto_ok(free, p, n - 1, bin_width, bin_height, placed);
        if p.spec_intersects(free[n - 1]) {
            lemma_slivers_ok(free[n - 1], p, bin_width, bin_height, placed);
        }
    }
}

/// Splitting a sound free list around `p` gives a list that is sound once
/// `p` is placed.
pub proof fn lemma_split_ok(
    free: Seq<Rect>,
    p: Rect,
    bin_width: u32,
    bin_height: u32,
    placed: Seq<Rect>,
)
    requires
        all_free_ok(free, bin_width, bin_height, placed),
    ensures
        all_free_ok(split_free(free, p), bin_width, bin_height, placed.push(p)),
        split_free(free, p).len() <= 5 * free.len(),
{
    lemma_kept_upto_ok(free, p, free.len() as int, bin_width, bin_height, placed);
    lemma_slivers_upto_ok(free, p, free.len() as int, bin_width, bin_height, placed);
}

/// Every rectangle that pruning keeps is one of the list.
pub proof fn lemma_prune_upto_ok(
    s: Seq<Rect>,
    n: int,
    bin_width: u32,
    bin_height: u32,
    placed: Seq<Rect>,
)
    requires
        all_free_ok(s, bin_width, bin_height, placed),
        0 <= n <= s.len(),
    ensures
        all_free_ok(prune_upto(s, n), bin_width, bin_height, placed),
        prune_upto(s, n).len() <= n,
    decreases n,
{
    if n > 0 {
        lemma_prune_upto_ok(s, n - 1, bin_width, bin_height, placed);
    }
}

/// The union of two sound mergeable rectangles is sound.
pub proof fn lemma_merged_ok(a: Rect, b: Rect, bin_width: u32, bin_height: u32, placed: Seq<Rect>)
    requires
        free_ok(a, bin_width, bin_height, placed),
        free_ok(b, bin_width, bin_height, placed),
        mergeable(a, b),
    ensures
        free_ok(merged(a, b), bin_width, bin_height, placed),
{
    let m = merged(a, b);
    assert forall|k: int| 0 <= k < placed.len() implies !m.spec_intersects(
        #[trigger] placed[k],
    ) by {
        assert(!a.spec_intersects(placed[k]));
        assert(!b.spec_intersects(placed[k]));
    }
}

pub proof fn lemma_merge_pair_ok(
    s: Seq<Rect>,
    i: int,
    j: int,
    bin_width: u32,
    bin_height: u32,
    placed: Seq<Rect>,
)
    requires
        all_free_ok(s, bin_width, bin_height, placed),
        0 <= i < j < s.len(),
        mergeable(s[i], s[j]),
    ensures
        all_free_ok(merge_pair(s, i, j), bin_width, bin_height, placed),
        merge_pair(s, i, j).len() == s.len() - 1,
{
    lemma_merged_ok(s[i], s[j], bin_width, bin_height, placed);
    let u = s.update(i, merged(s[i], s[j]));
    let t = merge_pair(s, i, j);
    assert forall|m: int| 0 <= m < t.len() implies free_ok(
        #[trigger] t[m],
        bin_width,
        bin_height,
        placed,
    ) by {
        if m < j {
            assert(t[m] == u[m]);
            if m != i {
                assert(u[m] == s[m]);
            }
        } else {
            assert(t[m] == u[m + 1]);
            assert(u[m + 1] == s[m + 1]);
        }
    }
}

/// Merging a sound free list gives a sound free list.
pub proof fn lemma_merge_all_ok(s: Seq<Rect>, bin_width: u32, bin_height: u32, placed: Seq<Rect>)
    requires
        all_free_ok(s, bin_width, bin_height, placed),
    ensures
        all_free_ok(merge_all(s), bin_width, bin_height, placed),
        merge_all(s).len() <= s.len(),
    decreases s.len(),
{
    if exists|i: int, j: int| is_first_mergeable(s, i, j) {
        let (i, j) = choose|i: int, j: int| is_first_mergeable(s, i, j);
        lemma_merge_pair_ok(s, i, j, bin_width, bin_height, placed);
        lemma_merge_all_ok(merge_pair(s, i, j), bin_width, bin_height, placed);
    }
}

/// The first mergeable pair of a list is unique.
pub proof fn lemma_first_mergeable_unique(s: Seq<Rect>, i: int, j: int, a: int, b: int)
    requires
        is_first_mergeable(s, i, j),
        is_first_mergeable(s, a, b),
    ensures
        i == a && j == b,
{
}

/// Placing a rectangle that lies in the bin, clear of the placed ones,
/// keeps the state well formed.
pub proof fn lemma_place_wf(st: PackerState, p: Rect)
    requires
        st.wf(),
        free_ok(p, st.bin_width, st.bin_height, st.placed),
    ensures
        st.place(p).wf(),
        st.place(p).free.len() <= 5 * st.free.len(),
{
    let after = st.placed.push(p);
    lemma_split_ok(st.free, p, st.bin_width, st.bin_height, st.placed);
    let s1 = split_free(st.free, p);
    lemma_prune_upto_ok(s1, s1.len() as int, st.bin_width, st.bin_height, after);
    lemma_merge_all_ok(pruned(s1), st.bin_width, st.bin_height, after);
    assert forall|k: int| 0 <= k < after.len() implies within_bin(
        #[trigger] after[k],
        st.bin_width,
        st.bin_height,
    ) by {
        if k < st.placed.len() {
            assert(after[k] == st.placed[k]);
        }
    }
    assert forall|k: int, l: int| 0 <= k < l < after.len() implies !(#[trigger] after[k])
        .spec_intersects(#[trigger] after[l]) by {
        assert(after[k] == st.placed[k]);
        if l < st.placed.len() {
            assert(after[l] == st.placed[l]);
        } else {
            assert(!p.spec_intersects(st.placed[k]));
        }
    }
}

/// What the scan over the first `n` free rectangles returns: nothing if
/// none of them fits, else the first of least score among those that fit.
pub proof fn lemma_best_fit_upto(
    st: PackerState,
    n: int,
    width: u32,
    height: u32,
    heuristic: PackingHeuristic,
)
    requires
        0 <= n <= st.free.len(),
    ensures
        match best_fit_upto(st, n, width, height, heuristic) {
            None => forall|j: int| 0 <= j < n ==> !fits(#[trigger] st.free[j], width, height),
            Some(i) => {
                &&& 0 <= i < n
                &&& fits(st.free[i], width, height)
                &&& forall|j: int|
                    0 <= j < i && fits(#[trigger] st.free[j], width, height) ==> score_less(
                        score(st, heuristic, st.free[i], width, height),
                        score(st, heuristic, st.free[j], width, height),
                    )
                &&& forall|j: int|
                    i < j < n && fits(#[trigger] st.free[j], width, height) ==> !score_less(
                        score(st, heuristic, st.free[j], width, height),
                        score(st, heuristic, st.free[i], width, height),
                    )
            },
        },
    decreases n,
{
    if n > 0 {
        lemma_best_fit_upto(st, n - 1, width, height, heuristic);
    }
}

/// The packer chooses the first free rectangle of least score among those
/// that can host the rectangle, and places nothing only if none can.
pub proof fn lemma_placement(st: PackerState, width: u32, height: u32, heuristic: PackingHeuristic)
    ensures
        match best_fit_upto(st, st.free.len() as int, width, height, heuristic) {
            None => !st.can_fit(width, height),
            Some(i) => is_best_fit(st, i, width, height, heuristic) && st.can_fit(width, height),
        },
{
    lemma_best_fit_upto(st, st.free.len() as int, width, height, heuristic);
}

/// An insertion keeps the state well formed; the rectangle that it places
/// has the size asked for, lies in the bin and intersects none placed before.
pub proof fn lemma_insert_wf(st: PackerState, width: u32, height: u32, heuristic: PackingHeuristic)
    requires
        st.wf(),
    ensures
        st.insert(width, height, heuristic).wf(),
        st.placement(width, height, heuristic) is Some <==> st.can_fit(width, height),
        match st.placement(width, height, heuristic) {
            Some(p) => {
                &&& p.width == width
                &&& p.height == height
                &&& free_ok(p, st.bin_width, st.bin_height, st.placed)
            },
            None => true,
        },
{
    lemma_placement(st, width, height, heuristic);
    match best_fit_upto(st, st.free.len() as int, width, height, heuristic) {
        Some(i) => {
            lemma_position_ok(
                st.free[i],
                width,
                height,
                st.bin_width,
                st.bin_height,
                st.placed,
            );
            let p = st.placement(width, height, heuristic).unwrap();
            lemma_place_wf(st, p);
        },
        None => {},
    }
}

} // verus!
