//! What holds of every layout and of every plan: placements never
//! intersect, every sprite is placed exactly once, occupancy never exceeds
//! one, and trying more heuristics never places fewer sprites.

use vstd::prelude::*;
use vstd::multiset::Multiset;
use vstd::seq_lib::{lemma_multiset_commutative, to_multiset_build, to_multiset_insert};
use crate::atlas::order::{
    insert_pos, lemma_insert_pos, lemma_sorted_upto, sorted_order, sorted_upto, SpriteOrder,
};
use crate::atlas::plan::{
    all_below, all_fit, all_indices, area_of, arranged, best_layout, extent_x, extent_y,
    heuristics_of, layout_of, orders_of, padded_height, padded_width, plan, plan_from,
    search_heuristics, search_orders, size_fits, sizes_of, trial_layout, trial_step, trial_upto,
    Bin, LayoutModel, PackSettings, Placement, TrialState,
};
use crate::cli::{PackMode, PackingHeuristic};
use crate::packing::area::lemma_disjoint_area_bound;
use crate::packing::lemmas::lemma_insert_wf;
use crate::packing::maxrects::area_sum;
use crate::packing::model::{
    all_within, fits, free_ok, pairwise_disjoint, rect_of, within_bin, PackerState,
};
use crate::packing::rect::Rect;
use crate::packing::size::Size;

verus! {

/// The reserved areas of the placements, in placement order.
pub open spec fn rects_of(p: Seq<Placement>) -> Seq<Rect> {
    Seq::new(p.len(), |k: int| p[k].rect)
}

/// The sprites of the placements, in placement order.
pub open spec fn indices_of(p: Seq<Placement>) -> Seq<usize> {
    Seq::new(p.len(), |k: int| p[k].index)
}

/// Each placement reserves the area of its sprite with its rim.
pub open spec fn sized_for(p: Seq<Placement>, sizes: Seq<Size>, bin: Bin) -> bool {
    forall|k: int|
        0 <= k < p.len() ==> {
            &&& (#[trigger] p[k]).index < sizes.len()
            &&& p[k].rect.width == padded_width(sizes[p[k].index as int], bin.border)
            &&& p[k].rect.height == padded_height(sizes[p[k].index as int], bin.border)
        }
}

/// The placed and the unplaced sprites together are the sprites `tried`,
/// each as often as it occurs there.
pub open spec fn accounts_for(p: Seq<Placement>, unplaced: Seq<usize>, tried: Seq<usize>) -> bool {
    &&& indices_of(p).to_multiset().add(unplaced.to_multiset()) == tried.to_multiset()
    &&& p.len() + unplaced.len() == tried.len()
}

/// What holds of a trial after the sprites `tried` were offered.
pub open spec fn trial_ok(t: TrialState, sizes: Seq<Size>, bin: Bin, tried: Seq<usize>) -> bool {
    &&& t.packer.wf()
    &&& t.packer.bin_width == bin.width
    &&& t.packer.bin_height == bin.height
    &&& t.packer.placed == rects_of(t.placements)
    &&& sized_for(t.placements, sizes, bin)
    &&& accounts_for(t.placements, t.unplaced, tried)
    &&& all_below(t.unplaced, sizes.len() as int)
    &&& t.placements.len() == 0 ==> t.unplaced.len() == 0 && t.packer == PackerState::empty(
        bin.width,
        bin.height,
    )
}

/// An empty list holds nothing.
pub proof fn lemma_empty_multiset()
    ensures
        Seq::<usize>::empty().to_multiset() == Multiset::<usize>::empty(),
{
    broadcast use vstd::multiset::group_multiset_axioms;

    let e = Seq::<usize>::empty();
    e.to_multiset_ensures();
    assert(e.to_multiset() =~= Multiset::<usize>::empty());
}

/// One step of a trial keeps what holds of it.
pub proof fn lemma_trial_step_ok(
    t: TrialState,
    index: usize,
    sizes: Seq<Size>,
    bin: Bin,
    heuristic: PackingHeuristic,
    tried: Seq<usize>,
)
    requires
        trial_ok(t, sizes, bin, tried),
        index < sizes.len(),
        size_fits(sizes[index as int], bin),
        0 <= bin.border,
    ensures
        trial_ok(
            trial_step(t, index, sizes[index as int], bin, heuristic),
            sizes,
            bin,
            tried.push(index),
        ),
{
    broadcast use to_multiset_build;

    let size = sizes[index as int];
    let w = padded_width(size, bin.border) as u32;
    let h = padded_height(size, bin.border) as u32;
    let next = trial_step(t, index, size, bin, heuristic);
    lemma_insert_wf(t.packer, w, h, heuristic);
    if t.placements.len() == 0 {
        assert(fits(t.packer.free[0], w, h));
        assert(t.packer.can_fit(w, h));
    }
    match t.packer.placement(w, h, heuristic) {
        Some(r) => {
            assert(rects_of(next.placements) =~= rects_of(t.placements).push(r));
            assert(indices_of(next.placements) =~= indices_of(t.placements).push(index));
            assert(indices_of(next.placements).to_multiset().add(next.unplaced.to_multiset())
                =~= tried.push(index).to_multiset());
            assert forall|k: int| 0 <= k < next.placements.len() implies {
                &&& (#[trigger] next.placements[k]).index < sizes.len()
                &&& next.placements[k].rect.width == padded_width(
                    sizes[next.placements[k].index as int],
                    bin.border,
                )
                &&& next.placements[k].rect.height == padded_height(
                    sizes[next.placements[k].index as int],
                    bin.border,
                )
            } by {
                if k < t.placements.len() {
                    assert(next.placements[k] == t.placements[k]);
                }
            }
        },
        None => {
            assert(indices_of(next.placements).to_multiset().add(next.unplaced.to_multiset())
                =~= tried.push(index).to_multiset());
        },
    }
}

/// What holds of a trial after the first `n` sprites of `order`.
pub proof fn lemma_trial_upto_ok(
    sizes: Seq<Size>,
    bin: Bin,
    order: Seq<usize>,
    heuristic: PackingHeuristic,
    n: int,
)
    requires
        all_below(order, sizes.len() as int),
        all_fit(sizes, bin),
        0 <= bin.border,
        0 <= n <= order.len(),
    ensures
        trial_ok(trial_upto(sizes, bin, order, heuristic, n), sizes, bin, order.take(n)),
    decreases n,
{
    if n <= 0 {
        let t = trial_upto(sizes, bin, order, heuristic, n);
        assert(rects_of(t.placements) =~= t.packer.placed);
        assert(indices_of(t.placements) =~= Seq::<usize>::empty());
        assert(t.unplaced =~= Seq::<usize>::empty());
        assert(order.take(n) =~= Seq::<usize>::empty());
        lemma_empty_multiset();
        assert(indices_of(t.placements).to_multiset().add(t.unplaced.to_multiset())
            =~= order.take(n).to_multiset());
        assert(free_ok(
            rect_of(0, 0, bin.width as int, bin.height as int),
            bin.width,
            bin.height,
            t.packer.placed,
        ));
    } else {
        lemma_trial_upto_ok(sizes, bin, order, heuristic, n - 1);
        lemma_trial_step_ok(
            trial_upto(sizes, bin, order, heuristic, n - 1),
            order[n - 1],
            sizes,
            bin,
            heuristic,
            order.take(n - 1),
        );
        assert(order.take(n) =~= order.take(n - 1).push(order[n - 1]));
    }
}

/// Extent and area of the first `n` placements do not depend on what
/// follows them.
pub proof fn lemma_push_prefix(p: Seq<Placement>, x: Placement, n: int)
    requires
        0 <= n <= p.len(),
    ensures
        extent_x(p.push(x), n) == extent_x(p, n),
        extent_y(p.push(x), n) == extent_y(p, n),
        area_of(p.push(x), n) == area_of(p, n),
    decreases n,
{
    if n > 0 {
        lemma_push_prefix(p, x, n - 1);
        assert(p.push(x)[n - 1] == p[n - 1]);
    }
}

/// The extent of placements covers each of them and stays in the bin.
pub proof fn lemma_extent(p: Seq<Placement>, n: int, bin_width: u32, bin_height: u32)
    requires
        0 <= n <= p.len(),
        all_within(rects_of(p), bin_width, bin_height),
    ensures
        0 <= extent_x(p, n) <= bin_width,
        0 <= extent_y(p, n) <= bin_height,
        forall|k: int|
            0 <= k < n ==> (#[trigger] p[k]).rect.right() <= extent_x(p, n) && p[k].rect.bottom()
                <= extent_y(p, n),
    decreases n,
{
    if n > 0 {
        lemma_extent(p, n - 1, bin_width, bin_height);
        assert(within_bin(rects_of(p)[n - 1], bin_width, bin_height));
    }
}

/// The summed area of placements is the summed area of their rectangles.
pub proof fn lemma_area_of(p: Seq<Placement>, n: int)
    requires
        0 <= n <= p.len(),
    ensures
        area_of(p, n) == area_sum(rects_of(p), n),
    decreases n,
{
    if n > 0 {
        lemma_area_of(p, n - 1);
    }
}

/// What holds of a layout for the sprites `items`.
pub open spec fn layout_ok(l: LayoutModel, sizes: Seq<Size>, bin: Bin, items: Seq<usize>) -> bool {
    &&& l == layout_of(l.placements, l.unplaced)
    &&& pairwise_disjoint(rects_of(l.placements))
    &&& all_within(rects_of(l.placements), bin.width, bin.height)
    &&& sized_for(l.placements, sizes, bin)
    &&& accounts_for(l.placements, l.unplaced, items)
    &&& all_below(l.unplaced, sizes.len() as int)
    &&& items.len() > 0 ==> l.placements.len() > 0
    &&& 0 <= l.max_x <= bin.width
    &&& 0 <= l.max_y <= bin.height
    &&& 0 <= l.placed_area <= l.max_x * l.max_y
}

/// Placements that do not intersect fill no more than their bounding box.
pub proof fn lemma_layout_area(p: Seq<Placement>, bin_width: u32, bin_height: u32)
    requires
        pairwise_disjoint(rects_of(p)),
        all_within(rects_of(p), bin_width, bin_height),
    ensures
        0 <= area_of(p, p.len() as int) <= extent_x(p, p.len() as int) * extent_y(
            p,
            p.len() as int,
        ),
{
    let n = p.len() as int;
    lemma_extent(p, n, bin_width, bin_height);
    lemma_area_of(p, n);
    let r = rects_of(p);
    assert forall|k: int| 0 <= k < r.len() implies (#[trigger] r[k]).right() <= extent_x(p, n)
        && r[k].bottom() <= extent_y(p, n) by {
        assert(r[k] == p[k].rect);
    }
    lemma_disjoint_area_bound(r, extent_x(p, n), extent_y(p, n));
}

/// What holds of the layout that a trial ends with.
pub proof fn lemma_trial_layout_ok(
    sizes: Seq<Size>,
    bin: Bin,
    order: Seq<usize>,
    heuristic: PackingHeuristic,
    items: Seq<usize>,
)
    requires
        all_below(order, sizes.len() as int),
        all_fit(sizes, bin),
        0 <= bin.border,
        order.to_multiset() == items.to_multiset(),
        order.len() == items.len(),
    ensures
        layout_ok(trial_layout(sizes, bin, order, heuristic), sizes, bin, items),
{
    let n = order.len() as int;
    lemma_trial_upto_ok(sizes, bin, order, heuristic, n);
    assert(order.take(n) =~= order);
    let t = trial_upto(sizes, bin, order, heuristic, n);
    lemma_extent(t.placements, t.placements.len() as int, bin.width, bin.height);
    lemma_layout_area(t.placements, bin.width, bin.height);
}

/// Ordering a list of sprites keeps every sprite of it, each as often as
/// it occurs.
proof fn lemma_arranged_upto(sizes: Seq<Size>, items: Seq<usize>, order: SpriteOrder, n: int)
    requires
        0 <= n <= items.len(),
        items.len() <= usize::MAX,
    ensures
        sorted_upto(sizes_of(sizes, items), order, n).len() == n,
        Seq::new(
            n as nat,
            |k: int| items[sorted_upto(sizes_of(sizes, items), order, n)[k] as int],
        ).to_multiset() == items.take(n).to_multiset(),
    decreases n,
{
    let local = sizes_of(sizes, items);
    lemma_sorted_upto(local, order, n);
    if n <= 0 {
        assert(Seq::new(n as nat, |k: int| items[sorted_upto(local, order, n)[k] as int])
            =~= items.take(n));
    } else {
        lemma_arranged_upto(sizes, items, order, n - 1);
        lemma_sorted_upto(local, order, n - 1);
        let prev = sorted_upto(local, order, n - 1);
        let cur = sorted_upto(local, order, n);
        let p = insert_pos(prev, local, order, n - 1, prev.len() as int);
        lemma_insert_pos(prev, local, order, n - 1, prev.len() as int);
        let mapped_prev = Seq::new((n - 1) as nat, |k: int| items[prev[k] as int]);
        let mapped = Seq::new(n as nat, |k: int| items[cur[k] as int]);
        assert(mapped =~= mapped_prev.insert(p, items[n - 1]));
        to_multiset_insert(mapped_prev, p, items[n - 1]);
        assert(items.take(n) =~= items.take(n - 1).push(items[n - 1]));
        to_multiset_build(items.take(n - 1), items[n - 1]);
    }
}

/// The listed sprites in any order are the listed sprites.
pub proof fn lemma_arranged(sizes: Seq<Size>, items: Seq<usize>, order: SpriteOrder)
    requires
        all_below(items, sizes.len() as int),
        items.len() <= usize::MAX,
    ensures
        arranged(sizes, items, order).len() == items.len(),
        arranged(sizes, items, order).to_multiset() == items.to_multiset(),
        all_below(arranged(sizes, items, order), sizes.len() as int),
{
    let local = sizes_of(sizes, items);
    let n = items.len() as int;
    lemma_arranged_upto(sizes, items, order, n);
    lemma_sorted_upto(local, order, n);
    assert(items.take(n) =~= items);
    let perm = sorted_order(local, order);
    assert(arranged(sizes, items, order) =~= Seq::new(
        n as nat,
        |k: int| items[sorted_upto(local, order, n)[k] as int],
    ));
    assert forall|k: int| 0 <= k < arranged(sizes, items, order).len() implies (
    #[trigger] arranged(sizes, items, order)[k]) < sizes.len() by {
        assert(perm[k] < n);
        assert(items[perm[k] as int] < sizes.len());
    }
}

/// What trying `m` heuristics on one ordering leaves as the running best:
/// the best before or one of the trial layouts, with no fewer sprites
/// placed than in any of them.
pub proof fn lemma_search_heuristics(
    sizes: Seq<Size>,
    bin: Bin,
    order: Seq<usize>,
    heuristics: Seq<PackingHeuristic>,
    m: int,
    best: Option<LayoutModel>,
)
    requires
        0 <= m <= heuristics.len(),
    ensures
        ({
            let r = search_heuristics(sizes, bin, order, heuristics, m, best);
            &&& (m > 0 || best is Some) ==> r is Some
            &&& r is Some ==> (best is Some && r == best) || exists|j: int|
                0 <= j < m && r == Some(trial_layout(sizes, bin, order, #[trigger] heuristics[j]))
            &&& best is Some ==> r.unwrap().placements.len() >= best.unwrap().placements.len()
            &&& forall|j: int|
                0 <= j < m ==> r.unwrap().placements.len() >= trial_layout(
                    sizes,
                    bin,
                    order,
                    #[trigger] heuristics[j],
                ).placements.len()
        }),
    decreases m,
{
    if m > 0 {
        lemma_search_heuristics(sizes, bin, order, heuristics, m - 1, best);
        let prev = search_heuristics(sizes, bin, order, heuristics, m - 1, best);
        let r = search_heuristics(sizes, bin, order, heuristics, m, best);
        let cand = trial_layout(sizes, bin, order, heuristics[m - 1]);
        if r == Some(cand) {
            assert(0 <= m - 1 < m && r == Some(
                trial_layout(sizes, bin, order, heuristics[m - 1]),
            ));
        } else {
            assert(r == prev);
            if !(best is Some && r == best) {
                let j = choose|j: int|
                    0 <= j < m - 1 && prev == Some(
                        trial_layout(sizes, bin, order, #[trigger] heuristics[j]),
                    );
                assert(0 <= j < m && r == Some(trial_layout(sizes, bin, order, heuristics[j])));
            }
        }
    }
}

/// The layout `l` is the trial layout of one of the first `k` orderings
/// under one of the heuristics.
pub open spec fn is_candidate(
    l: LayoutModel,
    sizes: Seq<Size>,
    bin: Bin,
    items: Seq<usize>,
    orders: Seq<SpriteOrder>,
    heuristics: Seq<PackingHeuristic>,
    k: int,
) -> bool {
    exists|i: int, j: int|
        0 <= i < k && 0 <= j < heuristics.len() && l == trial_layout(
            sizes,
            bin,
            arranged(sizes, items, #[trigger] orders[i]),
            #[trigger] heuristics[j],
        )
}

/// What trying `k` orderings leaves as the running best: one of the trial
/// layouts, with no fewer sprites placed than in any of them.
pub proof fn lemma_search_orders(
    sizes: Seq<Size>,
    bin: Bin,
    items: Seq<usize>,
    orders: Seq<SpriteOrder>,
    heuristics: Seq<PackingHeuristic>,
    k: int,
)
    requires
        0 <= k <= orders.len(),
        heuristics.len() > 0,
    ensures
        ({
            let r = search_orders(sizes, bin, items, orders, heuristics, k);
            &&& k > 0 <==> r is Some
            &&& r is Some ==> is_candidate(r.unwrap(), sizes, bin, items, orders, heuristics, k)
            &&& forall|i: int, j: int|
                0 <= i < k && 0 <= j < heuristics.len() ==> r.unwrap().placements.len()
                    >= trial_layout(
                    sizes,
                    bin,
                    arranged(sizes, items, #[trigger] orders[i]),
                    #[trigger] heuristics[j],
                ).placements.len()
        }),
    decreases k,
{
    if k > 0 {
        lemma_search_orders(sizes, bin, items, orders, heuristics, k - 1);
        let before = search_orders(sizes, bin, items, orders, heuristics, k - 1);
        let order = arranged(sizes, items, orders[k - 1]);
        let m = heuristics.len() as int;
        lemma_search_heuristics(sizes, bin, order, heuristics, m, before);
        let r = search_orders(sizes, bin, items, orders, heuristics, k);
        if before is Some && r == before {
            let (i, j) = choose|i: int, j: int|
                0 <= i < k - 1 && 0 <= j < heuristics.len() && before.unwrap() == trial_layout(
                    sizes,
                    bin,
                    arranged(sizes, items, #[trigger] orders[i]),
                    #[trigger] heuristics[j],
                );
            assert(0 <= i < k && 0 <= j < heuristics.len() && r.unwrap() == trial_layout(
                sizes,
                bin,
                arranged(sizes, items, orders[i]),
                heuristics[j],
            ));
        } else {
            let j = choose|j: int|
                0 <= j < m && r == Some(trial_layout(sizes, bin, order, #[trigger] heuristics[j]));
            assert(0 <= k - 1 < k && 0 <= j < heuristics.len() && r.unwrap() == trial_layout(
                sizes,
                bin,
                arranged(sizes, items, orders[k - 1]),
                heuristics[j],
            ));
        }
        assert forall|i: int, j: int|
            0 <= i < k && 0 <= j < heuristics.len() implies r.unwrap().placements.len()
            >= trial_layout(
            sizes,
            bin,
            arranged(sizes, items, #[trigger] orders[i]),
            #[trigger] heuristics[j],
        ).placements.len() by {
            if i < k - 1 {
                assert(before.unwrap().placements.len() >= trial_layout(
                    sizes,
                    bin,
                    arranged(sizes, items, orders[i]),
                    heuristics[j],
                ).placements.len());
            }
        }
    }
}

/// What holds of the best layout of a bin.
pub proof fn lemma_best_layout_ok(sizes: Seq<Size>, s: PackSettings, items: Seq<usize>)
    requires
        all_below(items, sizes.len() as int),
        all_fit(sizes, s.bin),
        0 <= s.bin.border,
        items.len() <= usize::MAX,
    ensures
        layout_ok(best_layout(sizes, s, items), sizes, s.bin, items),
{
    let orders = orders_of(s.pack_mode);
    let heuristics = heuristics_of(s.heuristic);
    lemma_search_orders(sizes, s.bin, items, orders, heuristics, orders.len() as int);
    let l = best_layout(sizes, s, items);
    let (i, j) = choose|i: int, j: int|
        0 <= i < orders.len() && 0 <= j < heuristics.len() && l == trial_layout(
            sizes,
            s.bin,
            arranged(sizes, items, #[trigger] orders[i]),
            #[trigger] heuristics[j],
        );
    lemma_arranged(sizes, items, orders[i]);
    lemma_trial_layout_ok(sizes, s.bin, arranged(sizes, items, orders[i]), heuristics[j], items);
}

/// Trying all heuristics places at least as many sprites in a bin as
/// any single heuristic does, under the same pack mode.
pub proof fn lemma_best_heuristic_places_most(
    sizes: Seq<Size>,
    bin: Bin,
    pack_mode: PackMode,
    items: Seq<usize>,
    single: PackingHeuristic,
)
    ensures
        best_layout(
            sizes,
            PackSettings { bin, heuristic: PackingHeuristic::Best, pack_mode },
            items,
        ).placements.len() >= best_layout(
            sizes,
            PackSettings { bin, heuristic: single, pack_mode },
            items,
        ).placements.len(),
{
    let orders = orders_of(pack_mode);
    let all = heuristics_of(PackingHeuristic::Best);
    let one = heuristics_of(single);
    let k = orders.len() as int;
    lemma_search_orders(sizes, bin, items, orders, all, k);
    lemma_search_orders(sizes, bin, items, orders, one, k);
    let lone = search_orders(sizes, bin, items, orders, one, k).unwrap();
    if single != PackingHeuristic::Best {
        let (i, j) = choose|i: int, j: int|
            0 <= i < k && 0 <= j < one.len() && lone == trial_layout(
                sizes,
                bin,
                arranged(sizes, items, #[trigger] orders[i]),
                #[trigger] one[j],
            );
        assert(one[j] == single);
        let jj: int = match single {
            PackingHeuristic::BestShortSideFit => 0,
            PackingHeuristic::BestLongSideFit => 1,
            PackingHeuristic::BestAreaFit => 2,
            PackingHeuristic::BottomLeft => 3,
            _ => 4,
        };
        assert(all[jj] == single);
        assert(trial_layout(sizes, bin, arranged(sizes, items, orders[i]), all[jj]) == lone);
    }
}

/// The sprites that the layouts place, bin after bin.
pub open spec fn placed_indices(layouts: Seq<LayoutModel>) -> Seq<usize>
    decreases layouts.len(),
{
    if layouts.len() == 0 {
        seq![]
    } else {
        indices_of(layouts[0].placements) + placed_indices(layouts.drop_first())
    }
}

/// What holds of the layout of every bin: the reserved areas do not
/// intersect and lie in the bin, each is the area of its sprite with its
/// rim, and together they fill no more than their bounding box.
pub open spec fn layout_packed(l: LayoutModel, sizes: Seq<Size>, bin: Bin) -> bool {
    &&& l == layout_of(l.placements, l.unplaced)
    &&& pairwise_disjoint(rects_of(l.placements))
    &&& all_within(rects_of(l.placements), bin.width, bin.height)
    &&& sized_for(l.placements, sizes, bin)
    &&& l.placements.len() > 0
    &&& 0 <= l.max_x <= bin.width
    &&& 0 <= l.max_y <= bin.height
    &&& 0 <= l.placed_area <= l.max_x * l.max_y
}

/// What holds of the layouts of the bins that the listed sprites take.
pub proof fn lemma_plan_from(sizes: Seq<Size>, s: PackSettings, items: Seq<usize>)
    requires
        all_below(items, sizes.len() as int),
        all_fit(sizes, s.bin),
        0 <= s.bin.border,
        items.len() <= usize::MAX,
    ensures
        forall|a: int|
            0 <= a < plan_from(sizes, s, items).len() ==> layout_packed(
                #[trigger] plan_from(sizes, s, items)[a],
                sizes,
                s.bin,
            ),
        placed_indices(plan_from(sizes, s, items)).to_multiset() == items.to_multiset(),
        items.len() > 0 ==> plan_from(sizes, s, items).len() > 0,
    decreases items.len(),
{
    broadcast use lemma_multiset_commutative;

    if items.len() == 0 {
        assert(items =~= Seq::<usize>::empty());
        assert(placed_indices(plan_from(sizes, s, items)) =~= Seq::<usize>::empty());
    } else {
        let first = best_layout(sizes, s, items);
        lemma_best_layout_ok(sizes, s, items);
        let rest = plan_from(sizes, s, first.unplaced);
        lemma_plan_from(sizes, s, first.unplaced);
        let all = plan_from(sizes, s, items);
        assert(all == seq![first] + rest);
        assert(all.drop_first() =~= rest);
        assert forall|a: int| 0 <= a < all.len() implies layout_packed(
            #[trigger] all[a],
            sizes,
            s.bin,
        ) by {
            if a > 0 {
                assert(all[a] == rest[a - 1]);
            }
        }
        assert(placed_indices(all) == indices_of(first.placements) + placed_indices(rest));
    }
}

/// The rectangle that a placed sprite itself takes: the reserved area
/// without the rim.
pub open spec fn sprite_rect(p: Placement, sizes: Seq<Size>, bin: Bin) -> Rect {
    rect_of(
        p.rect.x + bin.border,
        p.rect.y + bin.border,
        sizes[p.index as int].width as int,
        sizes[p.index as int].height as int,
    )
}

/// No two sprites of a bin intersect, and every sprite lies inside the
/// bounding box of its bin's content.
pub proof fn lemma_sprites_disjoint(l: LayoutModel, sizes: Seq<Size>, bin: Bin, i: int, j: int)
    requires
        layout_packed(l, sizes, bin),
        0 <= bin.border,
        0 <= i < l.placements.len(),
        0 <= j < l.placements.len(),
        i != j,
    ensures
        !sprite_rect(l.placements[i], sizes, bin).spec_intersects(
            sprite_rect(l.placements[j], sizes, bin),
        ),
        l.placements[i].rect.spec_contains(sprite_rect(l.placements[i], sizes, bin)),
        sprite_rect(l.placements[i], sizes, bin).right() <= l.max_x,
        sprite_rect(l.placements[i], sizes, bin).bottom() <= l.max_y,
{
    let r = rects_of(l.placements);
    assert(r[i] == l.placements[i].rect);
    assert(r[j] == l.placements[j].rect);
    assert(within_bin(r[i], bin.width, bin.height));
    assert(within_bin(r[j], bin.width, bin.height));
    if i < j {
        assert(!r[i].spec_intersects(r[j]));
    } else {
        assert(!r[j].spec_intersects(r[i]));
    }
    lemma_extent(l.placements, l.placements.len() as int, bin.width, bin.height);
}

/// No two placements within the same atlas intersect.
pub proof fn lemma_plan_no_overlap(sizes: Seq<Size>, s: PackSettings, a: int, i: int, j: int)
    requires
        all_fit(sizes, s.bin),
        0 <= s.bin.border,
        sizes.len() <= usize::MAX,
        0 <= a < plan(sizes, s).len(),
        0 <= i < plan(sizes, s)[a].placements.len(),
        0 <= j < plan(sizes, s)[a].placements.len(),
        i != j,
    ensures
        !sprite_rect(plan(sizes, s)[a].placements[i], sizes, s.bin).spec_intersects(
            sprite_rect(plan(sizes, s)[a].placements[j], sizes, s.bin),
        ),
{
    lemma_plan_from(sizes, s, all_indices(sizes.len() as int));
    lemma_sprites_disjoint(plan(sizes, s)[a], sizes, s.bin, i, j);
}

/// Every input sprite is placed in exactly one bin, exactly once.
pub proof fn lemma_plan_places_each_once(sizes: Seq<Size>, s: PackSettings)
    requires
        all_fit(sizes, s.bin),
        0 <= s.bin.border,
        sizes.len() <= usize::MAX,
    ensures
        placed_indices(plan(sizes, s)).len() == sizes.len(),
        forall|v: usize|
            placed_indices(plan(sizes, s)).to_multiset().count(v) == (if v < sizes.len() {
                1nat
            } else {
                0nat
            }),
{
    broadcast use vstd::multiset::group_multiset_axioms;

    let n = sizes.len() as int;
    let ids = all_indices(n);
    lemma_plan_from(sizes, s, ids);
    let placed = placed_indices(plan(sizes, s));
    placed.to_multiset_ensures();
    ids.to_multiset_ensures();
    assert(ids.no_duplicates());
    ids.lemma_multiset_has_no_duplicates();
    assert forall|v: usize| placed.to_multiset().count(v) == (if v < n {
        1nat
    } else {
        0nat
    }) by {
        if v < n {
            assert(ids[v as int] == v);
            assert(ids.contains(v));
        } else if ids.contains(v) {
            let k = choose|k: int| 0 <= k < ids.len() && ids[k] == v;
            assert(false);
        }
    }
}

/// The occupancy of every atlas lies between 0 and 1: the placed sprites
/// with their rims fill no more than the bounding box of the content.
pub proof fn lemma_plan_occupancy(sizes: Seq<Size>, s: PackSettings, a: int)
    requires
        all_fit(sizes, s.bin),
        0 <= s.bin.border,
        sizes.len() <= usize::MAX,
        0 <= a < plan(sizes, s).len(),
    ensures
        0 <= plan(sizes, s)[a].placed_area <= plan(sizes, s)[a].used_area(),
{
    lemma_plan_from(sizes, s, all_indices(sizes.len() as int));
    assert(layout_packed(plan(sizes, s)[a], sizes, s.bin));
}

} // verus!
