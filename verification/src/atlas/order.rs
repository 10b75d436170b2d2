//! The orders in which a sprite list can be handed to the packer.

use vstd::prelude::*;
use crate::packing::size::Size;

verus! {

/// One way to order the sprites before they are packed. All but
/// `Original` put the sprite with the larger key first and keep the input
/// order among sprites of equal key.
#[derive(Debug, Clone, Copy, PartialEq, Eq, Structural)]
pub enum SpriteOrder {
    /// The input order.
    Original,
    /// Larger area first.
    Area,
    /// Larger perimeter first.
    Perimeter,
    /// Larger longer side first.
    LongSide,
    /// Larger width first.
    Width,
    /// Larger height first.
    Height,
    /// More extreme aspect ratio (longer over shorter side) first.
    AspectRatio,
    /// Longer diagonal first.
    Diagonal,
}

/// `a` is more elongated than `b`: its ratio of longer to shorter side is
/// greater. A sprite without extent on one side counts as elongated beyond
/// every ratio.
pub open spec fn more_elongated(a: Size, b: Size) -> bool {
    if a.spec_short_side() == 0 {
        b.spec_short_side() != 0
    } else if b.spec_short_side() == 0 {
        false
    } else {
        a.spec_long_side() * b.spec_short_side() > b.spec_long_side() * a.spec_short_side()
    }
}

/// Under `order`, a sprite of size `a` has to come before one of size `b`.
pub open spec fn ranks_before(order: SpriteOrder, a: Size, b: Size) -> bool {
    match order {
        SpriteOrder::Original => false,
        SpriteOrder::Area => a.spec_area() > b.spec_area(),
        SpriteOrder::Perimeter => a.width + a.height > b.width + b.height,
        SpriteOrder::LongSide => a.spec_long_side() > b.spec_long_side(),
        SpriteOrder::Width => a.width > b.width,
        SpriteOrder::Height => a.height > b.height,
        SpriteOrder::AspectRatio => more_elongated(a, b),
        SpriteOrder::Diagonal => a.width * a.width + a.height * a.height > b.width * b.width
            + b.height * b.height,
    }
}

/// Where sprite `x` goes into an ordered list: in front of the run of
/// sprites at the end of the first `k` that it has to come before.
pub open spec fn insert_pos(
    sorted: Seq<usize>,
    sizes: Seq<Size>,
    order: SpriteOrder,
    x: int,
    k: int,
) -> int
    decreases k,
{
    if k <= 0 {
        0
    } else if ranks_before(order, sizes[x], sizes[sorted[k - 1] as int]) {
        insert_pos(sorted, sizes, order, x, k - 1)
    } else {
        k
    }
}

/// The first `n` sprites in the given order, as indices into `sizes`.
pub open spec fn sorted_upto(sizes: Seq<Size>, order: SpriteOrder, n: int) -> Seq<usize>
    decreases n,
{
    if n <= 0 {
        seq![]
    } else {
        let prev = sorted_upto(sizes, order, n - 1);
        prev.insert(insert_pos(prev, sizes, order, n - 1, prev.len() as int), (n - 1) as usize)
    }
}

/// All sprites in the given order, as indices into `sizes`.
pub open spec fn sorted_order(sizes: Seq<Size>, order: SpriteOrder) -> Seq<usize> {
    sorted_upto(sizes, order, sizes.len() as int)
}

/// Every index below `n` occurs exactly once in `perm`.
pub open spec fn is_permutation(perm: Seq<usize>, n: int) -> bool {
    &&& perm.len() == n
    &&& forall|i: int| 0 <= i < perm.len() ==> (#[trigger] perm[i]) < n
    &&& forall|i: int, j: int| 0 <= i < j < perm.len() ==> #[trigger] perm[i] != #[trigger] perm[j]
}

/// No sprite stands behind one that it has to come before, and of two
/// sprites neither of which has to come before the other the one of the
/// smaller index stands first.
pub open spec fn is_stable_descending(perm: Seq<usize>, sizes: Seq<Size>, order: SpriteOrder) -> bool {
    forall|i: int, j: int|
        0 <= i < j < perm.len() ==> {
            &&& !ranks_before(
                order,
                sizes[#[trigger] perm[j] as int],
                sizes[#[trigger] perm[i] as int],
            )
            &&& (ranks_before(order, sizes[perm[i] as int], sizes[perm[j] as int]) || perm[i]
                < perm[j])
        }
}

proof fn lemma_elongation_transitive(a: Size, b: Size, c: Size)
    requires
        !more_elongated(a, b),
        !more_elongated(b, c),
    ensures
        !more_elongated(a, c),
{
    let (a_long, a_short) = (a.spec_long_side(), a.spec_short_side());
    let (b_long, b_short) = (b.spec_long_side(), b.spec_short_side());
    let (c_long, c_short) = (c.spec_long_side(), c.spec_short_side());
    if a_short != 0 && b_short != 0 && c_short != 0 {
        assert(a_long * c_short <= c_long * a_short) by (nonlinear_arith)
            requires
                a_long * b_short <= b_long * a_short,
                b_long * c_short <= c_long * b_short,
                a_short > 0,
                b_short > 0,
                c_short > 0,
                a_long >= 0,
                b_long >= 0,
                c_long >= 0,
        {
            assert(a_long * b_short * c_short <= b_long * a_short * c_short);
            assert(b_long * c_short * a_short <= c_long * b_short * a_short);
            assert(b_long * a_short * c_short == b_long * c_short * a_short);
            assert(a_long * c_short * b_short == a_long * b_short * c_short);
            assert(c_long * a_short * b_short == c_long * b_short * a_short);
            assert(a_long * c_short * b_short <= c_long * a_short * b_short);
        }
    }
}

/// `ranks_before` is a strict order in which "neither before the other"
/// is transitive.
pub proof fn lemma_ranks_before_order(order: SpriteOrder, a: Size, b: Size, c: Size)
    ensures
        !ranks_before(order, a, a),
        ranks_before(order, a, b) ==> !ranks_before(order, b, a),
        !ranks_before(order, a, b) && !ranks_before(order, b, c) ==> !ranks_before(order, a, c),
{
    if order == SpriteOrder::AspectRatio {
        if !more_elongated(a, b) && !more_elongated(b, c) {
            lemma_elongation_transitive(a, b, c);
        }
    }
}

/// What `insert_pos` returns: sprite `x` has to come before each sprite
/// from that position up to `k`, and not before the one just in front.
pub proof fn lemma_insert_pos(sorted: Seq<usize>, sizes: Seq<Size>, order: SpriteOrder, x: int, k: int)
    requires
        0 <= k <= sorted.len(),
    ensures
        0 <= insert_pos(sorted, sizes, order, x, k) <= k,
        forall|m: int|
            insert_pos(sorted, sizes, order, x, k) <= m < k ==> ranks_before(
                order,
                sizes[x],
                sizes[#[trigger] sorted[m] as int],
            ),
        insert_pos(sorted, sizes, order, x, k) > 0 ==> !ranks_before(
            order,
            sizes[x],
            sizes[sorted[insert_pos(sorted, sizes, order, x, k) - 1] as int],
        ),
    decreases k,
{
    if k > 0 && ranks_before(order, sizes[x], sizes[sorted[k - 1] as int]) {
        lemma_insert_pos(sorted, sizes, order, x, k - 1);
    }
}

/// The first `n` sprites in order: each index below `n` once, larger keys
/// first, equal keys in input order.
pub proof fn lemma_sorted_upto(sizes: Seq<Size>, order: SpriteOrder, n: int)
    requires
        0 <= n <= sizes.len(),
        n <= usize::MAX,
    ensures
        is_permutation(sorted_upto(sizes, order, n), n),
        is_stable_descending(sorted_upto(sizes, order, n), sizes, order),
    decreases n,
{
    if n > 0 {
        lemma_sorted_upto(sizes, order, n - 1);
        let prev = sorted_upto(sizes, order, n - 1);
        let x = n - 1;
        let p = insert_pos(prev, sizes, order, x, prev.len() as int);
        lemma_insert_pos(prev, sizes, order, x, prev.len() as int);
        let cur = sorted_upto(sizes, order, n);
        assert(cur == prev.insert(p, x as usize));
        assert forall|i: int| 0 <= i < cur.len() implies (#[trigger] cur[i]) < n by {
            if i < p {
                assert(cur[i] == prev[i]);
            } else if i > p {
                assert(cur[i] == prev[i - 1]);
            }
        }
        assert forall|i: int, j: int| 0 <= i < j < cur.len() implies #[trigger] cur[i]
            != #[trigger] cur[j] by {
            let pi = if i < p { i } else { i - 1 };
            let pj = if j < p { j } else { j - 1 };
            if i != p {
                assert(cur[i] == prev[pi]);
            }
            if j != p {
                assert(cur[j] == prev[pj]);
            }
        }
        // no sprite in front of position p has sprite x come before it
        assert forall|k: int| 0 <= k < p implies !ranks_before(
            order,
            sizes[x],
            sizes[#[trigger] prev[k] as int],
        ) by {
            if k < p - 1 {
                lemma_ranks_before_order(
                    order,
                    sizes[x],
                    sizes[prev[p - 1] as int],
                    sizes[prev[k] as int],
                );
            }
        }
        assert forall|i: int, j: int| 0 <= i < j < cur.len() implies {
            &&& !ranks_before(
                order,
                sizes[#[trigger] cur[j] as int],
                sizes[#[trigger] cur[i] as int],
            )
            &&& (ranks_before(order, sizes[cur[i] as int], sizes[cur[j] as int]) || cur[i]
                < cur[j])
        } by {
            let pi = if i < p { i } else { i - 1 };
            let pj = if j < p { j } else { j - 1 };
            if i != p {
                assert(cur[i] == prev[pi]);
            }
            if j != p {
                assert(cur[j] == prev[pj]);
            }
            if i == p {
                lemma_ranks_before_order(order, sizes[x], sizes[prev[pj] as int], sizes[x]);
            } else if j == p {
                assert(prev[pi] < n - 1);
            }
        }
    }
}

/// The ordered list holds every sprite exactly once, larger keys first,
/// sprites of equal key in input order.
pub proof fn lemma_sorted_order(sizes: Seq<Size>, order: SpriteOrder)
    requires
        sizes.len() <= usize::MAX,
    ensures
        is_permutation(sorted_order(sizes, order), sizes.len() as int),
        is_stable_descending(sorted_order(sizes, order), sizes, order),
{
    lemma_sorted_upto(sizes, order, sizes.len() as int);
}

impl SpriteOrder {
    /// A sprite of size `a` has to come before one of size `b`.
    pub fn ranks_before(&self, a: &Size, b: &Size) -> (r: bool)
        ensures
            r == ranks_before(*self, *a, *b),
    {
        match self {
            SpriteOrder::Original => false,
            SpriteOrder::Area => a.area() > b.area(),
            SpriteOrder::Perimeter => a.width as u64 + a.height as u64 > b.width as u64
                + b.height as u64,
            SpriteOrder::LongSide => a.long_side() > b.long_side(),
            SpriteOrder::Width => a.width > b.width,
            SpriteOrder::Height => a.height > b.height,
            SpriteOrder::AspectRatio => {
                if a.short_side() == 0 {
                    b.short_side() != 0
                } else if b.short_side() == 0 {
                    false
                } else {
                    let al: u64 = a.long_side() as u64;
                    let a_short: u64 = a.short_side() as u64;
                    let bl: u64 = b.long_side() as u64;
                    let b_short: u64 = b.short_side() as u64;
                    assert(al * b_short <= 0xFFFF_FFFF * 0xFFFF_FFFF) by (nonlinear_arith)
                        requires
                            al <= 0xFFFF_FFFF,
                            b_short <= 0xFFFF_FFFF,
                    ;
                    assert(bl * a_short <= 0xFFFF_FFFF * 0xFFFF_FFFF) by (nonlinear_arith)
                        requires
                            bl <= 0xFFFF_FFFF,
                            a_short <= 0xFFFF_FFFF,
                    ;
                    al * b_short > bl * a_short
                }
            },
            SpriteOrder::Diagonal => {
                let aw: u64 = Size::new(a.width, a.width).area();
                let ah: u64 = Size::new(a.height, a.height).area();
                let bw: u64 = Size::new(b.width, b.width).area();
                let bh: u64 = Size::new(b.height, b.height).area();
                aw as u128 + ah as u128 > bw as u128 + bh as u128
            },
        }
    }
}

/// The indices of the sprites in the given order.
pub fn sorted_indices(sizes: &Vec<Size>, order: SpriteOrder) -> (perm: Vec<usize>)
    ensures
        perm@ == sorted_order(sizes@, order),
        is_permutation(perm@, sizes@.len() as int),
        is_stable_descending(perm@, sizes@, order),
{
    let n: usize = sizes.len();
    let mut perm: Vec<usize> = Vec::new();
    let mut x: usize = 0;
    while x < n
        invariant
            n == sizes.len(),
            x <= n,
            perm@ == sorted_upto(sizes@, order, x as int),
        decreases n - x,
    {
        proof {
            lemma_sorted_upto(sizes@, order, x as int);
        }
        let mut k: usize = perm.len();
        let mut scanning: bool = true;
        while scanning && k > 0
            invariant
                n == sizes.len(),
                x < n,
                k <= perm.len(),
                is_permutation(perm@, x as int),
                insert_pos(perm@, sizes@, order, x as int, perm.len() as int) == insert_pos(
                    perm@,
                    sizes@,
                    order,
                    x as int,
                    k as int,
                ),
                !scanning ==> k > 0 && !ranks_before(
                    order,
                    sizes@[x as int],
                    sizes@[perm@[k - 1] as int],
                ),
            decreases k + (if scanning { 1int } else { 0int }),
        {
            let e: usize = perm[k - 1];
            if order.ranks_before(&sizes[x], &sizes[e]) {
                k -= 1;
            } else {
                scanning = false;
            }
        }
        perm.insert(k, x);
        x += 1;
    }
    proof {
        lemma_sorted_order(sizes@, order);
    }
    perm
}

} // verus!
