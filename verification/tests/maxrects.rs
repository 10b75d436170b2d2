use bento::cli::PackingHeuristic;
use bento::packing::{MaxRectsPacker, Rect};

#[test]
fn test_single_insert() {
    let mut packer = MaxRectsPacker::new(100, 100);
    let rect = packer
        .insert(50, 50, PackingHeuristic::BestShortSideFit)
        .unwrap();

    assert_eq!(rect.x, 0);
    assert_eq!(rect.y, 0);
    assert_eq!(rect.width, 50);
    assert_eq!(rect.height, 50);
}

#[test]
fn test_multiple_inserts() {
    let mut packer = MaxRectsPacker::new(100, 100);

    let r1 = packer
        .insert(50, 50, PackingHeuristic::BestShortSideFit)
        .unwrap();
    let r2 = packer
        .insert(50, 50, PackingHeuristic::BestShortSideFit)
        .unwrap();
    let r3 = packer
        .insert(50, 50, PackingHeuristic::BestShortSideFit)
        .unwrap();
    let r4 = packer
        .insert(50, 50, PackingHeuristic::BestShortSideFit)
        .unwrap();

    // All four 50x50 rects should fit in a 100x100 bin
    assert!(!r1.intersects(&r2));
    assert!(!r1.intersects(&r3));
    assert!(!r1.intersects(&r4));
    assert!(!r2.intersects(&r3));
    assert!(!r2.intersects(&r4));
    assert!(!r3.intersects(&r4));
}

#[test]
fn test_too_large() {
    let mut packer = MaxRectsPacker::new(100, 100);
    let result = packer.insert(150, 50, PackingHeuristic::BestShortSideFit);
    assert!(result.is_none());
}

#[test]
fn test_can_fit() {
    let mut packer = MaxRectsPacker::new(100, 100);
    assert!(packer.can_fit(50, 50));
    assert!(packer.can_fit(100, 100));
    assert!(!packer.can_fit(101, 100));

    packer
        .insert(100, 100, PackingHeuristic::BestShortSideFit)
        .unwrap();
    assert!(!packer.can_fit(1, 1));
}

#[test]
fn test_occupancy_known_limitation() {
    // The occupancy calculation is approximate because free_rects can overlap.
    // After placing 50x50 at (0,0) in a 100x100 bin:
    // - Right free rect: (50, 0, 50, 100) = 5000
    // - Bottom free rect: (0, 50, 100, 50) = 5000
    // - These overlap at (50, 50, 50, 50) = 2500
    // - Naive sum = 10000, which is the whole bin
    let mut packer = MaxRectsPacker::new(100, 100);
    packer
        .insert(50, 50, PackingHeuristic::BestShortSideFit)
        .unwrap();

    let _occupancy = packer.occupancy();
}

#[test]
fn test_occupancy_full_bin() {
    // When fully packed, occupancy calculation is accurate
    let mut packer = MaxRectsPacker::new(100, 100);
    packer
        .insert(50, 50, PackingHeuristic::BestShortSideFit)
        .unwrap();
    packer
        .insert(50, 50, PackingHeuristic::BestShortSideFit)
        .unwrap();
    packer
        .insert(50, 50, PackingHeuristic::BestShortSideFit)
        .unwrap();
    packer
        .insert(50, 50, PackingHeuristic::BestShortSideFit)
        .unwrap();

    let ratio = packer.occupancy();
    let occupancy = ratio.used as f64 / ratio.total as f64;
    assert!(
        (occupancy - 1.0).abs() < 0.01,
        "Expected occupancy ~1.0, got {}",
        occupancy
    );
}

#[test]
fn fresh_packer_has_one_free_rectangle() {
    let packer = MaxRectsPacker::new(64, 32);
    assert_eq!(packer.free().len(), 1);
    assert_eq!(packer.free()[0], Rect::new(0, 0, 64, 32));
    assert_eq!(packer.placed().len(), 0);
    assert_eq!(packer.bin_width(), 64);
    assert_eq!(packer.bin_height(), 32);
    let o = packer.occupancy();
    assert_eq!((o.used, o.total), (0, 2048));
}

#[test]
fn occupancy_is_clamped_at_zero() {
    // the two free rectangles overlap, their summed area is the bin's area
    let mut packer = MaxRectsPacker::new(100, 100);
    packer.insert(50, 50, PackingHeuristic::BestShortSideFit).unwrap();
    let o = packer.occupancy();
    assert_eq!(o.total, 10000);
    assert_eq!(o.used, 0);
    // three overlapping free rectangles sum to more than the bin
    let mut packer = MaxRectsPacker::new(100, 100);
    packer.insert(10, 10, PackingHeuristic::BestShortSideFit).unwrap();
    packer.insert(10, 10, PackingHeuristic::BottomLeft).unwrap();
    let o = packer.occupancy();
    assert_eq!(o.used, 0);
    assert!(o.used <= o.total);
}

#[test]
fn split_leaves_right_and_bottom_slivers() {
    let mut packer = MaxRectsPacker::new(100, 100);
    let r = packer.insert(30, 40, PackingHeuristic::BestShortSideFit).unwrap();
    assert_eq!(r, Rect::new(0, 0, 30, 40));
    let free = packer.free();
    assert_eq!(free.len(), 2);
    assert_eq!(free[0], Rect::new(30, 0, 70, 100));
    assert_eq!(free[1], Rect::new(0, 40, 100, 60));
    assert_eq!(packer.placed().len(), 1);
    assert_eq!(packer.placed()[0], r);
}

#[test]
fn prune_drops_contained_rectangles() {
    // after two placements along the top, the sliver below the second
    // sprite is contained in the full-width free rectangle below both
    let mut packer = MaxRectsPacker::new(100, 100);
    packer.insert(50, 50, PackingHeuristic::BottomLeft).unwrap();
    let second = packer.insert(50, 50, PackingHeuristic::BottomLeft).unwrap();
    assert_eq!(second, Rect::new(50, 0, 50, 50));
    let free = packer.free();
    assert_eq!(free.len(), 1);
    assert_eq!(free[0], Rect::new(0, 50, 100, 50));
}

#[test]
fn placement_across_the_bin_leaves_one_free_rectangle() {
    let mut packer = MaxRectsPacker::new(100, 100);
    packer.insert(100, 50, PackingHeuristic::BestShortSideFit).unwrap();
    assert_eq!(packer.free().len(), 1);
    assert_eq!(packer.free()[0], Rect::new(0, 50, 100, 50));
    packer.insert(50, 50, PackingHeuristic::BestShortSideFit).unwrap();
    assert_eq!(packer.free().len(), 1);
    assert_eq!(packer.free()[0], Rect::new(50, 50, 50, 50));
}

#[test]
fn best_short_side_fit_prefers_the_snug_rectangle() {
    let mut packer = MaxRectsPacker::new(100, 100);
    packer.insert(60, 70, PackingHeuristic::BestShortSideFit).unwrap();
    // free: right (60,0,40,100), bottom (0,70,100,30)
    // 40x30: right leaves (0,70) -> short 0; bottom leaves (60,0) -> short 0, long 60
    let r = packer.insert(40, 30, PackingHeuristic::BestShortSideFit).unwrap();
    assert_eq!(r, Rect::new(0, 70, 40, 30));
}

#[test]
fn best_long_side_fit_minimises_the_longer_leftover() {
    let mut packer = MaxRectsPacker::new(100, 100);
    packer.insert(60, 70, PackingHeuristic::BestLongSideFit).unwrap();
    // 30x30: right (40x100) leaves (10,70) -> long 70; bottom (100x30) leaves (70,0) -> long 70, short 0
    let r = packer.insert(30, 30, PackingHeuristic::BestLongSideFit).unwrap();
    assert_eq!(r, Rect::new(0, 70, 30, 30));
}

#[test]
fn best_area_fit_prefers_the_smaller_free_rectangle() {
    let mut packer = MaxRectsPacker::new(100, 100);
    packer.insert(60, 70, PackingHeuristic::BestAreaFit).unwrap();
    // right: 40*100 = 4000, bottom: 100*30 = 3000
    let r = packer.insert(20, 20, PackingHeuristic::BestAreaFit).unwrap();
    assert_eq!(r, Rect::new(0, 70, 20, 20));
}

#[test]
fn bottom_left_prefers_the_lowest_top_edge() {
    let mut packer = MaxRectsPacker::new(100, 100);
    packer.insert(60, 70, PackingHeuristic::BottomLeft).unwrap();
    // right at y 0 gives top 20, bottom at y 70 gives top 90
    let r = packer.insert(20, 20, PackingHeuristic::BottomLeft).unwrap();
    assert_eq!(r, Rect::new(60, 0, 20, 20));
}

#[test]
fn contact_point_counts_bin_edges_and_neighbours() {
    let mut packer = MaxRectsPacker::new(100, 100);
    packer.insert(60, 70, PackingHeuristic::ContactPoint).unwrap();
    // candidate at (60,0): top edge 40, right edge 30, neighbour to the left 30 -> 100
    // candidate at (0,70): left edge 30, bottom edge 40, neighbour above 40 -> 110
    assert_eq!(packer.contact_score(&Rect::new(60, 0, 40, 30)), 100);
    assert_eq!(packer.contact_score(&Rect::new(0, 70, 40, 30)), 110);
    let r = packer.insert(40, 30, PackingHeuristic::ContactPoint).unwrap();
    assert_eq!(r, Rect::new(0, 70, 40, 30));
}

#[test]
fn contact_score_of_a_rectangle_that_fills_the_bin() {
    let packer = MaxRectsPacker::new(10, 20);
    assert_eq!(packer.contact_score(&Rect::new(0, 0, 10, 20)), 60);
    assert_eq!(packer.contact_score(&Rect::new(2, 3, 4, 5)), 0);
}

#[test]
fn scores_of_each_heuristic() {
    let packer = MaxRectsPacker::new(100, 80);
    let free = Rect::new(10, 20, 50, 40);
    assert_eq!(packer.score_rect(&free, 30, 35, PackingHeuristic::BestShortSideFit), (5, 20));
    assert_eq!(packer.score_rect(&free, 30, 35, PackingHeuristic::BestLongSideFit), (20, 5));
    assert_eq!(packer.score_rect(&free, 30, 35, PackingHeuristic::BestAreaFit), (2000, 5));
    assert_eq!(packer.score_rect(&free, 30, 35, PackingHeuristic::BottomLeft), (55, 10));
    assert_eq!(packer.score_rect(&free, 30, 35, PackingHeuristic::ContactPoint), (0, 0));
    assert_eq!(packer.score_rect(&free, 30, 35, PackingHeuristic::Best), (5, 20));
}

#[test]
fn ties_go_to_the_first_free_rectangle() {
    let mut packer = MaxRectsPacker::new(100, 100);
    packer.insert(50, 50, PackingHeuristic::BestShortSideFit).unwrap();
    // right (50,0,50,100) and bottom (0,50,100,50) score alike for 50x50
    let r = packer.insert(50, 50, PackingHeuristic::BestShortSideFit).unwrap();
    assert_eq!(r, Rect::new(50, 0, 50, 50));
    assert_eq!(packer.find_position(50, 50, PackingHeuristic::BestShortSideFit).map(|p| (p.x, p.y)), Some((0, 50)));
}

#[test]
fn failed_insert_changes_nothing() {
    let mut packer = MaxRectsPacker::new(100, 100);
    packer.insert(60, 60, PackingHeuristic::BestShortSideFit).unwrap();
    let free_before: Vec<Rect> = packer.free().clone();
    assert!(packer.insert(50, 50, PackingHeuristic::BestShortSideFit).is_none());
    assert_eq!(packer.free(), &free_before);
    assert_eq!(packer.placed().len(), 1);
}

#[test]
fn placed_rectangles_never_intersect() {
    let sizes = [(30u32, 20u32), (17, 45), (60, 10), (25, 25), (8, 8), (40, 33), (12, 70), (55, 5), (9, 9), (31, 31)];
    let heuristics = [
        PackingHeuristic::BestShortSideFit,
        PackingHeuristic::BestLongSideFit,
        PackingHeuristic::BestAreaFit,
        PackingHeuristic::BottomLeft,
        PackingHeuristic::ContactPoint,
    ];
    for h in heuristics {
        let mut packer = MaxRectsPacker::new(100, 100);
        for (w, hgt) in sizes {
            packer.insert(w, hgt, h);
        }
        let placed = packer.placed();
        assert!(placed.len() >= 5);
        for i in 0..placed.len() {
            assert!(placed[i].x + placed[i].width <= 100);
            assert!(placed[i].y + placed[i].height <= 100);
            for j in (i + 1)..placed.len() {
                assert!(!placed[i].intersects(&placed[j]));
            }
            for f in packer.free() {
                assert!(!f.intersects(&placed[i]));
            }
        }
    }
}

#[test]
fn rectangle_without_extent_is_placed_and_splits_nothing() {
    let mut packer = MaxRectsPacker::new(10, 10);
    let r = packer.insert(0, 5, PackingHeuristic::BestShortSideFit).unwrap();
    assert_eq!(r, Rect::new(0, 0, 0, 5));
    assert_eq!(packer.free().len(), 1);
    assert!(packer.can_fit(10, 10));
}

#[test]
fn occupancy_never_exceeds_the_placed_area() {
    let sizes = [(30u32, 20u32), (17, 45), (60, 10), (25, 25), (8, 8), (40, 33), (12, 70), (55, 5)];
    let mut packer = MaxRectsPacker::new(100, 100);
    for (w, h) in sizes {
        packer.insert(w, h, PackingHeuristic::BestAreaFit);
        let placed: u64 = packer.placed().iter().map(|r| r.area()).sum();
        let o = packer.occupancy();
        assert!(o.used <= placed);
        assert!(placed <= o.total);
    }
}

#[test]
fn occupancy_is_exact_once_nothing_is_free() {
    let mut packer = MaxRectsPacker::new(90, 60);
    for _ in 0..6 {
        packer.insert(30, 30, PackingHeuristic::BottomLeft).unwrap();
    }
    assert_eq!(packer.free().len(), 0);
    let o = packer.occupancy();
    assert_eq!((o.used, o.total), (5400, 5400));
    assert!(o.is_full());
    assert!(packer.insert(1, 1, PackingHeuristic::BottomLeft).is_none());
}

#[test]
fn find_position_does_not_place() {
    let packer = MaxRectsPacker::new(40, 40);
    assert_eq!(
        packer.find_position(10, 20, PackingHeuristic::ContactPoint),
        Some(Rect::new(0, 0, 10, 20))
    );
    assert_eq!(packer.find_position(41, 1, PackingHeuristic::ContactPoint), None);
    assert_eq!(packer.placed().len(), 0);
    assert_eq!(packer.free().len(), 1);
}
