use std::path::PathBuf;
use std::sync::atomic::AtomicBool;
use std::sync::Arc;

use bento::atlas::{Atlas, AtlasBuilder};
use bento::bitmap::Bitmap;
use bento::cli::{PackMode, PackingHeuristic};
use bento::error::BentoError;
use bento::packing::Rect;
use bento::sprite::{SourceSprite, TrimInfo};

fn sprite(name: &str, width: u32, height: u32) -> SourceSprite {
    let data = vec![255u8; (4 * width * height) as usize];
    SourceSprite {
        path: PathBuf::from(name),
        name: name.to_string(),
        image: Bitmap::from_rgba(width, height, &data).unwrap(),
        trim_info: TrimInfo::untrimmed(width, height),
    }
}

fn sprites(sizes: &[(u32, u32)]) -> Vec<SourceSprite> {
    sizes
        .iter()
        .enumerate()
        .map(|(i, &(w, h))| sprite(&format!("s{}", i), w, h))
        .collect()
}

fn names(atlas: &Atlas) -> Vec<String> {
    atlas.sprites.iter().map(|s| s.name.clone()).collect()
}

fn check_atlases(atlases: &[Atlas], input: &[(u32, u32)], border: u32) {
    let mut seen: Vec<String> = Vec::new();
    for (a, atlas) in atlases.iter().enumerate() {
        assert_eq!(atlas.index, a);
        assert_eq!(atlas.image.width(), atlas.width);
        assert_eq!(atlas.image.height(), atlas.height);
        assert!(!atlas.sprites.is_empty());
        assert!(atlas.occupancy.used <= atlas.occupancy.total);
        let mut area: u64 = 0;
        for (i, s) in atlas.sprites.iter().enumerate() {
            assert_eq!(s.atlas_index, a);
            assert!(s.x >= border && s.y >= border);
            assert!(s.x + s.width + border <= atlas.width);
            assert!(s.y + s.height + border <= atlas.height);
            let index: usize = s.name[1..].parse().unwrap();
            assert_eq!((s.width, s.height), input[index]);
            area += u64::from(s.width + 2 * border) * u64::from(s.height + 2 * border);
            let r = Rect::new(s.x - border, s.y - border, s.width + 2 * border, s.height + 2 * border);
            for t in &atlas.sprites[i + 1..] {
                let q = Rect::new(t.x - border, t.y - border, t.width + 2 * border, t.height + 2 * border);
                assert!(!r.intersects(&q));
            }
            seen.push(s.name.clone());
        }
        assert_eq!(atlas.occupancy.used, area);
    }
    seen.sort();
    let mut expected: Vec<String> = (0..input.len()).map(|i| format!("s{}", i)).collect();
    expected.sort();
    assert_eq!(seen, expected);
}

#[test]
fn builder_defaults() {
    let b = AtlasBuilder::new(4096, 2048);
    assert_eq!(b.max_width, 4096);
    assert_eq!(b.max_height, 2048);
    assert_eq!(b.padding, 1);
    assert_eq!(b.heuristic, PackingHeuristic::BestShortSideFit);
    assert!(!b.power_of_two);
    assert_eq!(b.extrude, 0);
    assert_eq!(b.pack_mode, PackMode::Single);
    assert!(b.cancel_token.is_none());
    assert!(b.canvas_fits());
}

#[test]
fn builder_setters_change_one_field_each() {
    let b = AtlasBuilder::new(512, 256)
        .padding(3)
        .heuristic(PackingHeuristic::ContactPoint)
        .power_of_two(true)
        .extrude(2)
        .pack_mode(PackMode::Best);
    assert_eq!(b.max_width, 512);
    assert_eq!(b.max_height, 256);
    assert_eq!(b.padding, 3);
    assert_eq!(b.heuristic, PackingHeuristic::ContactPoint);
    assert!(b.power_of_two);
    assert_eq!(b.extrude, 2);
    assert_eq!(b.pack_mode, PackMode::Best);
    assert!(b.cancel_token.is_none());
    let b = b.cancel_token(Arc::new(AtomicBool::new(false)));
    assert!(b.cancel_token.is_some());
    assert_eq!(b.padding, 3);
}

#[test]
fn empty_input_fails_with_no_images() {
    let r = AtlasBuilder::new(64, 64).build(Vec::new());
    assert!(matches!(r, Err(BentoError::NoImages)));
}

#[test]
fn four_sprites_fill_the_bin_exactly() {
    let input = [(50, 50), (50, 50), (50, 50), (50, 50)];
    let atlases = AtlasBuilder::new(100, 100).padding(0).build(sprites(&input)).unwrap();
    assert_eq!(atlases.len(), 1);
    let atlas = &atlases[0];
    assert_eq!((atlas.width, atlas.height), (100, 100));
    assert_eq!(atlas.occupancy.used, 10000);
    assert_eq!(atlas.occupancy.total, 10000);
    assert!(atlas.occupancy.is_full());
    assert_eq!(atlas.occupancy.used as f64 / atlas.occupancy.total as f64, 1.0);
    let at: Vec<(u32, u32)> = atlas.sprites.iter().map(|s| (s.x, s.y)).collect();
    assert_eq!(at, vec![(0, 0), (50, 0), (0, 50), (50, 50)]);
    assert_eq!(names(atlas), vec!["s0", "s1", "s2", "s3"]);
    check_atlases(&atlases, &input, 0);
}

#[test]
fn original_order_packs_one_sprite_where_area_order_packs_two() {
    let input = [(80, 30), (40, 50), (50, 50)];
    let single = AtlasBuilder::new(100, 60).padding(0).build(sprites(&input)).unwrap();
    assert_eq!(single.len(), 2);
    assert_eq!(names(&single[0]), vec!["s0"]);
    assert_eq!((single[0].width, single[0].height), (80, 30));
    assert_eq!(names(&single[1]), vec!["s1", "s2"]);
    assert_eq!((single[1].sprites[1].x, single[1].sprites[1].y), (40, 0));
    assert_eq!((single[1].width, single[1].height), (90, 50));
    check_atlases(&single, &input, 0);

    let best = AtlasBuilder::new(100, 60)
        .padding(0)
        .pack_mode(PackMode::Best)
        .build(sprites(&input))
        .unwrap();
    assert_eq!(best.len(), 2);
    assert_eq!(names(&best[0]), vec!["s2", "s1"]);
    assert_eq!((best[0].sprites[0].x, best[0].sprites[0].y), (0, 0));
    assert_eq!((best[0].sprites[1].x, best[0].sprites[1].y), (50, 0));
    assert_eq!((best[0].width, best[0].height), (90, 50));
    assert_eq!((best[0].occupancy.used, best[0].occupancy.total), (4500, 4500));
    assert_eq!(names(&best[1]), vec!["s0"]);
    assert_eq!(best[1].sprites[0].atlas_index, 1);
    check_atlases(&best, &input, 0);
}

#[test]
fn oversized_sprite_fails_the_build_and_is_named() {
    let list = vec![sprite("a", 10, 10), sprite("b", 63, 10), sprite("c", 70, 70)];
    let r = AtlasBuilder::new(64, 64).padding(1).build(list);
    match r {
        Err(BentoError::SpriteTooLarge { name, width, height, max_width, max_height }) => {
            assert_eq!(name, "b");
            assert_eq!((width, height), (63, 10));
            assert_eq!((max_width, max_height), (64, 64));
        }
        _ => panic!("the build has to fail on the sprite that is too large"),
    }
}

#[test]
fn sprite_that_just_fits_with_its_rim_is_accepted() {
    let atlases = AtlasBuilder::new(64, 64).padding(1).build(vec![sprite("a", 62, 62)]).unwrap();
    assert_eq!(atlases.len(), 1);
    assert_eq!((atlases[0].sprites[0].x, atlases[0].sprites[0].y), (1, 1));
    assert_eq!((atlases[0].width, atlases[0].height), (64, 64));
    let r = AtlasBuilder::new(64, 64).padding(1).build(vec![sprite("a", 62, 63)]);
    assert!(matches!(r, Err(BentoError::SpriteTooLarge { .. })));
    let r = AtlasBuilder::new(64, 64).padding(0).extrude(1).build(vec![sprite("a", 63, 1)]);
    assert!(matches!(r, Err(BentoError::SpriteTooLarge { .. })));
}

#[test]
fn oversize_is_reported_before_cancellation() {
    let flag = Arc::new(AtomicBool::new(true));
    let r = AtlasBuilder::new(8, 8).cancel_token(flag).build(vec![sprite("big", 9, 9)]);
    assert!(matches!(r, Err(BentoError::SpriteTooLarge { .. })));
}

#[test]
fn cancellation_before_any_work_yields_no_atlas() {
    let flag = Arc::new(AtomicBool::new(true));
    let r = AtlasBuilder::new(100, 100)
        .cancel_token(flag)
        .build(sprites(&[(10, 10), (20, 20)]));
    assert!(matches!(r, Err(BentoError::Cancelled)));
    let flag = Arc::new(AtomicBool::new(true));
    let r = AtlasBuilder::new(100, 100)
        .pack_mode(PackMode::Best)
        .heuristic(PackingHeuristic::Best)
        .cancel_token(flag)
        .build(sprites(&[(10, 10)]));
    assert!(matches!(r, Err(BentoError::Cancelled)));
}

#[test]
fn unset_cancellation_flag_changes_nothing() {
    let input = [(30, 20), (17, 45), (60, 10)];
    let flag = Arc::new(AtomicBool::new(false));
    let with = AtlasBuilder::new(100, 100).cancel_token(flag).build(sprites(&input)).unwrap();
    let without = AtlasBuilder::new(100, 100).build(sprites(&input)).unwrap();
    assert_eq!(with.len(), without.len());
    for (a, b) in with.iter().zip(without.iter()) {
        assert_eq!(names(a), names(b));
        assert_eq!(a.image.to_rgba(), b.image.to_rgba());
    }
}

#[test]
fn padding_and_extrusion_offset_the_sprite() {
    let atlases = AtlasBuilder::new(100, 100)
        .padding(2)
        .extrude(1)
        .build(vec![sprite("a", 10, 12), sprite("b", 5, 5)])
        .unwrap();
    assert_eq!(atlases.len(), 1);
    let a = &atlases[0].sprites[0];
    assert_eq!((a.x, a.y, a.width, a.height), (3, 3, 10, 12));
    // the second sprite goes below the first, where the shorter side is
    // left over: 18 + 3
    let b = &atlases[0].sprites[1];
    assert_eq!((b.x, b.y, b.width, b.height), (3, 21, 5, 5));
    assert_eq!((atlases[0].width, atlases[0].height), (16, 29));
    assert_eq!(atlases[0].occupancy.used, 16 * 18 + 11 * 11);
    assert_eq!(atlases[0].occupancy.total, 16 * 29);
}

#[test]
fn power_of_two_rounds_each_side_up() {
    let atlases = AtlasBuilder::new(100, 100)
        .padding(0)
        .power_of_two(true)
        .build(vec![sprite("a", 17, 64)])
        .unwrap();
    assert_eq!((atlases[0].width, atlases[0].height), (32, 64));
    assert_eq!((atlases[0].image.width(), atlases[0].image.height()), (32, 64));
    assert_eq!((atlases[0].occupancy.used, atlases[0].occupancy.total), (17 * 64, 17 * 64));
}

#[test]
fn trim_info_and_names_are_carried_through() {
    let mut s = sprite("hero.png", 8, 8);
    s.trim_info = TrimInfo {
        offset_x: 2,
        offset_y: 3,
        source_width: 16,
        source_height: 16,
        trimmed_width: 8,
        trimmed_height: 8,
    };
    let atlases = AtlasBuilder::new(64, 64).build(vec![s]).unwrap();
    let p = &atlases[0].sprites[0];
    assert_eq!(p.name, "hero.png");
    assert_eq!(p.trim_info.offset_x, 2);
    assert_eq!(p.trim_info.offset_y, 3);
    assert_eq!(p.trim_info.source_width, 16);
    assert_eq!(p.trim_info.trimmed_height, 8);
    assert_eq!(p.atlas_index, 0);
}

#[test]
fn overflow_goes_to_the_next_atlases() {
    let input = [(60, 60), (60, 60), (60, 60), (30, 30), (30, 30)];
    let atlases = AtlasBuilder::new(100, 100).padding(0).build(sprites(&input)).unwrap();
    assert_eq!(atlases.len(), 3);
    assert_eq!(names(&atlases[0]), vec!["s0", "s3", "s4"]);
    assert_eq!(names(&atlases[1]), vec!["s1"]);
    assert_eq!(names(&atlases[2]), vec!["s2"]);
    check_atlases(&atlases, &input, 0);
}

#[test]
fn every_sprite_lands_in_exactly_one_atlas() {
    let input = [
        (30, 20), (17, 45), (60, 10), (25, 25), (8, 8), (40, 33), (12, 70), (55, 5), (9, 9),
        (31, 31), (64, 64), (1, 1), (70, 2), (2, 70), (45, 45), (20, 60), (33, 12), (5, 50),
    ];
    let heuristics = [
        PackingHeuristic::BestShortSideFit,
        PackingHeuristic::BestLongSideFit,
        PackingHeuristic::BestAreaFit,
        PackingHeuristic::BottomLeft,
        PackingHeuristic::ContactPoint,
        PackingHeuristic::Best,
    ];
    for h in heuristics {
        for mode in [PackMode::Single, PackMode::Best] {
            for border in [0u32, 1, 3] {
                let atlases = AtlasBuilder::new(80, 80)
                    .padding(border)
                    .heuristic(h)
                    .pack_mode(mode)
                    .build(sprites(&input))
                    .unwrap();
                check_atlases(&atlases, &input, border);
            }
        }
    }
}

#[test]
fn best_heuristic_places_at_least_as_many_as_each_single_one() {
    let inputs: [&[(u32, u32)]; 3] = [
        &[(30, 20), (17, 45), (60, 10), (25, 25), (8, 8), (40, 33), (12, 70), (55, 5), (9, 9), (31, 31)],
        &[(50, 30), (30, 50), (40, 40), (20, 70), (70, 20), (10, 10), (35, 35)],
        &[(64, 1), (1, 64), (32, 32), (16, 48), (48, 16), (60, 60)],
    ];
    let singles = [
        PackingHeuristic::BestShortSideFit,
        PackingHeuristic::BestLongSideFit,
        PackingHeuristic::BestAreaFit,
        PackingHeuristic::BottomLeft,
        PackingHeuristic::ContactPoint,
    ];
    for input in inputs {
        for mode in [PackMode::Single, PackMode::Best] {
            let best = AtlasBuilder::new(72, 72)
                .padding(0)
                .heuristic(PackingHeuristic::Best)
                .pack_mode(mode)
                .build(sprites(input))
                .unwrap();
            for h in singles {
                let one = AtlasBuilder::new(72, 72)
                    .padding(0)
                    .heuristic(h)
                    .pack_mode(mode)
                    .build(sprites(input))
                    .unwrap();
                assert!(best[0].sprites.len() >= one[0].sprites.len());
            }
        }
    }
}

#[test]
fn sprite_without_extent_is_packed_too() {
    let input = [(0, 0), (10, 10), (0, 7)];
    let atlases = AtlasBuilder::new(32, 32).padding(0).build(sprites(&input)).unwrap();
    assert_eq!(atlases.len(), 1);
    assert_eq!(atlases[0].sprites.len(), 3);
    check_atlases(&atlases, &input, 0);
}

#[test]
fn canvas_check_follows_the_largest_atlas() {
    assert!(AtlasBuilder::new(4096, 4096).canvas_fits());
    assert!(AtlasBuilder::new(4096, 4096).power_of_two(true).canvas_fits());
    assert!(!AtlasBuilder::new(u32::MAX, u32::MAX).canvas_fits());
    assert!(!AtlasBuilder::new(0x8000_0001, 1).power_of_two(true).canvas_fits());
}
