use bento::atlas::order::{sorted_indices, SpriteOrder};
use bento::packing::Size;

fn sizes(list: &[(u32, u32)]) -> Vec<Size> {
    list.iter().map(|&(w, h)| Size::new(w, h)).collect()
}

#[test]
fn original_order_is_the_input_order() {
    let s = sizes(&[(1, 1), (9, 9), (5, 5)]);
    assert_eq!(sorted_indices(&s, SpriteOrder::Original), vec![0, 1, 2]);
    assert_eq!(sorted_indices(&Vec::new(), SpriteOrder::Area), Vec::<usize>::new());
}

#[test]
fn area_order_puts_the_larger_area_first() {
    let s = sizes(&[(80, 30), (40, 50), (50, 50)]);
    assert_eq!(sorted_indices(&s, SpriteOrder::Area), vec![2, 0, 1]);
}

#[test]
fn perimeter_order() {
    let s = sizes(&[(80, 30), (40, 50), (50, 50), (1, 200)]);
    assert_eq!(sorted_indices(&s, SpriteOrder::Perimeter), vec![3, 0, 2, 1]);
}

#[test]
fn long_side_order() {
    let s = sizes(&[(10, 30), (40, 5), (35, 35)]);
    assert_eq!(sorted_indices(&s, SpriteOrder::LongSide), vec![1, 2, 0]);
}

#[test]
fn width_and_height_order() {
    let s = sizes(&[(10, 30), (40, 5), (35, 35)]);
    assert_eq!(sorted_indices(&s, SpriteOrder::Width), vec![1, 2, 0]);
    assert_eq!(sorted_indices(&s, SpriteOrder::Height), vec![2, 0, 1]);
}

#[test]
fn aspect_ratio_order_compares_ratios_exactly() {
    // ratios: 3, 8, 1, 2.5
    let s = sizes(&[(10, 30), (40, 5), (35, 35), (5, 2)]);
    assert_eq!(sorted_indices(&s, SpriteOrder::AspectRatio), vec![1, 0, 3, 2]);
    // 1000001/1000000 against 1000000/999999: the second is greater
    let s = sizes(&[(1000001, 1000000), (999999, 1000000)]);
    assert_eq!(sorted_indices(&s, SpriteOrder::AspectRatio), vec![1, 0]);
}

#[test]
fn aspect_ratio_order_puts_sprites_without_extent_first() {
    let s = sizes(&[(10, 30), (0, 5), (7, 0), (0, 0), (100, 1)]);
    assert_eq!(sorted_indices(&s, SpriteOrder::AspectRatio), vec![1, 2, 3, 4, 0]);
}

#[test]
fn diagonal_order_compares_squares_without_overflow() {
    let s = sizes(&[(3, 4), (5, 1), (u32::MAX, u32::MAX), (u32::MAX, u32::MAX - 1), (0, 5)]);
    // squares: 25, 26, huge, a little less, 25
    assert_eq!(sorted_indices(&s, SpriteOrder::Diagonal), vec![2, 3, 1, 0, 4]);
}

#[test]
fn equal_keys_keep_their_input_order() {
    let s = sizes(&[(2, 8), (4, 4), (8, 2), (16, 1), (1, 16), (3, 3)]);
    assert_eq!(sorted_indices(&s, SpriteOrder::Area), vec![0, 1, 2, 3, 4, 5]);
    assert_eq!(sorted_indices(&s, SpriteOrder::Width), vec![3, 2, 1, 5, 0, 4]);
}

#[test]
fn every_order_is_a_permutation() {
    let s = sizes(&[(30, 20), (17, 45), (60, 10), (25, 25), (8, 8), (40, 33), (12, 70), (55, 5)]);
    let orders = [
        SpriteOrder::Original,
        SpriteOrder::Area,
        SpriteOrder::Perimeter,
        SpriteOrder::LongSide,
        SpriteOrder::Width,
        SpriteOrder::Height,
        SpriteOrder::AspectRatio,
        SpriteOrder::Diagonal,
    ];
    for o in orders {
        let mut p = sorted_indices(&s, o);
        assert_eq!(p.len(), s.len());
        for k in 1..p.len() {
            assert!(!o.ranks_before(&s[p[k]], &s[p[k - 1]]));
        }
        p.sort();
        assert_eq!(p, vec![0, 1, 2, 3, 4, 5, 6, 7]);
    }
}
