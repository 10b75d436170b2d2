use bento::packing::Rect;

#[test]
fn test_intersects() {
    let a = Rect::new(0, 0, 10, 10);
    let b = Rect::new(5, 5, 10, 10);
    let c = Rect::new(20, 20, 10, 10);

    assert!(a.intersects(&b));
    assert!(b.intersects(&a));
    assert!(!a.intersects(&c));
}

#[test]
fn test_contains() {
    let outer = Rect::new(0, 0, 20, 20);
    let inner = Rect::new(5, 5, 5, 5);
    let partial = Rect::new(15, 15, 10, 10);

    assert!(outer.contains(&inner));
    assert!(!inner.contains(&outer));
    assert!(!outer.contains(&partial));
}

#[test]
fn area_is_widened() {
    let r = Rect::new(0, 0, u32::MAX, u32::MAX);
    assert_eq!(r.area(), 18446744065119617025u64);
    assert_eq!(Rect::new(3, 4, 5, 6).area(), 30);
}

#[test]
fn touching_rectangles_do_not_intersect() {
    let a = Rect::new(0, 0, 10, 10);
    let right = Rect::new(10, 0, 10, 10);
    let below = Rect::new(0, 10, 10, 10);
    assert!(!a.intersects(&right));
    assert!(!right.intersects(&a));
    assert!(!a.intersects(&below));
}

#[test]
fn rectangle_without_extent_intersects_nothing() {
    let a = Rect::new(0, 0, 10, 10);
    let line = Rect::new(5, 2, 0, 6);
    let point = Rect::new(5, 5, 0, 0);
    assert!(!a.intersects(&line));
    assert!(!line.intersects(&a));
    assert!(!a.intersects(&point));
    assert!(!point.intersects(&point));
}

#[test]
fn contains_is_inclusive() {
    let a = Rect::new(2, 3, 10, 10);
    assert!(a.contains(&a));
    assert!(a.contains(&Rect::new(2, 3, 10, 1)));
    assert!(a.contains(&Rect::new(11, 12, 1, 1)));
    assert!(!a.contains(&Rect::new(11, 12, 2, 1)));
    assert!(!a.contains(&Rect::new(1, 3, 2, 2)));
}

#[test]
fn far_edges_do_not_overflow() {
    let a = Rect::new(u32::MAX, u32::MAX, u32::MAX, u32::MAX);
    let b = Rect::new(u32::MAX - 1, u32::MAX - 1, 2, 2);
    assert!(a.intersects(&b));
    assert!(a.contains(&Rect::new(u32::MAX, u32::MAX, 1, 1)));
    assert!(!b.contains(&a));
}
