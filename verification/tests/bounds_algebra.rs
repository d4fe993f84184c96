use tiler::bounds::Bounds;

#[test]
fn test_intersect() {
    let bounds1 = Bounds::new(0, 0, 10, 10);
    let bounds2 = Bounds::new(5, 5, 15, 15);
    let bounds12 = bounds1.intersect(&bounds2).unwrap();
    assert_eq!(bounds12.min_x(), 5);
    assert_eq!(bounds12.min_y(), 5);
    assert_eq!(bounds12.max_x(), 10);
    assert_eq!(bounds12.max_y(), 10);
}

#[test]
fn test_intersect_commutes() {
    let a = Bounds::new(-3, 2, 7, 9);
    let b = Bounds::new(0, -5, 4, 3);
    let ab = a.intersect(&b).unwrap();
    let ba = b.intersect(&a).unwrap();
    assert_eq!(ab, ba);
    assert_eq!(ab, Bounds::new(0, 2, 4, 3));
}

#[test]
fn test_intersect_disjoint_on_one_axis() {
    // Overlap in x, disjoint in y.
    let a = Bounds::new(0, 0, 10, 10);
    let b = Bounds::new(5, 11, 15, 20);
    assert!(a.intersect(&b).is_none());
    assert!(b.intersect(&a).is_none());
    // Disjoint in x only.
    let c = Bounds::new(11, 0, 20, 10);
    assert!(a.intersect(&c).is_none());
    // Touching edges still intersect (degenerate rectangle).
    let d = Bounds::new(10, 10, 20, 20);
    let ad = a.intersect(&d).unwrap();
    assert_eq!(ad, Bounds::new(10, 10, 10, 10));
}

#[test]
fn test_intersect_result_ordered() {
    let a = Bounds::new(-100, -50, 60, 40);
    let b = Bounds::new(-70, -80, 90, 10);
    let r = a.intersect(&b).unwrap();
    assert!(r.min_x() <= r.max_x());
    assert!(r.min_y() <= r.max_y());
    assert_eq!(r, Bounds::new(-70, -50, 60, 10));
}

#[test]
fn test_xy_shift() {
    let a = Bounds::new(2, 3, 5, 8);
    let s = a.xy_shift(-2, 10);
    assert_eq!(s, Bounds::new(0, 13, 3, 18));
}
