use wasabi::graphics::Rect;
use wasabi::graphics::ScalarRange;

#[test]
fn creates_range() {
    let r = ScalarRange::new(0, 0);
    assert!(r.is_none());
    let r = ScalarRange::new(1, 0);
    assert!(r.is_none());
    let r = ScalarRange::new(0, 1).unwrap();
    assert_eq!(r.start(), 0);
    assert_eq!(r.end(), 1);
}

#[test]
fn intersections() {
    let a = ScalarRange::new(2, 3).unwrap();
    let b = ScalarRange::new(1, 2).unwrap();
    let c = ScalarRange::new(3, 4).unwrap();
    let d = ScalarRange::new(1, 4).unwrap();
    let e = ScalarRange::new(0, 2).unwrap();
    let f = ScalarRange::new(3, 5).unwrap();

    assert!(a.intersection(&a).unwrap() == a);
    assert!(a.intersection(&b).is_none());
    assert!(a.intersection(&c).is_none());
    assert!(a.intersection(&d).unwrap() == a);
    assert!(a.intersection(&e).is_none());
    assert!(a.intersection(&f).is_none());
}

#[test]
fn creates_rect() {
    let r = Rect::new(0, 0, 0, 0).unwrap();
    assert_eq!(r.x(), 0);
    assert_eq!(r.y(), 0);
    assert_eq!(r.w(), 0);
    assert_eq!(r.h(), 0);

    let r = Rect::new(1, 2, 3, 4).unwrap();
    assert_eq!(r.x(), 1);
    assert_eq!(r.y(), 2);
    assert_eq!(r.w(), 3);
    assert_eq!(r.h(), 4);

    let r = Rect::new(-1, -2, 3, 4).unwrap();
    assert_eq!(r.x(), -1);
    assert_eq!(r.y(), -2);
    assert_eq!(r.w(), 3);
    assert_eq!(r.h(), 4);
}

#[test]
fn fails_to_create_negative_sized_rect() {
    assert!(Rect::new(0, 0, -1, 0).is_none());
    assert!(Rect::new(0, 0, 0, -1).is_none());
    assert!(Rect::new(0, 0, -1, -1).is_none());
}

#[test]
fn calc_intersection() {
    let r1 = Rect::new(0, 0, 1, 1).unwrap();
    let self_intersect = r1.intersection(&r1).unwrap();
    assert_eq!(self_intersect, r1);
}

#[test]
fn overlapping_rects_intersect() {
    let a = Rect::new(0, 0, 10, 10).unwrap();
    let b = Rect::new(5, -3, 10, 5).unwrap();
    assert_eq!(a.intersection(&b).unwrap(), Rect::new(5, 0, 5, 2).unwrap());
    let c = Rect::new(10, 0, 3, 3).unwrap();
    assert!(a.intersection(&c).is_none());
}

#[test]
fn rect_contains_point() {
    let a = Rect::new(1, 2, 3, 4).unwrap();
    assert!(a.contains_point(1, 2));
    assert!(a.contains_point(3, 5));
    assert!(!a.contains_point(4, 5));
    assert!(!a.contains_point(3, 6));
    assert!(!a.contains_point(0, 2));
}
