use bezier::geometry::{Point, Rect};

#[test]
fn test_contains() {
    let r = Rect::new(10, 10, 10, 10);
    assert!(r.contains(Point { x: 15, y: 15 }));
}

#[test]
fn test_reflect() {
    let p0 = Point { x: 0, y: 0 };
    let p1 = Point { x: -5, y: 5 };

    let p3 = p0.reflect(p1);

    assert_eq!(-10, p3.x);
    assert_eq!(10, p3.y);

    let p0 = Point { x: 5, y: 5 };
    let p1 = Point { x: 10, y: 10 };

    let p3 = p0.reflect(p1);

    assert_eq!(15, p3.x);
    assert_eq!(15, p3.y);
}

#[test]
fn test_add() {
    let p0 = Point { x: 5, y: -5 };
    let p1 = Point { x: 10, y: 10 };

    let p3 = p0.add(p1);

    assert_eq!(15, p3.x);
    assert_eq!(5, p3.y);
}

#[test]
fn test_sub() {
    let p0 = Point { x: 5, y: -5 };
    let p1 = Point { x: 10, y: 10 };

    let p3 = p0.sub(p1);

    assert_eq!(-5, p3.x);
    assert_eq!(-15, p3.y);
}

#[test]
fn test_reflect_involution() {
    let p = Point { x: -37, y: 112 };
    let center = Point { x: 14, y: -9 };
    assert_eq!(p.reflect(center).reflect(center), p);

    let p = Point { x: 100, y: 10 };
    let center = Point { x: 150, y: 100 };
    assert_eq!(p.reflect(center).reflect(center), p);
}

#[test]
fn test_distance_exact() {
    let a = Point { x: 0, y: 0 };
    let b = Point { x: 3, y: 4 };
    assert_eq!(a.distance(&b), 5);
    assert_eq!(b.distance(&a), 5);
}

#[test]
fn test_distance_rounds_down() {
    let a = Point { x: 0, y: 0 };
    let b = Point { x: 1, y: 1 };
    assert_eq!(a.distance(&b), 1);
}

#[test]
fn test_dist_to_xy() {
    let a = Point { x: 10, y: 20 };
    assert_eq!(a.dist_to_xy(13, 24), 5);
}

#[test]
fn test_slope() {
    let a = Point { x: 0, y: 0 };
    let b = Point { x: 4, y: 8 };
    assert_eq!(a.slope(&b), Some((8, 4)));

    let vertical = Point { x: 0, y: 7 };
    assert_eq!(a.slope(&vertical), None);
}

#[test]
fn test_contains_excludes_outside() {
    let r = Rect::new(10, 10, 10, 10);
    assert!(!r.contains(Point { x: 5, y: 15 }));
    assert!(!r.contains(Point { x: 15, y: 25 }));
}
