use bezier::geometry::Point;
use bezier::segment::CubicCurveSegment;
use bezier::CurveError;

fn demo_points() -> [Point; 4] {
    [
        Point { x: 20, y: 20 },
        Point { x: 120, y: 20 },
        Point { x: 220, y: 220 },
        Point { x: 320, y: 20 },
    ]
}

#[test]
fn segment_curve_demo_shape() {
    let mut seg = CubicCurveSegment::new(demo_points(), 25).unwrap();
    let curve = seg.curve();
    assert_eq!(curve.len(), 41);
    assert_eq!(curve[0], Point { x: 20, y: 20 });
    assert_eq!(curve[40], Point { x: 320, y: 20 });
}

#[test]
fn segment_curve_len_follows_resolution() {
    let mut seg = CubicCurveSegment::new(demo_points(), 1000).unwrap();
    assert_eq!(seg.curve().len(), 2);
    assert!(seg.set_resolution(500).is_ok());
    assert_eq!(seg.curve().len(), 3);
    assert!(seg.set_resolution(3).is_ok());
    assert_eq!(seg.curve().len(), 334);
}

#[test]
fn segment_midpoint_sample_exact() {
    let points = [
        Point { x: 0, y: 0 },
        Point { x: 100, y: 0 },
        Point { x: 200, y: 0 },
        Point { x: 300, y: 0 },
    ];
    let mut seg = CubicCurveSegment::new(points, 500).unwrap();
    let curve = seg.curve();
    // B(1/2) = (P0 + 3 P1 + 3 P2 + P3) / 8
    assert_eq!(curve, vec![
        Point { x: 0, y: 0 },
        Point { x: 150, y: 0 },
        Point { x: 300, y: 0 },
    ]);
}

#[test]
fn segment_sample_rounds_toward_zero() {
    let points = [
        Point { x: 0, y: 0 },
        Point { x: 0, y: 0 },
        Point { x: 0, y: 0 },
        Point { x: 1, y: -1 },
    ];
    let mut seg = CubicCurveSegment::new(points, 500).unwrap();
    let curve = seg.curve();
    // B(1/2) = (1/8, -1/8), which truncates to the origin
    assert_eq!(curve[1], Point { x: 0, y: 0 });
}

#[test]
fn segment_rejects_bad_resolution() {
    assert!(matches!(
        CubicCurveSegment::new(demo_points(), 0),
        Err(CurveError::InvalidParameter)
    ));
    assert!(matches!(
        CubicCurveSegment::new(demo_points(), 1001),
        Err(CurveError::InvalidParameter)
    ));
    assert!(CubicCurveSegment::new(demo_points(), 1).is_ok());
}

#[test]
fn segment_set_resolution_rejects_out_of_range() {
    let mut seg = CubicCurveSegment::new(demo_points(), 25).unwrap();
    assert!(matches!(seg.set_resolution(0), Err(CurveError::InvalidParameter)));
    assert!(matches!(seg.set_resolution(2000), Err(CurveError::InvalidParameter)));
    // the failed calls left the resolution alone
    assert_eq!(seg.curve().len(), 41);
}

#[test]
fn segment_dirty_flag_lifecycle() {
    let mut seg = CubicCurveSegment::new(demo_points(), 25).unwrap();
    assert!(seg.is_modified());
    let _ = seg.curve();
    assert!(!seg.is_modified());
    seg.set_ctrl_point(1, Point { x: 5, y: 5 });
    assert!(seg.is_modified());
    let _ = seg.curve();
    assert!(!seg.is_modified());
    assert!(seg.set_resolution(100).is_ok());
    assert!(seg.is_modified());
}

#[test]
fn segment_ctrl_point_accessors() {
    let mut seg = CubicCurveSegment::new(demo_points(), 25).unwrap();
    assert_eq!(seg.ctrl_point(2), Point { x: 220, y: 220 });
    assert_eq!(seg.ctrl_points().len(), 4);
    seg.set_ctrl_point(3, Point { x: -7, y: 9 });
    assert_eq!(seg.ctrl_point(3), Point { x: -7, y: 9 });
    let curve = seg.curve();
    assert_eq!(curve[curve.len() - 1], Point { x: -7, y: 9 });
}
