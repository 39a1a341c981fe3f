use bezier::compound::{CenterLine, CompoundCurve};
use bezier::geometry::Point;
use bezier::CurveError;

fn two_segment_curve() -> CompoundCurve {
    let mut c = CompoundCurve::new(
        [
            Point { x: 0, y: 0 },
            Point { x: 50, y: 0 },
            Point { x: 100, y: 10 },
            Point { x: 150, y: 100 },
        ],
        25,
    )
    .unwrap();
    c.add_segment(Point { x: 300, y: 300 }, Point { x: 300, y: 400 });
    c
}

#[test]
fn add_segment_derives_continuous_joint() {
    let c = two_segment_curve();
    assert_eq!(c.segments().len(), 2);
    let seg1 = &c.segments()[1];
    // the new segment starts on the previous trailing anchor
    assert_eq!(seg1.ctrl_points()[0], Point { x: 150, y: 100 });
    // and its entering handle is the previous leaving handle mirrored
    // around that anchor: reflect((100,10), (150,100)) == (200,190)
    assert_eq!(seg1.ctrl_points()[1], Point { x: 200, y: 190 });
    assert_eq!(seg1.ctrl_points()[2], Point { x: 300, y: 300 });
    assert_eq!(seg1.ctrl_points()[3], Point { x: 300, y: 400 });
}

#[test]
fn global_index_addressing() {
    let c = two_segment_curve();
    assert_eq!(c.ctrl_points(), 8);
    assert_eq!(c.ctrl_point(0), Some(Point { x: 0, y: 0 }));
    assert_eq!(c.ctrl_point(2), Some(Point { x: 100, y: 10 }));
    // global indices 3 and 4 address the same shared anchor
    assert_eq!(c.ctrl_point(3), Some(Point { x: 150, y: 100 }));
    assert_eq!(c.ctrl_point(4), Some(Point { x: 150, y: 100 }));
    assert_eq!(c.ctrl_point(7), Some(Point { x: 300, y: 400 }));
    assert_eq!(c.ctrl_point(8), None);
    assert_eq!(c.ctrl_point(100), None);
}

#[test]
fn moving_shared_anchor_updates_neighbor() {
    let mut c = two_segment_curve();
    c.set_ctrl_point(3, Point { x: 140, y: 90 });
    assert_eq!(c.ctrl_point(3), Some(Point { x: 140, y: 90 }));
    assert_eq!(c.ctrl_point(4), Some(Point { x: 140, y: 90 }));

    let mut c = two_segment_curve();
    c.set_ctrl_point(4, Point { x: 160, y: 110 });
    assert_eq!(c.ctrl_point(3), Some(Point { x: 160, y: 110 }));
    assert_eq!(c.ctrl_point(4), Some(Point { x: 160, y: 110 }));
}

#[test]
fn moving_handle_mirrors_neighbor_handle() {
    // moving the leaving handle of segment 0 rewrites the entering
    // handle of segment 1 to its reflection around the shared anchor
    let mut c = two_segment_curve();
    c.set_ctrl_point(2, Point { x: 120, y: 40 });
    // reflect((120,40), (150,100)) == (180,160)
    assert_eq!(c.ctrl_point(5), Some(Point { x: 180, y: 160 }));

    // moving the entering handle of segment 1 rewrites the leaving
    // handle of segment 0 the same way
    let mut c = two_segment_curve();
    c.set_ctrl_point(5, Point { x: 210, y: 200 });
    // reflect((210,200), (150,100)) == (90,0)
    assert_eq!(c.ctrl_point(2), Some(Point { x: 90, y: 0 }));
}

#[test]
fn moving_curve_endpoint_propagates_nowhere() {
    let mut c = two_segment_curve();
    let before: Vec<Option<Point>> = (1..8).map(|i| c.ctrl_point(i)).collect();
    c.set_ctrl_point(0, Point { x: -10, y: -10 });
    assert_eq!(c.ctrl_point(0), Some(Point { x: -10, y: -10 }));
    let after: Vec<Option<Point>> = (1..8).map(|i| c.ctrl_point(i)).collect();
    assert_eq!(before, after);

    let mut c = two_segment_curve();
    let before: Vec<Option<Point>> = (0..7).map(|i| c.ctrl_point(i)).collect();
    c.set_ctrl_point(7, Point { x: 500, y: 500 });
    assert_eq!(c.ctrl_point(7), Some(Point { x: 500, y: 500 }));
    let after: Vec<Option<Point>> = (0..7).map(|i| c.ctrl_point(i)).collect();
    assert_eq!(before, after);
}

#[test]
fn out_of_range_write_is_ignored() {
    let mut c = two_segment_curve();
    let before: Vec<Option<Point>> = (0..8).map(|i| c.ctrl_point(i)).collect();
    c.set_ctrl_point(8, Point { x: 1, y: 1 });
    let after: Vec<Option<Point>> = (0..8).map(|i| c.ctrl_point(i)).collect();
    assert_eq!(before, after);
}

#[test]
fn compound_curve_joins_without_duplicates() {
    let mut c = two_segment_curve();
    let curve = c.curve();
    // two segments of 41 samples sharing one joint sample
    assert_eq!(curve.len(), 81);
    assert_eq!(curve[0], Point { x: 0, y: 0 });
    assert_eq!(curve[40], Point { x: 150, y: 100 });
    assert_eq!(curve[80], Point { x: 300, y: 400 });
}

#[test]
fn compound_set_resolution_propagates() {
    let mut c = two_segment_curve();
    assert_eq!(c.resolution(), 25);
    assert!(c.set_resolution(50).is_ok());
    assert_eq!(c.resolution(), 50);
    assert_eq!(c.curve().len(), 41);
    for seg in c.segments() {
        assert_eq!(seg.ctrl_points().len(), 4);
    }
}

#[test]
fn compound_set_resolution_rejects_out_of_range() {
    let mut c = two_segment_curve();
    assert!(matches!(c.set_resolution(0), Err(CurveError::InvalidParameter)));
    assert!(matches!(c.set_resolution(1200), Err(CurveError::InvalidParameter)));
    assert_eq!(c.resolution(), 25);
}

#[test]
fn compound_rejects_bad_resolution() {
    let points = [
        Point { x: 0, y: 0 },
        Point { x: 1, y: 0 },
        Point { x: 2, y: 0 },
        Point { x: 3, y: 0 },
    ];
    assert!(matches!(
        CompoundCurve::new(points, 0),
        Err(CurveError::InvalidParameter)
    ));
    assert!(matches!(
        CompoundCurve::new(points, 5000),
        Err(CurveError::InvalidParameter)
    ));
}

#[test]
fn modified_tracks_edits_and_rebuilds() {
    let mut c = two_segment_curve();
    assert!(c.modified());
    let _ = c.curve();
    let _ = c.surface();
    assert!(!c.modified());
    c.set_ctrl_point(1, Point { x: 60, y: 5 });
    assert!(c.modified());
    let _ = c.curve();
    let _ = c.surface();
    assert!(!c.modified());
    c.set_width(40);
    assert!(c.modified());
    let _ = c.surface();
    assert!(!c.modified());
}

#[test]
fn attribute_constructor_carries_attributes() {
    let c = CompoundCurve::new_with_attributes(30, Some(CenterLine::Solid), false);
    assert_eq!(c.width(), 30);
    assert!(matches!(c.centerline_style(), Some(CenterLine::Solid)));
    assert!(!c.edgeline_visible());
    assert_eq!(c.segments().len(), 1);
    assert_eq!(c.ctrl_points(), 4);
    assert_eq!(c.resolution(), 25);
}

#[test]
fn demo_feature_editing_session() {
    let mut road = CompoundCurve::new_with_attributes(30, None, false);
    road.set_ctrl_point(0, Point { x: 10, y: 10 });
    road.set_ctrl_point(1, Point { x: 100, y: 10 });
    road.set_ctrl_point(2, Point { x: 100, y: 200 });
    road.set_ctrl_point(3, Point { x: 200, y: 200 });
    road.add_segment(Point { x: 300, y: 300 }, Point { x: 300, y: 400 });
    assert_eq!(road.ctrl_points(), 8);
    // the joint stays continuous: reflect((100,200), (200,200)) == (300,200)
    assert_eq!(road.ctrl_point(5), Some(Point { x: 300, y: 200 }));
    let curve = road.curve();
    assert_eq!(curve.len(), 81);
    assert_eq!(curve[0], Point { x: 10, y: 10 });
    assert_eq!(curve[80], Point { x: 300, y: 400 });
    let surface = road.surface();
    assert_eq!(surface.len(), 164);
}
