use bezier::compound::CompoundCurve;
use bezier::geometry::Point;
use bezier::segment::CubicCurveSegment;
use bezier::surface::tangent_points;

fn straight_horizontal() -> CompoundCurve {
    CompoundCurve::new(
        [
            Point { x: 0, y: 0 },
            Point { x: 100, y: 0 },
            Point { x: 200, y: 0 },
            Point { x: 300, y: 0 },
        ],
        25,
    )
    .unwrap()
}

#[test]
fn straight_band_offsets_by_half_width() {
    let mut c = straight_horizontal();
    c.set_width(50);
    let curve = c.curve();
    let surface = c.surface();
    let n = curve.len();
    assert_eq!(n, 41);
    assert_eq!(surface.len(), 2 * n);
    for k in 0..n {
        // left edge: the centerline shifted by (0, -25)
        assert_eq!(surface[k], Point { x: curve[k].x, y: curve[k].y - 25 });
        // right edge, walked backward: the centerline shifted by (0, +25)
        assert_eq!(
            surface[n + (n - 1 - k)],
            Point { x: curve[k].x, y: curve[k].y + 25 }
        );
    }
}

#[test]
fn surface_point_count_doubles_samples() {
    let mut c = straight_horizontal();
    c.set_width(50);
    assert_eq!(c.surface().len(), 82);
    c.add_segment(Point { x: 400, y: 100 }, Point { x: 500, y: 0 });
    assert_eq!(c.surface().len(), 164);
    c.add_segment(Point { x: 600, y: -100 }, Point { x: 700, y: 0 });
    assert_eq!(c.surface().len(), 246);
}

#[test]
fn odd_width_truncates_half_width() {
    let mut c = straight_horizontal();
    c.set_width(51);
    let surface = c.surface();
    assert_eq!(surface[0], Point { x: 0, y: -25 });
}

#[test]
fn zero_width_band_collapses_to_centerline() {
    let mut c = straight_horizontal();
    let curve = c.curve();
    let surface = c.surface();
    for k in 0..curve.len() {
        assert_eq!(surface[k], curve[k]);
    }
}

#[test]
fn zero_tangent_falls_back_to_centerline() {
    let p = Point { x: 10, y: 10 };
    let mut c = CompoundCurve::new([p, p, p, p], 25).unwrap();
    c.set_width(50);
    let surface = c.surface();
    assert_eq!(surface.len(), 82);
    for q in &surface {
        assert_eq!(*q, p);
    }
}

#[test]
fn diagonal_band_offset_rounds_toward_zero() {
    let mut c = CompoundCurve::new(
        [
            Point { x: 0, y: 0 },
            Point { x: 100, y: 100 },
            Point { x: 200, y: 200 },
            Point { x: 300, y: 300 },
        ],
        25,
    )
    .unwrap();
    c.set_width(50);
    let surface = c.surface();
    // tangent (300,300), |v| = isqrt(180000) = 424,
    // offset = 300 * 25 / 424 = 17 toward both axes
    assert_eq!(surface[0], Point { x: 17, y: -17 });
}

#[test]
fn tangent_field_of_straight_segment_is_constant() {
    let seg = CubicCurveSegment::new(
        [
            Point { x: 0, y: 0 },
            Point { x: 100, y: 0 },
            Point { x: 200, y: 0 },
            Point { x: 300, y: 0 },
        ],
        25,
    )
    .unwrap();
    let tangents = tangent_points(&seg);
    assert_eq!(tangents.len(), 41);
    for v in &tangents {
        assert_eq!(*v, Point { x: 300, y: 0 });
    }
}

#[test]
fn tangent_field_of_curved_segment_turns() {
    let seg = CubicCurveSegment::new(
        [
            Point { x: 0, y: 0 },
            Point { x: 100, y: 0 },
            Point { x: 100, y: 100 },
            Point { x: 0, y: 100 },
        ],
        500,
    )
    .unwrap();
    let tangents = tangent_points(&seg);
    // D0 = (300,0), D1 = (0,300), D2 = (-300,0); quadratic Bernstein at
    // t = 0, 1/2, 1
    assert_eq!(tangents, vec![
        Point { x: 300, y: 0 },
        Point { x: 0, y: 150 },
        Point { x: -300, y: 0 },
    ]);
}

#[test]
fn surface_rebuild_follows_edits() {
    let mut c = straight_horizontal();
    c.set_width(50);
    let before = c.surface();
    c.set_ctrl_point(0, Point { x: 0, y: 100 });
    let after = c.surface();
    assert_eq!(before.len(), after.len());
    assert_ne!(before[0], after[0]);
    // new tangent at the start: 3 * ((100,0) - (0,100)) = (300,-300),
    // |v| = isqrt(180000) = 424, offset = (-17, -17)
    assert_eq!(after[0], Point { x: -17, y: 83 });
}
