//! Offset-surface builder: derives the tangent field of a cubic segment
//! and the two parallel offset polylines ("left" and "right" edges) that
//! together bound the feature's filled band.
//!
//! The tangent of a cubic Bezier is a quadratic Bezier over the
//! derivative control points `D_i = 3 * (P_{i+1} - P_i)`. At each
//! centerline sample the unit normal is the tangent rotated a quarter
//! turn, and the two edge points sit half the band width away from the
//! centerline along that normal. A sample with a zero-length tangent has
//! no usable normal; both edges then fall back to the centerline point
//! itself.

use crate::geometry::{Point, MAX_COORD};
use crate::num::{
    div_trunc, div_tz, is_sqrt_floor, isqrt, lemma_div_tz_bound, lemma_sqrt_floor_unique,
    sqrt_floor,
};
use crate::segment::{
    ctrl_points_bounded, eval_sample, sample_count, sample_param, sample_point, sample_u,
    valid_resolution, CubicCurveSegment, RESOLUTION_SCALE,
};
use vstd::prelude::*;

verus! {

/// Denominator of an exactly-evaluated quadratic Bernstein sample:
/// `RESOLUTION_SCALE` squared.
pub const TANGENT_DEN: i64 = 1_000_000;

/// Numerator of the quadratic Bernstein combination of the three
/// derivative coordinates at scaled parameter `u`, over the denominator
/// `TANGENT_DEN`.
pub open spec fn quad_num(d0: int, d1: int, d2: int, u: int) -> int {
    let v = RESOLUTION_SCALE as int - u;
    v * v * d0 + 2 * v * u * d1 + u * u * d2
}

/// The x component of the tangent at sample `k`, rounded toward zero.
pub open spec fn tangent_x(ctrl: Seq<Point>, r: u32, k: int) -> int {
    div_tz(
        quad_num(
            3 * (ctrl[1].x - ctrl[0].x),
            3 * (ctrl[2].x - ctrl[1].x),
            3 * (ctrl[3].x - ctrl[2].x),
            sample_u(r, k),
        ),
        TANGENT_DEN as int,
    )
}

/// The y component of the tangent at sample `k`, rounded toward zero.
pub open spec fn tangent_y(ctrl: Seq<Point>, r: u32, k: int) -> int {
    div_tz(
        quad_num(
            3 * (ctrl[1].y - ctrl[0].y),
            3 * (ctrl[2].y - ctrl[1].y),
            3 * (ctrl[3].y - ctrl[2].y),
            sample_u(r, k),
        ),
        TANGENT_DEN as int,
    )
}

/// Length of the tangent at sample `k`, rounded down.
pub open spec fn tangent_mag(ctrl: Seq<Point>, r: u32, k: int) -> int {
    let vx = tangent_x(ctrl, r, k);
    let vy = tangent_y(ctrl, r, k);
    sqrt_floor(vx * vx + vy * vy)
}

/// The x offset from the centerline to the left edge at sample `k`:
/// the normal's x component scaled by half the band width. Zero when
/// the tangent vanishes.
pub open spec fn edge_offset_x(ctrl: Seq<Point>, r: u32, w: i64, k: int) -> int {
    let mag = tangent_mag(ctrl, r, k);
    if mag == 0 {
        0
    } else {
        div_tz(tangent_y(ctrl, r, k) * (w as int / 2), mag)
    }
}

/// The (negated) y offset from the centerline to the left edge at
/// sample `k`.
pub open spec fn edge_offset_y(ctrl: Seq<Point>, r: u32, w: i64, k: int) -> int {
    let mag = tangent_mag(ctrl, r, k);
    if mag == 0 {
        0
    } else {
        div_tz(tangent_x(ctrl, r, k) * (w as int / 2), mag)
    }
}

/// Left edge point of sample `k`: the centerline sample displaced along
/// the unit normal `(v.y, -v.x) / |v|` by half the band width.
pub open spec fn left_edge_point(ctrl: Seq<Point>, r: u32, w: i64, k: int) -> Point {
    let p = sample_point(ctrl, r, k);
    Point {
        x: (p.x + edge_offset_x(ctrl, r, w, k)) as i64,
        y: (p.y - edge_offset_y(ctrl, r, w, k)) as i64,
    }
}

/// Right edge point of sample `k`: displaced opposite to the left edge.
pub open spec fn right_edge_point(ctrl: Seq<Point>, r: u32, w: i64, k: int) -> Point {
    let p = sample_point(ctrl, r, k);
    Point {
        x: (p.x - edge_offset_x(ctrl, r, w, k)) as i64,
        y: (p.y + edge_offset_y(ctrl, r, w, k)) as i64,
    }
}

/// The whole left offset polyline of one segment.
pub open spec fn left_edge(ctrl: Seq<Point>, r: u32, w: i64) -> Seq<Point> {
    Seq::new(sample_count(r) as nat, |k: int| left_edge_point(ctrl, r, w, k))
}

/// The whole right offset polyline of one segment.
pub open spec fn right_edge(ctrl: Seq<Point>, r: u32, w: i64) -> Seq<Point> {
    Seq::new(sample_count(r) as nat, |k: int| right_edge_point(ctrl, r, w, k))
}

/// Cached pair of offset polylines of one segment.
pub struct EdgePair {
    pub left: Vec<Point>,
    pub right: Vec<Point>,
}

/// Bounds on the three quadratic Bernstein coefficients at scaled
/// parameter `u`, and the fact that they sum to the common denominator.
proof fn lemma_quad_coefficients(v: int, u: int)
    requires
        0 <= u <= 1000,
        v == 1000 - u,
    ensures
        0 <= v * v <= 1_000_000,
        0 <= 2 * v <= 2_000,
        0 <= 2 * v * u <= 2_000_000,
        0 <= u * u <= 1_000_000,
        v * v + 2 * v * u + u * u == 1_000_000,
{
    assert(0 <= v * v <= 1_000_000 && 0 <= 2 * v <= 2_000 && 0 <= 2 * v * u <= 2_000_000 && 0 <= u
        * u <= 1_000_000 && v * v + 2 * v * u + u * u == 1_000_000) by (nonlinear_arith)
        requires
            0 <= u <= 1000,
            v == 1000 - u,
    ;
}

/// Nonnegative coefficient times a bounded factor stays within the
/// scaled bound.
proof fn lemma_term_bound(c: int, x: int, m: int)
    requires
        0 <= c,
        -m <= x <= m,
    ensures
        -(c * m) <= c * x <= c * m,
{
    assert(-(c * m) <= c * x <= c * m) by (nonlinear_arith)
        requires
            0 <= c,
            -m <= x <= m,
    ;
}

/// Evaluates one coordinate of the quadratic tangent combination at
/// scaled parameter `u`, rounded toward zero.
fn eval_tangent_coord(d0: i64, d1: i64, d2: i64, u: i64) -> (t: i64)
    requires
        -6_000_000 <= d0 <= 6_000_000,
        -6_000_000 <= d1 <= 6_000_000,
        -6_000_000 <= d2 <= 6_000_000,
        0 <= u <= RESOLUTION_SCALE as int,
    ensures
        t as int == div_tz(quad_num(d0 as int, d1 as int, d2 as int, u as int), TANGENT_DEN as int),
        -6_000_000 <= t <= 6_000_000,
{
    let v: i64 = (RESOLUTION_SCALE as i64) - u;
    proof {
        lemma_quad_coefficients(v as int, u as int);
    }
    let c0: i64 = v * v;
    let c1: i64 = 2 * v * u;
    let c2: i64 = u * u;
    proof {
        lemma_term_bound(c0 as int, d0 as int, 6_000_000);
        lemma_term_bound(c1 as int, d1 as int, 6_000_000);
        lemma_term_bound(c2 as int, d2 as int, 6_000_000);
    }
    let num: i64 = c0 * d0 + c1 * d1 + c2 * d2;
    let t: i64 = div_trunc(num, TANGENT_DEN);
    proof {
        lemma_div_tz_bound(num as int, TANGENT_DEN as int, 6_000_000);
    }
    t
}

/// A coordinate of a vector is never longer than the vector itself.
proof fn lemma_component_le_mag(vx: int, vy: int, mag: int)
    requires
        is_sqrt_floor(vx * vx + vy * vy, mag),
    ensures
        -mag <= vx <= mag,
        -mag <= vy <= mag,
{
    assert(-mag <= vx <= mag && -mag <= vy <= mag) by (nonlinear_arith)
        requires
            0 <= mag,
            vx * vx + vy * vy < (mag + 1) * (mag + 1),
    ;
}

/// Samples the tangent field of one segment at the segment's own
/// resolution: the derivative control points `D_i = 3 * (P_{i+1} - P_i)`
/// of the cubic, evaluated through the quadratic Bernstein form, one
/// vector per centerline sample.
pub fn tangent_points(seg: &CubicCurveSegment) -> (r: Vec<Point>)
    requires
        seg.wf(),
    ensures
        r@.len() == sample_count(seg.resolution),
        forall|k: int|
            0 <= k < r@.len() ==> (#[trigger] r@[k]).x as int == tangent_x(
                seg.ctrl@,
                seg.resolution,
                k,
            ) && r@[k].y as int == tangent_y(seg.ctrl@, seg.resolution, k),
{
    let ctrl = &seg.ctrl;
    let resolution = seg.resolution;
    let d0x: i64 = 3 * (ctrl[1].x - ctrl[0].x);
    let d0y: i64 = 3 * (ctrl[1].y - ctrl[0].y);
    let d1x: i64 = 3 * (ctrl[2].x - ctrl[1].x);
    let d1y: i64 = 3 * (ctrl[2].y - ctrl[1].y);
    let d2x: i64 = 3 * (ctrl[3].x - ctrl[2].x);
    let d2y: i64 = 3 * (ctrl[3].y - ctrl[2].y);
    let steps: u32 = RESOLUTION_SCALE / resolution;
    let n: usize = (steps + 1) as usize;
    proof {
        crate::segment::lemma_sample_count_bounds(resolution);
    }
    let mut out: Vec<Point> = Vec::new();
    let mut k: usize = 0;
    while k < n
        invariant
            ctrl@.len() == 4,
            ctrl_points_bounded(ctrl@),
            valid_resolution(resolution),
            n == sample_count(resolution),
            d0x == 3 * (ctrl@[1].x - ctrl@[0].x),
            d0y == 3 * (ctrl@[1].y - ctrl@[0].y),
            d1x == 3 * (ctrl@[2].x - ctrl@[1].x),
            d1y == 3 * (ctrl@[2].y - ctrl@[1].y),
            d2x == 3 * (ctrl@[3].x - ctrl@[2].x),
            d2y == 3 * (ctrl@[3].y - ctrl@[2].y),
            k <= n,
            out@.len() == k,
            forall|j: int|
                0 <= j < k ==> (#[trigger] out@[j]).x as int == tangent_x(ctrl@, resolution, j)
                    && out@[j].y as int == tangent_y(ctrl@, resolution, j),
        decreases n - k,
    {
        let u: i64 = sample_param(resolution, k);
        let vx: i64 = eval_tangent_coord(d0x, d1x, d2x, u);
        let vy: i64 = eval_tangent_coord(d0y, d1y, d2y, u);
        out.push(Point { x: vx, y: vy });
        k += 1;
    }
    out
}

/// Computes the two offset polylines of one segment's control polygon
/// for a band of the given total width.
pub fn calc_edge_curve(ctrl: &Vec<Point>, resolution: u32, width: i64) -> (r: EdgePair)
    requires
        ctrl@.len() == 4,
        ctrl_points_bounded(ctrl@),
        valid_resolution(resolution),
        0 <= width <= 200_000,
    ensures
        r.left@ == left_edge(ctrl@, resolution, width),
        r.right@ == right_edge(ctrl@, resolution, width),
{
    let h: i64 = ((width as u64) / 2) as i64;
    let d0x: i64 = 3 * (ctrl[1].x - ctrl[0].x);
    let d0y: i64 = 3 * (ctrl[1].y - ctrl[0].y);
    let d1x: i64 = 3 * (ctrl[2].x - ctrl[1].x);
    let d1y: i64 = 3 * (ctrl[2].y - ctrl[1].y);
    let d2x: i64 = 3 * (ctrl[3].x - ctrl[2].x);
    let d2y: i64 = 3 * (ctrl[3].y - ctrl[2].y);
    let steps: u32 = RESOLUTION_SCALE / resolution;
    let n: usize = (steps + 1) as usize;
    proof {
        crate::segment::lemma_sample_count_bounds(resolution);
    }
    let mut left: Vec<Point> = Vec::new();
    let mut right: Vec<Point> = Vec::new();
    let mut k: usize = 0;
    while k < n
        invariant
            ctrl@.len() == 4,
            ctrl_points_bounded(ctrl@),
            valid_resolution(resolution),
            n == sample_count(resolution),
            h == width as int / 2,
            0 <= h <= 100_000,
            d0x == 3 * (ctrl@[1].x - ctrl@[0].x),
            d0y == 3 * (ctrl@[1].y - ctrl@[0].y),
            d1x == 3 * (ctrl@[2].x - ctrl@[1].x),
            d1y == 3 * (ctrl@[2].y - ctrl@[1].y),
            d2x == 3 * (ctrl@[3].x - ctrl@[2].x),
            d2y == 3 * (ctrl@[3].y - ctrl@[2].y),
            k <= n,
            left@.len() == k,
            right@.len() == k,
            forall|j: int| 0 <= j < k ==> left@[j] == left_edge_point(ctrl@, resolution, width, j),
            forall|j: int|
                0 <= j < k ==> right@[j] == right_edge_point(ctrl@, resolution, width, j),
        decreases n - k,
    {
        let p: Point = eval_sample(ctrl, resolution, k);
        let u: i64 = sample_param(resolution, k);
        let vx: i64 = eval_tangent_coord(d0x, d1x, d2x, u);
        let vy: i64 = eval_tangent_coord(d0y, d1y, d2y, u);
        proof {
            assert(vx as int == tangent_x(ctrl@, resolution, k as int));
            assert(vy as int == tangent_y(ctrl@, resolution, k as int));
            assert(0 <= vx as int * vx as int <= 36_000_000_000_000 && 0 <= vy as int * vy as int
                <= 36_000_000_000_000) by (nonlinear_arith)
                requires
                    -6_000_000 <= vx as int <= 6_000_000,
                    -6_000_000 <= vy as int <= 6_000_000,
            ;
        }
        let mag2: i64 = vx * vx + vy * vy;
        let mag: u64 = isqrt(mag2 as u64);
        proof {
            lemma_sqrt_floor_unique(mag2 as int, mag as int);
            assert(mag as int == tangent_mag(ctrl@, resolution, k as int));
            lemma_component_le_mag(vx as int, vy as int, mag as int);
        }
        if mag == 0 {
            left.push(p);
            right.push(p);
            proof {
                assert(left@.last() == left_edge_point(ctrl@, resolution, width, k as int));
                assert(right@.last() == right_edge_point(ctrl@, resolution, width, k as int));
            }
        } else {
            proof {
                assert(mag as int <= 9_000_000) by (nonlinear_arith)
                    requires
                        0 <= mag as int,
                        (mag as int) * (mag as int) <= 72_000_000_000_000,
                ;
                assert(-600_000_000_000 <= vy as int * h as int <= 600_000_000_000
                    && -600_000_000_000 <= vx as int * h as int
                    <= 600_000_000_000) by (nonlinear_arith)
                    requires
                        -6_000_000 <= vy as int <= 6_000_000,
                        -6_000_000 <= vx as int <= 6_000_000,
                        0 <= h as int <= 100_000,
                ;
                lemma_term_bound(h as int, vy as int, mag as int);
                lemma_term_bound(h as int, vx as int, mag as int);
                assert(vy as int * h as int == h as int * vy as int) by (nonlinear_arith);
                assert(vx as int * h as int == h as int * vx as int) by (nonlinear_arith);
                assert(mag as int * h as int == h as int * mag as int) by (nonlinear_arith);
            }
            let ox: i64 = div_trunc(vy * h, mag as i64);
            let oy: i64 = div_trunc(vx * h, mag as i64);
            proof {
                lemma_div_tz_bound(vy as int * h as int, mag as int, h as int);
                lemma_div_tz_bound(vx as int * h as int, mag as int, h as int);
            }
            left.push(Point { x: p.x + ox, y: p.y - oy });
            right.push(Point { x: p.x - ox, y: p.y + oy });
            proof {
                assert(left@.last() == left_edge_point(ctrl@, resolution, width, k as int));
                assert(right@.last() == right_edge_point(ctrl@, resolution, width, k as int));
            }
        }
        k += 1;
    }
    proof {
        assert(left@ =~= left_edge(ctrl@, resolution, width));
        assert(right@ =~= right_edge(ctrl@, resolution, width));
    }
    EdgePair { left, right }
}

} // verus!
