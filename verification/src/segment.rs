//! A single cubic Bezier segment with four integer control points and a
//! cached tessellation driven by a dirty flag.
//!
//! The tessellation resolution is a step of the curve parameter `t`,
//! expressed in thousandths: a resolution `r` stands for a parameter step
//! of `r / 1000`, and must lie in `1..=1000`. A segment samples its curve
//! at `t = k * r / 1000` for `k = 0, 1, ...`, with the final sample forced
//! to exactly `t = 1` so that the polyline ends precisely on the last
//! control point. Every sample is the exact rational Bernstein value
//! rounded toward zero.

use crate::geometry::{copy_points, Point, MAX_COORD};
use crate::num::{div_trunc, div_tz, lemma_div_tz_bound, lemma_div_tz_exact};
use crate::CurveError;
use vstd::arithmetic::div_mod::{
    lemma_div_is_ordered, lemma_div_pos_is_pos, lemma_fundamental_div_mod,
    lemma_mod_division_less_than_divisor,
};
use vstd::arithmetic::mul::{lemma_mul_inequality, lemma_mul_nonnegative};
use vstd::prelude::*;

verus! {

/// Scale of the resolution parameter: a resolution of `RESOLUTION_SCALE`
/// is a whole parameter step of `t = 1`.
pub const RESOLUTION_SCALE: u32 = 1000;

/// Denominator of an exactly-evaluated cubic Bernstein sample:
/// `RESOLUTION_SCALE` cubed.
pub const BEZIER_DEN: i64 = 1_000_000_000;

/// A resolution is a parameter step in `(0, 1]`, here in thousandths.
pub open spec fn valid_resolution(r: u32) -> bool {
    1 <= r <= RESOLUTION_SCALE
}

/// Number of samples of one segment: `floor(1 / resolution) + 1`.
pub open spec fn sample_count(r: u32) -> int {
    RESOLUTION_SCALE as int / r as int + 1
}

/// Scaled curve parameter of sample `k`: `t = sample_u / RESOLUTION_SCALE`.
/// The last sample is forced to exactly `t = 1`.
pub open spec fn sample_u(r: u32, k: int) -> int {
    if k == RESOLUTION_SCALE as int / r as int {
        RESOLUTION_SCALE as int
    } else {
        k * r
    }
}

/// Numerator of the cubic Bernstein combination of one coordinate of the
/// four control points at scaled parameter `u`, over the denominator
/// `BEZIER_DEN`.
pub open spec fn cubic_num(a: int, b: int, c: int, d: int, u: int) -> int {
    let v = RESOLUTION_SCALE as int - u;
    v * v * v * a + 3 * v * v * u * b + 3 * v * u * u * c + u * u * u * d
}

/// The x coordinate of sample `k`: the exact Bernstein value rounded
/// toward zero.
pub open spec fn sample_x(ctrl: Seq<Point>, r: u32, k: int) -> int {
    div_tz(
        cubic_num(
            ctrl[0].x as int,
            ctrl[1].x as int,
            ctrl[2].x as int,
            ctrl[3].x as int,
            sample_u(r, k),
        ),
        BEZIER_DEN as int,
    )
}

/// The y coordinate of sample `k`.
pub open spec fn sample_y(ctrl: Seq<Point>, r: u32, k: int) -> int {
    div_tz(
        cubic_num(
            ctrl[0].y as int,
            ctrl[1].y as int,
            ctrl[2].y as int,
            ctrl[3].y as int,
            sample_u(r, k),
        ),
        BEZIER_DEN as int,
    )
}

/// Sample `k` of the tessellated segment.
pub open spec fn sample_point(ctrl: Seq<Point>, r: u32, k: int) -> Point {
    Point { x: sample_x(ctrl, r, k) as i64, y: sample_y(ctrl, r, k) as i64 }
}

/// The whole tessellated polyline of a segment.
pub open spec fn tessellation(ctrl: Seq<Point>, r: u32) -> Seq<Point> {
    Seq::new(sample_count(r) as nat, |k: int| sample_point(ctrl, r, k))
}

/// All four control points lie within the engine's coordinate bound.
pub open spec fn ctrl_points_bounded(ctrl: Seq<Point>) -> bool {
    forall|i: int| 0 <= i < 4 ==> (#[trigger] ctrl[i]).in_bounds(MAX_COORD as int)
}

/// A valid resolution yields between 2 and 1001 samples.
pub proof fn lemma_sample_count_bounds(r: u32)
    requires
        valid_resolution(r),
    ensures
        2 <= sample_count(r) <= RESOLUTION_SCALE as int + 1,
{
    lemma_div_is_ordered(r as int, RESOLUTION_SCALE as int, r as int);
    vstd::arithmetic::div_mod::lemma_div_by_self(r as int);
    lemma_div_is_ordered(RESOLUTION_SCALE as int, RESOLUTION_SCALE as int * r as int, r as int);
    vstd::arithmetic::div_mod::lemma_div_multiples_vanish(RESOLUTION_SCALE as int, r as int);
    assert(RESOLUTION_SCALE as int <= RESOLUTION_SCALE as int * r as int) by (nonlinear_arith)
        requires
            1 <= r as int,
    ;
}

/// Nonnegative coefficient times a bounded factor stays within the
/// scaled bound.
proof fn lemma_term_bound(c: int, x: int, m: int)
    requires
        0 <= c,
        -m <= x <= m,
    ensures
        -(c * m) <= c * x <= c * m,
{
    assert(-(c * m) <= c * x <= c * m) by (nonlinear_arith)
        requires
            0 <= c,
            -m <= x <= m,
    ;
}

/// Bounds on the four Bernstein coefficients at scaled parameter `u`,
/// and the fact that they sum to the common denominator.
proof fn lemma_bernstein_coefficients(v: int, u: int)
    requires
        0 <= u <= 1000,
        v == 1000 - u,
    ensures
        0 <= v * v <= 1_000_000,
        0 <= u * u <= 1_000_000,
        0 <= 3 * v <= 3_000,
        0 <= 3 * v * v <= 3_000_000,
        0 <= 3 * v * u <= 3_000_000,
        0 <= v * v * v <= 1_000_000_000,
        0 <= 3 * v * v * u <= 3_000_000_000,
        0 <= 3 * v * u * u <= 3_000_000_000,
        0 <= u * u * u <= 1_000_000_000,
        v * v * v + 3 * v * v * u + 3 * v * u * u + u * u * u == 1_000_000_000,
{
    assert(0 <= v * v <= 1_000_000 && 0 <= u * u <= 1_000_000 && 0 <= 3 * v <= 3_000 && 0 <= 3 * v
        * v <= 3_000_000 && 0 <= 3 * v * u <= 3_000_000 && 0 <= v * v * v <= 1_000_000_000 && 0 <= 3
        * v * v * u <= 3_000_000_000 && 0 <= 3 * v * u * u <= 3_000_000_000 && 0 <= u * u * u
        <= 1_000_000_000 && v * v * v + 3 * v * v * u + 3 * v * u * u + u * u * u
        == 1_000_000_000) by (nonlinear_arith)
        requires
            0 <= u <= 1000,
            v == 1000 - u,
    ;
}

/// Evaluates one coordinate of the cubic Bernstein combination at scaled
/// parameter `u`, rounded toward zero.
fn eval_cubic_coord(a: i64, b: i64, c: i64, d: i64, u: i64) -> (r: i64)
    requires
        -MAX_COORD <= a <= MAX_COORD,
        -MAX_COORD <= b <= MAX_COORD,
        -MAX_COORD <= c <= MAX_COORD,
        -MAX_COORD <= d <= MAX_COORD,
        0 <= u <= RESOLUTION_SCALE as int,
    ensures
        r as int == div_tz(cubic_num(a as int, b as int, c as int, d as int, u as int),
            BEZIER_DEN as int),
        -MAX_COORD <= r <= MAX_COORD,
{
    let v: i64 = (RESOLUTION_SCALE as i64) - u;
    proof {
        lemma_bernstein_coefficients(v as int, u as int);
    }
    let c0: i64 = v * v * v;
    let c1: i64 = 3 * v * v * u;
    let c2: i64 = 3 * v * u * u;
    let c3: i64 = u * u * u;
    proof {
        lemma_term_bound(c0 as int, a as int, MAX_COORD as int);
        lemma_term_bound(c1 as int, b as int, MAX_COORD as int);
        lemma_term_bound(c2 as int, c as int, MAX_COORD as int);
        lemma_term_bound(c3 as int, d as int, MAX_COORD as int);
    }
    let num: i64 = c0 * a + c1 * b + c2 * c + c3 * d;
    let q: i64 = div_trunc(num, BEZIER_DEN);
    proof {
        lemma_div_tz_bound(num as int, BEZIER_DEN as int, MAX_COORD as int);
    }
    q
}

/// Computes the scaled curve parameter of sample `k`.
pub(crate) fn sample_param(resolution: u32, k: usize) -> (u: i64)
    requires
        valid_resolution(resolution),
        0 <= k < sample_count(resolution),
    ensures
        u as int == sample_u(resolution, k as int),
        0 <= u <= RESOLUTION_SCALE as int,
{
    let steps: u32 = RESOLUTION_SCALE / resolution;
    proof {
        lemma_sample_count_bounds(resolution);
        if k as int != steps as int {
            lemma_mul_nonnegative(k as int, resolution as int);
            lemma_mul_inequality(k as int, steps as int - 1, resolution as int);
            lemma_fundamental_div_mod(RESOLUTION_SCALE as int, resolution as int);
            lemma_mod_division_less_than_divisor(RESOLUTION_SCALE as int, resolution as int);
            assert((steps as int - 1) * (resolution as int) == steps as int * resolution as int
                - resolution as int) by (nonlinear_arith);
            assert(steps as int * resolution as int == resolution as int * (RESOLUTION_SCALE as int
                / resolution as int)) by (nonlinear_arith)
                requires
                    steps as int == RESOLUTION_SCALE as int / resolution as int,
            ;
        }
    }
    if k == steps as usize {
        RESOLUTION_SCALE as i64
    } else {
        (k as i64) * (resolution as i64)
    }
}

/// One tessellation sample of the control polygon `ctrl` at sample
/// index `k`.
pub(crate) fn eval_sample(ctrl: &Vec<Point>, resolution: u32, k: usize) -> (r: Point)
    requires
        ctrl@.len() == 4,
        ctrl_points_bounded(ctrl@),
        valid_resolution(resolution),
        0 <= k < sample_count(resolution),
    ensures
        r == sample_point(ctrl@, resolution, k as int),
        r.in_bounds(MAX_COORD as int),
{
    let u: i64 = sample_param(resolution, k);
    let x: i64 = eval_cubic_coord(ctrl[0].x, ctrl[1].x, ctrl[2].x, ctrl[3].x, u);
    let y: i64 = eval_cubic_coord(ctrl[0].y, ctrl[1].y, ctrl[2].y, ctrl[3].y, u);
    Point { x, y }
}

/// Tessellates the control polygon `ctrl` into its full polyline.
fn tessellate(ctrl: &Vec<Point>, resolution: u32) -> (r: Vec<Point>)
    requires
        ctrl@.len() == 4,
        ctrl_points_bounded(ctrl@),
        valid_resolution(resolution),
    ensures
        r@ == tessellation(ctrl@, resolution),
{
    proof {
        lemma_sample_count_bounds(resolution);
    }
    let steps: u32 = RESOLUTION_SCALE / resolution;
    let n: usize = (steps + 1) as usize;
    let mut out: Vec<Point> = Vec::new();
    let mut k: usize = 0;
    while k < n
        invariant
            ctrl@.len() == 4,
            ctrl_points_bounded(ctrl@),
            valid_resolution(resolution),
            n == sample_count(resolution),
            k <= n,
            out@.len() == k,
            forall|j: int| 0 <= j < k ==> out@[j] == sample_point(ctrl@, resolution, j),
        decreases n - k,
    {
        let p = eval_sample(ctrl, resolution, k);
        out.push(p);
        k += 1;
    }
    proof {
        assert(out@ =~= tessellation(ctrl@, resolution));
    }
    out
}

/// At the parameter ends the Bernstein combination degenerates to the
/// first and the last control coordinate.
proof fn lemma_cubic_num_at_ends(a: int, b: int, c: int, d: int)
    ensures
        cubic_num(a, b, c, d, 0) == 1_000_000_000 * a,
        cubic_num(a, b, c, d, RESOLUTION_SCALE as int) == 1_000_000_000 * d,
{
    let v0 = RESOLUTION_SCALE as int - 0;
    assert(v0 == 1000);
    assert(v0 * v0 * v0 == 1_000_000_000) by (nonlinear_arith)
        requires
            v0 == 1000,
    ;
    assert(cubic_num(a, b, c, d, 0) == v0 * v0 * v0 * a + 3 * v0 * v0 * 0 * b + 3 * v0 * 0 * 0 * c
        + 0 * 0 * 0 * d);
    assert(3 * v0 * v0 * 0 * b == 0) by (nonlinear_arith);
    assert(3 * v0 * 0 * 0 * c == 0) by (nonlinear_arith);
    assert(0int * 0 * 0 * d == 0) by (nonlinear_arith);
    assert(v0 * v0 * v0 * a == 1_000_000_000 * a);

    let v1 = RESOLUTION_SCALE as int - RESOLUTION_SCALE as int;
    let u1 = RESOLUTION_SCALE as int;
    assert(v1 == 0 && u1 == 1000);
    assert(u1 * u1 * u1 == 1_000_000_000) by (nonlinear_arith)
        requires
            u1 == 1000,
    ;
    assert(cubic_num(a, b, c, d, u1) == v1 * v1 * v1 * a + 3 * v1 * v1 * u1 * b + 3 * v1 * u1 * u1
        * c + u1 * u1 * u1 * d);
    assert(v1 * v1 * v1 * a == 0 && 3 * v1 * v1 * u1 * b == 0 && 3 * v1 * u1 * u1 * c
        == 0) by (nonlinear_arith)
        requires
            v1 == 0,
    ;
    assert(u1 * u1 * u1 * d == 1_000_000_000 * d);
}

/// The first tessellation sample is the first control point and the last
/// sample is the last control point, exactly.
pub proof fn lemma_tessellation_endpoints(ctrl: Seq<Point>, r: u32)
    requires
        ctrl.len() == 4,
        ctrl_points_bounded(ctrl),
        valid_resolution(r),
    ensures
        tessellation(ctrl, r)[0] == ctrl[0],
        tessellation(ctrl, r)[sample_count(r) - 1] == ctrl[3],
{
    lemma_sample_count_bounds(r);
    assert(sample_u(r, 0) == 0);
    lemma_cubic_num_at_ends(ctrl[0].x as int, ctrl[1].x as int, ctrl[2].x as int, ctrl[3].x as int);
    lemma_cubic_num_at_ends(ctrl[0].y as int, ctrl[1].y as int, ctrl[2].y as int, ctrl[3].y as int);
    lemma_div_tz_exact(ctrl[0].x as int, BEZIER_DEN as int);
    lemma_div_tz_exact(ctrl[0].y as int, BEZIER_DEN as int);
    assert((ctrl[0].x as int) * (BEZIER_DEN as int) == 1_000_000_000 * (ctrl[0].x as int));
    assert((ctrl[0].y as int) * (BEZIER_DEN as int) == 1_000_000_000 * (ctrl[0].y as int));
    assert(sample_point(ctrl, r, 0) == ctrl[0]);

    let last = sample_count(r) - 1;
    assert(sample_u(r, last) == RESOLUTION_SCALE as int);
    lemma_div_tz_exact(ctrl[3].x as int, BEZIER_DEN as int);
    lemma_div_tz_exact(ctrl[3].y as int, BEZIER_DEN as int);
    assert((ctrl[3].x as int) * (BEZIER_DEN as int) == 1_000_000_000 * (ctrl[3].x as int));
    assert((ctrl[3].y as int) * (BEZIER_DEN as int) == 1_000_000_000 * (ctrl[3].y as int));
    assert(sample_point(ctrl, r, last) == ctrl[3]);
}

/// One cubic Bezier curve segment: four control points, a tessellation
/// resolution, and a lazily recomputed polyline cache. The cache holds
/// the segment's tessellation exactly when `dirty` is false.
pub struct CubicCurveSegment {
    pub ctrl: Vec<Point>,
    pub resolution: u32,
    pub dirty: bool,
    pub cache: Vec<Point>,
}

impl CubicCurveSegment {
    /// Well-formedness: four bounded control points, a valid resolution,
    /// and a cache that is the current tessellation whenever it is
    /// marked clean.
    pub open spec fn wf(&self) -> bool {
        &&& self.ctrl@.len() == 4
        &&& valid_resolution(self.resolution)
        &&& ctrl_points_bounded(self.ctrl@)
        &&& (!self.dirty ==> self.cache@ == tessellation(self.ctrl@, self.resolution))
    }

    /// Builds a segment from four explicit control points; rejects a
    /// resolution outside `(0, 1]`.
    pub fn new(points: [Point; 4], resolution: u32) -> (r: Result<CubicCurveSegment, CurveError>)
        requires
            forall|i: int| 0 <= i < 4 ==> (#[trigger] points@[i]).in_bounds(MAX_COORD as int),
        ensures
            (r is Ok) <==> valid_resolution(resolution),
            !valid_resolution(resolution) ==> r == Err::<CubicCurveSegment, CurveError>(
                CurveError::InvalidParameter,
            ),
            (r is Ok) ==> (r->Ok_0).wf() && (r->Ok_0).ctrl@ =~= points@ && (r->Ok_0).resolution
                == resolution && (r->Ok_0).dirty,
    {
        if resolution == 0 || resolution > RESOLUTION_SCALE {
            return Err(CurveError::InvalidParameter);
        }
        let ctrl: Vec<Point> = vec![points[0], points[1], points[2], points[3]];
        Ok(CubicCurveSegment { ctrl, resolution, dirty: true, cache: Vec::new() })
    }

    /// Reads one control point (`idx` in `0..=3`).
    pub fn ctrl_point(&self, idx: usize) -> (r: Point)
        requires
            self.wf(),
            idx < 4,
        ensures
            r == self.ctrl@[idx as int],
    {
        self.ctrl[idx]
    }

    /// Borrows all four control points in order.
    pub fn ctrl_points(&self) -> (r: &Vec<Point>)
        ensures
            r@ == self.ctrl@,
    {
        &self.ctrl
    }

    /// Overwrites one control point and marks the cache stale.
    pub fn set_ctrl_point(&mut self, idx: usize, point: Point)
        requires
            old(self).wf(),
            idx < 4,
            point.in_bounds(MAX_COORD as int),
        ensures
            final(self).wf(),
            final(self).ctrl@ == old(self).ctrl@.update(idx as int, point),
            final(self).resolution == old(self).resolution,
            final(self).dirty,
    {
        self.ctrl.set(idx, point);
        self.dirty = true;
    }

    /// Replaces the resolution and marks the cache stale; rejects a
    /// resolution outside `(0, 1]` and then changes nothing.
    pub fn set_resolution(&mut self, resolution: u32) -> (r: Result<(), CurveError>)
        requires
            old(self).wf(),
        ensures
            final(self).wf(),
            (r is Ok) <==> valid_resolution(resolution),
            !valid_resolution(resolution) ==> r == Err::<(), CurveError>(
                CurveError::InvalidParameter,
            ) && *final(self) == *old(self),
            (r is Ok) ==> final(self).resolution == resolution && final(self).ctrl@ == old(
                self,
            ).ctrl@ && final(self).dirty,
    {
        if resolution == 0 || resolution > RESOLUTION_SCALE {
            return Err(CurveError::InvalidParameter);
        }
        self.resolution = resolution;
        self.dirty = true;
        Ok(())
    }

    /// True when the segment changed since the cache was last rebuilt.
    pub fn is_modified(&self) -> (r: bool)
        ensures
            r == self.dirty,
    {
        self.dirty
    }

    /// The tessellated polyline of this segment, recomputed only when
    /// stale. Its length is `floor(1 / resolution) + 1`; it starts
    /// exactly on the first control point and ends exactly on the last.
    pub fn curve(&mut self) -> (r: Vec<Point>)
        requires
            old(self).wf(),
        ensures
            final(self).wf(),
            final(self).ctrl@ == old(self).ctrl@,
            final(self).resolution == old(self).resolution,
            !final(self).dirty,
            r@ == tessellation(old(self).ctrl@, old(self).resolution),
            r@.len() == sample_count(old(self).resolution),
            r@[0] == old(self).ctrl@[0],
            r@[r@.len() - 1] == old(self).ctrl@[3],
    {
        proof {
            lemma_sample_count_bounds(self.resolution);
            lemma_tessellation_endpoints(self.ctrl@, self.resolution);
        }
        if self.dirty {
            let pts = tessellate(&self.ctrl, self.resolution);
            self.cache = pts;
            self.dirty = false;
        }
        copy_points(&self.cache)
    }
}

} // verus!
