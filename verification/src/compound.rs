//! A compound curve: an ordered, non-empty chain of cubic Bezier
//! segments that share their end anchors, edited as one logical feature.
//!
//! Control points are addressed by a flat global index: global index `g`
//! names local point `g % 4` of segment `g / 4`. A shared anchor is
//! stored once per adjoining segment and kept in sync on every write;
//! moving a tangent handle next to an interior anchor rewrites the
//! neighbouring segment's opposite handle to its mirror image around the
//! anchor, which keeps the tangent direction continuous across the
//! joint.

use crate::geometry::{
    extend_points, extend_points_from, point_reflected, reverse_points, Point, MAX_COORD,
};
use crate::segment::{
    ctrl_points_bounded, lemma_sample_count_bounds, lemma_tessellation_endpoints, sample_count,
    tessellation, valid_resolution, CubicCurveSegment, RESOLUTION_SCALE,
};
use crate::surface::{calc_edge_curve, left_edge, right_edge, EdgePair};
use crate::CurveError;
use vstd::arithmetic::div_mod::lemma_fundamental_div_mod;
use vstd::prelude::*;

verus! {

/// Largest magnitude accepted for a caller-supplied control coordinate.
/// Derived control points (mirrored tangent handles) can grow up to five
/// times this large, which still stays within `MAX_COORD`.
pub const CTRL_LIMIT: i64 = 200_000;

/// Largest accepted width of the surface band.
pub const MAX_WIDTH: i64 = 200_000;

/// Most segments one compound curve will hold: with up to 1001 samples
/// per segment, the largest surface polygon (two points per sample over
/// every segment) must still index within a 32-bit `usize`, which caps
/// the chain at `usize::MAX / 2002` segments.
pub const MAX_SEGMENTS: usize = 2_000_000;

/// Resolution of a compound curve built from attributes alone:
/// 25 thousandths of the curve parameter per step, 41 samples.
pub const DEFAULT_RESOLUTION: u32 = 25;

/// Style tag for drawing the centerline of a feature.
#[derive(Clone, Copy, Debug, PartialEq, Eq, Structural)]
pub enum CenterLine {
    Solid,
    DoubleSolid,
    Stripe,
    StripeSolid,
}

/// The default control polygon of a freshly built feature: a straight
/// horizontal run.
pub open spec fn default_shape() -> Seq<Point> {
    seq![
        Point { x: 0, y: 0 },
        Point { x: 100, y: 0 },
        Point { x: 200, y: 0 },
        Point { x: 300, y: 0 },
    ]
}

/// Bounds on one segment of a chain: anchors are caller-supplied and
/// small; tangent handles may carry up to two reflections' growth.
pub open spec fn seg_chain_bounds(s: CubicCurveSegment) -> bool {
    &&& s.ctrl@[0].in_bounds(CTRL_LIMIT as int)
    &&& s.ctrl@[1].in_bounds(5 * CTRL_LIMIT as int)
    &&& s.ctrl@[2].in_bounds(3 * CTRL_LIMIT as int)
    &&& s.ctrl@[3].in_bounds(CTRL_LIMIT as int)
}

/// The centerline polyline of a chain: the first segment's tessellation,
/// then each later segment's tessellation without its first sample,
/// which the previous segment already contributed.
pub open spec fn compound_curve_seq(segs: Seq<CubicCurveSegment>, r: u32) -> Seq<Point>
    decreases segs.len(),
{
    if segs.len() == 0 {
        Seq::empty()
    } else if segs.len() == 1 {
        tessellation(segs[0].ctrl@, r)
    } else {
        compound_curve_seq(segs.drop_last(), r) + tessellation(segs.last().ctrl@, r).skip(1)
    }
}

/// Concatenation of the left offset polylines of a chain, in centerline
/// order.
pub open spec fn lefts_concat(segs: Seq<CubicCurveSegment>, r: u32, w: i64) -> Seq<Point>
    decreases segs.len(),
{
    if segs.len() == 0 {
        Seq::empty()
    } else {
        lefts_concat(segs.drop_last(), r, w) + left_edge(segs.last().ctrl@, r, w)
    }
}

/// Concatenation of the right offset polylines of a chain, in centerline
/// order.
pub open spec fn rights_concat(segs: Seq<CubicCurveSegment>, r: u32, w: i64) -> Seq<Point>
    decreases segs.len(),
{
    if segs.len() == 0 {
        Seq::empty()
    } else {
        rights_concat(segs.drop_last(), r, w) + right_edge(segs.last().ctrl@, r, w)
    }
}

/// The closed fill polygon of a chain: the left edges walked forward,
/// then the right edges walked backward.
pub open spec fn surface_polygon(segs: Seq<CubicCurveSegment>, r: u32, w: i64) -> Seq<Point> {
    lefts_concat(segs, r, w) + rights_concat(segs, r, w).reverse()
}

/// The cached edge pairs mirror the current chain exactly.
pub open spec fn edges_match(
    edges: Seq<EdgePair>,
    segs: Seq<CubicCurveSegment>,
    r: u32,
    w: i64,
) -> bool {
    &&& edges.len() == segs.len()
    &&& forall|i: int|
        0 <= i < segs.len() ==> (#[trigger] edges[i]).left@ == left_edge(segs[i].ctrl@, r, w)
    &&& forall|i: int|
        0 <= i < segs.len() ==> (#[trigger] edges[i]).right@ == right_edge(segs[i].ctrl@, r, w)
}

/// Length of a chain's centerline polyline: every segment contributes
/// its sample count, and each of the interior joints is shared once.
pub proof fn lemma_compound_curve_len(segs: Seq<CubicCurveSegment>, r: u32)
    requires
        valid_resolution(r),
        segs.len() >= 1,
    ensures
        compound_curve_seq(segs, r).len() == segs.len() * sample_count(r) - (segs.len() - 1),
    decreases segs.len(),
{
    lemma_sample_count_bounds(r);
    if segs.len() == 1 {
        assert(1 * sample_count(r) == sample_count(r)) by (nonlinear_arith);
    } else {
        lemma_compound_curve_len(segs.drop_last(), r);
        let m = segs.len() as int;
        let n = sample_count(r);
        assert((m - 1) * n - (m - 2) + (n - 1) == m * n - (m - 1)) by (nonlinear_arith);
    }
}

/// A chain's centerline polyline starts exactly on the chain's first
/// control point and ends exactly on its last.
pub proof fn lemma_compound_curve_endpoints(segs: Seq<CubicCurveSegment>, r: u32)
    requires
        valid_resolution(r),
        segs.len() >= 1,
        forall|i: int| 0 <= i < segs.len() ==> (#[trigger] segs[i]).ctrl@.len() == 4,
        forall|i: int| 0 <= i < segs.len() ==> ctrl_points_bounded((#[trigger] segs[i]).ctrl@),
    ensures
        compound_curve_seq(segs, r).len() >= 1,
        compound_curve_seq(segs, r).first() == segs.first().ctrl@[0],
        compound_curve_seq(segs, r).last() == segs.last().ctrl@[3],
    decreases segs.len(),
{
    lemma_sample_count_bounds(r);
    if segs.len() == 1 {
        lemma_tessellation_endpoints(segs[0].ctrl@, r);
    } else {
        lemma_compound_curve_endpoints(segs.drop_last(), r);
        lemma_tessellation_endpoints(segs.last().ctrl@, r);
        let prefix = compound_curve_seq(segs.drop_last(), r);
        let tail = tessellation(segs.last().ctrl@, r).skip(1);
        assert(tail.len() == sample_count(r) - 1);
        assert(tail.last() == tessellation(segs.last().ctrl@, r).last());
        assert(segs.drop_last().first() == segs.first());
        assert(compound_curve_seq(segs, r).first() == prefix.first());
    }
}

/// Length of the concatenated left offset polylines of a chain.
pub proof fn lemma_lefts_concat_len(segs: Seq<CubicCurveSegment>, r: u32, w: i64)
    requires
        valid_resolution(r),
    ensures
        lefts_concat(segs, r, w).len() == segs.len() * sample_count(r),
    decreases segs.len(),
{
    lemma_sample_count_bounds(r);
    if segs.len() == 0 {
        assert(0 * sample_count(r) == 0) by (nonlinear_arith);
    } else {
        lemma_lefts_concat_len(segs.drop_last(), r, w);
        assert((segs.len() - 1) * sample_count(r) + sample_count(r) == segs.len() * sample_count(
            r,
        )) by (nonlinear_arith);
    }
}

/// Length of the concatenated right offset polylines of a chain.
pub proof fn lemma_rights_concat_len(segs: Seq<CubicCurveSegment>, r: u32, w: i64)
    requires
        valid_resolution(r),
    ensures
        rights_concat(segs, r, w).len() == segs.len() * sample_count(r),
    decreases segs.len(),
{
    lemma_sample_count_bounds(r);
    if segs.len() == 0 {
        assert(0 * sample_count(r) == 0) by (nonlinear_arith);
    } else {
        lemma_rights_concat_len(segs.drop_last(), r, w);
        assert((segs.len() - 1) * sample_count(r) + sample_count(r) == segs.len() * sample_count(
            r,
        )) by (nonlinear_arith);
    }
}

/// The control point that cell `(i, j)` of the chain holds after a
/// write of `p` at global index `idx`: the directly written cell, the
/// synchronized cell of the adjacent segment where the write lands on an
/// interior anchor or tangent handle, and every other cell unchanged.
pub open spec fn ctrl_after_set(c: CompoundCurve, idx: int, p: Point, i: int, j: int) -> Point {
    let s = idx / 4;
    let l = idx % 4;
    let len = c.segments@.len() as int;
    if i == s && j == l {
        p
    } else if l == 0 && s > 0 && i == s - 1 && j == 3 {
        p
    } else if l == 3 && s < len - 1 && i == s + 1 && j == 0 {
        p
    } else if l == 1 && s > 0 && i == s - 1 && j == 2 {
        point_reflected(p, c.segments@[s].ctrl@[0])
    } else if l == 2 && s < len - 1 && i == s + 1 && j == 1 {
        point_reflected(p, c.segments@[s].ctrl@[3])
    } else {
        c.segments@[i].ctrl@[j]
    }
}

/// Whether a write at global index `idx` touches segment `i` of the
/// chain, directly or through anchor or handle propagation.
pub open spec fn touched_segment(c: CompoundCurve, idx: int, i: int) -> bool {
    let s = idx / 4;
    let l = idx % 4;
    let len = c.segments@.len() as int;
    i == s || (l == 0 && s > 0 && i == s - 1) || (l == 3 && s < len - 1 && i == s + 1) || (l == 1
        && s > 0 && i == s - 1) || (l == 2 && s < len - 1 && i == s + 1)
}

/// An ordered chain of cubic segments sharing endpoints, with the
/// attributes of the feature it draws: the surface band width, an
/// optional centerline style, and an edge-line visibility flag. Offset
/// polylines are cached per segment and rebuilt lazily.
pub struct CompoundCurve {
    pub segments: Vec<CubicCurveSegment>,
    pub resolution: u32,
    pub width: i64,
    pub centerline: Option<CenterLine>,
    pub edgeline_visible: bool,
    pub structural_change: bool,
    pub edges: Vec<EdgePair>,
    pub edges_valid: bool,
}

impl CompoundCurve {
    /// Well-formedness of the chain: a bounded number of well-formed
    /// segments sharing one resolution, adjacent segments agreeing on
    /// their shared anchor bit for bit, all control points within the
    /// chain bounds, and an edge cache that matches the chain whenever
    /// it is marked valid.
    pub open spec fn wf(&self) -> bool {
        &&& 1 <= self.segments@.len() <= MAX_SEGMENTS
        &&& valid_resolution(self.resolution)
        &&& forall|i: int| 0 <= i < self.segments@.len() ==> (#[trigger] self.segments@[i]).wf()
        &&& forall|i: int|
            0 <= i < self.segments@.len() ==> (#[trigger] self.segments@[i]).resolution
                == self.resolution
        &&& forall|i: int|
            0 <= i < self.segments@.len() ==> seg_chain_bounds(#[trigger] self.segments@[i])
        &&& forall|i: int|
            0 <= i < self.segments@.len() - 1 ==> (#[trigger] self.segments@[i]).ctrl@[3]
                == self.segments@[i + 1].ctrl@[0]
        &&& 0 <= self.width <= MAX_WIDTH
        &&& (self.edges_valid ==> edges_match(
            self.edges@,
            self.segments@,
            self.resolution,
            self.width,
        ))
    }

    /// Builds a chain of one segment from four explicit control points;
    /// rejects a resolution outside `(0, 1]`.
    pub fn new(points: [Point; 4], resolution: u32) -> (r: Result<CompoundCurve, CurveError>)
        requires
            forall|i: int| 0 <= i < 4 ==> (#[trigger] points@[i]).in_bounds(CTRL_LIMIT as int),
        ensures
            (r is Ok) <==> valid_resolution(resolution),
            !valid_resolution(resolution) ==> r == Err::<CompoundCurve, CurveError>(
                CurveError::InvalidParameter,
            ),
            (r is Ok) ==> {
                let c = r->Ok_0;
                &&& c.wf()
                &&& c.segments@.len() == 1
                &&& c.segments@[0].ctrl@ == points@
                &&& c.segments@[0].dirty
                &&& c.resolution == resolution
                &&& c.width == 0
                &&& c.centerline is None
                &&& !c.edgeline_visible
                &&& c.structural_change
            },
    {
        if resolution == 0 || resolution > RESOLUTION_SCALE {
            return Err(CurveError::InvalidParameter);
        }
        let ctrl: Vec<Point> = vec![points[0], points[1], points[2], points[3]];
        let seg = CubicCurveSegment { ctrl, resolution, dirty: true, cache: Vec::new() };
        let segments: Vec<CubicCurveSegment> = vec![seg];
        proof {
            assert(segments@[0].ctrl@ =~= points@);
        }
        Ok(
            CompoundCurve {
                segments,
                resolution,
                width: 0,
                centerline: None,
                edgeline_visible: false,
                structural_change: true,
                edges: Vec::new(),
                edges_valid: false,
            },
        )
    }

    /// Builds a default-shaped chain of one segment with the given
    /// feature attributes.
    pub fn new_with_attributes(
        width: i64,
        centerline: Option<CenterLine>,
        edgeline_visible: bool,
    ) -> (r: CompoundCurve)
        requires
            0 <= width <= MAX_WIDTH,
        ensures
            r.wf(),
            r.segments@.len() == 1,
            r.segments@[0].ctrl@ == default_shape(),
            r.resolution == DEFAULT_RESOLUTION,
            r.width == width,
            r.centerline == centerline,
            r.edgeline_visible == edgeline_visible,
            r.structural_change,
    {
        let points: [Point; 4] = [
            Point { x: 0, y: 0 },
            Point { x: 100, y: 0 },
            Point { x: 200, y: 0 },
            Point { x: 300, y: 0 },
        ];
        let ctrl: Vec<Point> = vec![points[0], points[1], points[2], points[3]];
        let seg = CubicCurveSegment {
            ctrl,
            resolution: DEFAULT_RESOLUTION,
            dirty: true,
            cache: Vec::new(),
        };
        let segments: Vec<CubicCurveSegment> = vec![seg];
        proof {
            assert(segments@[0].ctrl@ =~= default_shape());
        }
        CompoundCurve {
            segments,
            resolution: DEFAULT_RESOLUTION,
            width,
            centerline,
            edgeline_visible,
            structural_change: true,
            edges: Vec::new(),
            edges_valid: false,
        }
    }

    /// The shared tessellation resolution of the chain.
    pub fn resolution(&self) -> (r: u32)
        ensures
            r == self.resolution,
    {
        self.resolution
    }

    /// The width of the surface band.
    pub fn width(&self) -> (r: i64)
        ensures
            r == self.width,
    {
        self.width
    }

    /// Replaces the surface band width and invalidates the cached
    /// surface geometry.
    pub fn set_width(&mut self, width: i64)
        requires
            old(self).wf(),
            0 <= width <= MAX_WIDTH,
        ensures
            final(self).wf(),
            final(self).width == width,
            final(self).segments@ == old(self).segments@,
            final(self).resolution == old(self).resolution,
            final(self).centerline == old(self).centerline,
            final(self).edgeline_visible == old(self).edgeline_visible,
            final(self).structural_change,
            !final(self).edges_valid,
    {
        self.width = width;
        self.structural_change = true;
        self.edges_valid = false;
    }

    /// The centerline style tag of this feature.
    pub fn centerline_style(&self) -> (r: Option<CenterLine>)
        ensures
            r == self.centerline,
    {
        self.centerline
    }

    /// Whether the feature's edge lines are drawn.
    pub fn edgeline_visible(&self) -> (r: bool)
        ensures
            r == self.edgeline_visible,
    {
        self.edgeline_visible
    }

    /// Number of global control-point indices: four per segment (shared
    /// anchors are addressable once from each side).
    pub fn ctrl_points(&self) -> (r: usize)
        requires
            self.wf(),
        ensures
            r as int == 4 * self.segments@.len(),
    {
        self.segments.len() * 4
    }

    /// Reads the control point at a global index, or `None` when the
    /// index lies beyond the chain.
    pub fn ctrl_point(&self, idx: usize) -> (r: Option<Point>)
        requires
            self.wf(),
        ensures
            idx as int >= 4 * self.segments@.len() ==> (r is None),
            (idx as int) < 4 * self.segments@.len() ==> r == Some(
                self.segments@[idx as int / 4].ctrl@[idx as int % 4],
            ),
    {
        let s = idx / 4;
        let l = idx % 4;
        proof {
            lemma_fundamental_div_mod(idx as int, 4);
        }
        if s >= self.segments.len() {
            return None;
        }
        Some(self.segments[s].ctrl_point(l))
    }

    /// Ordered read access to the underlying chain.
    pub fn segments(&self) -> (r: &Vec<CubicCurveSegment>)
        ensures
            r@ == self.segments@,
    {
        &self.segments
    }

    /// Ordered mutable access to the underlying chain. The surface cache
    /// is invalidated; a caller that edits a segment directly must keep
    /// the segment well-formed for the chain to stay usable.
    pub fn mut_segments(&mut self) -> (r: &mut Vec<CubicCurveSegment>)
        ensures
            r@ == old(self).segments@,
            final(self).segments@ == final(r)@,
            final(self).resolution == old(self).resolution,
            final(self).width == old(self).width,
            final(self).centerline == old(self).centerline,
            final(self).edgeline_visible == old(self).edgeline_visible,
            final(self).structural_change == old(self).structural_change,
            !final(self).edges_valid,
    {
        self.edges_valid = false;
        &mut self.segments
    }

    /// Appends one segment continuing the chain: its first anchor is the
    /// previous segment's trailing anchor, and its entering tangent
    /// handle is the previous leaving handle mirrored around that
    /// anchor, so the joint starts out tangent-continuous.
    pub fn add_segment(&mut self, p2: Point, p3: Point)
        requires
            old(self).wf(),
            old(self).segments@.len() < MAX_SEGMENTS,
            p2.in_bounds(CTRL_LIMIT as int),
            p3.in_bounds(CTRL_LIMIT as int),
        ensures
            final(self).wf(),
            final(self).segments@.len() == old(self).segments@.len() + 1,
            forall|i: int|
                0 <= i < old(self).segments@.len() ==> final(self).segments@[i] == old(
                    self,
                ).segments@[i],
            ({
                let prev = old(self).segments@.last();
                let s = final(self).segments@.last();
                &&& s.ctrl@.len() == 4
                &&& s.ctrl@[0] == prev.ctrl@[3]
                &&& s.ctrl@[1] == point_reflected(prev.ctrl@[2], prev.ctrl@[3])
                &&& s.ctrl@[2] == p2
                &&& s.ctrl@[3] == p3
                &&& s.dirty
                &&& s.resolution == old(self).resolution
            }),
            final(self).resolution == old(self).resolution,
            final(self).width == old(self).width,
            final(self).centerline == old(self).centerline,
            final(self).edgeline_visible == old(self).edgeline_visible,
            final(self).structural_change,
            !final(self).edges_valid,
    {
        let m = self.segments.len();
        let anchor: Point = self.segments[m - 1].ctrl_point(3);
        let handle: Point = self.segments[m - 1].ctrl_point(2);
        let p1: Point = handle.reflect(anchor);
        let ctrl: Vec<Point> = vec![anchor, p1, p2, p3];
        let seg = CubicCurveSegment {
            ctrl,
            resolution: self.resolution,
            dirty: true,
            cache: Vec::new(),
        };
        self.segments.push(seg);
        self.structural_change = true;
        self.edges_valid = false;
        proof {
            let segsf = self.segments@;
            let old_segs = old(self).segments@;
            let last = segsf.len() - 1;
            assert(segsf[last].ctrl@ =~= seq![
                old_segs.last().ctrl@[3],
                point_reflected(old_segs.last().ctrl@[2], old_segs.last().ctrl@[3]),
                p2,
                p3,
            ]);
            assert forall|i: int| 0 <= i < segsf.len() implies (#[trigger] segsf[i]).wf()
                && segsf[i].resolution == self.resolution && seg_chain_bounds(segsf[i]) by {
                if i < old_segs.len() {
                    assert(old_segs[i].wf());
                    assert(seg_chain_bounds(old_segs[i]));
                } else {
                    assert(seg_chain_bounds(old_segs[last - 1]));
                }
            }
            assert forall|i: int| 0 <= i < segsf.len() - 1 implies (#[trigger] segsf[i]).ctrl@[3]
                == segsf[i + 1].ctrl@[0] by {
                if i < old_segs.len() - 1 {
                    assert(old_segs[i].ctrl@[3] == old_segs[i + 1].ctrl@[0]);
                }
            }
        }
    }

    /// Replaces the shared resolution, propagating it to every segment
    /// and marking every tessellation stale; rejects a resolution
    /// outside `(0, 1]` and then changes nothing.
    pub fn set_resolution(&mut self, resolution: u32) -> (r: Result<(), CurveError>)
        requires
            old(self).wf(),
        ensures
            final(self).wf(),
            (r is Ok) <==> valid_resolution(resolution),
            !valid_resolution(resolution) ==> r == Err::<(), CurveError>(
                CurveError::InvalidParameter,
            ) && *final(self) == *old(self),
            (r is Ok) ==> {
                &&& final(self).resolution == resolution
                &&& final(self).segments@.len() == old(self).segments@.len()
                &&& forall|i: int|
                    0 <= i < old(self).segments@.len() ==> (#[trigger] final(self).segments@[i]).ctrl@ == old(self).segments@[i].ctrl@
                &&& forall|i: int|
                    0 <= i < old(self).segments@.len() ==> (#[trigger] final(self).segments@[i]).dirty
                &&& final(self).width == old(self).width
                &&& final(self).centerline == old(self).centerline
                &&& final(self).edgeline_visible == old(self).edgeline_visible
                &&& final(self).structural_change == old(self).structural_change
                &&& !final(self).edges_valid
            },
    {
        if resolution == 0 || resolution > RESOLUTION_SCALE {
            return Err(CurveError::InvalidParameter);
        }
        self.resolution = resolution;
        let mut i: usize = 0;
        while i < self.segments.len()
            invariant
                valid_resolution(resolution),
                self.resolution == resolution,
                self.segments@.len() == old(self).segments@.len(),
                1 <= self.segments@.len() <= MAX_SEGMENTS,
                i <= self.segments@.len(),
                forall|j: int|
                    0 <= j < self.segments@.len() ==> (#[trigger] self.segments@[j]).ctrl@ == old(
                        self,
                    ).segments@[j].ctrl@,
                forall|j: int| 0 <= j < self.segments@.len() ==> (#[trigger] self.segments@[j]).wf(),
                forall|j: int|
                    0 <= j < self.segments@.len() ==> seg_chain_bounds(
                        #[trigger] self.segments@[j],
                    ),
                forall|j: int|
                    0 <= j < self.segments@.len() - 1 ==> (#[trigger] self.segments@[j]).ctrl@[3]
                        == self.segments@[j + 1].ctrl@[0],
                forall|j: int|
                    0 <= j < i ==> (#[trigger] self.segments@[j]).resolution == resolution
                        && self.segments@[j].dirty,
                self.width == old(self).width,
                0 <= self.width <= MAX_WIDTH,
                self.centerline == old(self).centerline,
                self.edgeline_visible == old(self).edgeline_visible,
                self.structural_change == old(self).structural_change,
            decreases self.segments@.len() - i,
        {
            let seg = &mut self.segments[i];
            let _ = seg.set_resolution(resolution);
            i += 1;
        }
        self.edges_valid = false;
        Ok(())
    }

    /// Writes a control point at a global index. A write beyond the
    /// last index changes nothing. A write to a shared interior anchor
    /// is copied into the adjoining segment, so both segments keep
    /// agreeing on the anchor; a write to a tangent handle beside an
    /// interior anchor rewrites the adjoining segment's opposite handle
    /// to the new handle mirrored around that anchor, which keeps the
    /// joint tangent-continuous. The first and last global index of the
    /// chain have no neighbour and propagate nowhere.
    pub fn set_ctrl_point(&mut self, idx: usize, point: Point)
        requires
            old(self).wf(),
            point.in_bounds(CTRL_LIMIT as int),
        ensures
            final(self).wf(),
            idx as int >= 4 * old(self).segments@.len() ==> *final(self) == *old(self),
            (idx as int) < 4 * old(self).segments@.len() ==> ({
                let len = old(self).segments@.len() as int;
                &&& final(self).segments@.len() == len
                &&& forall|i: int, j: int|
                    0 <= i < len && 0 <= j < 4 ==> (#[trigger] final(self).segments@[i].ctrl@[j])
                        == ctrl_after_set(*old(self), idx as int, point, i, j)
                &&& forall|i: int|
                    0 <= i < len ==> (#[trigger] final(self).segments@[i]).dirty == (old(self).segments@[i].dirty
                        || touched_segment(*old(self), idx as int, i))
                &&& final(self).resolution == old(self).resolution
                &&& final(self).width == old(self).width
                &&& final(self).centerline == old(self).centerline
                &&& final(self).edgeline_visible == old(self).edgeline_visible
                &&& final(self).structural_change == old(self).structural_change
                &&& !final(self).edges_valid
            }),
    {
        let len = self.segments.len();
        if idx >= len * 4 {
            return ;
        }
        let s = idx / 4;
        let l = idx % 4;
        proof {
            lemma_fundamental_div_mod(idx as int, 4);
        }
        let seg = &mut self.segments[s];
        seg.set_ctrl_point(l, point);
        if l == 0 {
            if s > 0 {
                let nseg = &mut self.segments[s - 1];
                nseg.set_ctrl_point(3, point);
            }
        } else if l == 3 {
            if s + 1 < len {
                let nseg = &mut self.segments[s + 1];
                nseg.set_ctrl_point(0, point);
            }
        } else if l == 1 {
            if s > 0 {
                let anchor: Point = self.segments[s].ctrl_point(0);
                let mirrored: Point = point.reflect(anchor);
                let nseg = &mut self.segments[s - 1];
                nseg.set_ctrl_point(2, mirrored);
            }
        } else {
            if s + 1 < len {
                let anchor: Point = self.segments[s].ctrl_point(3);
                let mirrored: Point = point.reflect(anchor);
                let nseg = &mut self.segments[s + 1];
                nseg.set_ctrl_point(1, mirrored);
            }
        }
        self.edges_valid = false;
        proof {
            let seg0 = old(self).segments@;
            let segf = self.segments@;
            let si = idx as int / 4;
            let li = idx as int % 4;
            assert forall|i: int, j: int| 0 <= i < seg0.len() && 0 <= j < 4 implies (
            #[trigger] segf[i].ctrl@[j]) == ctrl_after_set(*old(self), idx as int, point, i, j) by {
                assert(seg_chain_bounds(seg0[si]));
            }
            assert forall|i: int| 0 <= i < segf.len() implies (#[trigger] segf[i]).wf()
                && segf[i].resolution == self.resolution && seg_chain_bounds(segf[i]) by {
                assert(seg0[i].wf());
                assert(seg_chain_bounds(seg0[i]));
                assert(seg_chain_bounds(seg0[si]));
                assert forall|j: int| 0 <= j < 4 implies (#[trigger] segf[i].ctrl@[j]).in_bounds(
                    MAX_COORD as int,
                ) by {
                    assert(segf[i].ctrl@[j] == ctrl_after_set(*old(self), idx as int, point, i, j));
                }
            }
            assert forall|i: int| 0 <= i < segf.len() - 1 implies (#[trigger] segf[i]).ctrl@[3]
                == segf[i + 1].ctrl@[0] by {
                assert(seg0[i].ctrl@[3] == seg0[i + 1].ctrl@[0]);
                assert(segf[i].ctrl@[3] == ctrl_after_set(*old(self), idx as int, point, i, 3));
                assert(segf[i + 1].ctrl@[0] == ctrl_after_set(
                    *old(self),
                    idx as int,
                    point,
                    i + 1,
                    0,
                ));
            }
        }
    }

    /// The chain's tessellated centerline: the concatenation of every
    /// segment's polyline, with the shared boundary sample of each
    /// interior joint contributed only once. The polyline starts
    /// exactly on the chain's first control point and ends exactly on
    /// its last; every segment's cache is left clean.
    pub fn curve(&mut self) -> (r: Vec<Point>)
        requires
            old(self).wf(),
        ensures
            final(self).wf(),
            final(self).segments@.len() == old(self).segments@.len(),
            forall|i: int|
                0 <= i < old(self).segments@.len() ==> (#[trigger] final(self).segments@[i]).ctrl@
                    == old(self).segments@[i].ctrl@,
            forall|i: int|
                0 <= i < old(self).segments@.len() ==> !(#[trigger] final(self).segments@[i]).dirty,
            final(self).resolution == old(self).resolution,
            final(self).width == old(self).width,
            final(self).centerline == old(self).centerline,
            final(self).edgeline_visible == old(self).edgeline_visible,
            final(self).structural_change == old(self).structural_change,
            final(self).edges_valid == old(self).edges_valid,
            r@ == compound_curve_seq(old(self).segments@, old(self).resolution),
            r@.len() == old(self).segments@.len() * sample_count(old(self).resolution) - (old(
                self,
            ).segments@.len() - 1),
            r@.first() == old(self).segments@.first().ctrl@[0],
            r@.last() == old(self).segments@.last().ctrl@[3],
    {
        let ghost old_segs = old(self).segments@;
        let resolution = self.resolution;
        let m = self.segments.len();
        let mut out: Vec<Point> = Vec::new();
        let mut i: usize = 0;
        proof {
            lemma_sample_count_bounds(resolution);
            assert(out@ =~= compound_curve_seq(old_segs.take(0), resolution));
        }
        while i < m
            invariant
                m == self.segments@.len(),
                m == old_segs.len(),
                1 <= m <= MAX_SEGMENTS,
                valid_resolution(resolution),
                self.resolution == resolution,
                i <= m,
                forall|j: int|
                    0 <= j < m ==> (#[trigger] self.segments@[j]).ctrl@ == old_segs[j].ctrl@,
                forall|j: int| 0 <= j < m ==> (#[trigger] self.segments@[j]).wf(),
                forall|j: int|
                    0 <= j < m ==> (#[trigger] self.segments@[j]).resolution == resolution,
                forall|j: int| 0 <= j < m ==> seg_chain_bounds(#[trigger] self.segments@[j]),
                forall|j: int|
                    0 <= j < m - 1 ==> (#[trigger] self.segments@[j]).ctrl@[3] == self.segments@[j
                        + 1].ctrl@[0],
                forall|j: int| 0 <= j < i ==> !(#[trigger] self.segments@[j]).dirty,
                out@ == compound_curve_seq(old_segs.take(i as int), resolution),
                out@.len() <= i * 1001,
                self.width == old(self).width,
                0 <= self.width <= MAX_WIDTH,
                self.centerline == old(self).centerline,
                self.edgeline_visible == old(self).edgeline_visible,
                self.structural_change == old(self).structural_change,
                self.edges_valid == old(self).edges_valid,
                self.edges@ == old(self).edges@,
            decreases m - i,
        {
            let seg = &mut self.segments[i];
            let pts = seg.curve();
            proof {
                assert(pts@ == tessellation(old_segs[i as int].ctrl@, resolution));
                assert(old_segs.take(i as int + 1).drop_last() =~= old_segs.take(i as int));
                assert(old_segs.take(i as int + 1).last() == old_segs[i as int]);
                assert(pts@.len() <= 1001);
            }
            if i == 0 {
                extend_points(&mut out, &pts);
            } else {
                extend_points_from(&mut out, &pts, 1);
            }
            i += 1;
            proof {
                assert(out@ == compound_curve_seq(old_segs.take(i as int), resolution));
            }
        }
        proof {
            assert(old_segs.take(m as int) =~= old_segs);
            lemma_compound_curve_len(old_segs, resolution);
            assert forall|j: int| 0 <= j < m implies (#[trigger] old_segs[j]).ctrl@.len() == 4
                && ctrl_points_bounded(old_segs[j].ctrl@) by {
                assert(old_segs[j].wf());
            }
            lemma_compound_curve_endpoints(old_segs, resolution);
            if self.edges_valid {
                assert forall|j: int| 0 <= j < m implies (#[trigger] self.edges@[j]).left@
                    == left_edge(self.segments@[j].ctrl@, resolution, self.width)
                    && self.edges@[j].right@ == right_edge(
                    self.segments@[j].ctrl@,
                    resolution,
                    self.width,
                ) by {
                    assert(self.segments@[j].ctrl@ == old_segs[j].ctrl@);
                }
            }
        }
        out
    }

    /// The closed fill polygon of the feature's surface band: every
    /// segment's left offset polyline in centerline order, then every
    /// right offset polyline in reverse centerline order. The polygon
    /// holds exactly two points per centerline sample, counted over all
    /// segments; stale per-segment edge caches are rebuilt first.
    pub fn surface(&mut self) -> (r: Vec<Point>)
        requires
            old(self).wf(),
        ensures
            final(self).wf(),
            final(self).segments@ == old(self).segments@,
            final(self).resolution == old(self).resolution,
            final(self).width == old(self).width,
            final(self).centerline == old(self).centerline,
            final(self).edgeline_visible == old(self).edgeline_visible,
            !final(self).structural_change,
            final(self).edges_valid,
            r@ == surface_polygon(old(self).segments@, old(self).resolution, old(self).width),
            r@.len() == 2 * old(self).segments@.len() * sample_count(old(self).resolution),
    {
        let ghost old_segs = old(self).segments@;
        let resolution = self.resolution;
        let width = self.width;
        let m = self.segments.len();
        proof {
            lemma_sample_count_bounds(resolution);
        }
        if !self.edges_valid {
            let mut new_edges: Vec<EdgePair> = Vec::new();
            let mut i: usize = 0;
            while i < m
                invariant
                    m == self.segments@.len(),
                    valid_resolution(resolution),
                    0 <= width <= MAX_WIDTH,
                    i <= m,
                    forall|j: int| 0 <= j < m ==> (#[trigger] self.segments@[j]).wf(),
                    new_edges@.len() == i,
                    forall|j: int|
                        0 <= j < i ==> (#[trigger] new_edges@[j]).left@ == left_edge(
                            self.segments@[j].ctrl@,
                            resolution,
                            width,
                        ),
                    forall|j: int|
                        0 <= j < i ==> (#[trigger] new_edges@[j]).right@ == right_edge(
                            self.segments@[j].ctrl@,
                            resolution,
                            width,
                        ),
                decreases m - i,
            {
                let ep = calc_edge_curve(&self.segments[i].ctrl, resolution, width);
                new_edges.push(ep);
                i += 1;
            }
            self.edges = new_edges;
            self.edges_valid = true;
        }
        self.structural_change = false;
        proof {
            assert(edges_match(self.edges@, self.segments@, resolution, width));
        }
        let mut out: Vec<Point> = Vec::new();
        let mut i: usize = 0;
        proof {
            assert(out@ =~= lefts_concat(old_segs.take(0), resolution, width));
        }
        while i < m
            invariant
                m == self.segments@.len(),
                m == old_segs.len(),
                m == self.edges@.len(),
                m <= MAX_SEGMENTS,
                valid_resolution(resolution),
                0 <= width <= MAX_WIDTH,
                i <= m,
                self.segments@ == old_segs,
                edges_match(self.edges@, self.segments@, resolution, width),
                out@ == lefts_concat(old_segs.take(i as int), resolution, width),
                out@.len() <= i * 1001,
            decreases m - i,
        {
            proof {
                assert(old_segs.take(i as int + 1).drop_last() =~= old_segs.take(i as int));
                assert(old_segs.take(i as int + 1).last() == old_segs[i as int]);
                assert(self.edges@[i as int].left@ == left_edge(
                    old_segs[i as int].ctrl@,
                    resolution,
                    width,
                ));
                assert(self.edges@[i as int].left@.len() == sample_count(resolution));
            }
            extend_points(&mut out, &self.edges[i].left);
            i += 1;
        }
        let mut rights: Vec<Point> = Vec::new();
        let mut k: usize = 0;
        proof {
            assert(out@ == lefts_concat(old_segs, resolution, width)) by {
                assert(old_segs.take(m as int) =~= old_segs);
            }
            assert(rights@ =~= rights_concat(old_segs.take(0), resolution, width));
        }
        while k < m
            invariant
                m == self.segments@.len(),
                m == old_segs.len(),
                m == self.edges@.len(),
                m <= MAX_SEGMENTS,
                valid_resolution(resolution),
                0 <= width <= MAX_WIDTH,
                k <= m,
                self.segments@ == old_segs,
                edges_match(self.edges@, self.segments@, resolution, width),
                rights@ == rights_concat(old_segs.take(k as int), resolution, width),
                rights@.len() <= k * 1001,
            decreases m - k,
        {
            proof {
                assert(old_segs.take(k as int + 1).drop_last() =~= old_segs.take(k as int));
                assert(old_segs.take(k as int + 1).last() == old_segs[k as int]);
                assert(self.edges@[k as int].right@ == right_edge(
                    old_segs[k as int].ctrl@,
                    resolution,
                    width,
                ));
                assert(self.edges@[k as int].right@.len() == sample_count(resolution));
            }
            extend_points(&mut rights, &self.edges[k].right);
            k += 1;
        }
        proof {
            assert(rights@ == rights_concat(old_segs, resolution, width)) by {
                assert(old_segs.take(m as int) =~= old_segs);
            }
        }
        let rev = reverse_points(&rights);
        extend_points(&mut out, &rev);
        proof {
            lemma_lefts_concat_len(old_segs, resolution, width);
            lemma_rights_concat_len(old_segs, resolution, width);
            let n = sample_count(resolution);
            assert(2 * (m as int) * n == (m as int) * n + (m as int) * n) by (nonlinear_arith);
        }
        out
    }

    /// True when the chain changed structurally since the surface was
    /// last rebuilt, or any segment's tessellation is stale.
    pub fn modified(&self) -> (r: bool)
        requires
            self.wf(),
        ensures
            r == (self.structural_change || exists|i: int|
                0 <= i < self.segments@.len() && (#[trigger] self.segments@[i]).dirty),
    {
        if self.structural_change {
            return true;
        }
        let mut i: usize = 0;
        while i < self.segments.len()
            invariant
                i <= self.segments@.len(),
                forall|j: int| 0 <= j < i ==> !(#[trigger] self.segments@[j]).dirty,
            decreases self.segments@.len() - i,
        {
            if self.segments[i].is_modified() {
                return true;
            }
            i += 1;
        }
        false
    }
}

} // verus!
