//! Plane geometry primitives: an integer-coordinate point with distance,
//! reflection and componentwise arithmetic, and an axis-aligned rectangle.

use crate::num::{is_sqrt_floor, isqrt, sqrt_floor};
use vstd::prelude::*;

verus! {

/// Largest coordinate magnitude the curve engine works with. Keeping
/// every stored control point within this bound is what makes all of
/// the tessellation arithmetic provably free of overflow.
pub const MAX_COORD: i64 = 1_000_000;

/// A point (or vector) on the flat 2D plane, in exact integer
/// coordinate units.
#[derive(Clone, Copy, Debug, PartialEq, Eq, Structural)]
pub struct Point {
    pub x: i64,
    pub y: i64,
}

/// `p` mirrored through `center`, so that `center` is the midpoint of
/// `p` and the result.
pub open spec fn point_reflected(p: Point, center: Point) -> Point {
    Point { x: (2 * center.x - p.x) as i64, y: (2 * center.y - p.y) as i64 }
}

impl Point {
    /// Both coordinates lie within `b` of the origin.
    pub open spec fn in_bounds(self, b: int) -> bool {
        -b <= self.x <= b && -b <= self.y <= b
    }

    /// Squared euclidean distance to `p`.
    pub open spec fn dist2(self, p: Point) -> int {
        (self.x - p.x) * (self.x - p.x) + (self.y - p.y) * (self.y - p.y)
    }

    /// Componentwise sum.
    pub fn add(self, rhs: Point) -> (r: Point)
        requires
            i64::MIN <= self.x + rhs.x <= i64::MAX,
            i64::MIN <= self.y + rhs.y <= i64::MAX,
        ensures
            r.x == self.x + rhs.x,
            r.y == self.y + rhs.y,
    {
        Point { x: self.x + rhs.x, y: self.y + rhs.y }
    }

    /// Componentwise difference.
    pub fn sub(self, rhs: Point) -> (r: Point)
        requires
            i64::MIN <= self.x - rhs.x <= i64::MAX,
            i64::MIN <= self.y - rhs.y <= i64::MAX,
        ensures
            r.x == self.x - rhs.x,
            r.y == self.y - rhs.y,
    {
        Point { x: self.x - rhs.x, y: self.y - rhs.y }
    }

    /// Euclidean distance to `p`, rounded down to the nearest integer.
    pub fn distance(&self, p: &Point) -> (r: i64)
        requires
            self.in_bounds(MAX_COORD as int),
            p.in_bounds(MAX_COORD as int),
        ensures
            is_sqrt_floor(self.dist2(*p), r as int),
            r as int == sqrt_floor(self.dist2(*p)),
    {
        let dx: i64 = self.x - p.x;
        let dy: i64 = self.y - p.y;
        proof {
            lemma_square_bound(dx as int, 2 * MAX_COORD as int);
            lemma_square_bound(dy as int, 2 * MAX_COORD as int);
        }
        let d2: i64 = dx * dx + dy * dy;
        let r: u64 = isqrt(d2 as u64);
        proof {
            assert((r as int) * (r as int) <= d2 as int);
            assert(r as int <= d2 as int) by (nonlinear_arith)
                requires
                    0 <= r as int,
                    (r as int) * (r as int) <= d2 as int,
            ;
        }
        r as i64
    }

    /// Distance to the point `(x, y)`, rounded down to the nearest
    /// integer.
    pub fn dist_to_xy(&self, x: i64, y: i64) -> (r: i64)
        requires
            self.in_bounds(MAX_COORD as int),
            (Point { x, y }).in_bounds(MAX_COORD as int),
        ensures
            is_sqrt_floor(self.dist2(Point { x, y }), r as int),
            r as int == sqrt_floor(self.dist2(Point { x, y })),
    {
        self.distance(&Point { x, y })
    }

    /// Slope of the line through `self` and `p`, as the exact rational
    /// pair `(rise, run)`; `None` when the line is vertical.
    pub fn slope(&self, p: &Point) -> (r: Option<(i64, i64)>)
        requires
            i64::MIN <= p.y - self.y <= i64::MAX,
            i64::MIN <= p.x - self.x <= i64::MAX,
        ensures
            p.x == self.x ==> (r is None),
            p.x != self.x ==> r == Some((((p.y - self.y) as i64), ((p.x - self.x) as i64))),
    {
        let cy: i64 = p.y - self.y;
        let cx: i64 = p.x - self.x;
        if cx == 0 {
            return None;
        }
        Some((cy, cx))
    }

    /// Mirrors `self` through `around`, so that `around` becomes the
    /// midpoint of `self` and the result: reflecting `{5, 5}` around
    /// the origin gives `{-5, -5}`.
    pub fn reflect(&self, around: Point) -> (r: Point)
        requires
            i64::MIN <= 2 * around.x - self.x <= i64::MAX,
            i64::MIN <= 2 * around.y - self.y <= i64::MAX,
        ensures
            r == point_reflected(*self, around),
            r.x == 2 * around.x - self.x,
            r.y == 2 * around.y - self.y,
    {
        let rx: i128 = 2 * (around.x as i128) - (self.x as i128);
        let ry: i128 = 2 * (around.y as i128) - (self.y as i128);
        Point { x: rx as i64, y: ry as i64 }
    }
}

/// Reflecting a point through a center twice gives the point back.
pub proof fn lemma_reflect_involution(p: Point, center: Point)
    requires
        i64::MIN <= 2 * center.x - p.x <= i64::MAX,
        i64::MIN <= 2 * center.y - p.y <= i64::MAX,
    ensures
        point_reflected(point_reflected(p, center), center) == p,
{
}

/// `|x| <= b` bounds the square by `b * b`.
proof fn lemma_square_bound(x: int, b: int)
    requires
        -b <= x <= b,
    ensures
        0 <= x * x <= b * b,
{
    assert(0 <= x * x <= b * b) by (nonlinear_arith)
        requires
            -b <= x <= b,
    ;
}

/// Copies a polyline into a fresh vector.
pub fn copy_points(src: &Vec<Point>) -> (r: Vec<Point>)
    ensures
        r@ == src@,
{
    let mut out: Vec<Point> = Vec::new();
    let mut i: usize = 0;
    while i < src.len()
        invariant
            i <= src@.len(),
            out@.len() == i,
            forall|j: int| 0 <= j < i ==> out@[j] == src@[j],
        decreases src@.len() - i,
    {
        let p = src[i];
        out.push(p);
        i += 1;
    }
    proof {
        assert(out@ =~= src@);
    }
    out
}

/// Appends the tail of `src` starting at index `from` onto `dst`.
pub fn extend_points_from(dst: &mut Vec<Point>, src: &Vec<Point>, from: usize)
    requires
        from <= src@.len(),
        old(dst)@.len() + src@.len() <= usize::MAX,
    ensures
        final(dst)@ == old(dst)@ + src@.skip(from as int),
{
    let ghost base: Seq<Point> = dst@;
    let mut i: usize = from;
    while i < src.len()
        invariant
            from <= i <= src@.len(),
            base.len() + src@.len() <= usize::MAX,
            dst@.len() == base.len() + i - from,
            dst@ == base + src@.subrange(from as int, i as int),
        decreases src@.len() - i,
    {
        let p = src[i];
        dst.push(p);
        proof {
            assert(base + src@.subrange(from as int, i as int + 1) =~= (base + src@.subrange(
                from as int,
                i as int,
            )).push(src@[i as int]));
        }
        i += 1;
    }
    proof {
        assert(src@.subrange(from as int, src@.len() as int) =~= src@.skip(from as int));
    }
}

/// Appends the whole of `src` onto `dst`.
pub fn extend_points(dst: &mut Vec<Point>, src: &Vec<Point>)
    requires
        old(dst)@.len() + src@.len() <= usize::MAX,
    ensures
        final(dst)@ == old(dst)@ + src@,
{
    extend_points_from(dst, src, 0);
    proof {
        assert(src@.skip(0) =~= src@);
    }
}

/// The points of `src` in reverse order.
pub fn reverse_points(src: &Vec<Point>) -> (r: Vec<Point>)
    ensures
        r@ == src@.reverse(),
{
    let n = src.len();
    let mut out: Vec<Point> = Vec::new();
    let mut i: usize = 0;
    while i < n
        invariant
            n == src@.len(),
            i <= n,
            out@.len() == i,
            forall|j: int| 0 <= j < i ==> out@[j] == src@[n - 1 - j],
        decreases n - i,
    {
        let p = src[n - 1 - i];
        out.push(p);
        i += 1;
    }
    proof {
        assert(out@ =~= src@.reverse());
    }
    out
}

/// An axis-aligned rectangle given by its top-left corner and extent.
#[derive(Clone, Copy, Debug, PartialEq, Eq, Structural)]
pub struct Rect {
    pub x: i64,
    pub y: i64,
    pub width: i64,
    pub height: i64,
}

impl Rect {
    /// Builds the rectangle from its corner coordinates and extent.
    pub fn new(x: i64, y: i64, width: i64, height: i64) -> (r: Rect)
        ensures
            r == (Rect { x, y, width, height }),
    {
        Rect { x, y, width, height }
    }

    /// Hit test against this rectangle's band: the x coordinate is
    /// checked against the left edge and the y coordinate against the
    /// horizontal and vertical extent.
    pub fn contains(&self, p: Point) -> (r: bool)
        requires
            i64::MIN <= self.x + self.width <= i64::MAX,
            i64::MIN <= self.y + self.height <= i64::MAX,
        ensures
            r == (p.x >= self.x && p.y <= self.x + self.width && p.y >= self.y && p.y <= self.y
                + self.height),
    {
        p.x >= self.x && p.y <= self.x + self.width && p.y >= self.y && p.y <= self.y + self.height
    }
}

} // verus!
