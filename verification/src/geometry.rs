//! Points, quadrilaterals and the collinearity test behind degeneracy checks.

use vstd::prelude::*;

verus! {

/// Largest magnitude an image-plane coordinate may have. Keeps every product
/// that the perspective solve forms comfortably inside `i128`.
pub const MAX_COORD: i64 = 1_000_000;

/// A point of the image plane, in pixels of the image it was detected
/// against. Coordinates are whole pixels.
#[derive(Clone, Copy, PartialEq, Eq, Structural, Debug)]
pub struct Point2D {
    pub x: i64,
    pub y: i64,
}

impl Point2D {
    /// Coordinates small enough for the rectifier's exact arithmetic.
    pub open spec fn wf(self) -> bool {
        &&& -MAX_COORD <= self.x <= MAX_COORD
        &&& -MAX_COORD <= self.y <= MAX_COORD
    }
}

/// Decides `Point2D::wf`, so that unverified callers can gate their input.
pub fn point_in_range(p: &Point2D) -> (b: bool)
    ensures
        b == p.wf(),
{
    -MAX_COORD <= p.x && p.x <= MAX_COORD && -MAX_COORD <= p.y && p.y <= MAX_COORD
}

/// Twice the signed area of the triangle `a b c`; zero exactly when the
/// three points are collinear (or coincide).
pub open spec fn spec_cross(a: Point2D, b: Point2D, c: Point2D) -> int {
    (b.x - a.x) * (c.y - a.y) - (b.y - a.y) * (c.x - a.x)
}

pub open spec fn collinear(a: Point2D, b: Point2D, c: Point2D) -> bool {
    spec_cross(a, b, c) == 0
}

/// The four physical corners in the fixed order top-left, top-right,
/// bottom-right, bottom-left. Construction is all-or-nothing: a value of
/// this type always carries all four points.
#[derive(Clone, Copy, PartialEq, Eq, Structural, Debug)]
pub struct OrderedQuad {
    pub tl: Point2D,
    pub tr: Point2D,
    pub br: Point2D,
    pub bl: Point2D,
}

impl OrderedQuad {
    pub open spec fn wf(self) -> bool {
        &&& self.tl.wf()
        &&& self.tr.wf()
        &&& self.br.wf()
        &&& self.bl.wf()
    }

    /// A quadrilateral on which the four-point perspective solve is
    /// singular: some three of its corners are collinear (which includes
    /// coinciding corners and zero-area quadrilaterals).
    pub open spec fn is_degenerate(self) -> bool {
        ||| collinear(self.br, self.tr, self.bl)
        ||| collinear(self.tl, self.tr, self.br)
        ||| collinear(self.tl, self.tr, self.bl)
        ||| collinear(self.tl, self.br, self.bl)
    }
}

/// Both bounds on a product, from bounds on its factors.
pub proof fn lemma_mul_bounds(a: int, b: int, m: int, n: int)
    requires
        -m <= a <= m,
        -n <= b <= n,
        0 <= m,
        0 <= n,
    ensures
        -(m * n) <= a * b <= m * n,
{
    assert(-(m * n) <= a * b <= m * n) by (nonlinear_arith)
        requires
            -m <= a <= m,
            -n <= b <= n,
            0 <= m,
            0 <= n,
    ;
}

/// The cross product of three well-formed points, exactly.
pub fn cross(a: Point2D, b: Point2D, c: Point2D) -> (r: i64)
    requires
        a.wf(),
        b.wf(),
        c.wf(),
    ensures
        r == spec_cross(a, b, c),
{
    let ux: i64 = b.x - a.x;
    let uy: i64 = b.y - a.y;
    let vx: i64 = c.x - a.x;
    let vy: i64 = c.y - a.y;
    proof {
        lemma_mul_bounds(ux as int, vy as int, 2_000_000, 2_000_000);
        lemma_mul_bounds(uy as int, vx as int, 2_000_000, 2_000_000);
    }
    ux * vy - uy * vx
}

/// Decides degeneracy of a quadrilateral, exactly as `is_degenerate` says.
pub fn is_degenerate_quad(q: &OrderedQuad) -> (r: bool)
    requires
        q.wf(),
    ensures
        r == q.is_degenerate(),
{
    cross(q.br, q.tr, q.bl) == 0 || cross(q.tl, q.tr, q.br) == 0 || cross(q.tl, q.tr, q.bl) == 0
        || cross(q.tl, q.br, q.bl) == 0
}

} // verus!
