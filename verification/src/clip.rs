//! Frustum clipping of triangles in homogeneous camera space.
//!
//! A clip-space vertex is an integer homogeneous 4-vector with positive
//! `w`; scaling all four components by the same positive factor leaves
//! the represented point unchanged, which lets every clip be computed
//! exactly: the vertex where an edge crosses a plane is an integer
//! combination of the edge's endpoints and lies on the plane with
//! signed distance exactly zero.
//!
//! A plane is a linear form `g(v) = a*x + b*y + c*z - d*w`; a vertex is
//! in front of the plane when `g(v) >= 0`, so a vertex exactly on the
//! plane counts as in front and ties always keep geometry.

use vstd::prelude::*;
use crate::fx::FP;
use crate::fx::rdiv;
use crate::fx::tdiv;
use crate::fx::rdiv_i128;
use crate::fx::tdiv_i128;
use crate::fx::mul_i128;
use crate::raster::Color;

verus! {

/// Largest coordinate magnitude of a clip-space vertex accepted by the
/// clipping step (vertices are normalized back under this bound between
/// planes).
pub const CLIP_IN_MAX: i128 = 0x1_0000_0000;

/// Largest coordinate magnitude a single clipping step can produce.
pub const CLIP_OUT_MAX: i128 = 0x2000_0000_0000_0000_0000_0000;

/// Largest plane coefficient magnitude.
pub const PLANE_MAX: i64 = 0x20_0000;

/// An integer homogeneous vertex in camera space.
#[derive(Clone, Copy, PartialEq, Eq, Structural, Debug)]
pub struct HVec {
    pub x: i128,
    pub y: i128,
    pub z: i128,
    pub w: i128,
}

/// A clip plane: the linear form `a*x + b*y + c*z - d*w` over
/// homogeneous vertices; nonnegative values are in front.
#[derive(Clone, Copy, PartialEq, Eq, Structural, Debug)]
pub struct Plane {
    pub a: i64,
    pub b: i64,
    pub c: i64,
    pub d: i64,
}

/// A triangle of homogeneous vertices with a flat color.
#[derive(Clone, Copy, PartialEq, Eq, Structural, Debug)]
pub struct ClipTriangle {
    pub a: HVec,
    pub b: HVec,
    pub c: HVec,
    pub color: Color,
}

/// The signed value of the plane's linear form at `v` (proportional to
/// the signed distance from the plane times `v.w`).
pub open spec fn plane_g(p: Plane, v: HVec) -> int {
    p.a * v.x + p.b * v.y + p.c * v.z - p.d * v.w
}

/// Whether `v` is in front of the plane (on the plane counts as in
/// front).
pub open spec fn in_front(p: Plane, v: HVec) -> bool {
    plane_g(p, v) >= 0
}

/// Whether a vertex is within the accepted coordinate range for one
/// clipping step, with a positive homogeneous component.
pub open spec fn hvec_ok(v: HVec) -> bool {
    &&& -CLIP_IN_MAX <= v.x <= CLIP_IN_MAX
    &&& -CLIP_IN_MAX <= v.y <= CLIP_IN_MAX
    &&& -CLIP_IN_MAX <= v.z <= CLIP_IN_MAX
    &&& 0 < v.w <= CLIP_IN_MAX
}

/// Whether a vertex is within the (larger) range a clipping step can
/// produce, with a positive homogeneous component.
pub open spec fn hvec_out_ok(v: HVec) -> bool {
    &&& -CLIP_OUT_MAX <= v.x <= CLIP_OUT_MAX
    &&& -CLIP_OUT_MAX <= v.y <= CLIP_OUT_MAX
    &&& -CLIP_OUT_MAX <= v.z <= CLIP_OUT_MAX
    &&& 0 < v.w <= CLIP_OUT_MAX
}

/// Whether all of a triangle's vertices satisfy `hvec_ok`.
pub open spec fn tri_ok(t: ClipTriangle) -> bool {
    hvec_ok(t.a) && hvec_ok(t.b) && hvec_ok(t.c)
}

/// Whether all of a triangle's vertices satisfy `hvec_out_ok`.
pub open spec fn tri_out_ok(t: ClipTriangle) -> bool {
    hvec_out_ok(t.a) && hvec_out_ok(t.b) && hvec_out_ok(t.c)
}

/// Whether a plane's coefficients are within range.
pub open spec fn plane_ok(p: Plane) -> bool {
    &&& -PLANE_MAX <= p.a <= PLANE_MAX
    &&& -PLANE_MAX <= p.b <= PLANE_MAX
    &&& -PLANE_MAX <= p.c <= PLANE_MAX
    &&& -PLANE_MAX <= p.d <= PLANE_MAX
}

/// The exact crossing vertex of the edge from a front vertex `f`
/// (`gf = g(f) >= 0`) to a back vertex `b` (`gb = g(b) < 0`): the
/// positive combination `gf * b - gb * f`, which lies exactly on the
/// plane and keeps `w` positive.
pub open spec fn clip_mid(gf: int, gb: int, f: HVec, b: HVec) -> HVec {
    HVec {
        x: (gf * b.x - gb * f.x) as i128,
        y: (gf * b.y - gb * f.y) as i128,
        z: (gf * b.z - gb * f.z) as i128,
        w: (gf * b.w - gb * f.w) as i128,
    }
}

/// Bound on `g` over in-range vertices and planes.
pub proof fn lemma_plane_g_bound(p: Plane, v: HVec)
    requires
        plane_ok(p),
        hvec_ok(v),
    ensures
        -0x80_0000_0000_0000 <= plane_g(p, v) <= 0x80_0000_0000_0000,
{
    crate::matrix::lemma_abs_prod_le(p.a as int, v.x as int, PLANE_MAX as int, CLIP_IN_MAX as int);
    crate::matrix::lemma_abs_prod_le(p.b as int, v.y as int, PLANE_MAX as int, CLIP_IN_MAX as int);
    crate::matrix::lemma_abs_prod_le(p.c as int, v.z as int, PLANE_MAX as int, CLIP_IN_MAX as int);
    crate::matrix::lemma_abs_prod_le(p.d as int, v.w as int, PLANE_MAX as int, CLIP_IN_MAX as int);
}

/// One coordinate of the crossing vertex is bounded, and multiplying it
/// by a plane coefficient distributes over the combination.
proof fn lemma_mid_coord(gf: int, gb: int, fc: int, bc: int, pc: int)
    requires
        -0x80_0000_0000_0000 <= gf <= 0x80_0000_0000_0000,
        -0x80_0000_0000_0000 <= gb <= 0x80_0000_0000_0000,
        -CLIP_IN_MAX <= fc <= CLIP_IN_MAX,
        -CLIP_IN_MAX <= bc <= CLIP_IN_MAX,
    ensures
        -CLIP_OUT_MAX <= gf * bc - gb * fc <= CLIP_OUT_MAX,
        pc * (gf * bc - gb * fc) == gf * (pc * bc) - gb * (pc * fc),
{
    crate::matrix::lemma_abs_prod_le(gf, bc, 0x80_0000_0000_0000, CLIP_IN_MAX as int);
    crate::matrix::lemma_abs_prod_le(gb, fc, 0x80_0000_0000_0000, CLIP_IN_MAX as int);
    assert(pc * (gf * bc - gb * fc) == gf * (pc * bc) - gb * (pc * fc)) by (nonlinear_arith);
}

/// The crossing vertex is in the output range, has positive `w`, and
/// lies exactly on the plane.
pub proof fn lemma_clip_mid(p: Plane, f: HVec, b: HVec)
    requires
        plane_ok(p),
        hvec_ok(f),
        hvec_ok(b),
        plane_g(p, f) >= 0,
        plane_g(p, b) < 0,
    ensures
        hvec_out_ok(clip_mid(plane_g(p, f), plane_g(p, b), f, b)),
        plane_g(p, clip_mid(plane_g(p, f), plane_g(p, b), f, b)) == 0,
{
    let gf = plane_g(p, f);
    let gb = plane_g(p, b);
    lemma_plane_g_bound(p, f);
    lemma_plane_g_bound(p, b);
    lemma_mid_coord(gf, gb, f.x as int, b.x as int, p.a as int);
    lemma_mid_coord(gf, gb, f.y as int, b.y as int, p.b as int);
    lemma_mid_coord(gf, gb, f.z as int, b.z as int, p.c as int);
    lemma_mid_coord(gf, gb, f.w as int, b.w as int, p.d as int);
    let mx = gf * b.x - gb * f.x;
    let my = gf * b.y - gb * f.y;
    let mz = gf * b.z - gb * f.z;
    let mw = gf * b.w - gb * f.w;
    assert(mw > 0) by (nonlinear_arith)
        requires
            mw == gf * b.w - gb * f.w,
            gf >= 0,
            gb < 0,
            b.w > 0,
            f.w > 0,
    ;
    let m = clip_mid(gf, gb, f, b);
    assert(m.x == mx && m.y == my && m.z == mz && m.w == mw);
    // Expand g at the crossing vertex: the per-coordinate products
    // regroup into gf * g(b) - gb * g(f).
    let qb0 = p.a * b.x;
    let qb1 = p.b * b.y;
    let qb2 = p.c * b.z;
    let qb3 = p.d * b.w;
    let qf0 = p.a * f.x;
    let qf1 = p.b * f.y;
    let qf2 = p.c * f.z;
    let qf3 = p.d * f.w;
    assert(gf * qb0 + gf * qb1 + gf * qb2 - gf * qb3 == gf * (qb0 + qb1 + qb2 - qb3))
        by (nonlinear_arith);
    assert(gb * qf0 + gb * qf1 + gb * qf2 - gb * qf3 == gb * (qf0 + qf1 + qf2 - qf3))
        by (nonlinear_arith);
    assert(gf * (qb0 + qb1 + qb2 - qb3) == gf * gb && gb * (qf0 + qf1 + qf2 - qf3) == gb * gf)
        by (nonlinear_arith)
        requires
            gb == qb0 + qb1 + qb2 - qb3,
            gf == qf0 + qf1 + qf2 - qf3,
    ;
    assert(gf * gb - gb * gf == 0) by (nonlinear_arith);
    assert(plane_g(p, m) == p.a * mx + p.b * my + p.c * mz - p.d * mw);
}

/// The clipped form of one triangle against one plane: kept unchanged,
/// discarded, or split, according to how many vertices are in front.
pub open spec fn clip_spec(t: ClipTriangle, p: Plane) -> Seq<ClipTriangle> {
    let f1 = in_front(p, t.a);
    let f2 = in_front(p, t.b);
    let f3 = in_front(p, t.c);
    let count = (if f1 { 1int } else { 0int }) + (if f2 { 1int } else { 0int })
        + (if f3 { 1int } else { 0int });
    if count == 0 {
        Seq::empty()
    } else if count == 3 {
        seq![t]
    } else if count == 1 {
        let front = if f1 { t.a } else if f2 { t.b } else { t.c };
        let back1 = if f1 { t.b } else if f2 { t.c } else { t.a };
        let back2 = if f1 { t.c } else if f2 { t.a } else { t.b };
        let mid1 = clip_mid(plane_g(p, front), plane_g(p, back1), front, back1);
        let mid2 = clip_mid(plane_g(p, front), plane_g(p, back2), front, back2);
        seq![ClipTriangle { a: front, b: mid1, c: mid2, color: t.color }]
    } else {
        let back = if !f1 { t.a } else if !f2 { t.b } else { t.c };
        let front1 = if !f1 { t.b } else if !f2 { t.c } else { t.a };
        let front2 = if !f1 { t.c } else if !f2 { t.a } else { t.b };
        let mid1 = clip_mid(plane_g(p, front1), plane_g(p, back), front1, back);
        let mid2 = clip_mid(plane_g(p, front2), plane_g(p, back), front2, back);
        seq![
            ClipTriangle { a: mid1, b: front1, c: mid2, color: t.color },
            ClipTriangle { a: front1, b: front2, c: mid2, color: t.color },
        ]
    }
}

/// The number of vertices of `t` in front of `p`.
pub open spec fn front_count(t: ClipTriangle, p: Plane) -> int {
    (if in_front(p, t.a) { 1int } else { 0int })
    + (if in_front(p, t.b) { 1int } else { 0int })
    + (if in_front(p, t.c) { 1int } else { 0int })
}

/// The signed value of the plane's form at `v`, executable form.
pub fn plane_dist(p: &Plane, v: &HVec) -> (r: i128)
    requires
        plane_ok(*p),
        hvec_ok(*v),
    ensures
        r == plane_g(*p, *v),
        -0x80_0000_0000_0000 <= r <= 0x80_0000_0000_0000,
{
    proof {
        lemma_plane_g_bound(*p, *v);
    }
    mul_i128(p.a as i128, v.x) + mul_i128(p.b as i128, v.y) + mul_i128(p.c as i128, v.z)
        - mul_i128(p.d as i128, v.w)
}

/// The exact crossing vertex of the edge from front vertex `f` to back
/// vertex `b`, executable form.
fn intersect(gf: i128, gb: i128, f: &HVec, b: &HVec) -> (r: HVec)
    requires
        -0x80_0000_0000_0000 <= gf <= 0x80_0000_0000_0000,
        -0x80_0000_0000_0000 <= gb <= 0x80_0000_0000_0000,
        hvec_ok(*f),
        hvec_ok(*b),
    ensures
        r == clip_mid(gf as int, gb as int, *f, *b),
{
    HVec {
        x: mul_i128(gf, b.x) - mul_i128(gb, f.x),
        y: mul_i128(gf, b.y) - mul_i128(gb, f.y),
        z: mul_i128(gf, b.z) - mul_i128(gb, f.z),
        w: mul_i128(gf, b.w) - mul_i128(gb, f.w),
    }
}

/// Clips one triangle against one plane.
///
/// - All three vertices in front: the triangle is returned unchanged,
///   vertex order and color preserved.
/// - No vertex in front: the triangle is discarded.
/// - One vertex in front: one triangle is returned; its first vertex is
///   the front vertex, unchanged, and its two new vertices lie exactly
///   on the plane.
/// - Two vertices in front: two triangles covering the clipped
///   quadrilateral are returned; the front vertices are unchanged and
///   the two new vertices lie exactly on the plane.
pub fn clip_triangle_against_plane(t: &ClipTriangle, p: &Plane) -> (r: Vec<ClipTriangle>)
    requires
        tri_ok(*t),
        plane_ok(*p),
    ensures
        r@ == clip_spec(*t, *p),
        forall|i: int| 0 <= i < r@.len() ==> tri_out_ok(#[trigger] r@[i])
            && r@[i].color == t.color,
        front_count(*t, *p) == 3 ==> r@ == seq![*t],
        front_count(*t, *p) == 0 ==> r@.len() == 0,
        front_count(*t, *p) == 1 ==> {
            &&& r@.len() == 1
            &&& (r@[0].a == t.a || r@[0].a == t.b || r@[0].a == t.c)
            &&& in_front(*p, r@[0].a)
            &&& plane_g(*p, r@[0].b) == 0
            &&& plane_g(*p, r@[0].c) == 0
        },
        front_count(*t, *p) == 2 ==> {
            &&& r@.len() == 2
            &&& plane_g(*p, r@[0].a) == 0
            &&& plane_g(*p, r@[0].c) == 0
            &&& r@[1].c == r@[0].c
            &&& r@[1].a == r@[0].b
            &&& (r@[0].b == t.a || r@[0].b == t.b || r@[0].b == t.c)
            &&& (r@[1].b == t.a || r@[1].b == t.b || r@[1].b == t.c)
            &&& in_front(*p, r@[0].b)
            &&& in_front(*p, r@[1].b)
        },
{
    let g1 = plane_dist(p, &t.a);
    let g2 = plane_dist(p, &t.b);
    let g3 = plane_dist(p, &t.c);
    let f1 = g1 >= 0;
    let f2 = g2 >= 0;
    let f3 = g3 >= 0;
    let count: u32 = (if f1 { 1 } else { 0 }) + (if f2 { 1 } else { 0 })
        + (if f3 { 1 } else { 0 });
    let mut out: Vec<ClipTriangle> = Vec::new();
    if count == 0 {
        // Every vertex behind the plane: discard the triangle.
    } else if count == 3 {
        // Every vertex in front: keep the triangle unchanged.
        out.push(*t);
        proof {
            assert(out@ =~= clip_spec(*t, *p));
        }
    } else if count == 1 {
        // One vertex in front: keep it and cut both edges to the back
        // vertices, producing a single smaller triangle.
        let (front, back1, back2, gfront, gback1, gback2) = if f1 {
            (t.a, t.b, t.c, g1, g2, g3)
        } else if f2 {
            (t.b, t.c, t.a, g2, g3, g1)
        } else {
            (t.c, t.a, t.b, g3, g1, g2)
        };
        let mid1 = intersect(gfront, gback1, &front, &back1);
        let mid2 = intersect(gfront, gback2, &front, &back2);
        out.push(ClipTriangle { a: front, b: mid1, c: mid2, color: t.color });
        proof {
            lemma_clip_mid(*p, front, back1);
            lemma_clip_mid(*p, front, back2);
            assert(out@ =~= clip_spec(*t, *p));
        }
    } else {
        // Two vertices in front: cut both edges to the single back
        // vertex and cover the remaining quadrilateral with two
        // triangles.
        let (back, front1, front2, gback, gfront1, gfront2) = if !f1 {
            (t.a, t.b, t.c, g1, g2, g3)
        } else if !f2 {
            (t.b, t.c, t.a, g2, g3, g1)
        } else {
            (t.c, t.a, t.b, g3, g1, g2)
        };
        let mid1 = intersect(gfront1, gback, &front1, &back);
        let mid2 = intersect(gfront2, gback, &front2, &back);
        out.push(ClipTriangle { a: mid1, b: front1, c: mid2, color: t.color });
        out.push(ClipTriangle { a: front1, b: front2, c: mid2, color: t.color });
        proof {
            lemma_clip_mid(*p, front1, back);
            lemma_clip_mid(*p, front2, back);
            assert(out@ =~= clip_spec(*t, *p));
        }
    }
    out
}

/// Magnitude of one coordinate.
pub open spec fn habs(a: int) -> int {
    if a >= 0 {
        a
    } else {
        -a
    }
}

/// The largest coordinate magnitude of a vertex.
pub open spec fn hmax(v: HVec) -> int {
    let m1 = if habs(v.x as int) >= habs(v.y as int) { habs(v.x as int) } else { habs(v.y as int) };
    let m2 = if habs(v.z as int) >= habs(v.w as int) { habs(v.z as int) } else { habs(v.w as int) };
    if m1 >= m2 {
        m1
    } else {
        m2
    }
}

/// All four coordinates halved with rounding; the represented projective
/// point moves by at most half a unit per coordinate.
pub open spec fn halve_spec(v: HVec) -> HVec {
    HVec {
        x: rdiv(v.x as int, 2) as i128,
        y: rdiv(v.y as int, 2) as i128,
        z: rdiv(v.z as int, 2) as i128,
        w: rdiv(v.w as int, 2) as i128,
    }
}

/// Halving with rounding keeps positivity, never increases magnitude,
/// and strictly shrinks values of magnitude at least two.
pub proof fn lemma_halve(a: int)
    ensures
        habs(rdiv(a, 2)) <= habs(a),
        habs(a) >= 2 ==> habs(rdiv(a, 2)) < habs(a),
        a >= 1 ==> rdiv(a, 2) >= 1,
{
    // The divisor is the constant 2, so the rounded quotient
    // (2a + 2) / 4 (or its mirror image for negative a) is linear.
    if a >= 0 {
        assert(rdiv(a, 2) == (2 * a + 2) / 4);
    } else {
        assert(rdiv(a, 2) == -((2 * -a + 2) / 4));
    }
}

/// A vertex scaled down by successive halvings until every coordinate is
/// within `CLIP_IN_MAX`; the homogeneous component stays positive, so the
/// result stands for (nearly) the same projective point.
pub open spec fn normalize_spec(v: HVec) -> HVec
    decreases hmax(v) when hmax(v) >= 0
{
    if -CLIP_IN_MAX <= v.x <= CLIP_IN_MAX && -CLIP_IN_MAX <= v.y <= CLIP_IN_MAX
        && -CLIP_IN_MAX <= v.z <= CLIP_IN_MAX && -CLIP_IN_MAX <= v.w <= CLIP_IN_MAX {
        v
    } else {
        normalize_spec(halve_spec(v))
    }
}

/// The decrease argument for `normalize_spec`: halving strictly shrinks
/// the largest coordinate once it exceeds `CLIP_IN_MAX`.
pub proof fn lemma_halve_shrinks(v: HVec)
    requires
        hmax(v) > CLIP_IN_MAX,
    ensures
        hmax(halve_spec(v)) < hmax(v),
        hmax(halve_spec(v)) >= 0,
{
    lemma_halve(v.x as int);
    lemma_halve(v.y as int);
    lemma_halve(v.z as int);
    lemma_halve(v.w as int);
}

/// Executable halving.
fn halve_hvec(v: &HVec) -> (r: HVec)
    requires
        -CLIP_OUT_MAX <= v.x <= CLIP_OUT_MAX,
        -CLIP_OUT_MAX <= v.y <= CLIP_OUT_MAX,
        -CLIP_OUT_MAX <= v.z <= CLIP_OUT_MAX,
        -CLIP_OUT_MAX <= v.w <= CLIP_OUT_MAX,
    ensures
        r == halve_spec(*v),
{
    HVec {
        x: rdiv_i128(v.x, 2),
        y: rdiv_i128(v.y, 2),
        z: rdiv_i128(v.z, 2),
        w: rdiv_i128(v.w, 2),
    }
}

/// Scales a vertex down by halvings until every coordinate is within
/// `CLIP_IN_MAX`, keeping the homogeneous component positive.
pub fn normalize_hvec(v: &HVec) -> (r: HVec)
    requires
        -CLIP_OUT_MAX <= v.x <= CLIP_OUT_MAX,
        -CLIP_OUT_MAX <= v.y <= CLIP_OUT_MAX,
        -CLIP_OUT_MAX <= v.z <= CLIP_OUT_MAX,
        0 < v.w <= CLIP_OUT_MAX,
    ensures
        r == normalize_spec(*v),
        hvec_ok(r),
{
    let mut cur: HVec = *v;
    while cur.x > CLIP_IN_MAX || cur.x < -CLIP_IN_MAX
        || cur.y > CLIP_IN_MAX || cur.y < -CLIP_IN_MAX
        || cur.z > CLIP_IN_MAX || cur.z < -CLIP_IN_MAX
        || cur.w > CLIP_IN_MAX || cur.w < -CLIP_IN_MAX
        invariant
            -CLIP_OUT_MAX <= cur.x <= CLIP_OUT_MAX,
            -CLIP_OUT_MAX <= cur.y <= CLIP_OUT_MAX,
            -CLIP_OUT_MAX <= cur.z <= CLIP_OUT_MAX,
            0 < cur.w <= CLIP_OUT_MAX,
            normalize_spec(cur) == normalize_spec(*v),
        decreases hmax(cur),
    {
        proof {
            lemma_halve_shrinks(cur);
            lemma_halve(cur.w as int);
            lemma_halve(cur.x as int);
            lemma_halve(cur.y as int);
            lemma_halve(cur.z as int);
        }
        cur = halve_hvec(&cur);
    }
    cur
}

/// Largest viewport dimension or projection distance (fixed point).
pub const VIEW_MAX: i64 = 0x10_0000;

/// Largest canvas dimension in pixels.
pub const CANVAS_DIM_MAX: i64 = 0x1_0000;

/// Whether viewport data is within range: fixed-point viewport width,
/// height and projection distance, and canvas width and height in
/// pixels, all positive.
pub open spec fn viewport_ok(v_w: i64, v_h: i64, d: i64, c_w: i64, c_h: i64) -> bool {
    &&& 1 <= v_w <= VIEW_MAX
    &&& 1 <= v_h <= VIEW_MAX
    &&& 1 <= d <= VIEW_MAX
    &&& 1 <= c_w <= CANVAS_DIM_MAX
    &&& 1 <= c_h <= CANVAS_DIM_MAX
}

/// A canvas coordinate saturated into the accepted range.
pub open spec fn clamp_canvas(a: int) -> int {
    if a > crate::raster::CANVAS_MAX {
        crate::raster::CANVAS_MAX as int
    } else if a < -crate::raster::CANVAS_MAX {
        -crate::raster::CANVAS_MAX as int
    } else {
        a
    }
}

/// The canvas point of a normalized clip-space vertex: perspective
/// division of `x` and `y` by `z`, scaled by the projection distance and
/// the canvas/viewport ratio and truncated toward zero (saturating at
/// the canvas range), together with the fixed-point depth `z / w`.
/// A vertex at or behind the eye plane maps to the degenerate triple
/// `(0, 0, 0)`, which the renderer discards.
pub open spec fn canvas_pt_spec(v_w: i64, v_h: i64, d: i64, c_w: i64, c_h: i64, v: HVec)
    -> (int, int, int) {
    if v.z > 0 {
        (
            clamp_canvas(tdiv(v.x * d * c_w, v.z * v_w)),
            clamp_canvas(tdiv(v.y * d * c_h, v.z * v_h)),
            rdiv(FP as int * v.z, v.w as int),
        )
    } else {
        (0, 0, 0)
    }
}

/// One saturated truncating division for a canvas coordinate.
pub(crate) fn canvas_div(num: i128, den: i128) -> (r: i64)
    requires
        den > 0,
        -0x1_0000_0000_0000_0000_0000 <= num <= 0x1_0000_0000_0000_0000_0000,
        den <= 0x1_0000_0000_0000_0000_0000,
    ensures
        r == clamp_canvas(tdiv(num as int, den as int)),
{
    let q: i128 = tdiv_i128(num, den);
    if q > crate::raster::CANVAS_MAX as i128 {
        crate::raster::CANVAS_MAX
    } else if q < -(crate::raster::CANVAS_MAX as i128) {
        -crate::raster::CANVAS_MAX
    } else {
        q as i64
    }
}

/// Projects a normalized clip-space vertex to canvas coordinates and a
/// fixed-point depth, executable form.
pub fn canvas_pt(v_w: i64, v_h: i64, d: i64, c_w: i64, c_h: i64, v: &HVec) -> (r: (i64, i64, i64))
    requires
        viewport_ok(v_w, v_h, d, c_w, c_h),
        hvec_ok(*v),
    ensures
        ({
            let s = canvas_pt_spec(v_w, v_h, d, c_w, c_h, *v);
            r.0 == s.0 && r.1 == s.1 && r.2 == s.2
        }),
        -crate::raster::CANVAS_MAX <= r.0 <= crate::raster::CANVAS_MAX,
        -crate::raster::CANVAS_MAX <= r.1 <= crate::raster::CANVAS_MAX,
        0 <= r.2 <= crate::raster::DEPTH_MAX,
{
    if v.z > 0 {
        let xd: i128 = mul_i128(v.x, d as i128);
        let yd: i128 = mul_i128(v.y, d as i128);
        proof {
            crate::matrix::lemma_abs_prod_le(v.x as int, d as int, CLIP_IN_MAX as int,
                VIEW_MAX as int);
            crate::matrix::lemma_abs_prod_le(v.y as int, d as int, CLIP_IN_MAX as int,
                VIEW_MAX as int);
        }
        let numx: i128 = mul_i128(xd, c_w as i128);
        let numy: i128 = mul_i128(yd, c_h as i128);
        let denx: i128 = mul_i128(v.z, v_w as i128);
        let deny: i128 = mul_i128(v.z, v_h as i128);
        proof {
            assert(denx > 0 && deny > 0) by (nonlinear_arith)
                requires
                    denx == v.z * v_w,
                    deny == v.z * v_h,
                    v.z > 0,
                    v_w >= 1,
                    v_h >= 1,
            ;
            lemma_canvas_num_bound(v.x as int, d as int, c_w as int, numx as int);
            lemma_canvas_num_bound(v.y as int, d as int, c_h as int, numy as int);
            crate::matrix::lemma_abs_prod_le(v.z as int, v_w as int, CLIP_IN_MAX as int,
                VIEW_MAX as int);
            crate::matrix::lemma_abs_prod_le(v.z as int, v_h as int, CLIP_IN_MAX as int,
                VIEW_MAX as int);
        }
        let x: i64 = canvas_div(numx, denx);
        let y: i64 = canvas_div(numy, deny);
        let zf: i128 = mul_i128(FP as i128, v.z);
        proof {
            assert(FP as int * v.z <= crate::raster::DEPTH_MAX * v.w) by (nonlinear_arith)
                requires
                    0 < v.z <= CLIP_IN_MAX,
                    0 < v.w,
                    FP == 65536,
                    CLIP_IN_MAX == 0x1_0000_0000,
                    crate::raster::DEPTH_MAX == 0x1_0000_0000_0000,
            ;
            assert(FP as int * v.z >= 0) by (nonlinear_arith)
                requires
                    v.z > 0,
                    FP == 65536,
            ;
            crate::fx::lemma_rdiv_bound(FP as int * v.z, v.w as int, crate::raster::DEPTH_MAX as int);
            crate::fx::lemma_rdiv_mono(0, FP as int * v.z, v.w as int);
            crate::fx::lemma_rdiv_exact(0, v.w as int);
        }
        let z: i128 = rdiv_i128(zf, v.w);
        (x, y, z as i64)
    } else {
        (0, 0, 0)
    }
}

/// Bound on a canvas numerator `x * d * c`.
proof fn lemma_canvas_num_bound(x: int, d: int, c: int, num: int)
    requires
        -CLIP_IN_MAX <= x <= CLIP_IN_MAX,
        0 <= d <= VIEW_MAX,
        0 <= c <= CANVAS_DIM_MAX,
        num == x * d * c,
    ensures
        -0x1_0000_0000_0000_0000_0000 <= num <= 0x1_0000_0000_0000_0000_0000,
{
    assert(-0x1_0000_0000_0000_0000_0000 <= x * d * c <= 0x1_0000_0000_0000_0000_0000)
        by (nonlinear_arith)
        requires
            -CLIP_IN_MAX <= x <= CLIP_IN_MAX,
            0 <= d <= VIEW_MAX,
            0 <= c <= CANVAS_DIM_MAX,
            CLIP_IN_MAX == 0x1_0000_0000,
            VIEW_MAX == 0x10_0000,
            CANVAS_DIM_MAX == 0x1_0000,
    ;
}

/// The five clip planes for a viewport: the near plane at the projection
/// distance, then the left/right and bottom/top side planes through the
/// eye, in that order.
pub open spec fn frustum_planes_spec(v_w: i64, v_h: i64, d: i64) -> Seq<Plane> {
    seq![
        Plane { a: 0, b: 0, c: FP, d: d },
        Plane { a: (2 * d) as i64, b: 0, c: v_w, d: 0 },
        Plane { a: (-2 * d) as i64, b: 0, c: v_w, d: 0 },
        Plane { a: 0, b: (2 * d) as i64, c: v_h, d: 0 },
        Plane { a: 0, b: (-2 * d) as i64, c: v_h, d: 0 },
    ]
}

/// Builds the five frustum clip planes for a viewport.
pub fn frustum_planes(v_w: i64, v_h: i64, d: i64) -> (r: Vec<Plane>)
    requires
        1 <= v_w <= VIEW_MAX,
        1 <= v_h <= VIEW_MAX,
        1 <= d <= VIEW_MAX,
    ensures
        r@ == frustum_planes_spec(v_w, v_h, d),
        r@.len() == 5,
        forall|i: int| 0 <= i < r@.len() ==> plane_ok(#[trigger] r@[i]),
{
    let d2: i64 = 2 * d;
    let mut out: Vec<Plane> = Vec::new();
    out.push(Plane { a: 0, b: 0, c: FP, d });
    out.push(Plane { a: d2, b: 0, c: v_w, d: 0 });
    out.push(Plane { a: -d2, b: 0, c: v_w, d: 0 });
    out.push(Plane { a: 0, b: d2, c: v_h, d: 0 });
    out.push(Plane { a: 0, b: -d2, c: v_h, d: 0 });
    proof {
        assert(out@ =~= frustum_planes_spec(v_w, v_h, d));
    }
    out
}

} // verus!
