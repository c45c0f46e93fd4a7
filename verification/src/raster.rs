//! 2D primitive rasterization: lines and filled, shaded and depth-tested
//! triangles.
//!
//! Each routine returns the exact sequence of pixel writes it produces, in
//! emission order; the compositor applies such sequences to a framebuffer.
//! Canvas coordinates are plain integers centred on the canvas origin;
//! colors and shading weights are fixed-point scalars.

use vstd::prelude::*;
use crate::fx::FP;
use crate::fx::fx_mul;
use crate::fx::fx_inv;
use crate::fx::mul_fx;
use crate::fx::inv_fx;
use crate::interp::INTERP_VAL_MAX;
use crate::interp::lerp_at;
use crate::interp::slope_lt;
use crate::interp::interpolate_at;
use crate::interp::lemma_lerp_between;
use crate::interp::Interp;

verus! {

/// Largest canvas coordinate magnitude the rasterizers accept.
pub const CANVAS_MAX: i64 = 0x80_0000;

/// Largest fixed-point color channel magnitude the rasterizers accept.
pub const COLOR_MAX: i64 = 0x4000_0000;

/// Largest fixed-point shading weight magnitude the rasterizers accept.
pub const SHADE_MAX: i64 = 0x4000_0000;

/// Largest fixed-point depth magnitude the rasterizers accept.
pub const DEPTH_MAX: i64 = 0x1_0000_0000_0000;

/// An RGB color with fixed-point channels; `FP` stands for full intensity.
/// Channels above `FP` are admissible and are clamped by the compositor.
#[derive(Clone, Copy, PartialEq, Eq, Structural, Debug)]
pub struct Color {
    pub r: i64,
    pub g: i64,
    pub b: i64,
}

/// One pixel write without depth.
#[derive(Clone, Copy, PartialEq, Eq, Structural, Debug)]
pub struct Pixel {
    pub x: i64,
    pub y: i64,
    pub color: Color,
}

/// One pixel write with an inverse-depth value for compositing.
#[derive(Clone, Copy, PartialEq, Eq, Structural, Debug)]
pub struct DepthPixel {
    pub x: i64,
    pub y: i64,
    pub z_inv: i64,
    pub color: Color,
}

/// Whether a 2D point is within the accepted canvas coordinate range.
pub open spec fn pt_ok(p: (i64, i64)) -> bool {
    -CANVAS_MAX <= p.0 <= CANVAS_MAX && -CANVAS_MAX <= p.1 <= CANVAS_MAX
}

/// Whether a color is within the accepted channel range.
pub open spec fn color_ok(c: Color) -> bool {
    &&& -COLOR_MAX <= c.r <= COLOR_MAX
    &&& -COLOR_MAX <= c.g <= COLOR_MAX
    &&& -COLOR_MAX <= c.b <= COLOR_MAX
}

/// Absolute value.
pub open spec fn iabs(a: int) -> int {
    if a >= 0 {
        a
    } else {
        -a
    }
}

/// Whether the line from `p0` to `p1` iterates over `x` (strictly wider
/// than tall) rather than over `y`.
pub open spec fn line_is_wide(p0: (int, int), p1: (int, int)) -> bool {
    iabs(p1.0 - p0.0) > iabs(p1.1 - p0.1)
}

/// Number of pixels on the line from `p0` to `p1`: one per integer step
/// of the major axis, both endpoints included.
pub open spec fn line_len(p0: (int, int), p1: (int, int)) -> int {
    if line_is_wide(p0, p1) {
        iabs(p1.0 - p0.0) + 1
    } else {
        iabs(p1.1 - p0.1) + 1
    }
}

/// The `k`-th pixel of the line from `p0` to `p1`.  The endpoints are
/// ordered so that the major axis increases; the minor coordinate is the
/// rounded interpolation over the major axis.
pub open spec fn line_pixel(p0: (int, int), p1: (int, int), k: int) -> (int, int) {
    if line_is_wide(p0, p1) {
        let a = if p0.0 > p1.0 { p1 } else { p0 };
        let b = if p0.0 > p1.0 { p0 } else { p1 };
        (a.0 + k, lerp_at(a.0, a.1, b.0, b.1, a.0 + k))
    } else {
        let a = if p0.1 > p1.1 { p1 } else { p0 };
        let b = if p0.1 > p1.1 { p0 } else { p1 };
        (lerp_at(a.1, a.0, b.1, b.0, a.1 + k), a.1 + k)
    }
}

/// Draws a line between two canvas points: picks the axis with the larger
/// absolute delta as the major axis (so the line has no gaps), orders the
/// endpoints so the major axis increases, and emits one pixel per major
/// step with the minor coordinate interpolated and rounded.
pub fn draw_line(p0: (i64, i64), p1: (i64, i64), color: Color) -> (r: Vec<Pixel>)
    requires
        pt_ok(p0),
        pt_ok(p1),
    ensures
        r@.len() == line_len((p0.0 as int, p0.1 as int), (p1.0 as int, p1.1 as int)),
        forall|k: int| 0 <= k < r@.len() ==> {
            let q = line_pixel((p0.0 as int, p0.1 as int), (p1.0 as int, p1.1 as int), k);
            #[trigger] r@[k] == (Pixel { x: q.0 as i64, y: q.1 as i64, color })
        },
{
    let dx: i64 = if p1.0 >= p0.0 { p1.0 - p0.0 } else { p0.0 - p1.0 };
    let dy: i64 = if p1.1 >= p0.1 { p1.1 - p0.1 } else { p0.1 - p1.1 };
    let mut out: Vec<Pixel> = Vec::new();
    if dx > dy {
        let (a, b) = if p0.0 > p1.0 { (p1, p0) } else { (p0, p1) };
        let vals = crate::interp::interpolate(a.0, a.1, b.0, b.1);
        let mut k: usize = 0;
        while k < vals.len()
            invariant
                pt_ok(p0),
                pt_ok(p1),
                line_is_wide((p0.0 as int, p0.1 as int), (p1.0 as int, p1.1 as int)),
                a == (if p0.0 > p1.0 { p1 } else { p0 }),
                b == (if p0.0 > p1.0 { p0 } else { p1 }),
                vals@.len() == b.0 - a.0 + 1,
                forall|j: int| 0 <= j < vals@.len() ==> #[trigger] vals@[j]
                    == (((a.0 + j) as i64, lerp_at(a.0 as int, a.1 as int, b.0 as int, b.1 as int, a.0 + j) as i64)),
                k <= vals@.len(),
                out@.len() == k,
                forall|j: int| 0 <= j < out@.len() ==> {
                    let q = line_pixel((p0.0 as int, p0.1 as int), (p1.0 as int, p1.1 as int), j);
                    #[trigger] out@[j] == (Pixel { x: q.0 as i64, y: q.1 as i64, color })
                },
            decreases vals@.len() - k,
        {
            let (x, y) = vals[k];
            out.push(Pixel { x, y, color });
            k = k + 1;
        }
        out
    } else {
        let (a, b) = if p0.1 > p1.1 { (p1, p0) } else { (p0, p1) };
        let vals = crate::interp::interpolate(a.1, a.0, b.1, b.0);
        let mut k: usize = 0;
        while k < vals.len()
            invariant
                pt_ok(p0),
                pt_ok(p1),
                !line_is_wide((p0.0 as int, p0.1 as int), (p1.0 as int, p1.1 as int)),
                a == (if p0.1 > p1.1 { p1 } else { p0 }),
                b == (if p0.1 > p1.1 { p0 } else { p1 }),
                vals@.len() == b.1 - a.1 + 1,
                forall|j: int| 0 <= j < vals@.len() ==> #[trigger] vals@[j]
                    == (((a.1 + j) as i64, lerp_at(a.1 as int, a.0 as int, b.1 as int, b.0 as int, a.1 + j) as i64)),
                k <= vals@.len(),
                out@.len() == k,
                forall|j: int| 0 <= j < out@.len() ==> {
                    let q = line_pixel((p0.0 as int, p0.1 as int), (p1.0 as int, p1.1 as int), j);
                    #[trigger] out@[j] == (Pixel { x: q.0 as i64, y: q.1 as i64, color })
                },
            decreases vals@.len() - k,
        {
            let (y, x) = vals[k];
            out.push(Pixel { x, y, color });
            k = k + 1;
        }
        out
    }
}

/// Maps a point on the viewport (fixed-point coordinates) to integer
/// canvas coordinates, scaling by the canvas-to-viewport ratio,
/// truncating toward zero and saturating at the canvas range.  `v` is
/// the perspective descriptor `(viewport width, viewport height,
/// projection distance)`.
pub fn viewport_to_canvas(v: (i64, i64, i64), w: i64, h: i64, x: i64, y: i64) -> (r: (i64, i64))
    requires
        1 <= v.0 <= 0x10_0000,
        1 <= v.1 <= 0x10_0000,
        1 <= w <= 0x1_0000,
        1 <= h <= 0x1_0000,
        -0x1_0000_0000_0000 <= x <= 0x1_0000_0000_0000,
        -0x1_0000_0000_0000 <= y <= 0x1_0000_0000_0000,
    ensures
        r.0 == crate::clip::clamp_canvas(crate::fx::tdiv(x * w, v.0 as int)),
        r.1 == crate::clip::clamp_canvas(crate::fx::tdiv(y * h, v.1 as int)),
{
    proof {
        crate::matrix::lemma_abs_prod_le(x as int, w as int, 0x1_0000_0000_0000, 0x1_0000);
        crate::matrix::lemma_abs_prod_le(y as int, h as int, 0x1_0000_0000_0000, 0x1_0000);
    }
    let rx: i64 = crate::clip::canvas_div(
        crate::fx::mul_i128(x as i128, w as i128), v.0 as i128);
    let ry: i64 = crate::clip::canvas_div(
        crate::fx::mul_i128(y as i128, h as i128), v.1 as i128);
    (rx, ry)
}

/// Projects a point in space to canvas coordinates by perspective
/// division relative to a camera origin `o`: the point's offset from
/// the origin is scaled by the projection distance over its depth, then
/// scaled to the canvas, truncating toward zero and saturating at the
/// canvas range.
pub fn project_vertex(
    v: (i64, i64, i64), o: (i64, i64, i64), w: i64, h: i64, p: (i64, i64, i64),
) -> (r: (i64, i64))
    requires
        1 <= v.0 <= 0x10_0000,
        1 <= v.1 <= 0x10_0000,
        1 <= v.2 <= 0x10_0000,
        1 <= w <= 0x1_0000,
        1 <= h <= 0x1_0000,
        -0x100_0000_0000 <= p.0 <= 0x100_0000_0000 && -0x100_0000_0000 <= o.0 <= 0x100_0000_0000,
        -0x100_0000_0000 <= p.1 <= 0x100_0000_0000 && -0x100_0000_0000 <= o.1 <= 0x100_0000_0000,
        -0x100_0000_0000 <= p.2 <= 0x100_0000_0000 && -0x100_0000_0000 <= o.2 <= 0x100_0000_0000,
        p.2 > o.2,
    ensures
        r.0 == crate::clip::clamp_canvas(
            crate::fx::tdiv((p.0 - o.0) * v.2 * w, (p.2 - o.2) * v.0)),
        r.1 == crate::clip::clamp_canvas(
            crate::fx::tdiv((p.1 - o.1) * v.2 * h, (p.2 - o.2) * v.1)),
{
    proof {
        crate::matrix::lemma_abs_prod_le((p.0 - o.0) as int, v.2 as int, 0x200_0000_0000,
            0x10_0000);
        crate::matrix::lemma_abs_prod_le((p.1 - o.1) as int, v.2 as int, 0x200_0000_0000,
            0x10_0000);
        crate::matrix::lemma_abs_prod_le((p.0 - o.0) as int * v.2, w as int,
            0x2000_0000_0000_0000, 0x1_0000);
        crate::matrix::lemma_abs_prod_le((p.1 - o.1) as int * v.2, h as int,
            0x2000_0000_0000_0000, 0x1_0000);
        crate::matrix::lemma_abs_prod_le((p.2 - o.2) as int, v.0 as int, 0x200_0000_0000,
            0x10_0000);
        crate::matrix::lemma_abs_prod_le((p.2 - o.2) as int, v.1 as int, 0x200_0000_0000,
            0x10_0000);
        assert((p.2 - o.2) as int * v.0 > 0 && (p.2 - o.2) as int * v.1 > 0) by (nonlinear_arith)
            requires
                p.2 - o.2 >= 1,
                v.0 >= 1,
                v.1 >= 1,
        ;
    }
    let nx: i128 = crate::fx::mul_i128(
        crate::fx::mul_i128((p.0 - o.0) as i128, v.2 as i128), w as i128);
    let ny: i128 = crate::fx::mul_i128(
        crate::fx::mul_i128((p.1 - o.1) as i128, v.2 as i128), h as i128);
    let dx: i128 = crate::fx::mul_i128((p.2 - o.2) as i128, v.0 as i128);
    let dy: i128 = crate::fx::mul_i128((p.2 - o.2) as i128, v.1 as i128);
    let rx: i64 = crate::clip::canvas_div(nx, dx);
    let ry: i64 = crate::clip::canvas_div(ny, dy);
    (rx, ry)
}

/// The three vertices sorted by ascending `y`, using the same three
/// conditional swaps as the executable code (a stable bubble of length 3).
pub open spec fn ysorted3(p0: (int, int), p1: (int, int), p2: (int, int))
    -> ((int, int), (int, int), (int, int)) {
    let a0 = if p1.1 < p0.1 { p1 } else { p0 };
    let a1 = if p1.1 < p0.1 { p0 } else { p1 };
    let b0 = if p2.1 < a0.1 { p2 } else { a0 };
    let b2 = if p2.1 < a0.1 { a0 } else { p2 };
    let s1 = if b2.1 < a1.1 { b2 } else { a1 };
    let s2 = if b2.1 < a1.1 { a1 } else { b2 };
    (b0, s1, s2)
}

/// The `x` bound from the concatenated short edges (`s0`..`s1` then
/// `s1`..`s2`) at scanline `y`.
pub open spec fn x012_at(s0: (int, int), s1: (int, int), s2: (int, int), y: int) -> int {
    if y <= s1.1 {
        lerp_at(s0.1, s0.0, s1.1, s1.0, y)
    } else {
        lerp_at(s1.1, s1.0, s2.1, s2.0, y)
    }
}

/// The `x` bound from the long edge (`s0`..`s2`) at scanline `y`.
pub open spec fn x02_at(s0: (int, int), s2: (int, int), y: int) -> int {
    lerp_at(s0.1, s0.0, s2.1, s2.0, y)
}

/// Whether the long edge is the geometric left boundary, decided from the
/// initial slopes alone (long edge versus first short edge).
pub open spec fn tri_left(s0: (int, int), s1: (int, int), s2: (int, int)) -> bool {
    slope_lt(s0.1, s0.0, s2.1, s2.0, s0.1, s0.0, s1.1, s1.0)
}

/// Left `x` bound of scanline `y`.
pub open spec fn row_l(s0: (int, int), s1: (int, int), s2: (int, int), y: int) -> int {
    if tri_left(s0, s1, s2) {
        x02_at(s0, s2, y)
    } else {
        x012_at(s0, s1, s2, y)
    }
}

/// Right `x` bound of scanline `y`.
pub open spec fn row_r(s0: (int, int), s1: (int, int), s2: (int, int), y: int) -> int {
    if tri_left(s0, s1, s2) {
        x012_at(s0, s1, s2, y)
    } else {
        x02_at(s0, s2, y)
    }
}

/// Number of pixels of scanline `y` (zero when the bounds cross).
pub open spec fn row_len(s0: (int, int), s1: (int, int), s2: (int, int), y: int) -> int {
    if row_r(s0, s1, s2, y) >= row_l(s0, s1, s2, y) {
        row_r(s0, s1, s2, y) - row_l(s0, s1, s2, y) + 1
    } else {
        0
    }
}

/// The pixels of scanline `y`, left to right.
pub open spec fn row_seq(s0: (int, int), s1: (int, int), s2: (int, int), y: int)
    -> Seq<(int, int)> {
    Seq::new(row_len(s0, s1, s2, y) as nat, |j: int| (row_l(s0, s1, s2, y) + j, y))
}

/// The pixels of the first `n` scanlines (from `s0.1` upward), in emission
/// order.
pub open spec fn rows_upto(s0: (int, int), s1: (int, int), s2: (int, int), n: nat)
    -> Seq<(int, int)>
    decreases n,
{
    if n == 0 {
        Seq::empty()
    } else {
        rows_upto(s0, s1, s2, (n - 1) as nat) + row_seq(s0, s1, s2, s0.1 + n - 1)
    }
}

/// Every pixel of the filled triangle `p0 p1 p2`, in emission order: for
/// each scanline `y` between the lowest and highest vertex, the integer
/// `x` positions between the two edge interpolations at `y`, inclusive.
pub open spec fn tri_pixels(p0: (int, int), p1: (int, int), p2: (int, int)) -> Seq<(int, int)> {
    let s = ysorted3(p0, p1, p2);
    rows_upto(s.0, s.1, s.2, (s.2.1 - s.0.1 + 1) as nat)
}

/// The sorted vertices are within range and ordered by `y`.
proof fn lemma_ysorted3(p0: (int, int), p1: (int, int), p2: (int, int))
    requires
        -CANVAS_MAX <= p0.0 <= CANVAS_MAX && -CANVAS_MAX <= p0.1 <= CANVAS_MAX,
        -CANVAS_MAX <= p1.0 <= CANVAS_MAX && -CANVAS_MAX <= p1.1 <= CANVAS_MAX,
        -CANVAS_MAX <= p2.0 <= CANVAS_MAX && -CANVAS_MAX <= p2.1 <= CANVAS_MAX,
    ensures
        ({
            let s = ysorted3(p0, p1, p2);
            &&& s.0.1 <= s.1.1 <= s.2.1
            &&& (s.0 == p0 || s.0 == p1 || s.0 == p2)
            &&& (s.1 == p0 || s.1 == p1 || s.1 == p2)
            &&& (s.2 == p0 || s.2 == p1 || s.2 == p2)
        }),
{
}

/// Fills the triangle `p0 p1 p2` with a flat color.  The vertices are
/// sorted by ascending `y`; the two short edges are concatenated into one
/// chain covering the full `y` range and set against the long edge; which
/// chain bounds the scanlines on the left is decided from the two initial
/// slopes alone; every scanline is then filled between its two bounds,
/// inclusive.  Degenerate triangles produce few or no pixels, never a
/// failure.
pub fn draw_filled_triangle(
    p0: (i64, i64), p1: (i64, i64), p2: (i64, i64), color: Color,
) -> (r: Vec<Pixel>)
    requires
        pt_ok(p0),
        pt_ok(p1),
        pt_ok(p2),
    ensures
        ({
            let px = tri_pixels(
                (p0.0 as int, p0.1 as int), (p1.0 as int, p1.1 as int), (p2.0 as int, p2.1 as int));
            &&& r@.len() == px.len()
            &&& forall|k: int| 0 <= k < r@.len() ==> #[trigger] r@[k]
                == (Pixel { x: px[k].0 as i64, y: px[k].1 as i64, color })
        }),
{
    let ghost gp0 = (p0.0 as int, p0.1 as int);
    let ghost gp1 = (p1.0 as int, p1.1 as int);
    let ghost gp2 = (p2.0 as int, p2.1 as int);
    proof {
        lemma_ysorted3(gp0, gp1, gp2);
    }
    // Sort the vertices so that s0.1 <= s1.1 <= s2.1.
    let (a0, a1) = if p1.1 < p0.1 { (p1, p0) } else { (p0, p1) };
    let (s0, b2) = if p2.1 < a0.1 { (p2, a0) } else { (a0, p2) };
    let (s1, s2) = if b2.1 < a1.1 { (b2, a1) } else { (a1, b2) };
    let ghost gs = ysorted3(gp0, gp1, gp2);
    proof {
        assert(gs.0 == (s0.0 as int, s0.1 as int));
        assert(gs.1 == (s1.0 as int, s1.1 as int));
        assert(gs.2 == (s2.0 as int, s2.1 as int));
    }
    // Decide the left boundary from the slopes of the long edge and the
    // first short edge.
    let x01 = Interp::new(s0.1, s0.0, s1.1, s1.0);
    let x02 = Interp::new(s0.1, s0.0, s2.1, s2.0);
    let left = x02.left_of(&x01);
    proof {
        assert(left == tri_left(gs.0, gs.1, gs.2));
    }
    let mut out: Vec<Pixel> = Vec::new();
    let mut y: i64 = s0.1;
    while y <= s2.1
        invariant
            pt_ok(s0) && pt_ok(s1) && pt_ok(s2),
            s0.1 <= s1.1 <= s2.1,
            gs.0 == (s0.0 as int, s0.1 as int),
            gs.1 == (s1.0 as int, s1.1 as int),
            gs.2 == (s2.0 as int, s2.1 as int),
            left == tri_left(gs.0, gs.1, gs.2),
            s0.1 <= y <= s2.1 + 1,
            out@.len() == rows_upto(gs.0, gs.1, gs.2, (y - s0.1) as nat).len(),
            forall|k: int| 0 <= k < out@.len() ==> #[trigger] out@[k]
                == (Pixel {
                    x: rows_upto(gs.0, gs.1, gs.2, (y - s0.1) as nat)[k].0 as i64,
                    y: rows_upto(gs.0, gs.1, gs.2, (y - s0.1) as nat)[k].1 as i64,
                    color,
                }),
        decreases s2.1 - y + 1,
    {
        let x012v: i64 = if y <= s1.1 {
            interpolate_at(s0.1, s0.0, s1.1, s1.0, y)
        } else {
            interpolate_at(s1.1, s1.0, s2.1, s2.0, y)
        };
        let x02v: i64 = interpolate_at(s0.1, s0.0, s2.1, s2.0, y);
        proof {
            assert(x012v == x012_at(gs.0, gs.1, gs.2, y as int));
            assert(x02v == x02_at(gs.0, gs.2, y as int));
        }
        let (xl, xr) = if left { (x02v, x012v) } else { (x012v, x02v) };
        proof {
            assert(xl == row_l(gs.0, gs.1, gs.2, y as int));
            assert(xr == row_r(gs.0, gs.1, gs.2, y as int));
        }
        let ghost prev = rows_upto(gs.0, gs.1, gs.2, (y - s0.1) as nat);
        let mut x: i64 = xl;
        while x <= xr
            invariant
                -INTERP_VAL_MAX <= xl <= INTERP_VAL_MAX,
                -INTERP_VAL_MAX <= xr <= INTERP_VAL_MAX,
                xl <= x <= xr + 1 || (xr < xl && x == xl),
                xl == row_l(gs.0, gs.1, gs.2, y as int),
                xr == row_r(gs.0, gs.1, gs.2, y as int),
                out@.len() == prev.len() + (x - xl),
                forall|k: int| 0 <= k < prev.len() ==> #[trigger] out@[k]
                    == (Pixel { x: prev[k].0 as i64, y: prev[k].1 as i64, color }),
                forall|k: int| prev.len() <= k < out@.len() ==> #[trigger] out@[k]
                    == (Pixel { x: (xl + k - prev.len()) as i64, y, color }),
            decreases xr - x + 1,
        {
            out.push(Pixel { x, y, color });
            x = x + 1;
        }
        proof {
            let n1 = (y + 1 - s0.1) as nat;
            assert(rows_upto(gs.0, gs.1, gs.2, n1)
                == rows_upto(gs.0, gs.1, gs.2, (n1 - 1) as nat)
                    + row_seq(gs.0, gs.1, gs.2, gs.0.1 + n1 - 1));
            assert(gs.0.1 + n1 - 1 == y as int);
            let cur = rows_upto(gs.0, gs.1, gs.2, n1);
            assert(out@.len() == cur.len());
            assert forall|k: int| 0 <= k < out@.len() implies #[trigger] out@[k]
                == (Pixel { x: cur[k].0 as i64, y: cur[k].1 as i64, color }) by {
                if k < prev.len() {
                    assert(cur[k] == prev[k]);
                } else {
                    assert(cur[k] == row_seq(gs.0, gs.1, gs.2, y as int)[k - prev.len()]);
                }
            }
        }
        y = y + 1;
    }
    out
}

/// Largest payload magnitude carried through the scanline core (covers
/// inverse depths up to `FP * FP` and shading weights up to `SHADE_MAX`).
pub const PAYLOAD_MAX: i64 = 0x1_0000_0000;

/// Triples `(x, y, payload)` sorted by ascending `y` with the same three
/// conditional swaps as `ysorted3`; the payload travels with its vertex.
pub open spec fn wsorted3(t0: (int, int, int), t1: (int, int, int), t2: (int, int, int))
    -> ((int, int, int), (int, int, int), (int, int, int)) {
    let a0 = if t1.1 < t0.1 { t1 } else { t0 };
    let a1 = if t1.1 < t0.1 { t0 } else { t1 };
    let b0 = if t2.1 < a0.1 { t2 } else { a0 };
    let b2 = if t2.1 < a0.1 { a0 } else { t2 };
    let s1 = if b2.1 < a1.1 { b2 } else { a1 };
    let s2 = if b2.1 < a1.1 { a1 } else { b2 };
    (b0, s1, s2)
}

/// The position part of a payload-carrying vertex.
pub open spec fn wpos(t: (int, int, int)) -> (int, int) {
    (t.0, t.1)
}

/// The payload bound from the concatenated short edges at scanline `y`.
pub open spec fn w012_pay(s0: (int, int, int), s1: (int, int, int), s2: (int, int, int), y: int)
    -> int {
    if y <= s1.1 {
        lerp_at(s0.1, s0.2, s1.1, s1.2, y)
    } else {
        lerp_at(s1.1, s1.2, s2.1, s2.2, y)
    }
}

/// The payload bound from the long edge at scanline `y`.
pub open spec fn w02_pay(s0: (int, int, int), s2: (int, int, int), y: int) -> int {
    lerp_at(s0.1, s0.2, s2.1, s2.2, y)
}

/// Payload at the left end of scanline `y` (same side choice as `row_l`).
pub open spec fn wrow_payl(s0: (int, int, int), s1: (int, int, int), s2: (int, int, int), y: int)
    -> int {
    if tri_left(wpos(s0), wpos(s1), wpos(s2)) {
        w02_pay(s0, s2, y)
    } else {
        w012_pay(s0, s1, s2, y)
    }
}

/// Payload at the right end of scanline `y`.
pub open spec fn wrow_payr(s0: (int, int, int), s1: (int, int, int), s2: (int, int, int), y: int)
    -> int {
    if tri_left(wpos(s0), wpos(s1), wpos(s2)) {
        w012_pay(s0, s1, s2, y)
    } else {
        w02_pay(s0, s2, y)
    }
}

/// Payload at position `x` of scanline `y`, interpolated between the two
/// row-end payloads.
pub open spec fn wrow_val(
    s0: (int, int, int), s1: (int, int, int), s2: (int, int, int), y: int, x: int,
) -> int {
    lerp_at(
        row_l(wpos(s0), wpos(s1), wpos(s2), y),
        wrow_payl(s0, s1, s2, y),
        row_r(wpos(s0), wpos(s1), wpos(s2), y),
        wrow_payr(s0, s1, s2, y),
        x,
    )
}

/// The `(x, y, payload)` triples of scanline `y`, left to right.
pub open spec fn wrow_seq(s0: (int, int, int), s1: (int, int, int), s2: (int, int, int), y: int)
    -> Seq<(int, int, int)> {
    let l = row_l(wpos(s0), wpos(s1), wpos(s2), y);
    Seq::new(
        row_len(wpos(s0), wpos(s1), wpos(s2), y) as nat,
        |j: int| (l + j, y, wrow_val(s0, s1, s2, y, l + j)),
    )
}

/// The triples of the first `n` scanlines, in emission order.
pub open spec fn wrows_upto(s0: (int, int, int), s1: (int, int, int), s2: (int, int, int), n: nat)
    -> Seq<(int, int, int)>
    decreases n,
{
    if n == 0 {
        Seq::empty()
    } else {
        wrows_upto(s0, s1, s2, (n - 1) as nat) + wrow_seq(s0, s1, s2, s0.1 + n - 1)
    }
}

/// Every `(x, y, payload)` triple of the payload-carrying triangle
/// `t0 t1 t2`, in emission order.
pub open spec fn wtri_pixels(t0: (int, int, int), t1: (int, int, int), t2: (int, int, int))
    -> Seq<(int, int, int)> {
    let s = wsorted3(t0, t1, t2);
    wrows_upto(s.0, s.1, s.2, (s.2.1 - s.0.1 + 1) as nat)
}

/// Whether a payload-carrying vertex is within the accepted ranges.
pub open spec fn wvert_ok(t: (i64, i64, i64)) -> bool {
    &&& -CANVAS_MAX <= t.0 <= CANVAS_MAX
    &&& -CANVAS_MAX <= t.1 <= CANVAS_MAX
    &&& -PAYLOAD_MAX <= t.2 <= PAYLOAD_MAX
}

/// The shared scanline core of the shaded and depth-tested fillers: sorts
/// the vertices by `y` with their payloads in lockstep, concatenates the
/// short edges against the long edge, picks the left boundary from the
/// initial slopes, and emits one `(x, y, payload)` triple per covered
/// pixel, with the payload interpolated along the edges and then across
/// each scanline.
fn scan_triangle(q0: (i64, i64, i64), q1: (i64, i64, i64), q2: (i64, i64, i64))
    -> (r: Vec<(i64, i64, i64)>)
    requires
        wvert_ok(q0),
        wvert_ok(q1),
        wvert_ok(q2),
    ensures
        ({
            let px = wtri_pixels(
                (q0.0 as int, q0.1 as int, q0.2 as int),
                (q1.0 as int, q1.1 as int, q1.2 as int),
                (q2.0 as int, q2.1 as int, q2.2 as int));
            &&& r@.len() == px.len()
            &&& forall|k: int| 0 <= k < r@.len() ==> #[trigger] r@[k]
                == ((px[k].0 as i64, px[k].1 as i64, px[k].2 as i64))
            &&& forall|k: int| 0 <= k < px.len()
                ==> -PAYLOAD_MAX <= (#[trigger] px[k]).2 <= PAYLOAD_MAX
        }),
        forall|k: int| 0 <= k < r@.len() ==> {
            let p = #[trigger] r@[k];
            -CANVAS_MAX <= p.0 <= CANVAS_MAX && -CANVAS_MAX <= p.1 <= CANVAS_MAX
        },
{
    let ghost gq0 = (q0.0 as int, q0.1 as int, q0.2 as int);
    let ghost gq1 = (q1.0 as int, q1.1 as int, q1.2 as int);
    let ghost gq2 = (q2.0 as int, q2.1 as int, q2.2 as int);
    // Sort the vertices so that s0.1 <= s1.1 <= s2.1.
    let (a0, a1) = if q1.1 < q0.1 { (q1, q0) } else { (q0, q1) };
    let (s0, b2) = if q2.1 < a0.1 { (q2, a0) } else { (a0, q2) };
    let (s1, s2) = if b2.1 < a1.1 { (b2, a1) } else { (a1, b2) };
    let ghost gs = wsorted3(gq0, gq1, gq2);
    proof {
        assert(gs.0 == (s0.0 as int, s0.1 as int, s0.2 as int));
        assert(gs.1 == (s1.0 as int, s1.1 as int, s1.2 as int));
        assert(gs.2 == (s2.0 as int, s2.1 as int, s2.2 as int));
    }
    // Decide the left boundary from the slopes of the long edge and the
    // first short edge of the coordinate channel.
    let x01 = Interp::new(s0.1, s0.0, s1.1, s1.0);
    let x02 = Interp::new(s0.1, s0.0, s2.1, s2.0);
    let left = x02.left_of(&x01);
    proof {
        assert(left == tri_left(wpos(gs.0), wpos(gs.1), wpos(gs.2)));
    }
    let mut out: Vec<(i64, i64, i64)> = Vec::new();
    let mut y: i64 = s0.1;
    while y <= s2.1
        invariant
            wvert_ok(s0) && wvert_ok(s1) && wvert_ok(s2),
            s0.1 <= s1.1 <= s2.1,
            gs.0 == (s0.0 as int, s0.1 as int, s0.2 as int),
            gs.1 == (s1.0 as int, s1.1 as int, s1.2 as int),
            gs.2 == (s2.0 as int, s2.1 as int, s2.2 as int),
            left == tri_left(wpos(gs.0), wpos(gs.1), wpos(gs.2)),
            s0.1 <= y <= s2.1 + 1,
            out@.len() == wrows_upto(gs.0, gs.1, gs.2, (y - s0.1) as nat).len(),
            forall|k: int| 0 <= k < out@.len() ==> #[trigger] out@[k]
                == ((wrows_upto(gs.0, gs.1, gs.2, (y - s0.1) as nat)[k].0 as i64,
                    wrows_upto(gs.0, gs.1, gs.2, (y - s0.1) as nat)[k].1 as i64,
                    wrows_upto(gs.0, gs.1, gs.2, (y - s0.1) as nat)[k].2 as i64)),
            forall|k: int| 0 <= k < out@.len()
                ==> -PAYLOAD_MAX
                    <= (#[trigger] wrows_upto(gs.0, gs.1, gs.2, (y - s0.1) as nat)[k]).2
                    <= PAYLOAD_MAX,
            forall|k: int| 0 <= k < out@.len() ==> {
                let p = #[trigger] out@[k];
                -CANVAS_MAX <= p.0 <= CANVAS_MAX && -CANVAS_MAX <= p.1 <= CANVAS_MAX
            },
        decreases s2.1 - y + 1,
    {
        let x012v: i64 = if y <= s1.1 {
            interpolate_at(s0.1, s0.0, s1.1, s1.0, y)
        } else {
            interpolate_at(s1.1, s1.0, s2.1, s2.0, y)
        };
        let x02v: i64 = interpolate_at(s0.1, s0.0, s2.1, s2.0, y);
        let p012v: i64 = if y <= s1.1 {
            interpolate_at(s0.1, s0.2, s1.1, s1.2, y)
        } else {
            interpolate_at(s1.1, s1.2, s2.1, s2.2, y)
        };
        let p02v: i64 = interpolate_at(s0.1, s0.2, s2.1, s2.2, y);
        proof {
            assert(x012v == x012_at(wpos(gs.0), wpos(gs.1), wpos(gs.2), y as int));
            assert(x02v == x02_at(wpos(gs.0), wpos(gs.2), y as int));
            assert(p012v == w012_pay(gs.0, gs.1, gs.2, y as int));
            assert(p02v == w02_pay(gs.0, gs.2, y as int));
            if y <= s1.1 {
                lemma_lerp_between(s0.1 as int, s0.0 as int, s1.1 as int, s1.0 as int, y as int);
                lemma_lerp_between(s0.1 as int, s0.2 as int, s1.1 as int, s1.2 as int, y as int);
            } else {
                lemma_lerp_between(s1.1 as int, s1.0 as int, s2.1 as int, s2.0 as int, y as int);
                lemma_lerp_between(s1.1 as int, s1.2 as int, s2.1 as int, s2.2 as int, y as int);
            }
            lemma_lerp_between(s0.1 as int, s0.0 as int, s2.1 as int, s2.0 as int, y as int);
            lemma_lerp_between(s0.1 as int, s0.2 as int, s2.1 as int, s2.2 as int, y as int);
        }
        let (xl, xr) = if left { (x02v, x012v) } else { (x012v, x02v) };
        let (pl, pr) = if left { (p02v, p012v) } else { (p012v, p02v) };
        proof {
            assert(xl == row_l(wpos(gs.0), wpos(gs.1), wpos(gs.2), y as int));
            assert(xr == row_r(wpos(gs.0), wpos(gs.1), wpos(gs.2), y as int));
            assert(pl == wrow_payl(gs.0, gs.1, gs.2, y as int));
            assert(pr == wrow_payr(gs.0, gs.1, gs.2, y as int));
        }
        let ghost prev = wrows_upto(gs.0, gs.1, gs.2, (y - s0.1) as nat);
        let mut x: i64 = xl;
        while x <= xr
            invariant
                -CANVAS_MAX <= xl <= CANVAS_MAX,
                -CANVAS_MAX <= xr <= CANVAS_MAX,
                -PAYLOAD_MAX <= pl <= PAYLOAD_MAX,
                -PAYLOAD_MAX <= pr <= PAYLOAD_MAX,
                xl <= x <= xr + 1 || (xr < xl && x == xl),
                xl == row_l(wpos(gs.0), wpos(gs.1), wpos(gs.2), y as int),
                xr == row_r(wpos(gs.0), wpos(gs.1), wpos(gs.2), y as int),
                pl == wrow_payl(gs.0, gs.1, gs.2, y as int),
                pr == wrow_payr(gs.0, gs.1, gs.2, y as int),
                out@.len() == prev.len() + (x - xl),
                forall|k: int| 0 <= k < prev.len() ==> #[trigger] out@[k]
                    == ((prev[k].0 as i64, prev[k].1 as i64, prev[k].2 as i64)),
                forall|k: int| prev.len() <= k < out@.len() ==> #[trigger] out@[k]
                    == (((xl + k - prev.len()) as i64, y,
                        wrow_val(gs.0, gs.1, gs.2, y as int, xl + k - prev.len()) as i64)),
                forall|k: int| 0 <= k < prev.len()
                    ==> -PAYLOAD_MAX <= (#[trigger] prev[k]).2 <= PAYLOAD_MAX,
                forall|k: int| prev.len() <= k < out@.len()
                    ==> -PAYLOAD_MAX
                        <= #[trigger] wrow_val(gs.0, gs.1, gs.2, y as int, xl + k - prev.len())
                        <= PAYLOAD_MAX,
                forall|k: int| 0 <= k < out@.len() ==> {
                    let p = #[trigger] out@[k];
                    -CANVAS_MAX <= p.0 <= CANVAS_MAX && -CANVAS_MAX <= p.1 <= CANVAS_MAX
                },
                -CANVAS_MAX <= y <= CANVAS_MAX,
            decreases xr - x + 1,
        {
            let pay: i64 = interpolate_at(xl, pl, xr, pr, x);
            proof {
                assert(pay == wrow_val(gs.0, gs.1, gs.2, y as int, x as int));
                lemma_lerp_between(xl as int, pl as int, xr as int, pr as int, x as int);
            }
            out.push((x, y, pay));
            x = x + 1;
        }
        proof {
            let n1 = (y + 1 - s0.1) as nat;
            assert(wrows_upto(gs.0, gs.1, gs.2, n1)
                == wrows_upto(gs.0, gs.1, gs.2, (n1 - 1) as nat)
                    + wrow_seq(gs.0, gs.1, gs.2, gs.0.1 + n1 - 1));
            assert(gs.0.1 + n1 - 1 == y as int);
            let cur = wrows_upto(gs.0, gs.1, gs.2, n1);
            assert(out@.len() == cur.len());
            assert forall|k: int| 0 <= k < out@.len() implies #[trigger] out@[k]
                == ((cur[k].0 as i64, cur[k].1 as i64, cur[k].2 as i64)) by {
                if k < prev.len() {
                    assert(cur[k] == prev[k]);
                } else {
                    assert(cur[k] == wrow_seq(gs.0, gs.1, gs.2, y as int)[k - prev.len()]);
                }
            }
            assert forall|k: int| 0 <= k < out@.len()
                implies -PAYLOAD_MAX <= (#[trigger] cur[k]).2 <= PAYLOAD_MAX by {
                if k < prev.len() {
                    assert(cur[k] == prev[k]);
                } else {
                    assert(cur[k] == wrow_seq(gs.0, gs.1, gs.2, y as int)[k - prev.len()]);
                    assert(-PAYLOAD_MAX
                        <= wrow_val(gs.0, gs.1, gs.2, y as int, xl + k - prev.len())
                        <= PAYLOAD_MAX);
                    assert(cur[k].2 == wrow_val(gs.0, gs.1, gs.2, y as int, xl + k - prev.len()));
                }
            }
        }
        y = y + 1;
    }
    out
}

/// The color of a base color shaded by the fixed-point weight `h`:
/// each channel is multiplied by `h` in fixed point.
pub open spec fn shaded_color(c: Color, h: int) -> (int, int, int) {
    (fx_mul(c.r as int, h), fx_mul(c.g as int, h), fx_mul(c.b as int, h))
}

/// Fills the triangle `p0 p1 p2`, shading the base color per pixel by a
/// weight interpolated from the per-vertex weights `h`.  Any reordering
/// applied to the vertices is applied identically to their weights.
pub fn draw_shaded_triangle(
    p0: (i64, i64), p1: (i64, i64), p2: (i64, i64), color: Color, h: (i64, i64, i64),
) -> (r: Vec<Pixel>)
    requires
        pt_ok(p0),
        pt_ok(p1),
        pt_ok(p2),
        color_ok(color),
        -SHADE_MAX <= h.0 <= SHADE_MAX,
        -SHADE_MAX <= h.1 <= SHADE_MAX,
        -SHADE_MAX <= h.2 <= SHADE_MAX,
    ensures
        ({
            let px = wtri_pixels(
                (p0.0 as int, p0.1 as int, h.0 as int),
                (p1.0 as int, p1.1 as int, h.1 as int),
                (p2.0 as int, p2.1 as int, h.2 as int));
            &&& r@.len() == px.len()
            &&& forall|k: int| 0 <= k < r@.len() ==> #[trigger] r@[k]
                == (Pixel {
                    x: px[k].0 as i64,
                    y: px[k].1 as i64,
                    color: Color {
                        r: shaded_color(color, px[k].2).0 as i64,
                        g: shaded_color(color, px[k].2).1 as i64,
                        b: shaded_color(color, px[k].2).2 as i64,
                    },
                })
        }),
{
    let core = scan_triangle((p0.0, p0.1, h.0), (p1.0, p1.1, h.1), (p2.0, p2.1, h.2));
    let ghost px = wtri_pixels(
        (p0.0 as int, p0.1 as int, h.0 as int),
        (p1.0 as int, p1.1 as int, h.1 as int),
        (p2.0 as int, p2.1 as int, h.2 as int));
    let mut out: Vec<Pixel> = Vec::new();
    let mut k: usize = 0;
    while k < core.len()
        invariant
            color_ok(color),
            core@.len() == px.len(),
            forall|j: int| 0 <= j < core@.len() ==> #[trigger] core@[j]
                == ((px[j].0 as i64, px[j].1 as i64, px[j].2 as i64)),
            forall|j: int| 0 <= j < px.len()
                ==> -PAYLOAD_MAX <= (#[trigger] px[j]).2 <= PAYLOAD_MAX,
            k <= core@.len(),
            out@.len() == k,
            forall|j: int| 0 <= j < out@.len() ==> #[trigger] out@[j]
                == (Pixel {
                    x: px[j].0 as i64,
                    y: px[j].1 as i64,
                    color: Color {
                        r: shaded_color(color, px[j].2).0 as i64,
                        g: shaded_color(color, px[j].2).1 as i64,
                        b: shaded_color(color, px[j].2).2 as i64,
                    },
                }),
        decreases core@.len() - k,
    {
        let (x, y, hv) = core[k];
        let shaded = Color {
            r: mul_fx(color.r, hv),
            g: mul_fx(color.g, hv),
            b: mul_fx(color.b, hv),
        };
        out.push(Pixel { x, y, color: shaded });
        k = k + 1;
    }
    out
}

/// Whether a depth-carrying vertex `(x, y, z)` is within the accepted
/// ranges; the fixed-point depth must be nonzero so that its inverse is
/// defined.
pub open spec fn zvert_ok(t: (i64, i64, i64)) -> bool {
    &&& -CANVAS_MAX <= t.0 <= CANVAS_MAX
    &&& -CANVAS_MAX <= t.1 <= CANVAS_MAX
    &&& t.2 != 0
    &&& -DEPTH_MAX <= t.2 <= DEPTH_MAX
}

/// Fills the triangle with a flat color, carrying a per-pixel inverse
/// depth for compositing: each vertex depth is inverted once, and the
/// inverse depths are interpolated along the edges and across each
/// scanline exactly like the `x` bounds.
pub fn draw_filled_triangle_with_depth(
    t0: (i64, i64, i64), t1: (i64, i64, i64), t2: (i64, i64, i64), color: Color,
) -> (r: Vec<DepthPixel>)
    requires
        zvert_ok(t0),
        zvert_ok(t1),
        zvert_ok(t2),
    ensures
        ({
            let px = wtri_pixels(
                (t0.0 as int, t0.1 as int, fx_inv(t0.2 as int)),
                (t1.0 as int, t1.1 as int, fx_inv(t1.2 as int)),
                (t2.0 as int, t2.1 as int, fx_inv(t2.2 as int)));
            &&& r@.len() == px.len()
            &&& forall|k: int| 0 <= k < r@.len() ==> #[trigger] r@[k]
                == (DepthPixel {
                    x: px[k].0 as i64,
                    y: px[k].1 as i64,
                    z_inv: px[k].2 as i64,
                    color,
                })
        }),
        forall|k: int| 0 <= k < r@.len() ==> {
            let p = #[trigger] r@[k];
            -CANVAS_MAX <= p.x <= CANVAS_MAX && -CANVAS_MAX <= p.y <= CANVAS_MAX
        },
{
    let zi0: i64 = inv_fx(t0.2);
    let zi1: i64 = inv_fx(t1.2);
    let zi2: i64 = inv_fx(t2.2);
    let core = scan_triangle((t0.0, t0.1, zi0), (t1.0, t1.1, zi1), (t2.0, t2.1, zi2));
    let ghost px = wtri_pixels(
        (t0.0 as int, t0.1 as int, fx_inv(t0.2 as int)),
        (t1.0 as int, t1.1 as int, fx_inv(t1.2 as int)),
        (t2.0 as int, t2.1 as int, fx_inv(t2.2 as int)));
    let mut out: Vec<DepthPixel> = Vec::new();
    let mut k: usize = 0;
    while k < core.len()
        invariant
            core@.len() == px.len(),
            forall|j: int| 0 <= j < core@.len() ==> #[trigger] core@[j]
                == ((px[j].0 as i64, px[j].1 as i64, px[j].2 as i64)),
            forall|j: int| 0 <= j < core@.len() ==> {
                let p = #[trigger] core@[j];
                -CANVAS_MAX <= p.0 <= CANVAS_MAX && -CANVAS_MAX <= p.1 <= CANVAS_MAX
            },
            k <= core@.len(),
            out@.len() == k,
            forall|j: int| 0 <= j < out@.len() ==> {
                let p = #[trigger] out@[j];
                -CANVAS_MAX <= p.x <= CANVAS_MAX && -CANVAS_MAX <= p.y <= CANVAS_MAX
            },
            forall|j: int| 0 <= j < out@.len() ==> #[trigger] out@[j]
                == (DepthPixel {
                    x: px[j].0 as i64,
                    y: px[j].1 as i64,
                    z_inv: px[j].2 as i64,
                    color,
                }),
        decreases core@.len() - k,
    {
        let (x, y, zi) = core[k];
        out.push(DepthPixel { x, y, z_inv: zi, color });
        k = k + 1;
    }
    out
}

} // verus!
