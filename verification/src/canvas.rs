//! The compositor: a framebuffer of colors paired with a depth buffer of
//! inverse depths, written one pixel at a time.
//!
//! The depth buffer stores inverse depths (`1/z` in fixed point), one
//! per pixel, initialized to zero (infinitely far); a depth-tested write
//! is accepted only when the candidate inverse depth is strictly greater
//! than the stored one, so the closer fragment always wins and the final
//! image does not depend on triangle order.  Writes outside the canvas
//! are discarded, and colors are clamped to the unit range at the point
//! of writing.

use vstd::prelude::*;
use crate::fx::FP;
use crate::raster::Color;
use crate::raster::DepthPixel;

verus! {

/// Largest canvas dimension, in pixels.
pub const DIM_MAX: usize = 0x8000;

/// One color channel clamped to `[0, FP]`.
pub open spec fn clamp01(c: int) -> int {
    if c < 0 {
        0
    } else if c > FP {
        FP as int
    } else {
        c
    }
}

/// A color with every channel clamped to the unit range.
pub open spec fn clamp_color(c: Color) -> Color {
    Color { r: clamp01(c.r as int) as i64, g: clamp01(c.g as int) as i64,
        b: clamp01(c.b as int) as i64 }
}

/// Whether the canvas-centred point `(x, y)` lands on a canvas of the
/// given dimensions.
pub open spec fn in_canvas(w: int, h: int, x: int, y: int) -> bool {
    &&& 0 <= x + w / 2 < w
    &&& 0 <= h / 2 - y < h
}

/// The buffer index of the canvas-centred point `(x, y)`: the canvas
/// origin is at the centre, `x` grows to the right and `y` grows
/// upward.
pub open spec fn pix_index(w: int, h: int, x: int, y: int) -> int {
    (h / 2 - y) * w + (x + w / 2)
}

/// A framebuffer with its per-pixel inverse-depth buffer.
pub struct Canvas {
    pub width: usize,
    pub height: usize,
    pub pixels: Vec<Color>,
    pub depth: Vec<i64>,
}

impl Canvas {
    /// Consistent dimensions and buffer lengths.
    pub open spec fn wf(self) -> bool {
        &&& 1 <= self.width <= DIM_MAX
        &&& 1 <= self.height <= DIM_MAX
        &&& self.pixels@.len() == self.width * self.height
        &&& self.depth@.len() == self.width * self.height
    }

    /// A fresh canvas filled with a background color, every pixel
    /// infinitely far away.
    pub fn new(width: usize, height: usize, background: Color) -> (r: Canvas)
        requires
            1 <= width <= DIM_MAX,
            1 <= height <= DIM_MAX,
        ensures
            r.wf(),
            r.width == width,
            r.height == height,
            forall|i: int| 0 <= i < r.pixels@.len() ==> #[trigger] r.pixels@[i] == background,
            forall|i: int| 0 <= i < r.depth@.len() ==> #[trigger] r.depth@[i] == 0i64,
    {
        proof {
            assert(width * height <= 0x4000_0000) by (nonlinear_arith)
                requires
                    width <= 0x8000,
                    height <= 0x8000,
            ;
        }
        let n: usize = width * height;
        let mut pixels: Vec<Color> = Vec::new();
        let mut depth: Vec<i64> = Vec::new();
        let mut i: usize = 0;
        while i < n
            invariant
                i <= n,
                pixels@.len() == i,
                depth@.len() == i,
                forall|k: int| 0 <= k < i ==> #[trigger] pixels@[k] == background,
                forall|k: int| 0 <= k < i ==> #[trigger] depth@[k] == 0i64,
            decreases n - i,
        {
            pixels.push(background);
            depth.push(0);
            i = i + 1;
        }
        Canvas { width, height, pixels, depth }
    }

    /// The color at the canvas-centred point `(x, y)`.
    pub fn pixel_at(&self, x: i64, y: i64) -> (r: Option<Color>)
        requires
            self.wf(),
            -0x100_0000 <= x <= 0x100_0000,
            -0x100_0000 <= y <= 0x100_0000,
        ensures
            in_canvas(self.width as int, self.height as int, x as int, y as int)
                ==> r == Some(self.pixels@[pix_index(self.width as int, self.height as int,
                    x as int, y as int)]),
            !in_canvas(self.width as int, self.height as int, x as int, y as int)
                ==> r is None,
    {
        let w = self.width as i64;
        let h = self.height as i64;
        let xs = x + w / 2;
        let ys = h / 2 - y;
        if 0 <= xs && xs < w && 0 <= ys && ys < h {
            let idx: usize = pix_idx(w, h, xs, ys);
            Some(self.pixels[idx])
        } else {
            None
        }
    }

    /// The stored inverse depth at the canvas-centred point `(x, y)`.
    pub fn depth_at(&self, x: i64, y: i64) -> (r: Option<i64>)
        requires
            self.wf(),
            -0x100_0000 <= x <= 0x100_0000,
            -0x100_0000 <= y <= 0x100_0000,
        ensures
            in_canvas(self.width as int, self.height as int, x as int, y as int)
                ==> r == Some(self.depth@[pix_index(self.width as int, self.height as int,
                    x as int, y as int)]),
            !in_canvas(self.width as int, self.height as int, x as int, y as int)
                ==> r is None,
    {
        let w = self.width as i64;
        let h = self.height as i64;
        let xs = x + w / 2;
        let ys = h / 2 - y;
        if 0 <= xs && xs < w && 0 <= ys && ys < h {
            let idx: usize = pix_idx(w, h, xs, ys);
            Some(self.depth[idx])
        } else {
            None
        }
    }

    /// Writes one pixel without a depth test: the clamped color lands at
    /// `(x, y)` when the point is on the canvas; writes outside the
    /// canvas are discarded.
    pub fn put_pixel(&mut self, x: i64, y: i64, color: Color)
        requires
            old(self).wf(),
            -0x100_0000 <= x <= 0x100_0000,
            -0x100_0000 <= y <= 0x100_0000,
        ensures
            final(self).wf(),
            final(self).width == old(self).width,
            final(self).height == old(self).height,
            final(self).depth == old(self).depth,
            final(self).pixels@ == put_pixel_spec(old(self).pixels@, old(self).width as int,
                old(self).height as int, x as int, y as int, color),
    {
        let w = self.width as i64;
        let h = self.height as i64;
        let xs = x + w / 2;
        let ys = h / 2 - y;
        if 0 <= xs && xs < w && 0 <= ys && ys < h {
            let idx: usize = pix_idx(w, h, xs, ys);
            let c = clamp_color_exec(color);
            self.pixels[idx] = c;
        }
    }

    /// Writes one pixel with a depth test: the clamped color lands at
    /// `(x, y)` and the depth buffer is updated exactly when the point
    /// is on the canvas and the candidate inverse depth is strictly
    /// greater than the stored one (closer wins); otherwise nothing
    /// changes.
    pub fn put_pixel_with_depth(&mut self, x: i64, y: i64, z_inv: i64, color: Color)
        requires
            old(self).wf(),
            -0x100_0000 <= x <= 0x100_0000,
            -0x100_0000 <= y <= 0x100_0000,
        ensures
            final(self).wf(),
            final(self).width == old(self).width,
            final(self).height == old(self).height,
            ({
                let s = put_depth_spec(old(self).pixels@, old(self).depth@,
                    old(self).width as int, old(self).height as int,
                    x as int, y as int, z_inv, color);
                final(self).pixels@ == s.0 && final(self).depth@ == s.1
            }),
    {
        let w = self.width as i64;
        let h = self.height as i64;
        let xs = x + w / 2;
        let ys = h / 2 - y;
        if 0 <= xs && xs < w && 0 <= ys && ys < h {
            let idx: usize = pix_idx(w, h, xs, ys);
            if self.depth[idx] < z_inv {
                let c = clamp_color_exec(color);
                self.pixels[idx] = c;
                self.depth[idx] = z_inv;
            }
        }
    }
}

/// The buffer index of an on-canvas screen position.
fn pix_idx(w: i64, h: i64, xs: i64, ys: i64) -> (r: usize)
    requires
        0 <= xs < w,
        0 <= ys < h,
        w <= 0x8000,
        h <= 0x8000,
    ensures
        r == ys * w + xs,
        r < w * h,
{
    proof {
        assert(0 <= ys * w + xs < w * h && ys * w + xs < 0x4000_0000) by (nonlinear_arith)
            requires
                0 <= xs < w <= 0x8000,
                0 <= ys < h <= 0x8000,
        ;
    }
    (ys * w + xs) as usize
}

/// The framebuffer after one depth-free pixel write.
pub open spec fn put_pixel_spec(pix: Seq<Color>, w: int, h: int, x: int, y: int, color: Color)
    -> Seq<Color> {
    if in_canvas(w, h, x, y) {
        pix.update(pix_index(w, h, x, y), clamp_color(color))
    } else {
        pix
    }
}

/// The framebuffer and depth buffer after one depth-tested pixel write.
pub open spec fn put_depth_spec(
    pix: Seq<Color>, dep: Seq<i64>, w: int, h: int, x: int, y: int, z_inv: i64, color: Color,
) -> (Seq<Color>, Seq<i64>) {
    if in_canvas(w, h, x, y) && dep[pix_index(w, h, x, y)] < z_inv {
        (
            pix.update(pix_index(w, h, x, y), clamp_color(color)),
            dep.update(pix_index(w, h, x, y), z_inv),
        )
    } else {
        (pix, dep)
    }
}

/// The index of an on-canvas point is within the buffers.
pub proof fn lemma_pix_index_range(w: int, h: int, x: int, y: int)
    requires
        in_canvas(w, h, x, y),
        w >= 1,
        h >= 1,
    ensures
        0 <= pix_index(w, h, x, y) < w * h,
{
    let xs = x + w / 2;
    let ys = h / 2 - y;
    assert(0 <= ys * w + xs < w * h) by (nonlinear_arith)
        requires
            0 <= xs < w,
            0 <= ys < h,
    ;
}

/// A color with every channel clamped to the unit range, executable
/// form.
fn clamp_color_exec(c: Color) -> (r: Color)
    ensures
        r == clamp_color(c),
{
    Color {
        r: if c.r < 0 { 0 } else if c.r > FP { FP } else { c.r },
        g: if c.g < 0 { 0 } else if c.g > FP { FP } else { c.g },
        b: if c.b < 0 { 0 } else if c.b > FP { FP } else { c.b },
    }
}

/// The canvas buffers after applying a sequence of depth-tested pixel
/// writes, first `n` writes only.
pub open spec fn apply_depth_pixels_spec(
    pix: Seq<Color>, dep: Seq<i64>, w: int, h: int, ps: Seq<DepthPixel>, n: int,
) -> (Seq<Color>, Seq<i64>)
    decreases n,
{
    if n <= 0 {
        (pix, dep)
    } else {
        let prev = apply_depth_pixels_spec(pix, dep, w, h, ps, n - 1);
        let p = ps[n - 1];
        put_depth_spec(prev.0, prev.1, w, h, p.x as int, p.y as int, p.z_inv, p.color)
    }
}

impl Canvas {
    /// Applies a whole sequence of depth-tested pixel writes, in order.
    pub fn blit_depth_pixels(&mut self, ps: &Vec<DepthPixel>)
        requires
            old(self).wf(),
            forall|k: int| 0 <= k < ps@.len() ==> {
                let p = #[trigger] ps@[k];
                -0x100_0000 <= p.x <= 0x100_0000 && -0x100_0000 <= p.y <= 0x100_0000
            },
        ensures
            final(self).wf(),
            final(self).width == old(self).width,
            final(self).height == old(self).height,
            ({
                let s = apply_depth_pixels_spec(old(self).pixels@, old(self).depth@,
                    old(self).width as int, old(self).height as int, ps@, ps@.len() as int);
                final(self).pixels@ == s.0 && final(self).depth@ == s.1
            }),
    {
        let ghost pix0 = self.pixels@;
        let ghost dep0 = self.depth@;
        let mut k: usize = 0;
        while k < ps.len()
            invariant
                self.wf(),
                self.width == old(self).width,
                self.height == old(self).height,
                forall|m: int| 0 <= m < ps@.len() ==> {
                    let p = #[trigger] ps@[m];
                    -0x100_0000 <= p.x <= 0x100_0000 && -0x100_0000 <= p.y <= 0x100_0000
                },
                k <= ps@.len(),
                ({
                    let s = apply_depth_pixels_spec(pix0, dep0, self.width as int,
                        self.height as int, ps@, k as int);
                    self.pixels@ == s.0 && self.depth@ == s.1
                }),
                pix0 == old(self).pixels@,
                dep0 == old(self).depth@,
            decreases ps@.len() - k,
        {
            let p = ps[k];
            self.put_pixel_with_depth(p.x, p.y, p.z_inv, p.color);
            k = k + 1;
        }
    }
}

} // verus!
