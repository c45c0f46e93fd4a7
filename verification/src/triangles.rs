//! The projection and clipping engine: a pull-based generator over one
//! instance's triangles.
//!
//! The generator is constructed once per instance per frame in one of
//! three mutually exclusive modes:
//!
//! - `Empty`: the instance's bounding sphere lies entirely behind one of
//!   the five clip planes; nothing is produced.
//! - `Full`: the bounding sphere lies entirely in front of every plane;
//!   clipping is skipped, every model vertex is projected once, and each
//!   model triangle is emitted with its projected vertices and color.
//! - `Partial`: the sphere straddles a plane; each model triangle is
//!   independently clipped against all five planes in order, and the
//!   surviving pieces are projected and buffered for emission one at a
//!   time.
//!
//! In every mode the generator hands out one screen-space triangle per
//! call to `next`, in model-triangle order.

use vstd::prelude::*;
use crate::fx::FP;
use crate::raster::Color;
use crate::raster::CANVAS_MAX;
use crate::raster::DEPTH_MAX;
use crate::clip::HVec;
use crate::clip::Plane;
use crate::clip::ClipTriangle;
use crate::clip::plane_g;
use crate::clip::plane_ok;
use crate::clip::hvec_ok;
use crate::clip::tri_ok;
use crate::clip::clip_spec;
use crate::clip::clip_triangle_against_plane;
use crate::clip::normalize_spec;
use crate::clip::normalize_hvec;
use crate::clip::canvas_pt_spec;
use crate::clip::canvas_pt;
use crate::clip::viewport_ok;
use crate::clip::frustum_planes_spec;
use crate::clip::frustum_planes;
use crate::matrix::Mat4;

verus! {

/// A screen-space triangle: three `(canvas x, canvas y, fixed-point
/// depth)` vertices and a flat color, ready for the depth-tested filler
/// after a backface-cull test.
#[derive(Clone, Copy, PartialEq, Eq, Debug)]
pub struct CanvasTriangle {
    pub a: (i64, i64, i64),
    pub b: (i64, i64, i64),
    pub c: (i64, i64, i64),
    pub color: Color,
}

/// Whether a projected vertex is within the ranges the projection
/// guarantees.
pub open spec fn canvas_vert_ok(v: (i64, i64, i64)) -> bool {
    &&& -CANVAS_MAX <= v.0 <= CANVAS_MAX
    &&& -CANVAS_MAX <= v.1 <= CANVAS_MAX
    &&& 0 <= v.2 <= DEPTH_MAX
}

/// Whether all of a screen-space triangle's vertices are in range.
pub open spec fn canvas_tri_ok(t: CanvasTriangle) -> bool {
    canvas_vert_ok(t.a) && canvas_vert_ok(t.b) && canvas_vert_ok(t.c)
}

/// One projected vertex as an `i64` triple.
pub open spec fn canvas_vert_spec(v_w: i64, v_h: i64, d: i64, c_w: i64, c_h: i64, v: HVec)
    -> (i64, i64, i64) {
    let s = canvas_pt_spec(v_w, v_h, d, c_w, c_h, v);
    (s.0 as i64, s.1 as i64, s.2 as i64)
}

/// A clipped triangle projected to screen space.
pub open spec fn canvas_tri_spec(v_w: i64, v_h: i64, d: i64, c_w: i64, c_h: i64, t: ClipTriangle)
    -> CanvasTriangle {
    CanvasTriangle {
        a: canvas_vert_spec(v_w, v_h, d, c_w, c_h, t.a),
        b: canvas_vert_spec(v_w, v_h, d, c_w, c_h, t.b),
        c: canvas_vert_spec(v_w, v_h, d, c_w, c_h, t.c),
        color: t.color,
    }
}

/// A clip triangle with each vertex scaled back into the accepted
/// clipping range.
pub open spec fn norm_tri_spec(t: ClipTriangle) -> ClipTriangle {
    ClipTriangle {
        a: normalize_spec(t.a),
        b: normalize_spec(t.b),
        c: normalize_spec(t.c),
        color: t.color,
    }
}

/// One round of clipping: every candidate triangle is clipped against
/// the plane and the pieces (normalized) are concatenated in order.
pub open spec fn clip_round_spec(ts: Seq<ClipTriangle>, p: Plane) -> Seq<ClipTriangle>
    decreases ts.len(),
{
    if ts.len() == 0 {
        Seq::empty()
    } else {
        clip_round_spec(ts.drop_last(), p)
            + clip_spec(ts.last(), p).map_values(|t: ClipTriangle| norm_tri_spec(t))
    }
}

/// The candidates after clipping against the first `i` planes.
pub open spec fn clip_upto_spec(ts0: Seq<ClipTriangle>, planes: Seq<Plane>, i: int)
    -> Seq<ClipTriangle>
    decreases i,
{
    if i <= 0 {
        ts0
    } else {
        clip_round_spec(clip_upto_spec(ts0, planes, i - 1), planes[i - 1])
    }
}

/// The screen-space triangles one model triangle contributes after
/// clipping against all planes and projecting.
pub open spec fn tri_output_spec(
    verts: Seq<HVec>, tri: (usize, usize, usize), color: Color, planes: Seq<Plane>,
    v_w: i64, v_h: i64, d: i64, c_w: i64, c_h: i64,
) -> Seq<CanvasTriangle> {
    let t0 = ClipTriangle { a: verts[tri.0 as int], b: verts[tri.1 as int],
        c: verts[tri.2 as int], color };
    clip_upto_spec(seq![t0], planes, planes.len() as int)
        .map_values(|t: ClipTriangle| canvas_tri_spec(v_w, v_h, d, c_w, c_h, t))
}

/// The concatenated outputs of the first `n` model triangles.
pub open spec fn partial_emit_upto(
    verts: Seq<HVec>, tris: Seq<(usize, usize, usize)>, colors: Seq<Color>, planes: Seq<Plane>,
    v_w: i64, v_h: i64, d: i64, c_w: i64, c_h: i64, n: int,
) -> Seq<CanvasTriangle>
    decreases n,
{
    if n <= 0 {
        Seq::empty()
    } else {
        partial_emit_upto(verts, tris, colors, planes, v_w, v_h, d, c_w, c_h, n - 1)
            + tri_output_spec(verts, tris[n - 1], colors[n - 1], planes, v_w, v_h, d, c_w, c_h)
    }
}

/// The projected triangles of the first `n` model triangles in the
/// unclipped mode.
pub open spec fn full_emit_upto(
    projected: Seq<(i64, i64, i64)>, tris: Seq<(usize, usize, usize)>, colors: Seq<Color>, n: int,
) -> Seq<CanvasTriangle>
    decreases n,
{
    if n <= 0 {
        Seq::empty()
    } else {
        full_emit_upto(projected, tris, colors, n - 1).push(CanvasTriangle {
            a: projected[tris[n - 1].0 as int],
            b: projected[tris[n - 1].1 as int],
            c: projected[tris[n - 1].2 as int],
            color: colors[n - 1],
        })
    }
}

/// The generator over one instance's screen-space triangles.
pub enum Triangles {
    /// The instance is entirely outside the frustum.
    Empty,
    /// The instance straddles a clip plane: each model triangle is
    /// clipped on demand and the pieces are buffered in `temp`.
    Partial {
        verts: Vec<HVec>,
        triangles: Vec<(usize, usize, usize)>,
        colors: Vec<Color>,
        planes: Vec<Plane>,
        v_w: i64,
        v_h: i64,
        d: i64,
        c_w: i64,
        c_h: i64,
        next_idx: usize,
        temp: Vec<CanvasTriangle>,
        temp_idx: usize,
    },
    /// The instance is entirely inside the frustum: all vertices are
    /// already projected and triangles are emitted by index.
    Full {
        projected: Vec<(i64, i64, i64)>,
        triangles: Vec<(usize, usize, usize)>,
        colors: Vec<Color>,
        next_idx: usize,
    },
}

impl Triangles {
    /// Structural validity of the generator state.
    pub open spec fn wf(self) -> bool {
        match self {
            Triangles::Empty => true,
            Triangles::Full { projected, triangles, colors, next_idx } => {
                &&& colors@.len() == triangles@.len()
                &&& next_idx <= triangles@.len()
                &&& forall|k: int| 0 <= k < triangles@.len() ==> {
                    let t = #[trigger] triangles@[k];
                    t.0 < projected@.len() && t.1 < projected@.len() && t.2 < projected@.len()
                }
                &&& forall|k: int| 0 <= k < projected@.len()
                    ==> canvas_vert_ok(#[trigger] projected@[k])
            },
            Triangles::Partial {
                verts, triangles, colors, planes, v_w, v_h, d, c_w, c_h, next_idx, temp, temp_idx,
            } => {
                &&& colors@.len() == triangles@.len()
                &&& next_idx <= triangles@.len()
                &&& forall|k: int| 0 <= k < triangles@.len() ==> {
                    let t = #[trigger] triangles@[k];
                    t.0 < verts@.len() && t.1 < verts@.len() && t.2 < verts@.len()
                }
                &&& forall|k: int| 0 <= k < verts@.len() ==> hvec_ok(#[trigger] verts@[k])
                &&& forall|k: int| 0 <= k < planes@.len() ==> plane_ok(#[trigger] planes@[k])
                &&& viewport_ok(v_w, v_h, d, c_w, c_h)
                &&& temp_idx <= temp@.len()
                &&& (temp_idx < temp@.len() ==> {
                    &&& next_idx >= 1
                    &&& temp@ == tri_output_spec(verts@, triangles@[next_idx - 1],
                        colors@[next_idx - 1], planes@, v_w, v_h, d, c_w, c_h)
                })
            },
        }
    }

    /// The complete sequence of screen-space triangles this generator
    /// stands for.
    pub open spec fn emission(self) -> Seq<CanvasTriangle> {
        match self {
            Triangles::Empty => Seq::empty(),
            Triangles::Full { projected, triangles, colors, next_idx } =>
                full_emit_upto(projected@, triangles@, colors@, triangles@.len() as int),
            Triangles::Partial {
                verts, triangles, colors, planes, v_w, v_h, d, c_w, c_h, next_idx, temp, temp_idx,
            } => partial_emit_upto(verts@, triangles@, colors@, planes@, v_w, v_h, d, c_w, c_h,
                triangles@.len() as int),
        }
    }

    /// How many triangles have already been handed out.
    pub open spec fn pos(self) -> int {
        match self {
            Triangles::Empty => 0,
            Triangles::Full { projected, triangles, colors, next_idx } => next_idx as int,
            Triangles::Partial {
                verts, triangles, colors, planes, v_w, v_h, d, c_w, c_h, next_idx, temp, temp_idx,
            } => partial_emit_upto(verts@, triangles@, colors@, planes@, v_w, v_h, d, c_w, c_h,
                next_idx as int).len() - (temp@.len() - temp_idx),
        }
    }
}

/// Every element of a full-mode emission prefix is the triangle built
/// from its index.
proof fn lemma_full_emit_index(
    projected: Seq<(i64, i64, i64)>, tris: Seq<(usize, usize, usize)>, colors: Seq<Color>,
    n: int, k: int,
)
    requires
        0 <= k < n,
    ensures
        full_emit_upto(projected, tris, colors, n).len() == n,
        full_emit_upto(projected, tris, colors, n)[k] == (CanvasTriangle {
            a: projected[tris[k].0 as int],
            b: projected[tris[k].1 as int],
            c: projected[tris[k].2 as int],
            color: colors[k],
        }),
    decreases n,
{
    lemma_full_emit_len(projected, tris, colors, n);
    if k < n - 1 {
        lemma_full_emit_index(projected, tris, colors, n - 1, k);
    }
}

/// The length of a full-mode emission prefix equals its index bound.
proof fn lemma_full_emit_len(
    projected: Seq<(i64, i64, i64)>, tris: Seq<(usize, usize, usize)>, colors: Seq<Color>, n: int,
)
    requires
        n >= 0,
    ensures
        full_emit_upto(projected, tris, colors, n).len() == n,
    decreases n,
{
    if n > 0 {
        lemma_full_emit_len(projected, tris, colors, n - 1);
    }
}

/// A shorter partial-mode emission prefix is a pointwise prefix of a
/// longer one.
proof fn lemma_partial_emit_prefix(
    verts: Seq<HVec>, tris: Seq<(usize, usize, usize)>, colors: Seq<Color>, planes: Seq<Plane>,
    v_w: i64, v_h: i64, d: i64, c_w: i64, c_h: i64, k1: int, k2: int,
)
    requires
        0 <= k1 <= k2,
    ensures
        partial_emit_upto(verts, tris, colors, planes, v_w, v_h, d, c_w, c_h, k1).len()
            <= partial_emit_upto(verts, tris, colors, planes, v_w, v_h, d, c_w, c_h, k2).len(),
        forall|i: int| 0 <= i < partial_emit_upto(verts, tris, colors, planes,
            v_w, v_h, d, c_w, c_h, k1).len()
            ==> partial_emit_upto(verts, tris, colors, planes, v_w, v_h, d, c_w, c_h, k2)[i]
                == partial_emit_upto(verts, tris, colors, planes, v_w, v_h, d, c_w, c_h, k1)[i],
    decreases k2,
{
    if k2 > k1 {
        lemma_partial_emit_prefix(verts, tris, colors, planes, v_w, v_h, d, c_w, c_h, k1, k2 - 1);
    }
}

impl Triangles {
    /// Produces the next screen-space triangle, or `None` once every
    /// triangle of the instance has been emitted.  Triangles come out in
    /// model-triangle order; in the clipping mode the pieces of one
    /// model triangle are emitted before the next model triangle is
    /// clipped.
    pub fn next(&mut self) -> (r: Option<CanvasTriangle>)
        requires
            old(self).wf(),
        ensures
            final(self).wf(),
            final(self).emission() == old(self).emission(),
            old(self).pos() < old(self).emission().len() ==> {
                &&& r == Some(old(self).emission()[old(self).pos()])
                &&& final(self).pos() == old(self).pos() + 1
            },
            old(self).pos() >= old(self).emission().len() ==> {
                &&& r is None
                &&& final(self).pos() == old(self).pos()
            },
    {
        match self {
            Triangles::Empty => None,
            Triangles::Full { projected, triangles, colors, next_idx } => {
                proof {
                    lemma_full_emit_len(projected@, triangles@, colors@,
                        triangles@.len() as int);
                }
                if *next_idx < triangles.len() {
                    let k = *next_idx;
                    let t = triangles[k];
                    let col = colors[k];
                    let tri = CanvasTriangle {
                        a: projected[t.0],
                        b: projected[t.1],
                        c: projected[t.2],
                        color: col,
                    };
                    *next_idx = k + 1;
                    proof {
                        lemma_full_emit_index(projected@, triangles@, colors@,
                            triangles@.len() as int, k as int);
                    }
                    Some(tri)
                } else {
                    None
                }
            },
            Triangles::Partial {
                verts, triangles, colors, planes, v_w, v_h, d, c_w, c_h, next_idx, temp, temp_idx,
            } => {
                let ghost gverts = verts@;
                let ghost gtris = triangles@;
                let ghost gcolors = colors@;
                let ghost gplanes = planes@;
                let ghost total = triangles@.len() as int;
                let ghost pos0 = partial_emit_upto(gverts, gtris, gcolors, gplanes,
                    *v_w, *v_h, *d, *c_w, *c_h, *next_idx as int).len()
                    - (temp@.len() - *temp_idx);
                // Refill the buffer until it has an unserved piece or the
                // model triangles run out.
                while *temp_idx >= temp.len() && *next_idx < triangles.len()
                    invariant
                        colors@.len() == triangles@.len(),
                        *next_idx <= triangles@.len(),
                        forall|k: int| 0 <= k < triangles@.len() ==> {
                            let t = #[trigger] triangles@[k];
                            t.0 < verts@.len() && t.1 < verts@.len() && t.2 < verts@.len()
                        },
                        forall|k: int| 0 <= k < verts@.len() ==> hvec_ok(#[trigger] verts@[k]),
                        forall|k: int| 0 <= k < planes@.len()
                            ==> plane_ok(#[trigger] planes@[k]),
                        viewport_ok(*v_w, *v_h, *d, *c_w, *c_h),
                        *temp_idx <= temp@.len(),
                        gverts == verts@ && gtris == triangles@ && gcolors == colors@
                            && gplanes == planes@,
                        total == triangles@.len() as int,
                        *temp_idx < temp@.len() ==> *next_idx >= 1
                            && temp@ == tri_output_spec(verts@, triangles@[*next_idx - 1],
                                colors@[*next_idx - 1], planes@, *v_w, *v_h, *d, *c_w, *c_h),
                        pos0 == partial_emit_upto(gverts, gtris, gcolors, gplanes,
                            *v_w, *v_h, *d, *c_w, *c_h, *next_idx as int).len()
                            - (temp@.len() - *temp_idx),
                    decreases triangles@.len() - *next_idx,
                {
                    let k = *next_idx;
                    let t = triangles[k];
                    let col = colors[k];
                    let out = clip_and_project(verts, t, col, planes, *v_w, *v_h, *d, *c_w, *c_h);
                    *next_idx = k + 1;
                    *temp = out;
                    *temp_idx = 0;
                }
                if *temp_idx < temp.len() {
                    let served = temp[*temp_idx];
                    let ghost tidx = *temp_idx as int;
                    *temp_idx = *temp_idx + 1;
                    proof {
                        let prev = partial_emit_upto(gverts, gtris, gcolors, gplanes,
                            *v_w, *v_h, *d, *c_w, *c_h, *next_idx - 1);
                        let cur = partial_emit_upto(gverts, gtris, gcolors, gplanes,
                            *v_w, *v_h, *d, *c_w, *c_h, *next_idx as int);
                        assert(cur == prev + temp@);
                        assert(pos0 == prev.len() + tidx);
                        lemma_partial_emit_prefix(gverts, gtris, gcolors, gplanes,
                            *v_w, *v_h, *d, *c_w, *c_h, *next_idx as int, total);
                        assert(partial_emit_upto(gverts, gtris, gcolors, gplanes,
                            *v_w, *v_h, *d, *c_w, *c_h, total)[pos0] == cur[pos0]);
                        assert(cur[pos0] == temp@[tidx]);
                    }
                    Some(served)
                } else {
                    proof {
                        assert(*next_idx as int == total);
                    }
                    None
                }
            },
        }
    }
}

/// Clips one model triangle against every plane in order, normalizing
/// each produced vertex, and projects the surviving pieces to screen
/// space.
fn clip_and_project(
    verts: &Vec<HVec>, tri: (usize, usize, usize), color: Color, planes: &Vec<Plane>,
    v_w: i64, v_h: i64, d: i64, c_w: i64, c_h: i64,
) -> (r: Vec<CanvasTriangle>)
    requires
        forall|k: int| 0 <= k < verts@.len() ==> hvec_ok(#[trigger] verts@[k]),
        tri.0 < verts@.len() && tri.1 < verts@.len() && tri.2 < verts@.len(),
        forall|k: int| 0 <= k < planes@.len() ==> plane_ok(#[trigger] planes@[k]),
        viewport_ok(v_w, v_h, d, c_w, c_h),
    ensures
        r@ == tri_output_spec(verts@, tri, color, planes@, v_w, v_h, d, c_w, c_h),
        forall|k: int| 0 <= k < r@.len() ==> canvas_tri_ok(#[trigger] r@[k]),
{
    let t0 = ClipTriangle { a: verts[tri.0], b: verts[tri.1], c: verts[tri.2], color };
    let mut cands: Vec<ClipTriangle> = Vec::new();
    cands.push(t0);
    proof {
        assert(cands@ =~= seq![t0]);
        assert(clip_upto_spec(seq![t0], planes@, 0) == seq![t0]);
    }
    let mut i: usize = 0;
    while i < planes.len()
        invariant
            forall|k: int| 0 <= k < planes@.len() ==> plane_ok(#[trigger] planes@[k]),
            i <= planes@.len(),
            cands@ == clip_upto_spec(seq![t0], planes@, i as int),
            forall|k: int| 0 <= k < cands@.len() ==> tri_ok(#[trigger] cands@[k]),
        decreases planes@.len() - i,
    {
        let p = planes[i];
        let mut next_cands: Vec<ClipTriangle> = Vec::new();
        let mut j: usize = 0;
        while j < cands.len()
            invariant
                plane_ok(p),
                j <= cands@.len(),
                forall|k: int| 0 <= k < cands@.len() ==> tri_ok(#[trigger] cands@[k]),
                next_cands@ == clip_round_spec(cands@.take(j as int), p),
                forall|k: int| 0 <= k < next_cands@.len()
                    ==> tri_ok(#[trigger] next_cands@[k]),
            decreases cands@.len() - j,
        {
            let t = cands[j];
            let pieces = clip_triangle_against_plane(&t, &p);
            let ghost prev_next = next_cands@;
            let mut q: usize = 0;
            while q < pieces.len()
                invariant
                    plane_ok(p),
                    tri_ok(t),
                    pieces@ == clip_spec(t, p),
                    forall|k: int| 0 <= k < pieces@.len()
                        ==> crate::clip::tri_out_ok(#[trigger] pieces@[k]),
                    q <= pieces@.len(),
                    next_cands@.len() == prev_next.len() + q,
                    forall|k: int| 0 <= k < prev_next.len()
                        ==> #[trigger] next_cands@[k] == prev_next[k],
                    forall|k: int| prev_next.len() <= k < next_cands@.len()
                        ==> #[trigger] next_cands@[k]
                            == norm_tri_spec(pieces@[k - prev_next.len()]),
                    forall|k: int| 0 <= k < next_cands@.len()
                        ==> tri_ok(#[trigger] next_cands@[k]),
                decreases pieces@.len() - q,
            {
                let piece = pieces[q];
                let nt = ClipTriangle {
                    a: normalize_hvec(&piece.a),
                    b: normalize_hvec(&piece.b),
                    c: normalize_hvec(&piece.c),
                    color: piece.color,
                };
                next_cands.push(nt);
                q = q + 1;
            }
            proof {
                assert(cands@.take(j + 1).drop_last() =~= cands@.take(j as int));
                assert(cands@.take(j + 1).last() == cands@[j as int]);
                assert(next_cands@ =~= clip_round_spec(cands@.take(j + 1), p)) by {
                    assert(clip_round_spec(cands@.take(j + 1), p)
                        == clip_round_spec(cands@.take(j as int), p)
                            + clip_spec(cands@[j as int], p)
                                .map_values(|x: ClipTriangle| norm_tri_spec(x)));
                }
            }
            j = j + 1;
        }
        proof {
            assert(cands@.take(cands@.len() as int) =~= cands@);
        }
        cands = next_cands;
        i = i + 1;
    }
    proof {
        assert(cands@ == clip_upto_spec(seq![t0], planes@, planes@.len() as int));
    }
    // Project the surviving pieces to screen space.
    let mut out: Vec<CanvasTriangle> = Vec::new();
    let mut k: usize = 0;
    while k < cands.len()
        invariant
            viewport_ok(v_w, v_h, d, c_w, c_h),
            k <= cands@.len(),
            forall|m: int| 0 <= m < cands@.len() ==> tri_ok(#[trigger] cands@[m]),
            out@.len() == k,
            forall|m: int| 0 <= m < out@.len() ==> #[trigger] out@[m]
                == canvas_tri_spec(v_w, v_h, d, c_w, c_h, cands@[m]),
            forall|m: int| 0 <= m < out@.len() ==> canvas_tri_ok(#[trigger] out@[m]),
        decreases cands@.len() - k,
    {
        let t = cands[k];
        let pa = canvas_pt(v_w, v_h, d, c_w, c_h, &t.a);
        let pb = canvas_pt(v_w, v_h, d, c_w, c_h, &t.b);
        let pc = canvas_pt(v_w, v_h, d, c_w, c_h, &t.c);
        out.push(CanvasTriangle { a: pa, b: pb, c: pc, color: t.color });
        k = k + 1;
    }
    proof {
        assert(out@ =~= tri_output_spec(verts@, tri, color, planes@, v_w, v_h, d, c_w, c_h));
    }
    out
}

/// Projects one homogeneous camera-space point to a canvas point with
/// its fixed-point depth: the point is normalized into clipping range
/// and perspective-divided.
pub fn homogeneous_3d_to_canvas(
    v_w: i64, v_h: i64, d: i64, c_w: i64, c_h: i64, point: &crate::matrix::Vec4,
) -> (r: (i64, i64, i64))
    requires
        viewport_ok(v_w, v_h, d, c_w, c_h),
        point.w > 0,
    ensures
        ({
            let nv = normalize_spec(HVec {
                x: point.x as i128, y: point.y as i128, z: point.z as i128, w: point.w as i128,
            });
            r == canvas_vert_spec(v_w, v_h, d, c_w, c_h, nv)
        }),
{
    let hv = HVec {
        x: point.x as i128, y: point.y as i128, z: point.z as i128, w: point.w as i128,
    };
    let nv = crate::clip::normalize_hvec(&hv);
    canvas_pt(v_w, v_h, d, c_w, c_h, &nv)
}

/// The squared coefficient length of a plane's normal.
pub open spec fn plane_n2(p: Plane) -> int {
    p.a * p.a + p.b * p.b + p.c * p.c
}

/// The instance centre in camera space, as a homogeneous vertex.
pub open spec fn center_hvec_spec(camera_m_inv: Mat4, position: crate::matrix::Vec3) -> HVec {
    let c4 = crate::matrix::mat_vec_spec(camera_m_inv, crate::matrix::Vec4 {
        x: position.x, y: position.y, z: position.z, w: FP,
    });
    HVec { x: c4.x as i128, y: c4.y as i128, z: c4.z as i128, w: c4.w as i128 }
}

/// Whether the sphere of radius square `rsq` around `ch` lies entirely
/// behind the plane: the centre's signed form value is nonpositive and
/// its square is at least the radius square scaled by the squared
/// normal length.
pub open spec fn sphere_fully_behind(p: Plane, ch: HVec, rsq: int) -> bool {
    plane_g(p, ch) <= 0 && plane_g(p, ch) * plane_g(p, ch) >= rsq * plane_n2(p)
}

/// Whether the sphere lies entirely in front of the plane.
pub open spec fn sphere_fully_front(p: Plane, ch: HVec, rsq: int) -> bool {
    plane_g(p, ch) >= 0 && plane_g(p, ch) * plane_g(p, ch) >= rsq * plane_n2(p)
}

/// Whether the sphere is entirely behind at least one of the planes.
pub open spec fn any_behind(planes: Seq<Plane>, ch: HVec, rsq: int) -> bool {
    exists|i: int| 0 <= i < planes.len() && sphere_fully_behind(#[trigger] planes[i], ch, rsq)
}

/// Whether the sphere is entirely in front of every plane.
pub open spec fn all_front(planes: Seq<Plane>, ch: HVec, rsq: int) -> bool {
    forall|i: int| 0 <= i < planes.len() ==> sphere_fully_front(#[trigger] planes[i], ch, rsq)
}

/// Decides, exactly, on which side of one plane the bounding sphere
/// lies: returns `(fully behind, fully in front)`.  The comparison of
/// the signed form value against the radius is made with integer
/// squares, so no square root is ever taken.
fn sphere_test(p: &Plane, ch: &HVec, rsq: i64) -> (r: (bool, bool))
    requires
        plane_ok(*p),
        -0x8000_0000_0000 <= ch.x <= 0x8000_0000_0000,
        -0x8000_0000_0000 <= ch.y <= 0x8000_0000_0000,
        -0x8000_0000_0000 <= ch.z <= 0x8000_0000_0000,
        0 < ch.w <= 0x8000_0000_0000,
        0 <= rsq <= crate::scene::RADIUS_SQ_MAX,
    ensures
        r.0 == sphere_fully_behind(*p, *ch, rsq as int),
        r.1 == sphere_fully_front(*p, *ch, rsq as int),
{
    let g: i128 = crate::fx::mul_i128(p.a as i128, ch.x)
        + crate::fx::mul_i128(p.b as i128, ch.y)
        + crate::fx::mul_i128(p.c as i128, ch.z)
        - crate::fx::mul_i128(p.d as i128, ch.w);
    proof {
        crate::matrix::lemma_abs_prod_le(p.a as int, ch.x as int, 0x20_0000, 0x8000_0000_0000);
        crate::matrix::lemma_abs_prod_le(p.b as int, ch.y as int, 0x20_0000, 0x8000_0000_0000);
        crate::matrix::lemma_abs_prod_le(p.c as int, ch.z as int, 0x20_0000, 0x8000_0000_0000);
        crate::matrix::lemma_abs_prod_le(p.d as int, ch.w as int, 0x20_0000, 0x8000_0000_0000);
    }
    let n2: i128 = crate::fx::mul_i128(p.a as i128, p.a as i128)
        + crate::fx::mul_i128(p.b as i128, p.b as i128)
        + crate::fx::mul_i128(p.c as i128, p.c as i128);
    proof {
        crate::matrix::lemma_abs_prod_le(p.a as int, p.a as int, 0x20_0000, 0x20_0000);
        crate::matrix::lemma_abs_prod_le(p.b as int, p.b as int, 0x20_0000, 0x20_0000);
        crate::matrix::lemma_abs_prod_le(p.c as int, p.c as int, 0x20_0000, 0x20_0000);
        assert(n2 >= 0) by (nonlinear_arith)
            requires
                n2 == p.a * p.a + p.b * p.b + p.c * p.c,
        ;
    }
    let rn: i128 = crate::fx::mul_i128(rsq as i128, n2);
    proof {
        crate::matrix::lemma_abs_prod_le(rsq as int, n2 as int, 0x400_0000_0000_0000,
            0xc00_0000_0000);
        // rn is at most 2^102, so any |g| of at least 2^52 squares past it.
    }
    let big: i128 = 0x10_0000_0000_0000;
    let ge: bool = if g >= big || g <= -big {
        proof {
            assert(g * g >= rn) by (nonlinear_arith)
                requires
                    g >= 0x10_0000_0000_0000 || g <= -0x10_0000_0000_0000,
                    rn <= 0x30_0000_0000_0000_0000_0000_0000,
            ;
        }
        true
    } else {
        let gsq: i128 = crate::fx::mul_i128(g, g);
        gsq >= rn
    };
    (g <= 0 && ge, g >= 0 && ge)
}

/// The camera-space vertex of one model vertex under the combined
/// transform, normalized into clipping range.
pub open spec fn transformed_vert_spec(m: Mat4, v: crate::matrix::Vec4) -> HVec {
    let tv = crate::matrix::mat_vec_spec(m, v);
    normalize_spec(HVec { x: tv.x as i128, y: tv.y as i128, z: tv.z as i128, w: tv.w as i128 })
}

/// All model vertices transformed into camera space.
pub open spec fn instance_verts_spec(m: Mat4, verts: Seq<crate::matrix::Vec4>) -> Seq<HVec> {
    verts.map_values(|v: crate::matrix::Vec4| transformed_vert_spec(m, v))
}

/// All model vertices transformed and projected straight to screen
/// space (the unclipped mode).
pub open spec fn full_projected_spec(
    m: Mat4, verts: Seq<crate::matrix::Vec4>, v_w: i64, v_h: i64, d: i64, c_w: i64, c_h: i64,
) -> Seq<(i64, i64, i64)> {
    verts.map_values(|v: crate::matrix::Vec4|
        canvas_vert_spec(v_w, v_h, d, c_w, c_h, transformed_vert_spec(m, v)))
}

/// The complete emission of one instance under `project_and_clip`: no
/// triangles when the bounding sphere is entirely behind a plane, the
/// plain projected triangles when it is entirely in front of every
/// plane, and the per-triangle clipped pieces otherwise.
pub open spec fn instance_emission(
    model: crate::scene::Model, inst: crate::scene::Instance, camera_m_inv: Mat4,
    v_w: i64, v_h: i64, d: i64, c_w: i64, c_h: i64,
) -> Seq<CanvasTriangle> {
    let m = crate::matrix::mat_mul_spec(camera_m_inv,
        crate::scene::transform_of(inst.scale, inst.rotation, inst.position));
    let ch = center_hvec_spec(camera_m_inv, inst.position);
    let rsq = crate::scene::radius_sq_upto(model.vertices@, inst.scale,
        model.vertices@.len() as int);
    let planes = frustum_planes_spec(v_w, v_h, d);
    if any_behind(planes, ch, rsq) {
        Seq::empty()
    } else if all_front(planes, ch, rsq) {
        full_emit_upto(full_projected_spec(m, model.vertices@, v_w, v_h, d, c_w, c_h),
            model.triangles@, model.triangle_colors@, model.triangles@.len() as int)
    } else {
        partial_emit_upto(instance_verts_spec(m, model.vertices@), model.triangles@,
            model.triangle_colors@, planes, v_w, v_h, d, c_w, c_h,
            model.triangles@.len() as int)
    }
}

/// Copies a triangle index list.
fn copy_tris(tris: &Vec<(usize, usize, usize)>) -> (r: Vec<(usize, usize, usize)>)
    ensures
        r@ == tris@,
{
    let mut out: Vec<(usize, usize, usize)> = Vec::new();
    let mut i: usize = 0;
    while i < tris.len()
        invariant
            i <= tris@.len(),
            out@ == tris@.take(i as int),
        decreases tris@.len() - i,
    {
        out.push(tris[i]);
        proof {
            assert(out@ =~= tris@.take(i + 1));
        }
        i = i + 1;
    }
    proof {
        assert(tris@.take(tris@.len() as int) =~= tris@);
    }
    out
}

/// Copies a color list.
fn copy_colors(cols: &Vec<Color>) -> (r: Vec<Color>)
    ensures
        r@ == cols@,
{
    let mut out: Vec<Color> = Vec::new();
    let mut i: usize = 0;
    while i < cols.len()
        invariant
            i <= cols@.len(),
            out@ == cols@.take(i as int),
        decreases cols@.len() - i,
    {
        out.push(cols[i]);
        proof {
            assert(out@ =~= cols@.take(i + 1));
        }
        i = i + 1;
    }
    proof {
        assert(cols@.take(cols@.len() as int) =~= cols@);
    }
    out
}

/// Transforms every model vertex into camera space, normalized.
fn transform_verts(m: &Mat4, model: &crate::scene::Model) -> (r: Vec<HVec>)
    requires
        crate::matrix::mat_in(*m, crate::matrix::MATV_M_MAX as int),
        crate::matrix::affine(*m),
        model.wf(),
    ensures
        r@ == instance_verts_spec(*m, model.vertices@),
        forall|k: int| 0 <= k < r@.len() ==> hvec_ok(#[trigger] r@[k]),
{
    let mut out: Vec<HVec> = Vec::new();
    let mut i: usize = 0;
    while i < model.vertices.len()
        invariant
            crate::matrix::mat_in(*m, crate::matrix::MATV_M_MAX as int),
            crate::matrix::affine(*m),
            model.wf(),
            i <= model.vertices@.len(),
            out@.len() == i,
            forall|k: int| 0 <= k < i ==> #[trigger] out@[k]
                == transformed_vert_spec(*m, model.vertices@[k]),
            forall|k: int| 0 <= k < out@.len() ==> hvec_ok(#[trigger] out@[k]),
        decreases model.vertices@.len() - i,
    {
        let v = model.vertices[i];
        let tv = crate::matrix::mat_vec_mul(m, &v);
        let hv = HVec { x: tv.x as i128, y: tv.y as i128, z: tv.z as i128, w: tv.w as i128 };
        proof {
            assert(tv.w > 0);
        }
        let nv = normalize_hvec(&hv);
        out.push(nv);
        i = i + 1;
    }
    proof {
        assert(out@ =~= instance_verts_spec(*m, model.vertices@));
    }
    out
}

impl crate::scene::Instance {
    /// Projects every vertex of the instance's model once and returns
    /// the generator that emits each model triangle with its projected
    /// vertices and flat color, in model order, with no clipping.
    pub fn project(
        &self, model: &crate::scene::Model, camera_m_inv: &Mat4,
        v_w: i64, v_h: i64, d: i64, c_w: i64, c_h: i64,
    ) -> (r: Triangles)
        requires
            self.wf(),
            model.wf(),
            crate::matrix::mat_in(*camera_m_inv, crate::matrix::INV_OUT_MAX as int),
            crate::matrix::affine(*camera_m_inv),
            viewport_ok(v_w, v_h, d, c_w, c_h),
        ensures
            r.wf(),
            r.pos() == 0,
            r.emission() == full_emit_upto(
                full_projected_spec(
                    crate::matrix::mat_mul_spec(*camera_m_inv,
                        crate::scene::transform_of(self.scale, self.rotation, self.position)),
                    model.vertices@, v_w, v_h, d, c_w, c_h),
                model.triangles@, model.triangle_colors@, model.triangles@.len() as int),
    {
        let tf = self.transform();
        proof {
            crate::matrix::lemma_mat_mul_bound(*camera_m_inv, tf,
                crate::matrix::INV_OUT_MAX as int, crate::scene::TRANSFORM_MAX as int);
            crate::matrix::lemma_mat_mul_affine(*camera_m_inv, tf);
        }
        let m = crate::matrix::mat_mul(camera_m_inv, &tf);
        let verts = transform_verts(&m, model);
        let mut projected: Vec<(i64, i64, i64)> = Vec::new();
        let mut i: usize = 0;
        while i < verts.len()
            invariant
                viewport_ok(v_w, v_h, d, c_w, c_h),
                forall|k: int| 0 <= k < verts@.len() ==> hvec_ok(#[trigger] verts@[k]),
                i <= verts@.len(),
                projected@.len() == i,
                forall|k: int| 0 <= k < i ==> #[trigger] projected@[k]
                    == canvas_vert_spec(v_w, v_h, d, c_w, c_h, verts@[k]),
                forall|k: int| 0 <= k < projected@.len()
                    ==> canvas_vert_ok(#[trigger] projected@[k]),
            decreases verts@.len() - i,
        {
            let p = canvas_pt(v_w, v_h, d, c_w, c_h, &verts[i]);
            projected.push(p);
            i = i + 1;
        }
        proof {
            assert(projected@ =~= full_projected_spec(
                crate::matrix::mat_mul_spec(*camera_m_inv,
                    crate::scene::transform_of(self.scale, self.rotation, self.position)),
                model.vertices@, v_w, v_h, d, c_w, c_h));
            lemma_full_emit_len(projected@, model.triangles@, model.triangle_colors@,
                model.triangles@.len() as int);
        }
        Triangles::Full {
            projected,
            triangles: copy_tris(&model.triangles),
            colors: copy_colors(&model.triangle_colors),
            next_idx: 0,
        }
    }

    /// Tests the instance's bounding sphere against the five frustum
    /// planes and returns the matching generator: nothing when the
    /// sphere is entirely behind a plane, the plain projection when it
    /// is entirely in front of every plane, and the per-triangle
    /// clipping generator otherwise.
    pub fn project_and_clip(
        &self, model: &crate::scene::Model, camera_m_inv: &Mat4,
        v_w: i64, v_h: i64, d: i64, c_w: i64, c_h: i64,
    ) -> (r: Triangles)
        requires
            self.wf(),
            model.wf(),
            crate::matrix::mat_in(*camera_m_inv, crate::matrix::INV_OUT_MAX as int),
            crate::matrix::affine(*camera_m_inv),
            viewport_ok(v_w, v_h, d, c_w, c_h),
        ensures
            r.wf(),
            r.pos() == 0,
            r.emission() == instance_emission(*model, *self, *camera_m_inv,
                v_w, v_h, d, c_w, c_h),
    {
        let rsq = self.radius_sq_from_origin(model);
        let c4 = crate::matrix::mat_vec_mul_pos(camera_m_inv, &crate::matrix::Vec4 {
            x: self.position.x, y: self.position.y, z: self.position.z, w: FP,
        });
        let ch = HVec { x: c4.x as i128, y: c4.y as i128, z: c4.z as i128, w: c4.w as i128 };
        proof {
            assert(ch == center_hvec_spec(*camera_m_inv, self.position));
            assert(c4.w == FP);
        }
        let planes = frustum_planes(v_w, v_h, d);
        let mut behind: bool = false;
        let mut front_all: bool = true;
        let mut i: usize = 0;
        while i < planes.len()
            invariant
                planes@ == frustum_planes_spec(v_w, v_h, d),
                forall|k: int| 0 <= k < planes@.len() ==> plane_ok(#[trigger] planes@[k]),
                -0x8000_0000_0000 <= ch.x <= 0x8000_0000_0000,
                -0x8000_0000_0000 <= ch.y <= 0x8000_0000_0000,
                -0x8000_0000_0000 <= ch.z <= 0x8000_0000_0000,
                0 < ch.w <= 0x8000_0000_0000,
                0 <= rsq <= crate::scene::RADIUS_SQ_MAX,
                i <= planes@.len(),
                behind == exists|k: int| 0 <= k < i
                    && sphere_fully_behind(#[trigger] planes@[k], ch, rsq as int),
                front_all == forall|k: int| 0 <= k < i
                    ==> sphere_fully_front(#[trigger] planes@[k], ch, rsq as int),
            decreases planes@.len() - i,
        {
            let p = planes[i];
            let (b, f) = sphere_test(&p, &ch, rsq);
            if b {
                behind = true;
            }
            if !f {
                front_all = false;
            }
            i = i + 1;
        }
        proof {
            assert(behind == any_behind(planes@, ch, rsq as int));
            assert(front_all == all_front(planes@, ch, rsq as int));
        }
        if behind {
            Triangles::Empty
        } else if front_all {
            self.project(model, camera_m_inv, v_w, v_h, d, c_w, c_h)
        } else {
            let tf = self.transform();
            proof {
                crate::matrix::lemma_mat_mul_bound(*camera_m_inv, tf,
                    crate::matrix::INV_OUT_MAX as int, crate::scene::TRANSFORM_MAX as int);
            }
            let m = crate::matrix::mat_mul(camera_m_inv, &tf);
            let verts = transform_verts(&m, model);
            Triangles::Partial {
                verts,
                triangles: copy_tris(&model.triangles),
                colors: copy_colors(&model.triangle_colors),
                planes,
                v_w,
                v_h,
                d,
                c_w,
                c_h,
                next_idx: 0,
                temp: Vec::new(),
                temp_idx: 0,
            }
        }
    }
}

} // verus!
