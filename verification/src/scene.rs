//! Scene and transform model: shared immutable models, instances with a
//! cached composite transform, the camera, backface culling and the
//! sample scenes.
//!
//! An instance owns a per-axis scale, a rotation matrix and a position;
//! its cached transform is always `translation * rotation * scale`, so
//! scaling and rotation act about the model's local origin.  Every
//! mutation of one of the three inputs recomputes the whole composite.

use vstd::prelude::*;
use crate::fx::FP;
use crate::fx::rdiv;
use crate::fx::rdiv_i128;
use crate::fx::mul_i128;
use crate::fx::lemma_rdiv_exact;
use crate::fx::lemma_rdiv_bound;
use crate::fx::lemma_rdiv_mono;
use crate::matrix::Mat4;
use crate::matrix::Vec3;
use crate::matrix::Vec4;
use crate::matrix::mat_in;
use crate::matrix::vec3_in;
use crate::matrix::affine;
use crate::matrix::dot_fx;
use crate::matrix::mat_mul;
use crate::matrix::mat_mul_spec;
use crate::matrix::translation_spec;
use crate::matrix::lemma_translation_mul;
use crate::matrix::lemma_mat_mul_affine;
use crate::matrix::lemma_abs_prod_le;
use crate::matrix::homogeneous_translation_vector;
use crate::matrix::homogeneous_scale_vector;
use crate::matrix::affine_inverse;
use crate::matrix::affine_inverse_ok;
use crate::matrix::affine_inverse_spec;
use crate::matrix::INV_OUT_MAX;
use crate::raster::Color;
use crate::raster::color_ok;

verus! {

/// Largest model vertex coordinate magnitude.
pub const MODEL_V_MAX: i64 = 0x40_0000;

/// Bounds on a model vertex's homogeneous component.
pub const MODEL_W_MIN: i64 = 0x4000;
pub const MODEL_W_MAX: i64 = 0x4_0000;

/// Largest per-axis scale factor magnitude.
pub const SCALE_MAX: i64 = 0x10_0000;

/// Largest rotation matrix entry magnitude.
pub const ROT_MAX: i64 = 0x2_0000;

/// Largest position component magnitude.
pub const POS_MAX: i64 = 0x2000_0000;

/// Largest entry magnitude of a composed instance transform.
pub const TRANSFORM_MAX: i64 = 0x8000_0000;

/// Largest bounding-sphere radius square.
pub const RADIUS_SQ_MAX: i64 = 0x400_0000_0000_0000;

/// Whether a model vertex is within range: bounded coordinates and a
/// positive homogeneous component of roughly unit size.
pub open spec fn vertex_ok(v: Vec4) -> bool {
    &&& -MODEL_V_MAX <= v.x <= MODEL_V_MAX
    &&& -MODEL_V_MAX <= v.y <= MODEL_V_MAX
    &&& -MODEL_V_MAX <= v.z <= MODEL_V_MAX
    &&& MODEL_W_MIN <= v.w <= MODEL_W_MAX
}

/// Immutable shared model data: vertices in homogeneous coordinates,
/// triangles as vertex index triples, and one flat color per triangle.
pub struct Model {
    pub vertices: Vec<Vec4>,
    pub triangles: Vec<(usize, usize, usize)>,
    pub triangle_colors: Vec<Color>,
}

impl Model {
    /// Well-formed model data: every vertex in range, every triangle
    /// index in range, and exactly one color per triangle.
    pub open spec fn wf(self) -> bool {
        &&& forall|i: int| 0 <= i < self.vertices@.len()
            ==> vertex_ok(#[trigger] self.vertices@[i])
        &&& forall|i: int| 0 <= i < self.triangles@.len() ==> {
            let t = #[trigger] self.triangles@[i];
            t.0 < self.vertices@.len() && t.1 < self.vertices@.len()
                && t.2 < self.vertices@.len()
        }
        &&& self.triangle_colors@.len() == self.triangles@.len()
        &&& forall|i: int| 0 <= i < self.triangle_colors@.len()
            ==> color_ok(#[trigger] self.triangle_colors@[i])
    }

    /// Checks well-formedness of caller-supplied model data.
    pub fn check(&self) -> (r: bool)
        ensures
            r == self.wf(),
    {
        let mut i: usize = 0;
        while i < self.vertices.len()
            invariant
                i <= self.vertices@.len(),
                forall|k: int| 0 <= k < i ==> vertex_ok(#[trigger] self.vertices@[k]),
            decreases self.vertices@.len() - i,
        {
            let v = self.vertices[i];
            if !(-MODEL_V_MAX <= v.x && v.x <= MODEL_V_MAX
                && -MODEL_V_MAX <= v.y && v.y <= MODEL_V_MAX
                && -MODEL_V_MAX <= v.z && v.z <= MODEL_V_MAX
                && MODEL_W_MIN <= v.w && v.w <= MODEL_W_MAX) {
                return false;
            }
            i = i + 1;
        }
        let mut j: usize = 0;
        while j < self.triangles.len()
            invariant
                j <= self.triangles@.len(),
                forall|k: int| 0 <= k < j ==> {
                    let t = #[trigger] self.triangles@[k];
                    t.0 < self.vertices@.len() && t.1 < self.vertices@.len()
                        && t.2 < self.vertices@.len()
                },
                forall|k: int| 0 <= k < self.vertices@.len()
                    ==> vertex_ok(#[trigger] self.vertices@[k]),
            decreases self.triangles@.len() - j,
        {
            let t = self.triangles[j];
            if !(t.0 < self.vertices.len() && t.1 < self.vertices.len()
                && t.2 < self.vertices.len()) {
                return false;
            }
            j = j + 1;
        }
        if self.triangle_colors.len() != self.triangles.len() {
            return false;
        }
        let mut c: usize = 0;
        while c < self.triangle_colors.len()
            invariant
                c <= self.triangle_colors@.len(),
                forall|k: int| 0 <= k < c ==> color_ok(#[trigger] self.triangle_colors@[k]),
                forall|k: int| 0 <= k < self.vertices@.len()
                    ==> vertex_ok(#[trigger] self.vertices@[k]),
                forall|k: int| 0 <= k < self.triangles@.len() ==> {
                    let t = #[trigger] self.triangles@[k];
                    t.0 < self.vertices@.len() && t.1 < self.vertices@.len()
                        && t.2 < self.vertices@.len()
                },
                self.triangle_colors@.len() == self.triangles@.len(),
            decreases self.triangle_colors@.len() - c,
        {
            let col = self.triangle_colors[c];
            if !(-crate::raster::COLOR_MAX <= col.r && col.r <= crate::raster::COLOR_MAX
                && -crate::raster::COLOR_MAX <= col.g && col.g <= crate::raster::COLOR_MAX
                && -crate::raster::COLOR_MAX <= col.b && col.b <= crate::raster::COLOR_MAX) {
                return false;
            }
            c = c + 1;
        }
        true
    }
}

/// A spec-level scaling transform.
pub open spec fn scale_spec(s: Vec3) -> Mat4 {
    Mat4 {
        m00: s.x, m01: 0, m02: 0, m03: 0,
        m10: 0, m11: s.y, m12: 0, m13: 0,
        m20: 0, m21: 0, m22: s.z, m23: 0,
        m30: 0, m31: 0, m32: 0, m33: FP,
    }
}

/// Whether instance parameters are within range; the rotation must be an
/// affine matrix with bounded entries (a rotation block and no
/// translation row).
pub open spec fn params_ok(scale: Vec3, rotation: Mat4, position: Vec3) -> bool {
    &&& vec3_in(scale, SCALE_MAX as int)
    &&& mat_in(rotation, ROT_MAX as int)
    &&& affine(rotation)
    &&& vec3_in(position, POS_MAX as int)
}

/// The composite transform `translation * rotation * scale`, composed
/// left to right exactly as the executable code computes it.
pub open spec fn transform_of(scale: Vec3, rotation: Mat4, position: Vec3) -> Mat4 {
    mat_mul_spec(
        mat_mul_spec(translation_spec(position.x, position.y, position.z), rotation),
        scale_spec(scale),
    )
}

/// One entry of a product with a diagonal scale matrix collapses to a
/// single scaled term.
proof fn lemma_diag_dot(a0: int, a1: int, a2: int, a3: int, s: int)
    ensures
        rdiv(a0 * s + a1 * 0 + a2 * 0 + a3 * 0, FP as int) == rdiv(a0 * s, FP as int),
        rdiv(a0 * 0 + a1 * s + a2 * 0 + a3 * 0, FP as int) == rdiv(a1 * s, FP as int),
        rdiv(a0 * 0 + a1 * 0 + a2 * s + a3 * 0, FP as int) == rdiv(a2 * s, FP as int),
        rdiv(a0 * 0 + a1 * 0 + a2 * 0 + a3 * (FP as int), FP as int) == a3,
{
    assert(a0 * s + a1 * 0 + a2 * 0 + a3 * 0 == a0 * s) by (nonlinear_arith);
    assert(a0 * 0 + a1 * s + a2 * 0 + a3 * 0 == a1 * s) by (nonlinear_arith);
    assert(a0 * 0 + a1 * 0 + a2 * s + a3 * 0 == a2 * s) by (nonlinear_arith);
    assert(a0 * 0 + a1 * 0 + a2 * 0 + a3 * (FP as int) == a3 * (FP as int)) by (nonlinear_arith);
    lemma_rdiv_exact(a3, FP as int);
}

/// Multiplying an affine matrix by a diagonal scale on the right scales
/// the first three columns entry-wise and keeps the translation column.
pub proof fn lemma_scale_mul(x: Mat4, s: Vec3)
    requires
        affine(x),
        mat_in(x, 0x8000_0000),
        vec3_in(s, 0x10_0000),
    ensures
        mat_mul_spec(x, scale_spec(s)) == (Mat4 {
            m00: rdiv(x.m00 * s.x, FP as int) as i64,
            m01: rdiv(x.m01 * s.y, FP as int) as i64,
            m02: rdiv(x.m02 * s.z, FP as int) as i64,
            m03: x.m03,
            m10: rdiv(x.m10 * s.x, FP as int) as i64,
            m11: rdiv(x.m11 * s.y, FP as int) as i64,
            m12: rdiv(x.m12 * s.z, FP as int) as i64,
            m13: x.m13,
            m20: rdiv(x.m20 * s.x, FP as int) as i64,
            m21: rdiv(x.m21 * s.y, FP as int) as i64,
            m22: rdiv(x.m22 * s.z, FP as int) as i64,
            m23: x.m23,
            m30: 0, m31: 0, m32: 0, m33: FP,
        }),
{
    let sm = scale_spec(s);
    lemma_mat_mul_affine(x, sm);
    lemma_diag_dot(x.m00 as int, x.m01 as int, x.m02 as int, x.m03 as int, s.x as int);
    lemma_diag_dot(x.m00 as int, x.m01 as int, x.m02 as int, x.m03 as int, s.y as int);
    lemma_diag_dot(x.m00 as int, x.m01 as int, x.m02 as int, x.m03 as int, s.z as int);
    lemma_diag_dot(x.m10 as int, x.m11 as int, x.m12 as int, x.m13 as int, s.x as int);
    lemma_diag_dot(x.m10 as int, x.m11 as int, x.m12 as int, x.m13 as int, s.y as int);
    lemma_diag_dot(x.m10 as int, x.m11 as int, x.m12 as int, x.m13 as int, s.z as int);
    lemma_diag_dot(x.m20 as int, x.m21 as int, x.m22 as int, x.m23 as int, s.x as int);
    lemma_diag_dot(x.m20 as int, x.m21 as int, x.m22 as int, x.m23 as int, s.y as int);
    lemma_diag_dot(x.m20 as int, x.m21 as int, x.m22 as int, x.m23 as int, s.z as int);
    assert forall|e: int, f: int| -0x8000_0000 <= e <= 0x8000_0000 && -0x10_0000 <= f <= 0x10_0000
        implies -0x8_0000_0000 <= #[trigger] rdiv(e * f, FP as int) <= 0x8_0000_0000 by {
        lemma_abs_prod_le(e, f, 0x8000_0000, 0x10_0000);
        assert(0x8_0000_0000_0000int == 0x8_0000_0000 * (FP as int));
        lemma_rdiv_bound(e * f, FP as int, 0x8_0000_0000);
    }
    assert(mat_mul_spec(x, sm).m00 == rdiv(x.m00 * s.x, FP as int) as i64);
    assert(mat_mul_spec(x, sm).m03 == x.m03) by {
        assert(dot_fx(x.m00 as int, x.m01 as int, x.m02 as int, x.m03 as int,
            0, 0, 0, FP as int) == x.m03);
    }
    assert(mat_mul_spec(x, sm).m13 == x.m13) by {
        assert(dot_fx(x.m10 as int, x.m11 as int, x.m12 as int, x.m13 as int,
            0, 0, 0, FP as int) == x.m13);
    }
    assert(mat_mul_spec(x, sm).m23 == x.m23) by {
        assert(dot_fx(x.m20 as int, x.m21 as int, x.m22 as int, x.m23 as int,
            0, 0, 0, FP as int) == x.m23);
    }
}

/// The composite transform of in-range parameters is affine, bounded by
/// `TRANSFORM_MAX`, and bounded by `ROT_MAX * SCALE_MAX / FP + 1` outside
/// the translation column.
pub proof fn lemma_transform_of(scale: Vec3, rotation: Mat4, position: Vec3)
    requires
        params_ok(scale, rotation, position),
    ensures
        affine(transform_of(scale, rotation, position)),
        mat_in(transform_of(scale, rotation, position), TRANSFORM_MAX as int),
{
    let t = translation_spec(position.x, position.y, position.z);
    lemma_translation_mul(position.x, position.y, position.z, rotation);
    let tr = mat_mul_spec(t, rotation);
    lemma_scale_mul(tr, scale);
    assert forall|e: int, f: int| -ROT_MAX <= e <= ROT_MAX && -SCALE_MAX <= f <= SCALE_MAX
        implies -TRANSFORM_MAX <= #[trigger] rdiv(e * f, FP as int) <= TRANSFORM_MAX by {
        lemma_abs_prod_le(e, f, ROT_MAX as int, SCALE_MAX as int);
        assert(ROT_MAX as int * SCALE_MAX <= TRANSFORM_MAX * (FP as int));
        lemma_rdiv_bound(e * f, FP as int, TRANSFORM_MAX as int);
    }
}

/// An instance of a model: a model index into the scene's model list,
/// the three transform inputs, and the cached composite transform.
pub struct Instance {
    pub model: usize,
    pub scale: Vec3,
    pub rotation: Mat4,
    pub position: Vec3,
    pub transform: Mat4,
}

impl Instance {
    /// Parameters in range and the cached transform equal to the
    /// composite of the current parameters.
    pub open spec fn wf(self) -> bool {
        &&& params_ok(self.scale, self.rotation, self.position)
        &&& self.transform == transform_of(self.scale, self.rotation, self.position)
    }

    /// Recomputes the composite transform from the current parameters.
    fn recompute_transform(&mut self)
        requires
            params_ok(old(self).scale, old(self).rotation, old(self).position),
        ensures
            final(self).wf(),
            final(self).model == old(self).model,
            final(self).scale == old(self).scale,
            final(self).rotation == old(self).rotation,
            final(self).position == old(self).position,
    {
        proof {
            lemma_translation_mul(self.position.x, self.position.y, self.position.z,
                self.rotation);
            lemma_transform_of(self.scale, self.rotation, self.position);
        }
        let t = homogeneous_translation_vector(&self.position);
        let tr = mat_mul(&t, &self.rotation);
        let sm = homogeneous_scale_vector(&self.scale);
        self.transform = mat_mul(&tr, &sm);
    }

    /// A new instance with the composite transform computed once.
    pub fn new(model: usize, scale: Vec3, rotation: Mat4, position: Vec3) -> (r: Instance)
        requires
            params_ok(scale, rotation, position),
        ensures
            r.wf(),
            r.model == model,
            r.scale == scale,
            r.rotation == rotation,
            r.position == position,
    {
        let mut inst = Instance {
            model,
            scale,
            rotation,
            position,
            transform: crate::matrix::identity(),
        };
        inst.recompute_transform();
        inst
    }

    /// Replaces the scale and recomputes the whole composite transform.
    pub fn update_scale(&mut self, scale: Vec3)
        requires
            old(self).wf(),
            vec3_in(scale, SCALE_MAX as int),
        ensures
            final(self).wf(),
            final(self).scale == scale,
            final(self).model == old(self).model,
            final(self).rotation == old(self).rotation,
            final(self).position == old(self).position,
    {
        self.scale = scale;
        self.recompute_transform();
    }

    /// Replaces the rotation and recomputes the whole composite
    /// transform.
    pub fn update_rotation(&mut self, rotation: Mat4)
        requires
            old(self).wf(),
            mat_in(rotation, ROT_MAX as int),
            affine(rotation),
        ensures
            final(self).wf(),
            final(self).rotation == rotation,
            final(self).model == old(self).model,
            final(self).scale == old(self).scale,
            final(self).position == old(self).position,
    {
        self.rotation = rotation;
        self.recompute_transform();
    }

    /// Replaces the position and recomputes the whole composite
    /// transform.
    pub fn update_position(&mut self, position: Vec3)
        requires
            old(self).wf(),
            vec3_in(position, POS_MAX as int),
        ensures
            final(self).wf(),
            final(self).position == position,
            final(self).model == old(self).model,
            final(self).scale == old(self).scale,
            final(self).rotation == old(self).rotation,
    {
        self.position = position;
        self.recompute_transform();
    }

    /// The cached composite transform.
    pub fn transform(&self) -> (r: Mat4)
        requires
            self.wf(),
        ensures
            r == transform_of(self.scale, self.rotation, self.position),
            affine(r),
            mat_in(r, TRANSFORM_MAX as int),
    {
        proof {
            lemma_transform_of(self.scale, self.rotation, self.position);
        }
        self.transform
    }
}

/// The squared scaled distance of one model vertex from the local
/// origin: each coordinate is divided by the homogeneous component and
/// scaled per axis; the result is in squared fixed-point units.
pub open spec fn vertex_radius_sq(v: Vec4, s: Vec3) -> int {
    rdiv(
        (v.x * s.x) * (v.x * s.x) + (v.y * s.y) * (v.y * s.y) + (v.z * s.z) * (v.z * s.z),
        v.w * v.w,
    )
}

/// The largest squared scaled vertex distance among the first `n`
/// vertices.
pub open spec fn radius_sq_upto(verts: Seq<Vec4>, s: Vec3, n: int) -> int
    decreases n,
{
    if n <= 0 {
        0
    } else {
        let prev = radius_sq_upto(verts, s, n - 1);
        let cur = vertex_radius_sq(verts[n - 1], s);
        if cur >= prev {
            cur
        } else {
            prev
        }
    }
}

/// One vertex's squared scaled distance is nonnegative and bounded.
proof fn lemma_vertex_radius_sq(v: Vec4, s: Vec3)
    requires
        vertex_ok(v),
        vec3_in(s, SCALE_MAX as int),
    ensures
        0 <= vertex_radius_sq(v, s) <= RADIUS_SQ_MAX,
{
    let px = v.x * s.x;
    let py = v.y * s.y;
    let pz = v.z * s.z;
    lemma_abs_prod_le(v.x as int, s.x as int, MODEL_V_MAX as int, SCALE_MAX as int);
    lemma_abs_prod_le(v.y as int, s.y as int, MODEL_V_MAX as int, SCALE_MAX as int);
    lemma_abs_prod_le(v.z as int, s.z as int, MODEL_V_MAX as int, SCALE_MAX as int);
    let num = px * px + py * py + pz * pz;
    lemma_radius_num_bound(px, py, pz);
    let wsq = v.w * v.w;
    assert(0x1000_0000 <= wsq <= 0x10_0000_0000) by (nonlinear_arith)
        requires
            0x4000 <= v.w <= 0x4_0000,
            wsq == v.w * v.w,
    ;
    assert(RADIUS_SQ_MAX * wsq >= RADIUS_SQ_MAX * 0x1000_0000) by (nonlinear_arith)
        requires
            wsq >= 0x1000_0000,
            RADIUS_SQ_MAX == 0x400_0000_0000_0000,
    ;
    assert(RADIUS_SQ_MAX as int * 0x1000_0000 == 0x40_0000_0000_0000_0000_0000);
    assert(num <= RADIUS_SQ_MAX * wsq);
    lemma_rdiv_bound(num, wsq, RADIUS_SQ_MAX as int);
    lemma_rdiv_mono(0, num, wsq);
    lemma_rdiv_exact(0, wsq);
}

/// The sum of the three coordinate squares is nonnegative and bounded.
proof fn lemma_radius_num_bound(px: int, py: int, pz: int)
    requires
        -0x400_0000_0000 <= px <= 0x400_0000_0000,
        -0x400_0000_0000 <= py <= 0x400_0000_0000,
        -0x400_0000_0000 <= pz <= 0x400_0000_0000,
    ensures
        0 <= px * px + py * py + pz * pz <= 0x30_0000_0000_0000_0000_0000,
{
    assert(0 <= px * px <= 0x10_0000_0000_0000_0000_0000
        && 0 <= py * py <= 0x10_0000_0000_0000_0000_0000
        && 0 <= pz * pz <= 0x10_0000_0000_0000_0000_0000) by (nonlinear_arith)
        requires
            -0x400_0000_0000 <= px <= 0x400_0000_0000,
            -0x400_0000_0000 <= py <= 0x400_0000_0000,
            -0x400_0000_0000 <= pz <= 0x400_0000_0000,
    ;
}

impl Instance {
    /// The bounding radius square of the instance: the largest squared
    /// per-axis-scaled vertex distance from the local origin, in squared
    /// fixed-point units.  Rotation preserves distances and translation
    /// is applied afterwards, so only the scale enters.  Used only for
    /// coarse culling against the view frustum.
    pub fn radius_sq_from_origin(&self, model: &Model) -> (r: i64)
        requires
            self.wf(),
            model.wf(),
        ensures
            r == radius_sq_upto(model.vertices@, self.scale, model.vertices@.len() as int),
            0 <= r <= RADIUS_SQ_MAX,
    {
        let mut best: i64 = 0;
        let mut i: usize = 0;
        while i < model.vertices.len()
            invariant
                self.wf(),
                model.wf(),
                i <= model.vertices@.len(),
                best == radius_sq_upto(model.vertices@, self.scale, i as int),
                0 <= best <= RADIUS_SQ_MAX,
            decreases model.vertices@.len() - i,
        {
            let v = model.vertices[i];
            let px: i128 = mul_i128(v.x as i128, self.scale.x as i128);
            let py: i128 = mul_i128(v.y as i128, self.scale.y as i128);
            let pz: i128 = mul_i128(v.z as i128, self.scale.z as i128);
            proof {
                lemma_abs_prod_le(v.x as int, self.scale.x as int, MODEL_V_MAX as int,
                    SCALE_MAX as int);
                lemma_abs_prod_le(v.y as int, self.scale.y as int, MODEL_V_MAX as int,
                    SCALE_MAX as int);
                lemma_abs_prod_le(v.z as int, self.scale.z as int, MODEL_V_MAX as int,
                    SCALE_MAX as int);
                lemma_vertex_radius_sq(v, self.scale);
            }
            let num: i128 = mul_i128(px, px) + mul_i128(py, py) + mul_i128(pz, pz);
            let wsq: i128 = mul_i128(v.w as i128, v.w as i128);
            proof {
                lemma_radius_num_bound(px as int, py as int, pz as int);
                assert(wsq > 0) by (nonlinear_arith)
                    requires
                        wsq == v.w * v.w,
                        v.w >= 0x4000,
                ;
            }
            let q: i128 = rdiv_i128(num, wsq);
            let qv: i64 = q as i64;
            if qv > best {
                best = qv;
            }
            i = i + 1;
        }
        best
    }
}

/// The signed-area test for backface culling: the determinant of the
/// 3x3 matrix whose rows are `(1, p.x, p.y)` for the three projected
/// vertices, which reduces to a 2x2 cross difference.
pub open spec fn cull_det(p: (int, int), q: (int, int), r: (int, int)) -> int {
    (q.0 - p.0) * (r.1 - p.1) - (q.1 - p.1) * (r.0 - p.0)
}

/// Whether the camera looks at the back of the triangle with projected
/// vertices `p`, `q`, `r` (positive signed area under the winding
/// convention); back-facing triangles are discarded.
pub fn cull_triangle(p: &(i64, i64, i64), q: &(i64, i64, i64), r: &(i64, i64, i64)) -> (c: bool)
    requires
        -0x100_0000_0000 <= p.0 <= 0x100_0000_0000 && -0x100_0000_0000 <= p.1 <= 0x100_0000_0000,
        -0x100_0000_0000 <= q.0 <= 0x100_0000_0000 && -0x100_0000_0000 <= q.1 <= 0x100_0000_0000,
        -0x100_0000_0000 <= r.0 <= 0x100_0000_0000 && -0x100_0000_0000 <= r.1 <= 0x100_0000_0000,
    ensures
        c == (cull_det((p.0 as int, p.1 as int), (q.0 as int, q.1 as int),
            (r.0 as int, r.1 as int)) > 0),
{
    let d: i128 = mul_i128((q.0 - p.0) as i128, (r.1 - p.1) as i128)
        - mul_i128((q.1 - p.1) as i128, (r.0 - p.0) as i128);
    d > 0
}

/// Reversing the vertex order of a triangle negates the signed area, so
/// the culling verdict flips for every triangle of nonzero area.
pub proof fn lemma_cull_reverse(p: (int, int), q: (int, int), r: (int, int))
    ensures
        cull_det(p, q, r) == -cull_det(r, q, p),
{
    assert((q.0 - p.0) * (r.1 - p.1) - (q.1 - p.1) * (r.0 - p.0)
        == -((q.0 - r.0) * (p.1 - r.1) - (q.1 - r.1) * (p.0 - r.0))) by (nonlinear_arith);
}

/// A camera: a translation, a rotation, and the perspective descriptor
/// `(viewport width, viewport height, projection distance)`.
pub struct Camera {
    pub translation: Vec3,
    pub rotation: Mat4,
    pub perspective: Vec3,
}

/// The camera's forward transform: `translation * rotation`.
pub open spec fn camera_transform_spec(c: Camera) -> Mat4 {
    mat_mul_spec(translation_spec(c.translation.x, c.translation.y, c.translation.z), c.rotation)
}

/// An error surfaced by the renderer instead of a panic.
#[derive(Clone, Copy, PartialEq, Eq, Structural, Debug)]
pub enum SceneError {
    /// The camera transform has no usable inverse.
    NonInvertibleCamera,
    /// An instance refers to a model index that does not exist, or a
    /// model fails its validity check.
    MalformedScene,
}

impl Camera {
    /// In-range camera parameters.
    pub open spec fn wf(self) -> bool {
        &&& vec3_in(self.translation, POS_MAX as int)
        &&& mat_in(self.rotation, ROT_MAX as int)
        &&& affine(self.rotation)
        &&& 1 <= self.perspective.x <= crate::clip::VIEW_MAX
        &&& 1 <= self.perspective.y <= crate::clip::VIEW_MAX
        &&& 1 <= self.perspective.z <= crate::clip::VIEW_MAX
    }

    /// The camera at the origin, looking down the `z` axis, with a unit
    /// viewport at unit distance.
    pub fn default() -> (r: Camera)
        ensures
            r.wf(),
            r.translation == (Vec3 { x: 0, y: 0, z: 0 }),
            r.rotation == (Mat4 {
                m00: FP, m01: 0, m02: 0, m03: 0,
                m10: 0, m11: FP, m12: 0, m13: 0,
                m20: 0, m21: 0, m22: FP, m23: 0,
                m30: 0, m31: 0, m32: 0, m33: FP,
            }),
            r.perspective == (Vec3 { x: FP, y: FP, z: FP }),
    {
        Camera {
            translation: Vec3 { x: 0, y: 0, z: 0 },
            rotation: crate::matrix::identity(),
            perspective: Vec3 { x: FP, y: FP, z: FP },
        }
    }

    /// The forward transform `translation * rotation`.
    pub fn transform(&self) -> (r: Mat4)
        requires
            self.wf(),
        ensures
            r == camera_transform_spec(*self),
            affine(r),
            mat_in(r, crate::matrix::INV_IN_MAX as int),
    {
        proof {
            lemma_translation_mul(self.translation.x, self.translation.y, self.translation.z,
                self.rotation);
        }
        let t = homogeneous_translation_vector(&self.translation);
        mat_mul(&t, &self.rotation)
    }

    /// The inverse of the forward transform, or a clear error when the
    /// transform is singular (or so ill-conditioned that the inverse
    /// leaves the representable range).
    pub fn inverse_transform(&self) -> (r: Result<Mat4, SceneError>)
        requires
            self.wf(),
        ensures
            match r {
                Ok(mi) => {
                    &&& affine_inverse_ok(camera_transform_spec(*self))
                    &&& mi == affine_inverse_spec(camera_transform_spec(*self))
                    &&& affine(mi)
                    &&& mat_in(mi, INV_OUT_MAX as int)
                },
                Err(e) => e == SceneError::NonInvertibleCamera
                    && !affine_inverse_ok(camera_transform_spec(*self)),
            },
    {
        let ct = self.transform();
        match affine_inverse(&ct) {
            Some(mi) => Ok(mi),
            None => Err(SceneError::NonInvertibleCamera),
        }
    }
}

/// Half a unit in fixed point.
pub const HALF: i64 = 32768;

/// A unit cube model centred on the local origin: eight corner vertices
/// and twelve triangles, two per face, each face with its own flat
/// color.
pub fn cube() -> (r: Model)
    ensures
        r.wf(),
        r.vertices@.len() == 8,
        r.triangles@.len() == 12,
{
    let mut vertices: Vec<Vec4> = Vec::new();
    let mut i: usize = 0;
    // Corner k has coordinates (+-1, +-1, +-1) by the bits of k.
    while i < 8
        invariant
            i <= 8,
            vertices@.len() == i,
            forall|k: int| 0 <= k < i ==> vertex_ok(#[trigger] vertices@[k]),
        decreases 8 - i,
    {
        let x: i64 = if i % 2 == 0 { FP } else { -FP };
        let y: i64 = if (i / 2) % 2 == 0 { FP } else { -FP };
        let z: i64 = if i < 4 { FP } else { -FP };
        vertices.push(Vec4 { x, y, z, w: FP });
        i = i + 1;
    }
    let mut triangles: Vec<(usize, usize, usize)> = Vec::new();
    triangles.push((0, 1, 3));
    triangles.push((0, 3, 2));
    triangles.push((4, 0, 2));
    triangles.push((4, 2, 6));
    triangles.push((5, 4, 6));
    triangles.push((5, 6, 7));
    triangles.push((1, 5, 7));
    triangles.push((1, 7, 3));
    triangles.push((4, 5, 1));
    triangles.push((4, 1, 0));
    triangles.push((3, 7, 6));
    triangles.push((3, 6, 2));
    let mut triangle_colors: Vec<Color> = Vec::new();
    triangle_colors.push(Color { r: FP, g: 0, b: 0 });
    triangle_colors.push(Color { r: FP, g: 0, b: 0 });
    triangle_colors.push(Color { r: 0, g: FP, b: 0 });
    triangle_colors.push(Color { r: 0, g: FP, b: 0 });
    triangle_colors.push(Color { r: 0, g: 0, b: FP });
    triangle_colors.push(Color { r: 0, g: 0, b: FP });
    triangle_colors.push(Color { r: FP, g: FP, b: 0 });
    triangle_colors.push(Color { r: FP, g: FP, b: 0 });
    triangle_colors.push(Color { r: FP, g: 0, b: FP });
    triangle_colors.push(Color { r: FP, g: 0, b: FP });
    triangle_colors.push(Color { r: 0, g: FP, b: FP });
    triangle_colors.push(Color { r: 0, g: FP, b: FP });
    let m = Model { vertices, triangles, triangle_colors };
    proof {
        assert(m.wf());
    }
    m
}

/// A simple scene: one cube model shared by three half-size instances
/// placed in front of the camera.
pub fn simple_scene() -> (r: (Vec<Model>, Vec<Instance>))
    ensures
        r.0@.len() == 1,
        r.0@[0].wf(),
        r.1@.len() == 3,
        forall|k: int| 0 <= k < r.1@.len() ==> (#[trigger] r.1@[k]).wf()
            && r.1@[k].model == 0
            && r.1@[k].scale == (Vec3 { x: HALF, y: HALF, z: HALF }),
        r.1@[0].position == (Vec3 { x: (-HALF) as i64, y: (-HALF) as i64, z: (5 * HALF) as i64 }),
        r.1@[1].position == (Vec3 { x: HALF, y: (3 * HALF) as i64, z: (9 * HALF) as i64 }),
        r.1@[2].position == (Vec3 { x: (3 * HALF) as i64, y: HALF, z: (9 * HALF) as i64 }),
{
    let mut models: Vec<Model> = Vec::new();
    models.push(cube());
    let half = Vec3 { x: HALF, y: HALF, z: HALF };
    let id = crate::matrix::identity();
    let mut instances: Vec<Instance> = Vec::new();
    instances.push(Instance::new(0, half, id, Vec3 { x: -HALF, y: -HALF, z: 5 * HALF }));
    instances.push(Instance::new(0, half, id, Vec3 { x: HALF, y: 3 * HALF, z: 9 * HALF }));
    instances.push(Instance::new(0, half, id, Vec3 { x: 3 * HALF, y: HALF, z: 9 * HALF }));
    (models, instances)
}

/// The position of the grid cell `(i, j)` for `subdivs` subdivisions:
/// cubes of side one on unit centres, the whole grid centred on the
/// camera axis at depth `2 * subdivs + 1/2`.
pub open spec fn grid_pos(s: int, i: int, j: int) -> Vec3 {
    Vec3 {
        x: ((2 * (i - s) + 1) * HALF) as i64,
        y: ((2 * (j - s) + 1) * HALF) as i64,
        z: ((4 * s + 1) * HALF) as i64,
    }
}

/// A scene with a full grid of `2 * subdivs` by `2 * subdivs` half-size
/// cubes.
pub fn cube_grid(subdivs: i32) -> (r: (Vec<Model>, Vec<Instance>))
    requires
        0 <= subdivs <= 64,
    ensures
        r.0@.len() == 1,
        r.0@[0].wf(),
        r.1@.len() == 4 * subdivs * subdivs,
        forall|k: int| 0 <= k < r.1@.len() ==> {
            let inst = #[trigger] r.1@[k];
            &&& inst.wf()
            &&& inst.model == 0
            &&& inst.scale == (Vec3 { x: HALF, y: HALF, z: HALF })
            &&& inst.position == grid_pos(subdivs as int, k / (2 * subdivs) as int,
                k % (2 * subdivs) as int)
        },
{
    let mut models: Vec<Model> = Vec::new();
    models.push(cube());
    let half = Vec3 { x: HALF, y: HALF, z: HALF };
    let id = crate::matrix::identity();
    let s: i64 = subdivs as i64;
    let side: i64 = 2 * s;
    let mut instances: Vec<Instance> = Vec::new();
    let mut i: i64 = 0;
    while i < side
        invariant
            0 <= s <= 64,
            side == 2 * s,
            0 <= i <= side,
            instances@.len() == i * side,
            half == (Vec3 { x: HALF, y: HALF, z: HALF }),
            vec3_in(half, SCALE_MAX as int),
            mat_in(id, ROT_MAX as int) && affine(id),
            forall|k: int| 0 <= k < instances@.len() ==> {
                let inst = #[trigger] instances@[k];
                &&& inst.wf()
                &&& inst.model == 0
                &&& inst.scale == half
                &&& inst.position == grid_pos(s as int, k / (2 * s), k % (2 * s))
            },
        decreases side - i,
    {
        let mut j: i64 = 0;
        while j < side
            invariant
                0 <= s <= 64,
                side == 2 * s,
                0 <= i < side,
                0 <= j <= side,
                instances@.len() == i * side + j,
                half == (Vec3 { x: HALF, y: HALF, z: HALF }),
                vec3_in(half, SCALE_MAX as int),
                mat_in(id, ROT_MAX as int) && affine(id),
                forall|k: int| 0 <= k < instances@.len() ==> {
                    let inst = #[trigger] instances@[k];
                    &&& inst.wf()
                    &&& inst.model == 0
                    &&& inst.scale == half
                    &&& inst.position == grid_pos(s as int, k / (2 * s), k % (2 * s))
                },
            decreases side - j,
        {
            let pos = Vec3 {
                x: (2 * (i - s) + 1) * HALF,
                y: (2 * (j - s) + 1) * HALF,
                z: (4 * s + 1) * HALF,
            };
            let inst = Instance::new(0, half, id, pos);
            proof {
                let k = instances@.len() as int;
                vstd::arithmetic::div_mod::lemma_fundamental_div_mod_converse(
                    k, 2 * s, i as int, j as int);
                assert(pos == grid_pos(s as int, i as int, j as int));
            }
            instances.push(inst);
            j = j + 1;
        }
        proof {
            assert((i + 1) * side == i * side + side) by (nonlinear_arith);
        }
        i = i + 1;
    }
    proof {
        assert(side * side == 4 * subdivs * subdivs) by (nonlinear_arith)
            requires
                side == 2 * subdivs,
        ;
        assert(instances@.len() == side * side) by {
            assert(side * side == side * side);
        }
    }
    (models, instances)
}

/// A scene with a checkerboard of half-size cubes: the cell `(i, j)` is
/// filled exactly when `i` and `j` have the same parity.
pub fn cube_checkerboard(subdivs: i32) -> (r: (Vec<Model>, Vec<Instance>))
    requires
        0 <= subdivs <= 64,
    ensures
        r.0@.len() == 1,
        r.0@[0].wf(),
        r.1@.len() == 2 * subdivs * subdivs,
        forall|k: int| 0 <= k < r.1@.len() ==> {
            let inst = #[trigger] r.1@[k];
            &&& inst.wf()
            &&& inst.model == 0
            &&& inst.scale == (Vec3 { x: HALF, y: HALF, z: HALF })
            &&& exists|i: int, j: int| 0 <= i < 2 * subdivs && 0 <= j < 2 * subdivs
                && i % 2 == j % 2 && inst.position == grid_pos(subdivs as int, i, j)
        },
{
    let mut models: Vec<Model> = Vec::new();
    models.push(cube());
    let half = Vec3 { x: HALF, y: HALF, z: HALF };
    let id = crate::matrix::identity();
    let s: i64 = subdivs as i64;
    let side: i64 = 2 * s;
    let mut instances: Vec<Instance> = Vec::new();
    let mut i: i64 = 0;
    while i < side
        invariant
            0 <= s <= 64,
            side == 2 * s,
            0 <= i <= side,
            instances@.len() == i * s,
            half == (Vec3 { x: HALF, y: HALF, z: HALF }),
            vec3_in(half, SCALE_MAX as int),
            mat_in(id, ROT_MAX as int) && affine(id),
            forall|k: int| 0 <= k < instances@.len() ==> {
                let inst = #[trigger] instances@[k];
                &&& inst.wf()
                &&& inst.model == 0
                &&& inst.scale == half
                &&& exists|a: int, b: int| 0 <= a < 2 * s && 0 <= b < 2 * s
                    && a % 2 == b % 2 && inst.position == grid_pos(s as int, a, b)
            },
        decreases side - i,
    {
        let mut j: i64 = 0;
        while j < side
            invariant
                0 <= s <= 64,
                side == 2 * s,
                0 <= i < side,
                0 <= j <= side,
                instances@.len() == i * s + (if i % 2 == 0 { (j + 1) / 2 } else { j / 2 }),
                half == (Vec3 { x: HALF, y: HALF, z: HALF }),
                vec3_in(half, SCALE_MAX as int),
                mat_in(id, ROT_MAX as int) && affine(id),
                forall|k: int| 0 <= k < instances@.len() ==> {
                    let inst = #[trigger] instances@[k];
                    &&& inst.wf()
                    &&& inst.model == 0
                    &&& inst.scale == half
                    &&& exists|a: int, b: int| 0 <= a < 2 * s && 0 <= b < 2 * s
                        && a % 2 == b % 2 && inst.position == grid_pos(s as int, a, b)
                },
            decreases side - j,
        {
            if i % 2 == j % 2 {
                let pos = Vec3 {
                    x: (2 * (i - s) + 1) * HALF,
                    y: (2 * (j - s) + 1) * HALF,
                    z: (4 * s + 1) * HALF,
                };
                let inst = Instance::new(0, half, id, pos);
                proof {
                    assert(pos == grid_pos(s as int, i as int, j as int));
                }
                instances.push(inst);
            }
            j = j + 1;
        }
        proof {
            assert((i + 1) * s == i * s + s) by (nonlinear_arith);
        }
        i = i + 1;
    }
    proof {
        assert(side * s == 2 * subdivs * subdivs) by (nonlinear_arith)
            requires
                side == 2 * subdivs,
                s == subdivs,
        ;
    }
    (models, instances)
}

} // verus!
