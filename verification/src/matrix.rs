//! Homogeneous transform stack: 4x4 fixed-point matrices, vectors, the
//! standard builders (scale, translation, rotation, projection), matrix
//! and matrix-vector products, and the inverse of an affine transform.
//!
//! Matrix entries are fixed-point scalars (`FP` units per 1.0); every
//! product rounds each resulting entry to the nearest unit, and the
//! contracts state the rounded value exactly.

use vstd::prelude::*;
use crate::fx::FP;
use crate::fx::rdiv;
use crate::fx::rdiv_i128;
use crate::fx::mul_i128;
use crate::fx::lemma_rdiv_exact;
use crate::fx::lemma_rdiv_bound;

verus! {

/// Largest entry magnitude accepted by the general matrix product.
pub const MAT_IN_MAX: i64 = 0x40_0000_0000;

/// Largest entry magnitude a general matrix product can produce.
pub const MAT_OUT_MAX: i64 = 0x4000_0000_0000_0000;

/// Largest matrix entry magnitude accepted by the matrix-vector product.
pub const MATV_M_MAX: i64 = 0x4_0000_0000_0000;

/// Largest vector component magnitude accepted by the matrix-vector
/// product.
pub const MATV_V_MAX: i64 = 0x400_0000;

/// A 3-component fixed-point vector.
#[derive(Clone, Copy, PartialEq, Eq, Structural, Debug)]
pub struct Vec3 {
    pub x: i64,
    pub y: i64,
    pub z: i64,
}

/// A 4-component fixed-point vector (homogeneous coordinates).
#[derive(Clone, Copy, PartialEq, Eq, Structural, Debug)]
pub struct Vec4 {
    pub x: i64,
    pub y: i64,
    pub z: i64,
    pub w: i64,
}

/// A 4x4 fixed-point matrix, row major: `mRC` is row `R`, column `C`.
#[derive(Clone, Copy, PartialEq, Eq, Structural, Debug)]
pub struct Mat4 {
    pub m00: i64, pub m01: i64, pub m02: i64, pub m03: i64,
    pub m10: i64, pub m11: i64, pub m12: i64, pub m13: i64,
    pub m20: i64, pub m21: i64, pub m22: i64, pub m23: i64,
    pub m30: i64, pub m31: i64, pub m32: i64, pub m33: i64,
}

/// Whether every entry of `m` has magnitude at most `b`.
pub open spec fn mat_in(m: Mat4, b: int) -> bool {
    &&& -b <= m.m00 <= b && -b <= m.m01 <= b && -b <= m.m02 <= b && -b <= m.m03 <= b
    &&& -b <= m.m10 <= b && -b <= m.m11 <= b && -b <= m.m12 <= b && -b <= m.m13 <= b
    &&& -b <= m.m20 <= b && -b <= m.m21 <= b && -b <= m.m22 <= b && -b <= m.m23 <= b
    &&& -b <= m.m30 <= b && -b <= m.m31 <= b && -b <= m.m32 <= b && -b <= m.m33 <= b
}

/// Whether every component of `v` has magnitude at most `b`.
pub open spec fn vec4_in(v: Vec4, b: int) -> bool {
    &&& -b <= v.x <= b
    &&& -b <= v.y <= b
    &&& -b <= v.z <= b
    &&& -b <= v.w <= b
}

/// Whether every component of `v` has magnitude at most `b`.
pub open spec fn vec3_in(v: Vec3, b: int) -> bool {
    &&& -b <= v.x <= b
    &&& -b <= v.y <= b
    &&& -b <= v.z <= b
}

/// Whether `m` is affine: its last row is exactly `(0, 0, 0, FP)`, so
/// multiplying a vector by `m` keeps the homogeneous `w` unchanged.
pub open spec fn affine(m: Mat4) -> bool {
    m.m30 == 0 && m.m31 == 0 && m.m32 == 0 && m.m33 == FP
}

/// One rounded fixed-point dot product entry.
pub open spec fn dot_fx(a0: int, a1: int, a2: int, a3: int, b0: int, b1: int, b2: int, b3: int)
    -> int {
    rdiv(a0 * b0 + a1 * b1 + a2 * b2 + a3 * b3, FP as int)
}

/// The fixed-point matrix product, entry by entry.
pub open spec fn mat_mul_spec(a: Mat4, b: Mat4) -> Mat4 {
    Mat4 {
        m00: dot_fx(a.m00 as int, a.m01 as int, a.m02 as int, a.m03 as int,
            b.m00 as int, b.m10 as int, b.m20 as int, b.m30 as int) as i64,
        m01: dot_fx(a.m00 as int, a.m01 as int, a.m02 as int, a.m03 as int,
            b.m01 as int, b.m11 as int, b.m21 as int, b.m31 as int) as i64,
        m02: dot_fx(a.m00 as int, a.m01 as int, a.m02 as int, a.m03 as int,
            b.m02 as int, b.m12 as int, b.m22 as int, b.m32 as int) as i64,
        m03: dot_fx(a.m00 as int, a.m01 as int, a.m02 as int, a.m03 as int,
            b.m03 as int, b.m13 as int, b.m23 as int, b.m33 as int) as i64,
        m10: dot_fx(a.m10 as int, a.m11 as int, a.m12 as int, a.m13 as int,
            b.m00 as int, b.m10 as int, b.m20 as int, b.m30 as int) as i64,
        m11: dot_fx(a.m10 as int, a.m11 as int, a.m12 as int, a.m13 as int,
            b.m01 as int, b.m11 as int, b.m21 as int, b.m31 as int) as i64,
        m12: dot_fx(a.m10 as int, a.m11 as int, a.m12 as int, a.m13 as int,
            b.m02 as int, b.m12 as int, b.m22 as int, b.m32 as int) as i64,
        m13: dot_fx(a.m10 as int, a.m11 as int, a.m12 as int, a.m13 as int,
            b.m03 as int, b.m13 as int, b.m23 as int, b.m33 as int) as i64,
        m20: dot_fx(a.m20 as int, a.m21 as int, a.m22 as int, a.m23 as int,
            b.m00 as int, b.m10 as int, b.m20 as int, b.m30 as int) as i64,
        m21: dot_fx(a.m20 as int, a.m21 as int, a.m22 as int, a.m23 as int,
            b.m01 as int, b.m11 as int, b.m21 as int, b.m31 as int) as i64,
        m22: dot_fx(a.m20 as int, a.m21 as int, a.m22 as int, a.m23 as int,
            b.m02 as int, b.m12 as int, b.m22 as int, b.m32 as int) as i64,
        m23: dot_fx(a.m20 as int, a.m21 as int, a.m22 as int, a.m23 as int,
            b.m03 as int, b.m13 as int, b.m23 as int, b.m33 as int) as i64,
        m30: dot_fx(a.m30 as int, a.m31 as int, a.m32 as int, a.m33 as int,
            b.m00 as int, b.m10 as int, b.m20 as int, b.m30 as int) as i64,
        m31: dot_fx(a.m30 as int, a.m31 as int, a.m32 as int, a.m33 as int,
            b.m01 as int, b.m11 as int, b.m21 as int, b.m31 as int) as i64,
        m32: dot_fx(a.m30 as int, a.m31 as int, a.m32 as int, a.m33 as int,
            b.m02 as int, b.m12 as int, b.m22 as int, b.m32 as int) as i64,
        m33: dot_fx(a.m30 as int, a.m31 as int, a.m32 as int, a.m33 as int,
            b.m03 as int, b.m13 as int, b.m23 as int, b.m33 as int) as i64,
    }
}

/// The fixed-point matrix-vector product, component by component.
pub open spec fn mat_vec_spec(m: Mat4, v: Vec4) -> Vec4 {
    Vec4 {
        x: dot_fx(m.m00 as int, m.m01 as int, m.m02 as int, m.m03 as int,
            v.x as int, v.y as int, v.z as int, v.w as int) as i64,
        y: dot_fx(m.m10 as int, m.m11 as int, m.m12 as int, m.m13 as int,
            v.x as int, v.y as int, v.z as int, v.w as int) as i64,
        z: dot_fx(m.m20 as int, m.m21 as int, m.m22 as int, m.m23 as int,
            v.x as int, v.y as int, v.z as int, v.w as int) as i64,
        w: dot_fx(m.m30 as int, m.m31 as int, m.m32 as int, m.m33 as int,
            v.x as int, v.y as int, v.z as int, v.w as int) as i64,
    }
}

/// One executable dot-product entry for matrix-matrix products.
fn dot4_mm(a0: i64, a1: i64, a2: i64, a3: i64, b0: i64, b1: i64, b2: i64, b3: i64) -> (r: i64)
    requires
        -MAT_IN_MAX <= a0 <= MAT_IN_MAX && -MAT_IN_MAX <= a1 <= MAT_IN_MAX,
        -MAT_IN_MAX <= a2 <= MAT_IN_MAX && -MAT_IN_MAX <= a3 <= MAT_IN_MAX,
        -MAT_IN_MAX <= b0 <= MAT_IN_MAX && -MAT_IN_MAX <= b1 <= MAT_IN_MAX,
        -MAT_IN_MAX <= b2 <= MAT_IN_MAX && -MAT_IN_MAX <= b3 <= MAT_IN_MAX,
    ensures
        r == dot_fx(a0 as int, a1 as int, a2 as int, a3 as int,
            b0 as int, b1 as int, b2 as int, b3 as int),
        -MAT_OUT_MAX <= r <= MAT_OUT_MAX,
{
    let p0: i128 = mul_i128(a0 as i128, b0 as i128);
    let p1: i128 = mul_i128(a1 as i128, b1 as i128);
    let p2: i128 = mul_i128(a2 as i128, b2 as i128);
    let p3: i128 = mul_i128(a3 as i128, b3 as i128);
    proof {
        lemma_abs_prod_le(a0 as int, b0 as int, MAT_IN_MAX as int, MAT_IN_MAX as int);
        lemma_abs_prod_le(a1 as int, b1 as int, MAT_IN_MAX as int, MAT_IN_MAX as int);
        lemma_abs_prod_le(a2 as int, b2 as int, MAT_IN_MAX as int, MAT_IN_MAX as int);
        lemma_abs_prod_le(a3 as int, b3 as int, MAT_IN_MAX as int, MAT_IN_MAX as int);
    }
    let s: i128 = p0 + p1 + p2 + p3;
    proof {
        assert(0x4000_0000_0000_0000_0000int == MAT_OUT_MAX * (FP as int));
        lemma_rdiv_bound(s as int, FP as int, MAT_OUT_MAX as int);
    }
    let r: i128 = rdiv_i128(s, FP as i128);
    r as i64
}

/// One executable dot-product entry for matrix-vector products.
fn dot4_mv(a0: i64, a1: i64, a2: i64, a3: i64, b0: i64, b1: i64, b2: i64, b3: i64) -> (r: i64)
    requires
        -MATV_M_MAX <= a0 <= MATV_M_MAX && -MATV_M_MAX <= a1 <= MATV_M_MAX,
        -MATV_M_MAX <= a2 <= MATV_M_MAX && -MATV_M_MAX <= a3 <= MATV_M_MAX,
        -MATV_V_MAX <= b0 <= MATV_V_MAX && -MATV_V_MAX <= b1 <= MATV_V_MAX,
        -MATV_V_MAX <= b2 <= MATV_V_MAX && -MATV_V_MAX <= b3 <= MATV_V_MAX,
    ensures
        r == dot_fx(a0 as int, a1 as int, a2 as int, a3 as int,
            b0 as int, b1 as int, b2 as int, b3 as int),
        -MAT_OUT_MAX <= r <= MAT_OUT_MAX,
{
    let p0: i128 = mul_i128(a0 as i128, b0 as i128);
    let p1: i128 = mul_i128(a1 as i128, b1 as i128);
    let p2: i128 = mul_i128(a2 as i128, b2 as i128);
    let p3: i128 = mul_i128(a3 as i128, b3 as i128);
    proof {
        lemma_abs_prod_le(a0 as int, b0 as int, MATV_M_MAX as int, MATV_V_MAX as int);
        lemma_abs_prod_le(a1 as int, b1 as int, MATV_M_MAX as int, MATV_V_MAX as int);
        lemma_abs_prod_le(a2 as int, b2 as int, MATV_M_MAX as int, MATV_V_MAX as int);
        lemma_abs_prod_le(a3 as int, b3 as int, MATV_M_MAX as int, MATV_V_MAX as int);
    }
    let s: i128 = p0 + p1 + p2 + p3;
    proof {
        assert(0x4000_0000_0000_0000_0000int == MAT_OUT_MAX * (FP as int));
        lemma_rdiv_bound(s as int, FP as int, MAT_OUT_MAX as int);
    }
    let r: i128 = rdiv_i128(s, FP as i128);
    r as i64
}

/// A product of values bounded by `ba` and `bb` is bounded by `ba * bb`.
pub proof fn lemma_abs_prod_le(a: int, b: int, ba: int, bb: int)
    requires
        -ba <= a <= ba,
        -bb <= b <= bb,
        ba >= 0,
        bb >= 0,
    ensures
        -(ba * bb) <= a * b <= ba * bb,
{
    assert(-(ba * bb) <= a * b <= ba * bb) by (nonlinear_arith)
        requires
            -ba <= a <= ba,
            -bb <= b <= bb,
            ba >= 0,
            bb >= 0,
    ;
}

/// The fixed-point product of two matrices; each entry is the rounded
/// fixed-point dot product of a row of `a` with a column of `b`.
pub fn mat_mul(a: &Mat4, b: &Mat4) -> (r: Mat4)
    requires
        mat_in(*a, MAT_IN_MAX as int),
        mat_in(*b, MAT_IN_MAX as int),
    ensures
        r == mat_mul_spec(*a, *b),
        mat_in(r, MAT_OUT_MAX as int),
{
    Mat4 {
        m00: dot4_mm(a.m00, a.m01, a.m02, a.m03, b.m00, b.m10, b.m20, b.m30),
        m01: dot4_mm(a.m00, a.m01, a.m02, a.m03, b.m01, b.m11, b.m21, b.m31),
        m02: dot4_mm(a.m00, a.m01, a.m02, a.m03, b.m02, b.m12, b.m22, b.m32),
        m03: dot4_mm(a.m00, a.m01, a.m02, a.m03, b.m03, b.m13, b.m23, b.m33),
        m10: dot4_mm(a.m10, a.m11, a.m12, a.m13, b.m00, b.m10, b.m20, b.m30),
        m11: dot4_mm(a.m10, a.m11, a.m12, a.m13, b.m01, b.m11, b.m21, b.m31),
        m12: dot4_mm(a.m10, a.m11, a.m12, a.m13, b.m02, b.m12, b.m22, b.m32),
        m13: dot4_mm(a.m10, a.m11, a.m12, a.m13, b.m03, b.m13, b.m23, b.m33),
        m20: dot4_mm(a.m20, a.m21, a.m22, a.m23, b.m00, b.m10, b.m20, b.m30),
        m21: dot4_mm(a.m20, a.m21, a.m22, a.m23, b.m01, b.m11, b.m21, b.m31),
        m22: dot4_mm(a.m20, a.m21, a.m22, a.m23, b.m02, b.m12, b.m22, b.m32),
        m23: dot4_mm(a.m20, a.m21, a.m22, a.m23, b.m03, b.m13, b.m23, b.m33),
        m30: dot4_mm(a.m30, a.m31, a.m32, a.m33, b.m00, b.m10, b.m20, b.m30),
        m31: dot4_mm(a.m30, a.m31, a.m32, a.m33, b.m01, b.m11, b.m21, b.m31),
        m32: dot4_mm(a.m30, a.m31, a.m32, a.m33, b.m02, b.m12, b.m22, b.m32),
        m33: dot4_mm(a.m30, a.m31, a.m32, a.m33, b.m03, b.m13, b.m23, b.m33),
    }
}

/// The fixed-point product of a matrix and a homogeneous vector.  An
/// affine matrix keeps the homogeneous `w` component unchanged.
pub fn mat_vec_mul(m: &Mat4, v: &Vec4) -> (r: Vec4)
    requires
        mat_in(*m, MATV_M_MAX as int),
        vec4_in(*v, MATV_V_MAX as int),
    ensures
        r == mat_vec_spec(*m, *v),
        vec4_in(r, MAT_OUT_MAX as int),
        affine(*m) ==> r.w == v.w,
{
    let r = Vec4 {
        x: dot4_mv(m.m00, m.m01, m.m02, m.m03, v.x, v.y, v.z, v.w),
        y: dot4_mv(m.m10, m.m11, m.m12, m.m13, v.x, v.y, v.z, v.w),
        z: dot4_mv(m.m20, m.m21, m.m22, m.m23, v.x, v.y, v.z, v.w),
        w: dot4_mv(m.m30, m.m31, m.m32, m.m33, v.x, v.y, v.z, v.w),
    };
    proof {
        if affine(*m) {
            assert(0 * v.x + 0 * v.y + 0 * v.z + FP as int * v.w == v.w * (FP as int))
                by (nonlinear_arith);
            lemma_rdiv_exact(v.w as int, FP as int);
        }
    }
    r
}

/// One executable dot-product entry for transforming a position vector
/// (larger vector components, tighter matrix bound).
fn dot4_ct(a0: i64, a1: i64, a2: i64, a3: i64, b0: i64, b1: i64, b2: i64, b3: i64) -> (r: i64)
    requires
        -0x8000_0000 <= a0 <= 0x8000_0000 && -0x8000_0000 <= a1 <= 0x8000_0000,
        -0x8000_0000 <= a2 <= 0x8000_0000 && -0x8000_0000 <= a3 <= 0x8000_0000,
        -0x4000_0000 <= b0 <= 0x4000_0000 && -0x4000_0000 <= b1 <= 0x4000_0000,
        -0x4000_0000 <= b2 <= 0x4000_0000 && -0x4000_0000 <= b3 <= 0x4000_0000,
    ensures
        r == dot_fx(a0 as int, a1 as int, a2 as int, a3 as int,
            b0 as int, b1 as int, b2 as int, b3 as int),
        -0x8000_0000_0000 <= r <= 0x8000_0000_0000,
{
    let p0: i128 = mul_i128(a0 as i128, b0 as i128);
    let p1: i128 = mul_i128(a1 as i128, b1 as i128);
    let p2: i128 = mul_i128(a2 as i128, b2 as i128);
    let p3: i128 = mul_i128(a3 as i128, b3 as i128);
    proof {
        lemma_abs_prod_le(a0 as int, b0 as int, 0x8000_0000, 0x4000_0000);
        lemma_abs_prod_le(a1 as int, b1 as int, 0x8000_0000, 0x4000_0000);
        lemma_abs_prod_le(a2 as int, b2 as int, 0x8000_0000, 0x4000_0000);
        lemma_abs_prod_le(a3 as int, b3 as int, 0x8000_0000, 0x4000_0000);
    }
    let s: i128 = p0 + p1 + p2 + p3;
    proof {
        assert(0x8000_0000_0000_0000int == 0x8000_0000_0000 * (FP as int));
        lemma_rdiv_bound(s as int, FP as int, 0x8000_0000_0000);
    }
    let r: i128 = rdiv_i128(s, FP as i128);
    r as i64
}

/// The fixed-point product of a matrix and a position vector (larger
/// vector components than `mat_vec_mul` allows, with a tighter bound on
/// the matrix entries).
pub fn mat_vec_mul_pos(m: &Mat4, v: &Vec4) -> (r: Vec4)
    requires
        mat_in(*m, 0x8000_0000),
        vec4_in(*v, 0x4000_0000),
    ensures
        r == mat_vec_spec(*m, *v),
        vec4_in(r, 0x8000_0000_0000),
        affine(*m) ==> r.w == v.w,
{
    let r = Vec4 {
        x: dot4_ct(m.m00, m.m01, m.m02, m.m03, v.x, v.y, v.z, v.w),
        y: dot4_ct(m.m10, m.m11, m.m12, m.m13, v.x, v.y, v.z, v.w),
        z: dot4_ct(m.m20, m.m21, m.m22, m.m23, v.x, v.y, v.z, v.w),
        w: dot4_ct(m.m30, m.m31, m.m32, m.m33, v.x, v.y, v.z, v.w),
    };
    proof {
        if affine(*m) {
            assert(0 * v.x + 0 * v.y + 0 * v.z + FP as int * v.w == v.w * (FP as int))
                by (nonlinear_arith);
            lemma_rdiv_exact(v.w as int, FP as int);
        }
    }
    r
}

/// The identity transform.
pub fn identity() -> (r: Mat4)
    ensures
        r == (Mat4 {
            m00: FP, m01: 0, m02: 0, m03: 0,
            m10: 0, m11: FP, m12: 0, m13: 0,
            m20: 0, m21: 0, m22: FP, m23: 0,
            m30: 0, m31: 0, m32: 0, m33: FP,
        }),
        affine(r),
{
    Mat4 {
        m00: FP, m01: 0, m02: 0, m03: 0,
        m10: 0, m11: FP, m12: 0, m13: 0,
        m20: 0, m21: 0, m22: FP, m23: 0,
        m30: 0, m31: 0, m32: 0, m33: FP,
    }
}

/// The scaling transform with per-axis factors: the diagonal matrix with
/// `x`, `y`, `z` and a unit homogeneous entry.
pub fn homogeneous_scale(x: i64, y: i64, z: i64) -> (r: Mat4)
    ensures
        r == (Mat4 {
            m00: x, m01: 0, m02: 0, m03: 0,
            m10: 0, m11: y, m12: 0, m13: 0,
            m20: 0, m21: 0, m22: z, m23: 0,
            m30: 0, m31: 0, m32: 0, m33: FP,
        }),
        affine(r),
{
    Mat4 {
        m00: x, m01: 0, m02: 0, m03: 0,
        m10: 0, m11: y, m12: 0, m13: 0,
        m20: 0, m21: 0, m22: z, m23: 0,
        m30: 0, m31: 0, m32: 0, m33: FP,
    }
}

/// The scaling transform from a vector of per-axis factors.
pub fn homogeneous_scale_vector(scale: &Vec3) -> (r: Mat4)
    ensures
        r == (Mat4 {
            m00: scale.x, m01: 0, m02: 0, m03: 0,
            m10: 0, m11: scale.y, m12: 0, m13: 0,
            m20: 0, m21: 0, m22: scale.z, m23: 0,
            m30: 0, m31: 0, m32: 0, m33: FP,
        }),
        affine(r),
{
    homogeneous_scale(scale.x, scale.y, scale.z)
}

/// The translation transform: the identity with the translation column
/// set.
pub fn homogeneous_translation(x: i64, y: i64, z: i64) -> (r: Mat4)
    ensures
        r == (Mat4 {
            m00: FP, m01: 0, m02: 0, m03: x,
            m10: 0, m11: FP, m12: 0, m13: y,
            m20: 0, m21: 0, m22: FP, m23: z,
            m30: 0, m31: 0, m32: 0, m33: FP,
        }),
        affine(r),
{
    Mat4 {
        m00: FP, m01: 0, m02: 0, m03: x,
        m10: 0, m11: FP, m12: 0, m13: y,
        m20: 0, m21: 0, m22: FP, m23: z,
        m30: 0, m31: 0, m32: 0, m33: FP,
    }
}

/// The translation transform from a vector.
pub fn homogeneous_translation_vector(translation: &Vec3) -> (r: Mat4)
    ensures
        r == (Mat4 {
            m00: FP, m01: 0, m02: 0, m03: translation.x,
            m10: 0, m11: FP, m12: 0, m13: translation.y,
            m20: 0, m21: 0, m22: FP, m23: translation.z,
            m30: 0, m31: 0, m32: 0, m33: FP,
        }),
        affine(r),
{
    homogeneous_translation(translation.x, translation.y, translation.z)
}

/// Rotation about the `x` axis, given the fixed-point sine and cosine of
/// the angle.
pub fn rotation_x(s: i64, c: i64) -> (r: Mat4)
    requires
        -FP <= s <= FP,
        -FP <= c <= FP,
    ensures
        r == (Mat4 {
            m00: FP, m01: 0, m02: 0, m03: 0,
            m10: 0, m11: c, m12: (-s) as i64, m13: 0,
            m20: 0, m21: s, m22: c, m23: 0,
            m30: 0, m31: 0, m32: 0, m33: FP,
        }),
        affine(r),
{
    Mat4 {
        m00: FP, m01: 0, m02: 0, m03: 0,
        m10: 0, m11: c, m12: -s, m13: 0,
        m20: 0, m21: s, m22: c, m23: 0,
        m30: 0, m31: 0, m32: 0, m33: FP,
    }
}

/// Rotation about the `y` axis, given the fixed-point sine and cosine of
/// the angle.
pub fn rotation_y(s: i64, c: i64) -> (r: Mat4)
    requires
        -FP <= s <= FP,
        -FP <= c <= FP,
    ensures
        r == (Mat4 {
            m00: c, m01: 0, m02: s, m03: 0,
            m10: 0, m11: FP, m12: 0, m13: 0,
            m20: (-s) as i64, m21: 0, m22: c, m23: 0,
            m30: 0, m31: 0, m32: 0, m33: FP,
        }),
        affine(r),
{
    Mat4 {
        m00: c, m01: 0, m02: s, m03: 0,
        m10: 0, m11: FP, m12: 0, m13: 0,
        m20: -s, m21: 0, m22: c, m23: 0,
        m30: 0, m31: 0, m32: 0, m33: FP,
    }
}

/// Rotation about the `z` axis, given the fixed-point sine and cosine of
/// the angle.
pub fn rotation_z(s: i64, c: i64) -> (r: Mat4)
    requires
        -FP <= s <= FP,
        -FP <= c <= FP,
    ensures
        r == (Mat4 {
            m00: c, m01: (-s) as i64, m02: 0, m03: 0,
            m10: s, m11: c, m12: 0, m13: 0,
            m20: 0, m21: 0, m22: FP, m23: 0,
            m30: 0, m31: 0, m32: 0, m33: FP,
        }),
        affine(r),
{
    Mat4 {
        m00: c, m01: -s, m02: 0, m03: 0,
        m10: s, m11: c, m12: 0, m13: 0,
        m20: 0, m21: 0, m22: FP, m23: 0,
        m30: 0, m31: 0, m32: 0, m33: FP,
    }
}

/// Rotation from three axis angles, each given as a fixed-point
/// sine/cosine pair, composed as the `z` rotation times the `y` rotation
/// times the `x` rotation.
pub fn homogeneous_rotation(sx: i64, cx: i64, sy: i64, cy: i64, sz: i64, cz: i64) -> (r: Mat4)
    requires
        -FP <= sx <= FP && -FP <= cx <= FP,
        -FP <= sy <= FP && -FP <= cy <= FP,
        -FP <= sz <= FP && -FP <= cz <= FP,
    ensures
        ({
            let rx = Mat4 {
                m00: FP, m01: 0, m02: 0, m03: 0,
                m10: 0, m11: cx, m12: (-sx) as i64, m13: 0,
                m20: 0, m21: sx, m22: cx, m23: 0,
                m30: 0, m31: 0, m32: 0, m33: FP,
            };
            let ry = Mat4 {
                m00: cy, m01: 0, m02: sy, m03: 0,
                m10: 0, m11: FP, m12: 0, m13: 0,
                m20: (-sy) as i64, m21: 0, m22: cy, m23: 0,
                m30: 0, m31: 0, m32: 0, m33: FP,
            };
            let rz = Mat4 {
                m00: cz, m01: (-sz) as i64, m02: 0, m03: 0,
                m10: sz, m11: cz, m12: 0, m13: 0,
                m20: 0, m21: 0, m22: FP, m23: 0,
                m30: 0, m31: 0, m32: 0, m33: FP,
            };
            r == mat_mul_spec(mat_mul_spec(rz, ry), rx)
        }),
{
    let rx = rotation_x(sx, cx);
    let ry = rotation_y(sy, cy);
    let rz = rotation_z(sz, cz);
    let rzy = mat_mul(&rz, &ry);
    proof {
        lemma_mat_mul_bound(rz, ry, FP as int, FP as int);
    }
    mat_mul(&rzy, &rx)
}

/// Each entry of the matrix product of matrices bounded by `ba` and `bb`
/// is bounded by `4 * ba * bb / FP + 1`.
pub proof fn lemma_mat_mul_bound(a: Mat4, b: Mat4, ba: int, bb: int)
    requires
        mat_in(a, ba),
        mat_in(b, bb),
        0 <= ba <= MAT_IN_MAX,
        0 <= bb <= MAT_IN_MAX,
    ensures
        mat_in(mat_mul_spec(a, b), 4 * ba * bb / (FP as int) + 1),
{
    let m = 4 * ba * bb / (FP as int) + 1;
    assert(4 * ba * bb <= m * (FP as int) && m >= 0) by {
        vstd::arithmetic::div_mod::lemma_fundamental_div_mod(4 * ba * bb, FP as int);
        assert(4 * ba * bb >= 0) by (nonlinear_arith)
            requires
                ba >= 0,
                bb >= 0,
        ;
        vstd::arithmetic::div_mod::lemma_div_pos_is_pos(4 * ba * bb, FP as int);
    }
    assert forall|a0: int, a1: int, a2: int, a3: int, b0: int, b1: int, b2: int, b3: int|
        -ba <= a0 <= ba && -ba <= a1 <= ba && -ba <= a2 <= ba && -ba <= a3 <= ba
        && -bb <= b0 <= bb && -bb <= b1 <= bb && -bb <= b2 <= bb && -bb <= b3 <= bb
        implies -m <= #[trigger] dot_fx(a0, a1, a2, a3, b0, b1, b2, b3) <= m by {
        lemma_abs_prod_le(a0, b0, ba, bb);
        lemma_abs_prod_le(a1, b1, ba, bb);
        lemma_abs_prod_le(a2, b2, ba, bb);
        lemma_abs_prod_le(a3, b3, ba, bb);
        assert(4 * ba * bb == 4 * (ba * bb)) by (nonlinear_arith);
        lemma_rdiv_bound(a0 * b0 + a1 * b1 + a2 * b2 + a3 * b3, FP as int, m);
    }
}

/// A 3x3 fixed-point matrix.
#[derive(Clone, Copy, PartialEq, Eq, Structural, Debug)]
pub struct Mat3 {
    pub m00: i64, pub m01: i64, pub m02: i64,
    pub m10: i64, pub m11: i64, pub m12: i64,
    pub m20: i64, pub m21: i64, pub m22: i64,
}

/// A 3x4 fixed-point matrix.
#[derive(Clone, Copy, PartialEq, Eq, Structural, Debug)]
pub struct Mat3x4 {
    pub m00: i64, pub m01: i64, pub m02: i64, pub m03: i64,
    pub m10: i64, pub m11: i64, pub m12: i64, pub m13: i64,
    pub m20: i64, pub m21: i64, pub m22: i64, pub m23: i64,
}

/// The perspective projection matrix for projection distance `d`: scales
/// `x` and `y` by `d` and keeps `z`.
pub fn homogeneous_projection(d: i64) -> (r: Mat3x4)
    ensures
        r == (Mat3x4 {
            m00: d, m01: 0, m02: 0, m03: 0,
            m10: 0, m11: d, m12: 0, m13: 0,
            m20: 0, m21: 0, m22: FP, m23: 0,
        }),
{
    Mat3x4 {
        m00: d, m01: 0, m02: 0, m03: 0,
        m10: 0, m11: d, m12: 0, m13: 0,
        m20: 0, m21: 0, m22: FP, m23: 0,
    }
}

/// The viewport-to-canvas scaling matrix with per-axis factors.
pub fn homogeneous_viewport_to_homogeneous_canvas(s_x: i64, s_y: i64) -> (r: Mat3)
    ensures
        r == (Mat3 {
            m00: s_x, m01: 0, m02: 0,
            m10: 0, m11: s_y, m12: 0,
            m20: 0, m21: 0, m22: FP,
        }),
{
    Mat3 {
        m00: s_x, m01: 0, m02: 0,
        m10: 0, m11: s_y, m12: 0,
        m20: 0, m21: 0, m22: FP,
    }
}

/// Largest entry magnitude accepted by the affine inverse.
pub const INV_IN_MAX: i64 = 0x4000_0000;

/// Largest entry magnitude the affine inverse will return; a transform
/// whose inverse would exceed it is treated as non-invertible.
pub const INV_OUT_MAX: i64 = 0x8000_0000;

/// Adjugate entries of the upper-left 3x3 block of an affine transform.
pub open spec fn adj00(m: Mat4) -> int { m.m11 * m.m22 - m.m12 * m.m21 }
pub open spec fn adj01(m: Mat4) -> int { m.m02 * m.m21 - m.m01 * m.m22 }
pub open spec fn adj02(m: Mat4) -> int { m.m01 * m.m12 - m.m02 * m.m11 }
pub open spec fn adj10(m: Mat4) -> int { m.m12 * m.m20 - m.m10 * m.m22 }
pub open spec fn adj11(m: Mat4) -> int { m.m00 * m.m22 - m.m02 * m.m20 }
pub open spec fn adj12(m: Mat4) -> int { m.m02 * m.m10 - m.m00 * m.m12 }
pub open spec fn adj20(m: Mat4) -> int { m.m10 * m.m21 - m.m11 * m.m20 }
pub open spec fn adj21(m: Mat4) -> int { m.m01 * m.m20 - m.m00 * m.m21 }
pub open spec fn adj22(m: Mat4) -> int { m.m00 * m.m11 - m.m01 * m.m10 }

/// Determinant of the upper-left 3x3 block, by cofactor expansion along
/// the first row.
pub open spec fn det3_spec(m: Mat4) -> int {
    m.m00 * adj00(m) + m.m01 * adj10(m) + m.m02 * adj20(m)
}

/// One entry of the inverse: `num / d` rounded to the nearest unit, with
/// the sign of `d` folded into the numerator.
pub open spec fn inv_entry(num: int, d: int) -> int {
    if d > 0 {
        rdiv(num, d)
    } else {
        rdiv(-num, -d)
    }
}

/// The rotation-block entries of the affine inverse, before range checks.
pub open spec fn inv_rot(m: Mat4, a: int) -> int {
    inv_entry(FP as int * FP as int * a, det3_spec(m))
}

/// The translation-column entries of the affine inverse, before range
/// checks: row `i` is `-FP * (adj row i . translation) / det`.
pub open spec fn inv_tr(m: Mat4, u: int) -> int {
    inv_entry(-(FP as int) * u, det3_spec(m))
}

/// The translation dot products `adj row i . (m03, m13, m23)`.
pub open spec fn u_row0(m: Mat4) -> int {
    adj00(m) * m.m03 + adj01(m) * m.m13 + adj02(m) * m.m23
}
pub open spec fn u_row1(m: Mat4) -> int {
    adj10(m) * m.m03 + adj11(m) * m.m13 + adj12(m) * m.m23
}
pub open spec fn u_row2(m: Mat4) -> int {
    adj20(m) * m.m03 + adj21(m) * m.m13 + adj22(m) * m.m23
}

/// Whether the affine inverse of `m` is defined: the 3x3 block is
/// invertible and every entry of the inverse is within `INV_OUT_MAX`.
pub open spec fn affine_inverse_ok(m: Mat4) -> bool {
    &&& det3_spec(m) != 0
    &&& -INV_OUT_MAX <= inv_rot(m, adj00(m)) <= INV_OUT_MAX
    &&& -INV_OUT_MAX <= inv_rot(m, adj01(m)) <= INV_OUT_MAX
    &&& -INV_OUT_MAX <= inv_rot(m, adj02(m)) <= INV_OUT_MAX
    &&& -INV_OUT_MAX <= inv_rot(m, adj10(m)) <= INV_OUT_MAX
    &&& -INV_OUT_MAX <= inv_rot(m, adj11(m)) <= INV_OUT_MAX
    &&& -INV_OUT_MAX <= inv_rot(m, adj12(m)) <= INV_OUT_MAX
    &&& -INV_OUT_MAX <= inv_rot(m, adj20(m)) <= INV_OUT_MAX
    &&& -INV_OUT_MAX <= inv_rot(m, adj21(m)) <= INV_OUT_MAX
    &&& -INV_OUT_MAX <= inv_rot(m, adj22(m)) <= INV_OUT_MAX
    &&& -INV_OUT_MAX <= inv_tr(m, u_row0(m)) <= INV_OUT_MAX
    &&& -INV_OUT_MAX <= inv_tr(m, u_row1(m)) <= INV_OUT_MAX
    &&& -INV_OUT_MAX <= inv_tr(m, u_row2(m)) <= INV_OUT_MAX
}

/// The affine inverse of `m`, where defined.
pub open spec fn affine_inverse_spec(m: Mat4) -> Mat4 {
    Mat4 {
        m00: inv_rot(m, adj00(m)) as i64,
        m01: inv_rot(m, adj01(m)) as i64,
        m02: inv_rot(m, adj02(m)) as i64,
        m03: inv_tr(m, u_row0(m)) as i64,
        m10: inv_rot(m, adj10(m)) as i64,
        m11: inv_rot(m, adj11(m)) as i64,
        m12: inv_rot(m, adj12(m)) as i64,
        m13: inv_tr(m, u_row1(m)) as i64,
        m20: inv_rot(m, adj20(m)) as i64,
        m21: inv_rot(m, adj21(m)) as i64,
        m22: inv_rot(m, adj22(m)) as i64,
        m23: inv_tr(m, u_row2(m)) as i64,
        m30: 0, m31: 0, m32: 0, m33: FP,
    }
}

/// `a * b - c * d` for bounded inputs.
fn sub_mul(a: i64, b: i64, c: i64, d: i64) -> (r: i128)
    requires
        -INV_IN_MAX <= a <= INV_IN_MAX && -INV_IN_MAX <= b <= INV_IN_MAX,
        -INV_IN_MAX <= c <= INV_IN_MAX && -INV_IN_MAX <= d <= INV_IN_MAX,
    ensures
        r == a * b - c * d,
        -0x2000_0000_0000_0000 <= r <= 0x2000_0000_0000_0000,
{
    proof {
        lemma_abs_prod_le(a as int, b as int, INV_IN_MAX as int, INV_IN_MAX as int);
        lemma_abs_prod_le(c as int, d as int, INV_IN_MAX as int, INV_IN_MAX as int);
    }
    mul_i128(a as i128, b as i128) - mul_i128(c as i128, d as i128)
}

/// `x0 * y0 + x1 * y1 + x2 * y2` where the `x` are adjugate values and
/// the `y` are matrix entries.
fn dot3_i128(x0: i128, x1: i128, x2: i128, y0: i64, y1: i64, y2: i64) -> (r: i128)
    requires
        -0x2000_0000_0000_0000 <= x0 <= 0x2000_0000_0000_0000,
        -0x2000_0000_0000_0000 <= x1 <= 0x2000_0000_0000_0000,
        -0x2000_0000_0000_0000 <= x2 <= 0x2000_0000_0000_0000,
        -INV_IN_MAX <= y0 <= INV_IN_MAX,
        -INV_IN_MAX <= y1 <= INV_IN_MAX,
        -INV_IN_MAX <= y2 <= INV_IN_MAX,
    ensures
        r == x0 * y0 + x1 * y1 + x2 * y2,
        -0x1800_0000_0000_0000_0000_0000 <= r <= 0x1800_0000_0000_0000_0000_0000,
{
    proof {
        lemma_abs_prod_le(x0 as int, y0 as int, 0x2000_0000_0000_0000, INV_IN_MAX as int);
        lemma_abs_prod_le(x1 as int, y1 as int, 0x2000_0000_0000_0000, INV_IN_MAX as int);
        lemma_abs_prod_le(x2 as int, y2 as int, 0x2000_0000_0000_0000, INV_IN_MAX as int);
    }
    mul_i128(x0, y0 as i128) + mul_i128(x1, y1 as i128) + mul_i128(x2, y2 as i128)
}

/// `FP * u` for a translation dot product.
fn mul_fp_i128(u: i128) -> (r: i128)
    requires
        -0x1800_0000_0000_0000_0000_0000 <= u <= 0x1800_0000_0000_0000_0000_0000,
    ensures
        r == FP as int * u,
        -0x1800_0000_0000_0000_0000_0000_0000 <= r <= 0x1800_0000_0000_0000_0000_0000_0000,
{
    proof {
        assert(-0x1800_0000_0000_0000_0000_0000_0000 <= FP as int * u
            <= 0x1800_0000_0000_0000_0000_0000_0000) by (nonlinear_arith)
            requires
                -0x1800_0000_0000_0000_0000_0000 <= u <= 0x1800_0000_0000_0000_0000_0000,
                FP == 65536,
        ;
    }
    (FP as i128) * u
}

/// One inverse entry with the determinant's sign folded in, checked
/// against the output range; `None` when it does not fit.
fn inv_div(num: i128, det: i128) -> (r: Option<i64>)
    requires
        det != 0,
        -0x2000_0000_0000_0000_0000_0000_0000 <= det <= 0x2000_0000_0000_0000_0000_0000_0000,
        -0x2000_0000_0000_0000_0000_0000_0000 <= num <= 0x2000_0000_0000_0000_0000_0000_0000,
    ensures
        match r {
            Some(v) => v == inv_entry(num as int, det as int)
                && -INV_OUT_MAX <= v <= INV_OUT_MAX,
            None => !(-INV_OUT_MAX <= inv_entry(num as int, det as int) <= INV_OUT_MAX),
        },
{
    let q: i128 = if det > 0 {
        rdiv_i128(num, det)
    } else {
        rdiv_i128(-num, -det)
    };
    if -(INV_OUT_MAX as i128) <= q && q <= INV_OUT_MAX as i128 {
        Some(q as i64)
    } else {
        None
    }
}

/// The inverse of an affine transform: the 3x3 block is inverted through
/// its adjugate and determinant, the translation column is carried
/// through, and the last row stays `(0, 0, 0, FP)`.  Returns `None` when
/// the transform is singular, or so ill-conditioned that an entry of the
/// inverse would leave `INV_OUT_MAX`.
pub fn affine_inverse(m: &Mat4) -> (r: Option<Mat4>)
    requires
        affine(*m),
        mat_in(*m, INV_IN_MAX as int),
    ensures
        match r {
            Some(mi) => {
                &&& affine_inverse_ok(*m)
                &&& mi == affine_inverse_spec(*m)
                &&& affine(mi)
                &&& mat_in(mi, INV_OUT_MAX as int)
            },
            None => !affine_inverse_ok(*m),
        },
{
    let a00: i128 = sub_mul(m.m11, m.m22, m.m12, m.m21);
    let a01: i128 = sub_mul(m.m02, m.m21, m.m01, m.m22);
    let a02: i128 = sub_mul(m.m01, m.m12, m.m02, m.m11);
    let a10: i128 = sub_mul(m.m12, m.m20, m.m10, m.m22);
    let a11: i128 = sub_mul(m.m00, m.m22, m.m02, m.m20);
    let a12: i128 = sub_mul(m.m02, m.m10, m.m00, m.m12);
    let a20: i128 = sub_mul(m.m10, m.m21, m.m11, m.m20);
    let a21: i128 = sub_mul(m.m01, m.m20, m.m00, m.m21);
    let a22: i128 = sub_mul(m.m00, m.m11, m.m01, m.m10);
    let det: i128 = dot3_i128(a00, a10, a20, m.m00, m.m01, m.m02);
    proof {
        assert(det == det3_spec(*m)) by {
            vstd::arithmetic::mul::lemma_mul_is_commutative(a00 as int, m.m00 as int);
            vstd::arithmetic::mul::lemma_mul_is_commutative(a10 as int, m.m01 as int);
            vstd::arithmetic::mul::lemma_mul_is_commutative(a20 as int, m.m02 as int);
        }
    }
    if det == 0 {
        return None;
    }
    let u0: i128 = dot3_i128(a00, a01, a02, m.m03, m.m13, m.m23);
    let u1: i128 = dot3_i128(a10, a11, a12, m.m03, m.m13, m.m23);
    let u2: i128 = dot3_i128(a20, a21, a22, m.m03, m.m13, m.m23);
    proof {
        assert(u0 == u_row0(*m) && u1 == u_row1(*m) && u2 == u_row2(*m)) by {
            vstd::arithmetic::mul::lemma_mul_is_commutative(a00 as int, m.m03 as int);
            vstd::arithmetic::mul::lemma_mul_is_commutative(a01 as int, m.m13 as int);
            vstd::arithmetic::mul::lemma_mul_is_commutative(a02 as int, m.m23 as int);
            vstd::arithmetic::mul::lemma_mul_is_commutative(a10 as int, m.m03 as int);
            vstd::arithmetic::mul::lemma_mul_is_commutative(a11 as int, m.m13 as int);
            vstd::arithmetic::mul::lemma_mul_is_commutative(a12 as int, m.m23 as int);
            vstd::arithmetic::mul::lemma_mul_is_commutative(a20 as int, m.m03 as int);
            vstd::arithmetic::mul::lemma_mul_is_commutative(a21 as int, m.m13 as int);
            vstd::arithmetic::mul::lemma_mul_is_commutative(a22 as int, m.m23 as int);
        }
    }
    let fp2: i128 = mul_i128(FP as i128, FP as i128);
    let e00 = match inv_div(mul_i128(fp2, a00), det) { Some(v) => v, None => { return None; } };
    let e01 = match inv_div(mul_i128(fp2, a01), det) { Some(v) => v, None => { return None; } };
    let e02 = match inv_div(mul_i128(fp2, a02), det) { Some(v) => v, None => { return None; } };
    let e10 = match inv_div(mul_i128(fp2, a10), det) { Some(v) => v, None => { return None; } };
    let e11 = match inv_div(mul_i128(fp2, a11), det) { Some(v) => v, None => { return None; } };
    let e12 = match inv_div(mul_i128(fp2, a12), det) { Some(v) => v, None => { return None; } };
    let e20 = match inv_div(mul_i128(fp2, a20), det) { Some(v) => v, None => { return None; } };
    let e21 = match inv_div(mul_i128(fp2, a21), det) { Some(v) => v, None => { return None; } };
    let e22 = match inv_div(mul_i128(fp2, a22), det) { Some(v) => v, None => { return None; } };
    let e03 = match inv_div(-mul_fp_i128(u0), det) { Some(v) => v, None => { return None; } };
    let e13 = match inv_div(-mul_fp_i128(u1), det) { Some(v) => v, None => { return None; } };
    let e23 = match inv_div(-mul_fp_i128(u2), det) { Some(v) => v, None => { return None; } };
    Some(Mat4 {
        m00: e00, m01: e01, m02: e02, m03: e03,
        m10: e10, m11: e11, m12: e12, m13: e13,
        m20: e20, m21: e21, m22: e22, m23: e23,
        m30: 0, m31: 0, m32: 0, m33: FP,
    })
}

/// A spec-level translation transform.
pub open spec fn translation_spec(x: i64, y: i64, z: i64) -> Mat4 {
    Mat4 {
        m00: FP, m01: 0, m02: 0, m03: x,
        m10: 0, m11: FP, m12: 0, m13: y,
        m20: 0, m21: 0, m22: FP, m23: z,
        m30: 0, m31: 0, m32: 0, m33: FP,
    }
}

/// The product of two affine transforms is affine.
pub proof fn lemma_mat_mul_affine(a: Mat4, b: Mat4)
    requires
        affine(a),
        affine(b),
    ensures
        affine(mat_mul_spec(a, b)),
{
    lemma_rdiv_exact(0, FP as int);
    lemma_rdiv_exact(FP as int, FP as int);
    assert(0 * b.m00 as int + 0 * b.m10 as int + 0 * b.m20 as int + FP as int * 0 == 0);
    assert(0 * b.m01 as int + 0 * b.m11 as int + 0 * b.m21 as int + FP as int * 0 == 0);
    assert(0 * b.m02 as int + 0 * b.m12 as int + 0 * b.m22 as int + FP as int * 0 == 0);
    assert(0 * b.m03 as int + 0 * b.m13 as int + 0 * b.m23 as int + FP as int * (FP as int)
        == FP as int * (FP as int));
}

/// Multiplying an affine transform by a translation on the left leaves
/// every entry unchanged except the translation column, to which the
/// translation is added exactly.
pub proof fn lemma_translation_mul(x: i64, y: i64, z: i64, b: Mat4)
    requires
        affine(b),
        mat_in(b, 0x2000_0000_0000_0000),
        -0x2000_0000_0000_0000 <= x <= 0x2000_0000_0000_0000,
        -0x2000_0000_0000_0000 <= y <= 0x2000_0000_0000_0000,
        -0x2000_0000_0000_0000 <= z <= 0x2000_0000_0000_0000,
    ensures
        mat_mul_spec(translation_spec(x, y, z), b) == (Mat4 {
            m03: (b.m03 + x) as i64,
            m13: (b.m13 + y) as i64,
            m23: (b.m23 + z) as i64,
            ..b
        }),
{
    let t = translation_spec(x, y, z);
    lemma_mat_mul_affine(t, b);
    lemma_tr_row(x as int, b.m00 as int, b.m10 as int, b.m20 as int, b.m30 as int, 0);
    lemma_tr_row(x as int, b.m01 as int, b.m11 as int, b.m21 as int, b.m31 as int, 0);
    lemma_tr_row(x as int, b.m02 as int, b.m12 as int, b.m22 as int, b.m32 as int, 0);
    lemma_tr_row(x as int, b.m03 as int, b.m13 as int, b.m23 as int, b.m33 as int, 1);
    lemma_tr_row(y as int, b.m10 as int, b.m00 as int, b.m20 as int, b.m30 as int, 0);
    lemma_tr_row(y as int, b.m11 as int, b.m01 as int, b.m21 as int, b.m31 as int, 0);
    lemma_tr_row(y as int, b.m12 as int, b.m02 as int, b.m22 as int, b.m32 as int, 0);
    lemma_tr_row(y as int, b.m13 as int, b.m03 as int, b.m23 as int, b.m33 as int, 1);
    lemma_tr_row(z as int, b.m20 as int, b.m00 as int, b.m10 as int, b.m30 as int, 0);
    lemma_tr_row(z as int, b.m21 as int, b.m01 as int, b.m11 as int, b.m31 as int, 0);
    lemma_tr_row(z as int, b.m22 as int, b.m02 as int, b.m12 as int, b.m32 as int, 0);
    lemma_tr_row(z as int, b.m23 as int, b.m03 as int, b.m13 as int, b.m33 as int, 1);
    assert(dot_fx(FP as int, 0, 0, x as int,
        b.m00 as int, b.m10 as int, b.m20 as int, b.m30 as int) == b.m00);
    assert(dot_fx(FP as int, 0, 0, x as int,
        b.m01 as int, b.m11 as int, b.m21 as int, b.m31 as int) == b.m01);
    assert(dot_fx(FP as int, 0, 0, x as int,
        b.m02 as int, b.m12 as int, b.m22 as int, b.m32 as int) == b.m02);
    assert(dot_fx(FP as int, 0, 0, x as int,
        b.m03 as int, b.m13 as int, b.m23 as int, b.m33 as int) == b.m03 + x);
    assert(dot_fx(0, FP as int, 0, y as int,
        b.m00 as int, b.m10 as int, b.m20 as int, b.m30 as int) == b.m10);
    assert(dot_fx(0, FP as int, 0, y as int,
        b.m01 as int, b.m11 as int, b.m21 as int, b.m31 as int) == b.m11);
    assert(dot_fx(0, FP as int, 0, y as int,
        b.m02 as int, b.m12 as int, b.m22 as int, b.m32 as int) == b.m12);
    assert(dot_fx(0, FP as int, 0, y as int,
        b.m03 as int, b.m13 as int, b.m23 as int, b.m33 as int) == b.m13 + y);
    assert(dot_fx(0, 0, FP as int, z as int,
        b.m00 as int, b.m10 as int, b.m20 as int, b.m30 as int) == b.m20);
    assert(dot_fx(0, 0, FP as int, z as int,
        b.m01 as int, b.m11 as int, b.m21 as int, b.m31 as int) == b.m21);
    assert(dot_fx(0, 0, FP as int, z as int,
        b.m02 as int, b.m12 as int, b.m22 as int, b.m32 as int) == b.m22);
    assert(dot_fx(0, 0, FP as int, z as int,
        b.m03 as int, b.m13 as int, b.m23 as int, b.m33 as int) == b.m23 + z);
}

/// One entry of a translation product: with the bottom entry `w` either
/// `0` (ordinary column) or `FP` (translation column, selected by
/// `kind == 1`), the rounded dot product collapses to `e` or `e + u`.
proof fn lemma_tr_row(u: int, e: int, o1: int, o2: int, w: int, kind: int)
    requires
        -0x2000_0000_0000_0000 <= u <= 0x2000_0000_0000_0000,
        -0x2000_0000_0000_0000 <= e <= 0x2000_0000_0000_0000,
        kind == 0 ==> w == 0,
        kind == 1 ==> w == FP,
        kind == 0 || kind == 1,
    ensures
        kind == 0 ==> rdiv(FP as int * e + 0 * o1 + 0 * o2 + u * w, FP as int) == e,
        kind == 0 ==> rdiv(0 * o1 + FP as int * e + 0 * o2 + u * w, FP as int) == e,
        kind == 0 ==> rdiv(0 * o1 + 0 * o2 + FP as int * e + u * w, FP as int) == e,
        kind == 1 ==> rdiv(FP as int * e + 0 * o1 + 0 * o2 + u * w, FP as int) == e + u,
        kind == 1 ==> rdiv(0 * o1 + FP as int * e + 0 * o2 + u * w, FP as int) == e + u,
        kind == 1 ==> rdiv(0 * o1 + 0 * o2 + FP as int * e + u * w, FP as int) == e + u,
{
    if kind == 0 {
        assert(FP as int * e + 0 * o1 + 0 * o2 + u * w == e * (FP as int)
            && 0 * o1 + FP as int * e + 0 * o2 + u * w == e * (FP as int)
            && 0 * o1 + 0 * o2 + FP as int * e + u * w == e * (FP as int)) by (nonlinear_arith)
            requires
                w == 0,
        ;
        lemma_rdiv_exact(e, FP as int);
    } else {
        assert(FP as int * e + 0 * o1 + 0 * o2 + u * w == (e + u) * (FP as int)
            && 0 * o1 + FP as int * e + 0 * o2 + u * w == (e + u) * (FP as int)
            && 0 * o1 + 0 * o2 + FP as int * e + u * w == (e + u) * (FP as int))
            by (nonlinear_arith)
            requires
                w == FP,
                FP == 65536,
        ;
        lemma_rdiv_exact(e + u, FP as int);
    }
}

} // verus!
