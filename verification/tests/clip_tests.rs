use rasterizer::fx::FP;
use rasterizer::raster::Color;
use rasterizer::clip::{
    clip_triangle_against_plane, normalize_hvec, frustum_planes, ClipTriangle, HVec, Plane,
};

fn hv(x: i128, y: i128, z: i128, w: i128) -> HVec {
    HVec { x, y, z, w }
}

fn tri(a: HVec, b: HVec, c: HVec) -> ClipTriangle {
    ClipTriangle { a, b, c, color: Color { r: FP, g: 0, b: 0 } }
}

fn dist(p: &Plane, v: &HVec) -> i128 {
    p.a as i128 * v.x + p.b as i128 * v.y + p.c as i128 * v.z - p.d as i128 * v.w
}

/// A plane through the origin facing +z, with offset zero.
fn z_plane() -> Plane {
    Plane { a: 0, b: 0, c: 1, d: 0 }
}

/// Clipping with all three vertices in front returns the triangle
/// unchanged: same vertices in the same order, same color.
#[test]
fn clip_all_in_front_is_identity() {
    let t = tri(hv(0, 0, 2, 1), hv(1, 0, 3, 1), hv(0, 1, 4, 1));
    let out = clip_triangle_against_plane(&t, &z_plane());
    assert_eq!(out.len(), 1);
    assert_eq!(out[0], t);
}

/// A vertex exactly on the plane counts as in front: ties keep
/// geometry.
#[test]
fn clip_on_plane_counts_as_front() {
    let t = tri(hv(0, 0, 0, 1), hv(1, 0, 3, 1), hv(0, 1, 4, 1));
    let out = clip_triangle_against_plane(&t, &z_plane());
    assert_eq!(out.len(), 1);
    assert_eq!(out[0], t);
}

#[test]
fn clip_all_behind_discards() {
    let t = tri(hv(0, 0, -2, 1), hv(1, 0, -3, 1), hv(0, 1, -4, 1));
    let out = clip_triangle_against_plane(&t, &z_plane());
    assert_eq!(out.len(), 0);
}

/// One vertex in front: one output triangle, front vertex unchanged,
/// and the two new vertices lie exactly on the plane.
#[test]
fn clip_one_in_front_splits_once() {
    let p = z_plane();
    let a = hv(0, 0, 2, 1);
    let b = hv(0, 0, -2, 1);
    let c = hv(2, 0, -2, 1);
    let out = clip_triangle_against_plane(&tri(a, b, c), &p);
    assert_eq!(out.len(), 1);
    assert_eq!(out[0].a, a);
    assert_eq!(out[0].b, hv(0, 0, 0, 4));
    assert_eq!(out[0].c, hv(4, 0, 0, 4));
    assert_eq!(dist(&p, &out[0].b), 0);
    assert_eq!(dist(&p, &out[0].c), 0);
    assert_eq!(out[0].color, Color { r: FP, g: 0, b: 0 });
}

/// Two vertices in front: two output triangles covering the clipped
/// quadrilateral, both new vertices exactly on the plane.
#[test]
fn clip_two_in_front_splits_twice() {
    let p = z_plane();
    let a = hv(0, 0, 2, 1);
    let b = hv(0, 0, 4, 1);
    let c = hv(0, 0, -2, 1);
    let out = clip_triangle_against_plane(&tri(a, b, c), &p);
    assert_eq!(out.len(), 2);
    // First piece: (mid1, front1, mid2); second: (front1, front2, mid2).
    let mid1 = out[0].a;
    let mid2 = out[0].c;
    assert_eq!(dist(&p, &mid1), 0);
    assert_eq!(dist(&p, &mid2), 0);
    assert_eq!(out[0].b, a);
    assert_eq!(out[1].a, a);
    assert_eq!(out[1].b, b);
    assert_eq!(out[1].c, mid2);
    assert_eq!(mid1, hv(0, 0, 0, 4));
    assert_eq!(mid2, hv(0, 0, 0, 6));
}

#[test]
fn normalize_scales_into_range_and_keeps_direction() {
    let big = hv(0x4_0000_0000, -0x8_0000_0000, 0x10_0000_0000, 0x2_0000_0000);
    let n = normalize_hvec(&big);
    assert!(n.x.abs() <= 0x1_0000_0000 && n.y.abs() <= 0x1_0000_0000);
    assert!(n.z.abs() <= 0x1_0000_0000 && n.w > 0);
    // Four exact halving steps bring the largest coordinate into range.
    assert_eq!(n, hv(0x4000_0000, -0x8000_0000, 0x1_0000_0000, 0x2000_0000));
}

#[test]
fn frustum_has_five_planes_in_order() {
    let ps = frustum_planes(FP, FP, FP);
    assert_eq!(ps.len(), 5);
    // Near plane at the projection distance.
    assert_eq!(ps[0], Plane { a: 0, b: 0, c: FP, d: FP });
    // Side planes through the eye with offset zero.
    assert_eq!(ps[1], Plane { a: 2 * FP, b: 0, c: FP, d: 0 });
    assert_eq!(ps[2], Plane { a: -2 * FP, b: 0, c: FP, d: 0 });
    assert_eq!(ps[3], Plane { a: 0, b: 2 * FP, c: FP, d: 0 });
    assert_eq!(ps[4], Plane { a: 0, b: -2 * FP, c: FP, d: 0 });
}
