use rasterizer::fx::FP;
use rasterizer::matrix::{
    identity, homogeneous_scale, homogeneous_scale_vector, homogeneous_translation,
    homogeneous_translation_vector, homogeneous_rotation, homogeneous_projection,
    homogeneous_viewport_to_homogeneous_canvas, rotation_z, mat_mul, mat_vec_mul, Mat4, Vec3, Vec4,
};
use rasterizer::scene::{
    cube, simple_scene, cube_grid, cube_checkerboard, cull_triangle, Camera, Instance, HALF,
};

#[test]
fn scale_and_translation_builders() {
    let s = homogeneous_scale(2 * FP, 3 * FP, 4 * FP);
    assert_eq!((s.m00, s.m11, s.m22, s.m33), (2 * FP, 3 * FP, 4 * FP, FP));
    let sv = homogeneous_scale_vector(&Vec3 { x: FP, y: FP, z: FP });
    assert_eq!((sv.m00, sv.m11, sv.m22), (FP, FP, FP));
    let t = homogeneous_translation(FP, 2 * FP, 3 * FP);
    assert_eq!((t.m03, t.m13, t.m23), (FP, 2 * FP, 3 * FP));
    assert_eq!((t.m00, t.m11, t.m22, t.m33), (FP, FP, FP, FP));
    let tv = homogeneous_translation_vector(&Vec3 { x: -FP, y: 0, z: FP });
    assert_eq!((tv.m03, tv.m13, tv.m23), (-FP, 0, FP));
}

#[test]
fn projection_builders() {
    let p = homogeneous_projection(3 * FP);
    assert_eq!((p.m00, p.m11, p.m22), (3 * FP, 3 * FP, FP));
    let c = homogeneous_viewport_to_homogeneous_canvas(5 * FP, 7 * FP);
    assert_eq!((c.m00, c.m11, c.m22), (5 * FP, 7 * FP, FP));
}

#[test]
fn rotation_about_z_quarter_turn() {
    // sin = 1.0, cos = 0.0: a quarter turn about z.
    let r = rotation_z(FP, 0);
    assert_eq!((r.m00, r.m01, r.m10, r.m11), (0, -FP, FP, 0));
    // It maps the x axis to the y axis.
    let v = mat_vec_mul(&r, &Vec4 { x: FP, y: 0, z: 0, w: FP });
    assert_eq!((v.x, v.y, v.z, v.w), (0, FP, 0, FP));
}

#[test]
fn composed_rotation_with_zero_angles_is_identity() {
    let r = homogeneous_rotation(0, FP, 0, FP, 0, FP);
    assert_eq!(r, identity());
}

#[test]
fn matrix_product_with_identity() {
    let m = homogeneous_translation(FP, -2 * FP, 3 * FP);
    assert_eq!(mat_mul(&identity(), &m), m);
    assert_eq!(mat_mul(&m, &identity()), m);
}

#[test]
fn instance_caches_composite_transform() {
    let mut inst = Instance::new(
        0,
        Vec3 { x: HALF, y: HALF, z: HALF },
        identity(),
        Vec3 { x: FP, y: 0, z: 0 },
    );
    let t = inst.transform();
    assert_eq!((t.m00, t.m11, t.m22), (HALF, HALF, HALF));
    assert_eq!((t.m03, t.m13, t.m23), (FP, 0, 0));
    // Mutating an input recomputes the whole composite.
    inst.update_position(Vec3 { x: 0, y: 2 * FP, z: 0 });
    let t = inst.transform();
    assert_eq!((t.m03, t.m13, t.m23), (0, 2 * FP, 0));
    assert_eq!(t.m00, HALF);
    inst.update_scale(Vec3 { x: FP, y: FP, z: FP });
    let t = inst.transform();
    assert_eq!(t.m00, FP);
}

#[test]
fn radius_squared_of_unit_cube() {
    let m = cube();
    let inst = Instance::new(0, Vec3 { x: FP, y: FP, z: FP }, identity(),
        Vec3 { x: 0, y: 0, z: 0 });
    // Every corner sits at distance sqrt(3), so the squared radius is
    // exactly 3 in squared fixed-point units.
    assert_eq!(inst.radius_sq_from_origin(&m), 3 * FP * FP);
}

#[test]
fn camera_inverse_of_pure_translation() {
    let mut cam = Camera::default();
    cam.translation = Vec3 { x: FP, y: 2 * FP, z: 3 * FP };
    let inv = cam.inverse_transform().unwrap();
    assert_eq!((inv.m03, inv.m13, inv.m23), (-FP, -2 * FP, -3 * FP));
    assert_eq!((inv.m00, inv.m11, inv.m22, inv.m33), (FP, FP, FP, FP));
    // Forward times inverse is the identity.
    let prod = mat_mul(&cam.transform(), &inv);
    assert_eq!(prod, identity());
}

#[test]
fn camera_singular_rotation_is_an_error() {
    let mut cam = Camera::default();
    cam.rotation = Mat4 {
        m00: 0, m01: 0, m02: 0, m03: 0,
        m10: 0, m11: 0, m12: 0, m13: 0,
        m20: 0, m21: 0, m22: 0, m23: 0,
        m30: 0, m31: 0, m32: 0, m33: FP,
    };
    assert!(cam.inverse_transform().is_err());
}

/// A counter-clockwise triangle is reported back-facing under the
/// winding convention, and reversing the vertex order flips the
/// verdict.
#[test]
fn backface_cull_flips_with_winding() {
    let p = (0, 0, FP);
    let q = (1, 0, FP);
    let r = (0, 1, FP);
    assert!(cull_triangle(&p, &q, &r));
    assert!(!cull_triangle(&r, &q, &p));
}

#[test]
fn sample_scenes_are_well_formed() {
    let m = cube();
    assert!(m.check());
    assert_eq!(m.vertices.len(), 8);
    assert_eq!(m.triangles.len(), 12);
    assert_eq!(m.triangle_colors.len(), 12);

    let (models, instances) = simple_scene();
    assert_eq!(models.len(), 1);
    assert_eq!(instances.len(), 3);
    for inst in instances.iter() {
        assert_eq!(inst.model, 0);
    }

    let (_, grid) = cube_grid(2);
    assert_eq!(grid.len(), 16);
    let (_, checker) = cube_checkerboard(2);
    assert_eq!(checker.len(), 8);
}
