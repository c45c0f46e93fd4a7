use rasterizer::fx::FP;
use rasterizer::raster::Color;
use rasterizer::matrix::{identity, Vec3};
use rasterizer::scene::{cube, simple_scene, Camera, Instance, SceneError, HALF};
use rasterizer::triangles::Triangles;
use rasterizer::canvas::Canvas;
use rasterizer::render::render_scene;
use rasterizer::halton::halton_2d;

fn black() -> Color {
    Color { r: 0, g: 0, b: 0 }
}

/// Depth compositing: the pixel keeps the color written at the higher
/// inverse depth (closer wins), in either write order.
#[test]
fn depth_compositing_closer_wins() {
    let a = Color { r: FP, g: 0, b: 0 };
    let b = Color { r: 0, g: FP, b: 0 };
    let mut canvas = Canvas::new(8, 8, black());
    canvas.put_pixel_with_depth(0, 0, 2 * FP, a);
    canvas.put_pixel_with_depth(0, 0, FP, b);
    assert_eq!(canvas.pixel_at(0, 0), Some(a));

    let mut canvas = Canvas::new(8, 8, black());
    canvas.put_pixel_with_depth(0, 0, 2 * FP, b);
    canvas.put_pixel_with_depth(0, 0, FP, a);
    assert_eq!(canvas.pixel_at(0, 0), Some(b));
}

#[test]
fn out_of_canvas_writes_are_discarded() {
    let mut canvas = Canvas::new(4, 4, black());
    canvas.put_pixel(100, 0, Color { r: FP, g: 0, b: 0 });
    canvas.put_pixel(0, -100, Color { r: FP, g: 0, b: 0 });
    for x in -2i64..2 {
        for y in -1i64..3 {
            assert_eq!(canvas.pixel_at(x, y), Some(black()));
        }
    }
}

#[test]
fn colors_are_clamped_at_write() {
    let mut canvas = Canvas::new(4, 4, black());
    canvas.put_pixel(0, 0, Color { r: 2 * FP, g: -5, b: FP / 2 });
    assert_eq!(canvas.pixel_at(0, 0), Some(Color { r: FP, g: 0, b: FP / 2 }));
}

fn cube_instance_at(z: i64) -> (Vec<rasterizer::scene::Model>, Instance) {
    let mut models = Vec::new();
    models.push(cube());
    let inst = Instance::new(
        0,
        Vec3 { x: HALF, y: HALF, z: HALF },
        identity(),
        Vec3 { x: 0, y: 0, z },
    );
    (models, inst)
}

/// A cube well in front of the camera is fully visible: the generator
/// skips clipping and emits one triangle per model triangle.
#[test]
fn generator_full_mode_emits_every_triangle() {
    let (models, inst) = cube_instance_at(8 * FP);
    let cam = Camera::default();
    let inv = cam.inverse_transform().unwrap();
    let mut gen = inst.project_and_clip(&models[0], &inv, FP, FP, FP, 64, 64);
    let mut count = 0;
    while let Some(t) = gen.next() {
        count += 1;
        // Every depth is positive: the cube is in front of the camera.
        assert!(t.a.2 > 0 && t.b.2 > 0 && t.c.2 > 0);
    }
    assert_eq!(count, 12);
}

/// A cube entirely behind the camera produces nothing.
#[test]
fn generator_empty_mode_emits_nothing() {
    let (models, inst) = cube_instance_at(-8 * FP);
    let cam = Camera::default();
    let inv = cam.inverse_transform().unwrap();
    let mut gen = inst.project_and_clip(&models[0], &inv, FP, FP, FP, 64, 64);
    assert!(gen.next().is_none());
}

/// A cube straddling the near plane is clipped per triangle: pieces
/// are still produced and every piece lies at or beyond the projection
/// distance.
#[test]
fn generator_partial_mode_clips() {
    let (models, inst) = cube_instance_at(FP);
    let cam = Camera::default();
    let inv = cam.inverse_transform().unwrap();
    let mut gen = inst.project_and_clip(&models[0], &inv, FP, FP, FP, 64, 64);
    let mut count = 0;
    while let Some(t) = gen.next() {
        count += 1;
        for z in [t.a.2, t.b.2, t.c.2] {
            // Within one rounding step of the near plane or beyond.
            assert!(z >= FP - 2);
        }
    }
    assert!(count > 0);
}

/// Rendering a head-on cube paints the canvas centre with the color of
/// the face that looks at the camera, depth-tested against the rest.
#[test]
fn render_cube_paints_front_face() {
    let (models, inst) = cube_instance_at(8 * FP);
    let instances = vec![inst];
    let cam = Camera::default();
    let mut canvas = Canvas::new(64, 64, black());
    let r = render_scene(&models, &instances, &cam, 64, 64, &mut canvas);
    assert_eq!(r, Ok(()));
    // The face looking at the camera is the blue one.
    assert_eq!(canvas.pixel_at(0, 0), Some(Color { r: 0, g: 0, b: FP }));
    // The near face is at depth 7.5, so the stored inverse depth at the
    // centre is positive.
    assert!(canvas.depth_at(0, 0).unwrap() > 0);
    // A corner of the canvas stays background.
    assert_eq!(canvas.pixel_at(-30, 30), Some(black()));
}

#[test]
fn render_simple_scene_paints_something() {
    let (models, instances) = simple_scene();
    let cam = Camera::default();
    let mut canvas = Canvas::new(64, 64, black());
    let r = render_scene(&models, &instances, &cam, 64, 64, &mut canvas);
    assert_eq!(r, Ok(()));
    let painted = canvas.pixels.iter().filter(|&&c| c != black()).count();
    assert!(painted > 0);
}

#[test]
fn render_rejects_bad_model_index() {
    let mut models = Vec::new();
    models.push(cube());
    let inst = Instance::new(3, Vec3 { x: HALF, y: HALF, z: HALF }, identity(),
        Vec3 { x: 0, y: 0, z: 8 * FP });
    let instances = vec![inst];
    let cam = Camera::default();
    let mut canvas = Canvas::new(16, 16, black());
    let r = render_scene(&models, &instances, &cam, 16, 16, &mut canvas);
    assert_eq!(r, Err(SceneError::MalformedScene));
}

#[test]
fn render_reports_singular_camera() {
    let (models, instances) = simple_scene();
    let mut cam = Camera::default();
    cam.rotation = rasterizer::matrix::Mat4 {
        m00: 0, m01: 0, m02: 0, m03: 0,
        m10: 0, m11: 0, m12: 0, m13: 0,
        m20: 0, m21: 0, m22: 0, m23: 0,
        m30: 0, m31: 0, m32: 0, m33: FP,
    };
    let mut canvas = Canvas::new(16, 16, black());
    let r = render_scene(&models, &instances, &cam, 16, 16, &mut canvas);
    assert_eq!(r, Err(SceneError::NonInvertibleCamera));
}

/// The projected triangle stream can be drained twice by rebuilding the
/// generator; the emission is deterministic.
#[test]
fn generator_is_deterministic() {
    let (models, inst) = cube_instance_at(8 * FP);
    let cam = Camera::default();
    let inv = cam.inverse_transform().unwrap();
    let collect = |mut g: Triangles| {
        let mut v = Vec::new();
        while let Some(t) = g.next() {
            v.push(t);
        }
        v
    };
    let a = collect(inst.project_and_clip(&models[0], &inv, FP, FP, FP, 64, 64));
    let b = collect(inst.project(&models[0], &inv, FP, FP, FP, 64, 64));
    assert_eq!(a, b);
}

/// The first elements of the 2D Halton sequence in bases 2 and 3.
#[test]
fn halton_first_elements() {
    let mut h = halton_2d::<2, 3>();
    let expect = [
        ((1, 2), (1, 3)),
        ((1, 4), (2, 3)),
        ((3, 4), (1, 9)),
        ((1, 8), (4, 9)),
        ((5, 8), (7, 9)),
        ((3, 8), (2, 9)),
        ((7, 8), (5, 9)),
    ];
    for want in expect.iter() {
        assert_eq!(h.next(), *want);
    }
    // Every value is a fraction strictly inside the unit interval.
    let mut h = halton_2d::<2, 3>();
    for _ in 0..32 {
        let ((n1, d1), (n2, d2)) = h.next();
        assert!(0 < n1 && n1 < d1);
        assert!(0 < n2 && n2 < d2);
    }
}
