//! The frame renderer: drives the whole pipeline for a scene.
//!
//! For every instance, a triangle generator is constructed against the
//! camera's inverted transform; each emitted screen-space triangle is
//! backface-culled and, if it survives and is drawable, filled with
//! depth-tested pixel writes into the canvas.  The final canvas is the
//! exact fold of those writes in emission order.

use vstd::prelude::*;
use crate::raster::Color;
use crate::raster::DepthPixel;
use crate::raster::CANVAS_MAX;
use crate::raster::DEPTH_MAX;
use crate::raster::draw_filled_triangle_with_depth;
use crate::raster::wtri_pixels;
use crate::fx::fx_inv;
use crate::matrix::Mat4;
use crate::scene::Model;
use crate::scene::Instance;
use crate::scene::Camera;
use crate::scene::SceneError;
use crate::scene::cull_det;
use crate::scene::cull_triangle;
use crate::scene::camera_transform_spec;
use crate::matrix::affine_inverse_ok;
use crate::matrix::affine_inverse_spec;
use crate::triangles::CanvasTriangle;
use crate::triangles::instance_emission;
use crate::canvas::Canvas;
use crate::canvas::apply_depth_pixels_spec;

verus! {

/// Whether a screen-space triangle can be handed to the depth-tested
/// filler: coordinates within the canvas range and strictly positive
/// depths.
pub open spec fn drawable(t: CanvasTriangle) -> bool {
    &&& -CANVAS_MAX <= t.a.0 <= CANVAS_MAX && -CANVAS_MAX <= t.a.1 <= CANVAS_MAX
    &&& -CANVAS_MAX <= t.b.0 <= CANVAS_MAX && -CANVAS_MAX <= t.b.1 <= CANVAS_MAX
    &&& -CANVAS_MAX <= t.c.0 <= CANVAS_MAX && -CANVAS_MAX <= t.c.1 <= CANVAS_MAX
    &&& 0 < t.a.2 <= DEPTH_MAX
    &&& 0 < t.b.2 <= DEPTH_MAX
    &&& 0 < t.c.2 <= DEPTH_MAX
}

/// Whether the triangle is back-facing (positive signed area) and must
/// be discarded.
pub open spec fn culled(t: CanvasTriangle) -> bool {
    cull_det((t.a.0 as int, t.a.1 as int), (t.b.0 as int, t.b.1 as int),
        (t.c.0 as int, t.c.1 as int)) > 0
}

/// The depth-tested pixel writes of one screen-space triangle.
pub open spec fn tri_fill_spec(t: CanvasTriangle) -> Seq<DepthPixel> {
    wtri_pixels(
        (t.a.0 as int, t.a.1 as int, fx_inv(t.a.2 as int)),
        (t.b.0 as int, t.b.1 as int, fx_inv(t.b.2 as int)),
        (t.c.0 as int, t.c.1 as int, fx_inv(t.c.2 as int)),
    ).map_values(|p: (int, int, int)| DepthPixel {
        x: p.0 as i64, y: p.1 as i64, z_inv: p.2 as i64, color: t.color,
    })
}

/// The canvas buffers after rendering one screen-space triangle:
/// unchanged when the triangle is not drawable or is back-facing,
/// otherwise the fold of its depth-tested pixel writes.
pub open spec fn draw_tri_spec(pix: Seq<Color>, dep: Seq<i64>, w: int, h: int, t: CanvasTriangle)
    -> (Seq<Color>, Seq<i64>) {
    if !drawable(t) || culled(t) {
        (pix, dep)
    } else {
        apply_depth_pixels_spec(pix, dep, w, h, tri_fill_spec(t), tri_fill_spec(t).len() as int)
    }
}

/// The canvas buffers after rendering the first `n` triangles of an
/// emission, in order.
pub open spec fn draw_tris_spec(
    pix: Seq<Color>, dep: Seq<i64>, w: int, h: int, em: Seq<CanvasTriangle>, n: int,
) -> (Seq<Color>, Seq<i64>)
    decreases n,
{
    if n <= 0 {
        (pix, dep)
    } else {
        let prev = draw_tris_spec(pix, dep, w, h, em, n - 1);
        draw_tri_spec(prev.0, prev.1, w, h, em[n - 1])
    }
}

/// The canvas buffers after rendering the first `n` instances of a
/// scene.
pub open spec fn render_scene_spec(
    pix: Seq<Color>, dep: Seq<i64>, w: int, h: int, models: Seq<Model>, instances: Seq<Instance>,
    camera_m_inv: Mat4, v_w: i64, v_h: i64, d: i64, c_w: i64, c_h: i64, n: int,
) -> (Seq<Color>, Seq<i64>)
    decreases n,
{
    if n <= 0 {
        (pix, dep)
    } else {
        let prev = render_scene_spec(pix, dep, w, h, models, instances, camera_m_inv,
            v_w, v_h, d, c_w, c_h, n - 1);
        let inst = instances[n - 1];
        let em = instance_emission(models[inst.model as int], inst, camera_m_inv,
            v_w, v_h, d, c_w, c_h);
        draw_tris_spec(prev.0, prev.1, w, h, em, em.len() as int)
    }
}

/// Whether every model is well formed and every instance refers to an
/// existing model.
pub open spec fn scene_ok(models: Seq<Model>, instances: Seq<Instance>) -> bool {
    &&& forall|k: int| 0 <= k < models.len() ==> (#[trigger] models[k]).wf()
    &&& forall|k: int| 0 <= k < instances.len()
        ==> (#[trigger] instances[k]).model < models.len()
}

/// Renders one triangle into the canvas (cull, fill, composite).
fn render_triangle(t: &CanvasTriangle, canvas: &mut Canvas)
    requires
        old(canvas).wf(),
    ensures
        final(canvas).wf(),
        final(canvas).width == old(canvas).width,
        final(canvas).height == old(canvas).height,
        ({
            let s = draw_tri_spec(old(canvas).pixels@, old(canvas).depth@,
                old(canvas).width as int, old(canvas).height as int, *t);
            final(canvas).pixels@ == s.0 && final(canvas).depth@ == s.1
        }),
{
    let ok = -CANVAS_MAX <= t.a.0 && t.a.0 <= CANVAS_MAX
        && -CANVAS_MAX <= t.a.1 && t.a.1 <= CANVAS_MAX
        && -CANVAS_MAX <= t.b.0 && t.b.0 <= CANVAS_MAX
        && -CANVAS_MAX <= t.b.1 && t.b.1 <= CANVAS_MAX
        && -CANVAS_MAX <= t.c.0 && t.c.0 <= CANVAS_MAX
        && -CANVAS_MAX <= t.c.1 && t.c.1 <= CANVAS_MAX
        && 0 < t.a.2 && t.a.2 <= DEPTH_MAX
        && 0 < t.b.2 && t.b.2 <= DEPTH_MAX
        && 0 < t.c.2 && t.c.2 <= DEPTH_MAX;
    if !ok {
        return;
    }
    if cull_triangle(&t.a, &t.b, &t.c) {
        return;
    }
    let pixels = draw_filled_triangle_with_depth(t.a, t.b, t.c, t.color);
    proof {
        assert(pixels@ =~= tri_fill_spec(*t));
    }
    canvas.blit_depth_pixels(&pixels);
}

/// Checks that every model is well formed and every instance refers to
/// an existing model.
fn check_scene(models: &Vec<Model>, instances: &Vec<Instance>) -> (r: bool)
    ensures
        r == scene_ok(models@, instances@),
{
    let mut v: usize = 0;
    while v < models.len()
        invariant
            v <= models@.len(),
            forall|k: int| 0 <= k < v ==> (#[trigger] models@[k]).wf(),
        decreases models@.len() - v,
    {
        if !models[v].check() {
            return false;
        }
        v = v + 1;
    }
    let mut w: usize = 0;
    while w < instances.len()
        invariant
            w <= instances@.len(),
            forall|k: int| 0 <= k < w ==> (#[trigger] instances@[k]).model < models@.len(),
            forall|k: int| 0 <= k < models@.len() ==> (#[trigger] models@[k]).wf(),
        decreases instances@.len() - w,
    {
        if instances[w].model >= models.len() {
            return false;
        }
        w = w + 1;
    }
    true
}

/// Renders a whole scene into the canvas: for each instance in order, a
/// triangle generator is built with `project_and_clip` and every
/// emitted triangle is culled, filled and composited.  Fails fast with
/// a clear error on a malformed scene or a non-invertible camera
/// transform, leaving the canvas untouched.
#[verifier::rlimit(60)]
pub fn render_scene(
    models: &Vec<Model>, instances: &Vec<Instance>, camera: &Camera, c_w: i64, c_h: i64,
    canvas: &mut Canvas,
) -> (r: Result<(), SceneError>)
    requires
        old(canvas).wf(),
        camera.wf(),
        forall|k: int| 0 <= k < instances@.len() ==> (#[trigger] instances@[k]).wf(),
        1 <= c_w <= crate::clip::CANVAS_DIM_MAX,
        1 <= c_h <= crate::clip::CANVAS_DIM_MAX,
    ensures
        final(canvas).wf(),
        final(canvas).width == old(canvas).width,
        final(canvas).height == old(canvas).height,
        match r {
            Ok(()) => {
                &&& scene_ok(models@, instances@)
                &&& affine_inverse_ok(camera_transform_spec(*camera))
                &&& ({
                    let s = render_scene_spec(old(canvas).pixels@, old(canvas).depth@,
                        old(canvas).width as int, old(canvas).height as int,
                        models@, instances@,
                        affine_inverse_spec(camera_transform_spec(*camera)),
                        camera.perspective.x, camera.perspective.y, camera.perspective.z,
                        c_w, c_h, instances@.len() as int);
                    final(canvas).pixels@ == s.0 && final(canvas).depth@ == s.1
                })
            },
            Err(SceneError::MalformedScene) => !scene_ok(models@, instances@)
                && final(canvas).pixels@ == old(canvas).pixels@
                && final(canvas).depth@ == old(canvas).depth@,
            Err(SceneError::NonInvertibleCamera) => scene_ok(models@, instances@)
                && !affine_inverse_ok(camera_transform_spec(*camera))
                && final(canvas).pixels@ == old(canvas).pixels@
                && final(canvas).depth@ == old(canvas).depth@,
        },
{
    // Validate the scene: malformed model data is a caller error and
    // fails fast before anything is drawn.
    if !check_scene(models, instances) {
        return Err(SceneError::MalformedScene);
    }
    // Invert the camera transform once for the whole frame.
    let camera_m_inv = match camera.inverse_transform() {
        Ok(m) => m,
        Err(_) => {
            return Err(SceneError::NonInvertibleCamera);
        },
    };
    let v_w = camera.perspective.x;
    let v_h = camera.perspective.y;
    let d = camera.perspective.z;
    let ghost pix0 = canvas.pixels@;
    let ghost dep0 = canvas.depth@;
    let mut i: usize = 0;
    while i < instances.len()
        invariant
            canvas.wf(),
            canvas.width == old(canvas).width,
            canvas.height == old(canvas).height,
            camera.wf(),
            scene_ok(models@, instances@),
            forall|k: int| 0 <= k < instances@.len() ==> (#[trigger] instances@[k]).wf(),
            crate::matrix::mat_in(camera_m_inv, crate::matrix::INV_OUT_MAX as int),
            crate::matrix::affine(camera_m_inv),
            camera_m_inv == affine_inverse_spec(camera_transform_spec(*camera)),
            v_w == camera.perspective.x && v_h == camera.perspective.y
                && d == camera.perspective.z,
            1 <= c_w <= crate::clip::CANVAS_DIM_MAX,
            1 <= c_h <= crate::clip::CANVAS_DIM_MAX,
            i <= instances@.len(),
            ({
                let s = render_scene_spec(pix0, dep0, canvas.width as int, canvas.height as int,
                    models@, instances@, camera_m_inv, v_w, v_h, d, c_w, c_h, i as int);
                canvas.pixels@ == s.0 && canvas.depth@ == s.1
            }),
            pix0 == old(canvas).pixels@,
            dep0 == old(canvas).depth@,
        decreases instances@.len() - i,
    {
        let inst = &instances[i];
        let model = &models[inst.model];
        let mut gen = inst.project_and_clip(model, &camera_m_inv, v_w, v_h, d, c_w, c_h);
        let ghost em = instance_emission(models@[inst.model as int], instances@[i as int],
            camera_m_inv, v_w, v_h, d, c_w, c_h);
        let ghost ipix = canvas.pixels@;
        let ghost idep = canvas.depth@;
        loop
            invariant_except_break
                canvas.wf(),
                canvas.width == old(canvas).width,
                canvas.height == old(canvas).height,
                gen.wf(),
                gen.emission() == em,
                0 <= gen.pos() <= em.len(),
                ({
                    let s = draw_tris_spec(ipix, idep, canvas.width as int,
                        canvas.height as int, em, gen.pos());
                    canvas.pixels@ == s.0 && canvas.depth@ == s.1
                }),
            ensures
                canvas.wf(),
                canvas.width == old(canvas).width,
                canvas.height == old(canvas).height,
                ({
                    let s = draw_tris_spec(ipix, idep, canvas.width as int,
                        canvas.height as int, em, em.len() as int);
                    canvas.pixels@ == s.0 && canvas.depth@ == s.1
                }),
            decreases em.len() - gen.pos(),
        {
            match gen.next() {
                None => {
                    break;
                },
                Some(t) => {
                    render_triangle(&t, canvas);
                },
            }
        }
        i = i + 1;
    }
    Ok(())
}

} // verus!
