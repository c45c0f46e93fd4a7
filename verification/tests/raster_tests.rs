use rasterizer::fx::FP;
use rasterizer::raster::{
    draw_line, draw_filled_triangle, draw_shaded_triangle, draw_filled_triangle_with_depth,
    viewport_to_canvas, project_vertex, Color,
};

fn red() -> Color {
    Color { r: FP, g: 0, b: 0 }
}

/// A horizontal line covers exactly the pixels between its endpoints,
/// in increasing x order, with no duplicates or gaps.
#[test]
fn line_horizontal_exact_pixels() {
    let px = draw_line((0, 0), (5, 0), red());
    assert_eq!(px.len(), 6);
    for (k, p) in px.iter().enumerate() {
        assert_eq!((p.x, p.y), (k as i64, 0));
        assert_eq!(p.color, red());
    }
}

#[test]
fn line_endpoint_order_does_not_matter() {
    let a = draw_line((0, 0), (5, 0), red());
    let b = draw_line((5, 0), (0, 0), red());
    assert_eq!(a, b);
}

#[test]
fn line_vertical_and_diagonal() {
    let v = draw_line((2, -1), (2, 3), red());
    assert_eq!(v.len(), 5);
    for (k, p) in v.iter().enumerate() {
        assert_eq!((p.x, p.y), (2, -1 + k as i64));
    }
    let d = draw_line((0, 0), (3, 3), red());
    assert_eq!(d.len(), 4);
    for (k, p) in d.iter().enumerate() {
        assert_eq!((p.x, p.y), (k as i64, k as i64));
    }
}

/// The filled right triangle (0,0) (10,0) (0,10): every pixel carries
/// the flat color, the count matches the discrete area of the
/// rasterization rule, and no pixel leaves the convex hull.
#[test]
fn filled_triangle_flat_color_and_hull() {
    let c = red();
    let px = draw_filled_triangle((0, 0), (10, 0), (0, 10), c);
    for p in px.iter() {
        assert_eq!(p.color, c);
        // Inside the hull of the three vertices (edges inclusive).
        assert!(p.x >= 0 && p.y >= 0 && p.x + p.y <= 10);
    }
    // One pixel on the degenerate top scanline plus full rows below.
    assert_eq!(px.len(), 56);
    // No duplicates.
    let mut seen = std::collections::HashSet::new();
    for p in px.iter() {
        assert!(seen.insert((p.x, p.y)));
    }
}

#[test]
fn filled_triangle_degenerate_is_harmless() {
    // All three vertices on one point.
    let px = draw_filled_triangle((3, 3), (3, 3), (3, 3), red());
    assert_eq!(px.len(), 1);
    assert_eq!((px[0].x, px[0].y), (3, 3));
    // A zero-height triangle produces a single bounded scanline.
    let px = draw_filled_triangle((0, 2), (5, 2), (9, 2), red());
    for p in px.iter() {
        assert_eq!(p.y, 2);
        assert!(p.x >= 0 && p.x <= 9);
    }
}

#[test]
fn shaded_triangle_uniform_weight_scales_color() {
    let base = Color { r: FP, g: FP, b: FP };
    let half = FP / 2;
    let px = draw_shaded_triangle((0, 0), (4, 0), (0, 4), base, (half, half, half));
    assert_eq!(px.len(), 11);
    for p in px.iter() {
        assert_eq!(p.color, Color { r: half, g: half, b: half });
    }
}

#[test]
fn depth_triangle_carries_inverse_depth() {
    // All three vertices at fixed-point depth 1.0, so every pixel's
    // inverse depth is exactly 1.0.
    let px = draw_filled_triangle_with_depth((0, 0, FP), (4, 0, FP), (0, 4, FP), red());
    assert_eq!(px.len(), 11);
    for p in px.iter() {
        assert_eq!(p.z_inv, FP);
        assert_eq!(p.color, red());
    }
    // Depth 2.0 gives inverse depth 0.5.
    let px = draw_filled_triangle_with_depth(
        (0, 0, 2 * FP), (4, 0, 2 * FP), (0, 4, 2 * FP), red());
    for p in px.iter() {
        assert_eq!(p.z_inv, FP / 2);
    }
}

#[test]
fn viewport_to_canvas_scales() {
    let v = (FP, FP, FP);
    assert_eq!(viewport_to_canvas(v, 100, 100, FP / 2, -FP / 4), (50, -25));
}

#[test]
fn project_vertex_perspective_divides() {
    let v = (FP, FP, FP);
    let o = (0, 0, 0);
    // A point at depth 2 with x = y = 1 lands at half the canvas scale.
    let r = project_vertex(v, o, 100, 100, (FP, FP, 2 * FP));
    assert_eq!(r, (50, 50));
}
