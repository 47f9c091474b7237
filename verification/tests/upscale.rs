use bitte_pixels::upscale::{calculate_active_quad, ActiveQuad};
use bitte_pixels::Size;

fn quad(surface: (u32, u32), canvas: (u32, u32)) -> ActiveQuad {
    calculate_active_quad(
        &Size { width: surface.0, height: surface.1 },
        &Size { width: canvas.0, height: canvas.1 },
    )
}

/// A pixel coordinate in normalised device coordinates.
fn ndc(pixel: u32, extent: u32) -> f32 {
    pixel as f32 / extent as f32 * 2. - 1.
}

#[test]
fn canvas_240_on_surface_500_is_doubled_and_centred() {
    let quad = quad((500, 500), (240, 240));
    assert_eq!(quad, ActiveQuad { x_min: 10, x_max: 490, y_min: 10, y_max: 490 });
    assert_eq!(quad.corners(), [(10, 490), (490, 490), (10, 10), (490, 10)]);
    assert!((ndc(quad.x_min, 500) - -0.96).abs() < 1e-6);
    assert!((ndc(quad.x_max, 500) - 0.96).abs() < 1e-6);
    assert!((ndc(quad.corners()[0].1, 500) - 0.96).abs() < 1e-6);
    assert!((ndc(quad.corners()[3].1, 500) - -0.96).abs() < 1e-6);
}

#[test]
fn surface_smaller_than_canvas_collapses_the_quad() {
    let quad = quad((100, 300), (240, 240));
    assert_eq!(quad, ActiveQuad { x_min: 50, x_max: 50, y_min: 150, y_max: 150 });
    assert_eq!(quad.corners(), [(50, 150); 4]);
    let flat = self::quad((300, 100), (240, 240));
    assert_eq!(flat.corners(), [(150, 50); 4]);
}

#[test]
fn surface_equal_to_canvas_is_covered() {
    let quad = quad((240, 240), (240, 240));
    assert_eq!(quad, ActiveQuad { x_min: 0, x_max: 240, y_min: 0, y_max: 240 });
    assert_eq!(ndc(quad.x_min, 240), -1.);
    assert_eq!(ndc(quad.x_max, 240), 1.);
}

#[test]
fn scale_is_limited_by_the_tighter_axis() {
    // 1000 / 240 = 4 across, 500 / 240 = 2 down.
    let quad = quad((1000, 500), (240, 240));
    assert_eq!(quad, ActiveQuad { x_min: 260, x_max: 740, y_min: 10, y_max: 490 });
    // 700 / 320 = 2 across, 1000 / 200 = 5 down.
    let tall = self::quad((700, 1000), (320, 200));
    assert_eq!(tall, ActiveQuad { x_min: 30, x_max: 670, y_min: 300, y_max: 700 });
}

#[test]
fn odd_slack_goes_to_the_far_side() {
    let quad = quad((485, 483), (240, 240));
    // Scale 2, slack 5 and 3: near margins 2 and 1, far margins 3 and 2.
    assert_eq!(quad, ActiveQuad { x_min: 2, x_max: 482, y_min: 1, y_max: 481 });
}

#[test]
fn empty_surface_gives_an_empty_quad() {
    let quad = quad((0, 0), (240, 240));
    assert_eq!(quad, ActiveQuad { x_min: 0, x_max: 0, y_min: 0, y_max: 0 });
}

#[test]
fn largest_surface_does_not_overflow() {
    let quad = quad((u32::MAX, u32::MAX), (1, 1));
    assert_eq!(quad, ActiveQuad { x_min: 0, x_max: u32::MAX, y_min: 0, y_max: u32::MAX });
    let wide = self::quad((u32::MAX, u32::MAX), (2, 3));
    // Scale min(2147483647, 1431655765).
    assert_eq!(wide.x_max - wide.x_min, 2 * 1431655765);
    assert_eq!(wide.y_max - wide.y_min, u32::MAX);
}

#[test]
fn strip_starts_on_the_high_edge() {
    let corners = quad((64, 48), (16, 16)).corners();
    // Scale 3: 48 by 48, margins 8 and 0.
    assert_eq!(corners, [(8, 48), (56, 48), (8, 0), (56, 0)]);
}
