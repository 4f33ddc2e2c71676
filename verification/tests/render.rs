use tezzera::render::blit::{blit_rgba, PixelRect};

fn rect(x: i32, y: i32, w: i32, h: i32) -> PixelRect {
    PixelRect { x, y, w, h }
}

#[test]
fn blit_opaque_pixel_replaces_canvas_colour() {
    let mut canvas = vec![10, 20, 30, 40];
    blit_rgba(&mut canvas, 1, 1, &[200, 100, 0, 255], 1, 1, rect(0, 0, 1, 1));
    assert_eq!(canvas, vec![200, 100, 0, 255]);
}

#[test]
fn blit_half_transparent_pixel_blends() {
    let mut canvas = vec![0, 255, 10, 0];
    blit_rgba(&mut canvas, 1, 1, &[100, 100, 100, 128], 1, 1, rect(0, 0, 1, 1));
    // (100·128 + 0·127) / 255 = 50, (100·128 + 255·127) / 255 = 177,
    // (100·128 + 10·127) / 255 = 55
    assert_eq!(canvas, vec![50, 177, 55, 255]);
}

#[test]
fn blit_transparent_pixel_keeps_colour_but_sets_alpha() {
    let mut canvas = vec![7, 8, 9, 0];
    blit_rgba(&mut canvas, 1, 1, &[200, 200, 200, 0], 1, 1, rect(0, 0, 1, 1));
    assert_eq!(canvas, vec![7, 8, 9, 255]);
}

#[test]
fn blit_scales_one_pixel_over_the_rectangle() {
    let mut canvas = vec![0u8; 3 * 2 * 4];
    blit_rgba(&mut canvas, 3, 2, &[1, 2, 3, 255], 1, 1, rect(1, 0, 2, 2));
    for p in 0..6 {
        let expected = if p % 3 == 0 { [0, 0, 0, 0] } else { [1, 2, 3, 255] };
        assert_eq!(&canvas[p * 4..p * 4 + 4], &expected, "pixel {p}");
    }
}

#[test]
fn blit_samples_nearest_source_pixel() {
    // 2×1 source (red, blue) stretched over 4×1: red, red, blue, blue.
    let src = [255, 0, 0, 255, 0, 0, 255, 255];
    let mut canvas = vec![0u8; 4 * 4];
    blit_rgba(&mut canvas, 4, 1, &src, 2, 1, rect(0, 0, 4, 1));
    assert_eq!(
        canvas,
        vec![255, 0, 0, 255, 255, 0, 0, 255, 0, 0, 255, 255, 0, 0, 255, 255]
    );
}

#[test]
fn blit_clips_to_the_canvas() {
    let mut canvas = vec![0u8; 2 * 2 * 4];
    blit_rgba(&mut canvas, 2, 2, &[9, 9, 9, 255], 1, 1, rect(-1, 1, 2, 5));
    // only canvas pixel (0, 1) lies inside the rectangle
    assert_eq!(&canvas[0..8], &[0u8; 8]);
    assert_eq!(&canvas[8..12], &[9, 9, 9, 255]);
    assert_eq!(&canvas[12..16], &[0, 0, 0, 0]);
}

#[test]
fn blit_empty_rectangle_or_short_source_changes_nothing() {
    let mut canvas = vec![5u8; 4];
    blit_rgba(&mut canvas, 1, 1, &[1, 1, 1, 255], 1, 1, rect(0, 0, 0, 1));
    blit_rgba(&mut canvas, 1, 1, &[1, 1, 1, 255], 1, 1, rect(0, 0, -3, -3));
    blit_rgba(&mut canvas, 1, 1, &[1, 1, 1], 1, 1, rect(0, 0, 1, 1));
    assert_eq!(canvas, vec![5, 5, 5, 5]);
}
