use polaroid::color::Color;
use polaroid::compose::add_frame;
use polaroid::compose::fill;
use polaroid::compose::overlay_at;
use polaroid::compose::round_corners;
use polaroid::errors::ImgError;
use polaroid::layout::canvas_dims;
use polaroid::raster::RasterImage;

fn solid(width: u32, height: u32, c: Color) -> RasterImage {
    let mut img = RasterImage::new_image(width, height).unwrap();
    fill(&mut img, c);
    img
}

fn white() -> Color {
    Color { r: 255, g: 255, b: 255, a: 255 }
}

fn red() -> Color {
    Color { r: 255, g: 0, b: 0, a: 255 }
}

fn clear() -> Color {
    Color { r: 0, g: 0, b: 0, a: 0 }
}

#[test]
fn canvas_dims_exact() {
    assert_eq!(canvas_dims(100, 100, 10, 20).unwrap(), (120, 140));
    assert_eq!(canvas_dims(1, 1, 0, 0).unwrap(), (1, 1));
    assert_eq!(canvas_dims(640, 480, 40, 80).unwrap(), (720, 640));
}

#[test]
fn canvas_dims_zero_rejected() {
    assert_eq!(canvas_dims(0, 0, 0, 5).unwrap_err(), ImgError::InvalidDimensions);
    assert_eq!(canvas_dims(0, 5, 0, 0).unwrap_err(), ImgError::InvalidDimensions);
}

#[test]
fn canvas_dims_overflow_rejected() {
    assert_eq!(canvas_dims(u32::MAX, 10, 1, 0).unwrap_err(), ImgError::InvalidDimensions);
    assert_eq!(canvas_dims(10, u32::MAX, 0, 1).unwrap_err(), ImgError::InvalidDimensions);
    // representable as u32 but not as one allocation
    assert_eq!(canvas_dims(u32::MAX - 2, u32::MAX - 2, 1, 0).unwrap_err(), ImgError::InvalidDimensions);
}

#[test]
fn blend_opaque_replaces() {
    let s = Color { r: 10, g: 20, b: 30, a: 255 };
    let d = Color { r: 200, g: 100, b: 50, a: 128 };
    assert_eq!(polaroid::color::blend_px(s, d), s);
}

#[test]
fn blend_transparent_keeps() {
    let s = Color { r: 10, g: 20, b: 30, a: 0 };
    let d = Color { r: 200, g: 100, b: 50, a: 128 };
    assert_eq!(polaroid::color::blend_px(s, d), d);
}

#[test]
fn blend_half_mixes() {
    let s = Color { r: 255, g: 0, b: 0, a: 128 };
    let d = Color { r: 0, g: 0, b: 255, a: 255 };
    let out = polaroid::color::blend_px(s, d);
    // (255*128 + 0*127 + 127) / 255 = 128
    assert_eq!(out.r, 128);
    assert_eq!(out.g, 0);
    // (0*128 + 255*127 + 127) / 255 = 127
    assert_eq!(out.b, 127);
    assert_eq!(out.a, 255);
}

#[test]
fn fill_sets_every_pixel() {
    let img = solid(7, 5, red());
    for y in 0..5 {
        for x in 0..7 {
            assert_eq!(img.get_pixel(x, y), red());
        }
    }
}

#[test]
fn add_frame_draws_border_band() {
    let mut img = solid(10, 8, white());
    let green = Color { r: 0, g: 255, b: 0, a: 255 };
    add_frame(&mut img, 2, green);
    for y in 0..8 {
        for x in 0..10 {
            let on_border = x < 2 || y < 2 || x >= 8 || y >= 6;
            let expect = if on_border { green } else { white() };
            assert_eq!(img.get_pixel(x, y), expect, "at {} {}", x, y);
        }
    }
}

#[test]
fn round_corners_cuts_and_keeps() {
    let r: u32 = 8;
    let mut img = solid(40, 40, white());
    round_corners(&mut img, r);
    // the exact corner pixels are farther than r from the circle centres
    assert_eq!(img.get_pixel(0, 0), clear());
    assert_eq!(img.get_pixel(39, 0), clear());
    assert_eq!(img.get_pixel(0, 39), clear());
    assert_eq!(img.get_pixel(39, 39), clear());
    // the diagonal (r-1, r-1) offset of each corner is the circle centre
    assert_eq!(img.get_pixel(7, 7), white());
    assert_eq!(img.get_pixel(32, 7), white());
    assert_eq!(img.get_pixel(7, 32), white());
    assert_eq!(img.get_pixel(32, 32), white());
    // edge midpoints and the middle stay filled
    assert_eq!(img.get_pixel(20, 0), white());
    assert_eq!(img.get_pixel(0, 20), white());
    assert_eq!(img.get_pixel(20, 20), white());
}

#[test]
fn round_corners_smallest_radii() {
    // radius 2: the corner pixel sits at distance 2*sqrt(2) > 2 from the
    // circle centre and is erased; the (1, 1) diagonal is kept
    let mut img = solid(10, 10, white());
    round_corners(&mut img, 2);
    assert_eq!(img.get_pixel(0, 0), clear());
    assert_eq!(img.get_pixel(9, 0), clear());
    assert_eq!(img.get_pixel(0, 9), clear());
    assert_eq!(img.get_pixel(9, 9), clear());
    assert_eq!(img.get_pixel(1, 1), white());
    assert_eq!(img.get_pixel(8, 1), white());
    assert_eq!(img.get_pixel(1, 8), white());
    assert_eq!(img.get_pixel(8, 8), white());
    // radius 1: the corner pixel and its own diagonal coincide; it is erased
    let mut one = solid(6, 6, white());
    round_corners(&mut one, 1);
    assert_eq!(one.get_pixel(0, 0), clear());
    assert_eq!(one.get_pixel(5, 5), clear());
    assert_eq!(one.get_pixel(1, 1), white());
}

#[test]
fn round_corners_zero_radius_changes_nothing() {
    let mut img = solid(12, 9, white());
    round_corners(&mut img, 0);
    for y in 0..9 {
        for x in 0..12 {
            assert_eq!(img.get_pixel(x, y), white());
        }
    }
}

#[test]
fn overlay_blends_and_clips() {
    let mut dst = solid(6, 6, white());
    let src = solid(4, 4, red());
    // negative offset: only the overlapping part is drawn
    overlay_at(&mut dst, &src, -2, -2);
    for y in 0..6 {
        for x in 0..6 {
            let covered = x < 2 && y < 2;
            let expect = if covered { red() } else { white() };
            assert_eq!(dst.get_pixel(x, y), expect, "at {} {}", x, y);
        }
    }
}

#[test]
fn overlay_off_canvas_changes_nothing() {
    let mut dst = solid(6, 6, white());
    let src = solid(4, 4, red());
    overlay_at(&mut dst, &src, 100, 100);
    for y in 0..6 {
        for x in 0..6 {
            assert_eq!(dst.get_pixel(x, y), white());
        }
    }
}
