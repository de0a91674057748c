use polaroid::codec::decode_image;
use polaroid::codec::encode_image;
use polaroid::color::Color;
use polaroid::compose::fill;
use polaroid::errors::ImgError;
use polaroid::processor::BlurConfig;
use polaroid::processor::CaptionTile;
use polaroid::processor::ImageProcessor;
use polaroid::processor::LogoInfo;
use polaroid::processor::PolaroidConfig;
use polaroid::processor::TextInfo;
use polaroid::raster::RasterImage;

fn solid(width: u32, height: u32, c: Color) -> RasterImage {
    let mut img = RasterImage::new_image(width, height).unwrap();
    fill(&mut img, c);
    img
}

fn white() -> Color {
    Color { r: 255, g: 255, b: 255, a: 255 }
}

fn red() -> Color {
    Color { r: 255, g: 0, b: 0, a: 255 }
}

fn plain_config(quality: u8) -> PolaroidConfig {
    PolaroidConfig {
        frame_color: white(),
        frame_padding: 10,
        bottom_height: 20,
        corner_radius: 0,
        left_text: None,
        right_text: None,
        logo: None,
        blur: None,
        quality,
    }
}

#[test]
fn end_to_end_red_square() {
    let source = solid(100, 100, red());
    let proc = ImageProcessor::new(plain_config(100), None, None, None).unwrap();
    let canvas = proc.compose(&source, None).unwrap();
    assert_eq!(canvas.width, 120);
    assert_eq!(canvas.height, 140);
    for y in 0..140 {
        for x in 0..120 {
            let c = canvas.get_pixel(x, y);
            assert_ne!(c.a, 0, "transparent at {} {}", x, y);
            let inside = (10..110).contains(&x) && (10..110).contains(&y);
            let expect = if inside { red() } else { white() };
            assert_eq!(c, expect, "at {} {}", x, y);
        }
    }
}

#[test]
fn corners_erased_with_radius() {
    let source = solid(100, 100, red());
    let mut cfg = plain_config(100);
    cfg.corner_radius = 8;
    let proc = ImageProcessor::new(cfg, None, None, None).unwrap();
    let canvas = proc.compose(&source, None).unwrap();
    let clear = Color { r: 0, g: 0, b: 0, a: 0 };
    assert_eq!(canvas.get_pixel(0, 0), clear);
    assert_eq!(canvas.get_pixel(119, 0), clear);
    assert_eq!(canvas.get_pixel(0, 139), clear);
    assert_eq!(canvas.get_pixel(119, 139), clear);
    assert_eq!(canvas.get_pixel(7, 7), white());
    assert_eq!(canvas.get_pixel(112, 7), white());
    assert_eq!(canvas.get_pixel(7, 132), white());
    assert_eq!(canvas.get_pixel(112, 132), white());
}

#[test]
fn source_preserved_under_blur_and_captions() {
    let source = solid(50, 40, red());
    let tile = CaptionTile {
        image: solid(12, 6, Color { r: 0, g: 0, b: 255, a: 255 }),
        measured_width: 12,
    };
    let mut cfg = plain_config(100);
    cfg.corner_radius = 6;
    cfg.blur = Some(BlurConfig { sigma: 4, padding: 12 });
    cfg.left_text = Some(TextInfo {
        text: String::from("AF 56/1.7 XF"),
        size: 6,
        color: Color { r: 0, g: 0, b: 255, a: 255 },
        x_offset: 0,
        y_offset: 4,
    });
    let proc = ImageProcessor::new(cfg, None, Some(tile), None).unwrap();
    // the blur itself lives outside the library; any backdrop is overwritten
    let backdrop = proc.backdrop_base(&source);
    let canvas = proc.compose(&source, backdrop.as_ref()).unwrap();
    for sy in 0..40 {
        for sx in 0..50 {
            assert_eq!(canvas.get_pixel(10 + sx, 10 + sy), red(), "at {} {}", sx, sy);
        }
    }
}

#[test]
fn backdrop_never_shows_through_the_fill() {
    let source = solid(30, 30, red());
    let mut cfg = plain_config(100);
    cfg.blur = Some(BlurConfig { sigma: 8, padding: 5 });
    let proc = ImageProcessor::new(cfg, None, None, None).unwrap();
    let base = proc.backdrop_base(&source);
    assert!(base.is_some());
    let base = base.unwrap();
    assert_eq!((base.width, base.height), (40, 40));
    let with_backdrop = proc.compose(&source, Some(&base)).unwrap();
    let without = proc.compose(&source, None).unwrap();
    assert_eq!(with_backdrop.data, without.data);
}

#[test]
fn left_caption_tile_lands_at_anchor() {
    let blue = Color { r: 0, g: 0, b: 255, a: 255 };
    let source = solid(50, 40, red());
    let tile = CaptionTile { image: solid(12, 6, blue), measured_width: 12 };
    let mut cfg = plain_config(100);
    cfg.left_text = Some(TextInfo {
        text: String::from("AF 56/1.7 XF"),
        size: 6,
        color: blue,
        x_offset: 3,
        y_offset: 4,
    });
    let proc = ImageProcessor::new(cfg, None, Some(tile), None).unwrap();
    let canvas = proc.compose(&source, None).unwrap();
    // canvas 70x80, strip top at 60; anchor (10+3, 60+4)
    for ty in 0..6 {
        for tx in 0..12 {
            assert_eq!(canvas.get_pixel(13 + tx, 64 + ty), blue, "at {} {}", tx, ty);
        }
    }
    assert_eq!(canvas.get_pixel(12, 64), white());
    assert_eq!(canvas.get_pixel(25, 64), white());
}

#[test]
fn right_caption_right_edge_at_padding_boundary() {
    let blue = Color { r: 0, g: 0, b: 255, a: 255 };
    let source = solid(50, 40, red());
    let tile = CaptionTile { image: solid(12, 6, blue), measured_width: 12 };
    let mut cfg = plain_config(100);
    cfg.right_text = Some(TextInfo {
        text: String::from("56mm f/2.8 1/50s ISO4000"),
        size: 6,
        color: blue,
        x_offset: 0,
        y_offset: 2,
    });
    let proc = ImageProcessor::new(cfg, None, None, Some(tile)).unwrap();
    let canvas = proc.compose(&source, None).unwrap();
    // canvas width 70: anchor x = 70 - 12 - 10 = 48, strip top 60
    let mut rightmost: Option<u32> = None;
    for x in 0..70 {
        if canvas.get_pixel(x, 62) == blue {
            rightmost = Some(x);
        }
    }
    // the rendered tile's right edge falls one pixel short of width - padding
    assert_eq!(rightmost, Some(59));
    assert_eq!(canvas.get_pixel(48, 62), blue);
    assert_eq!(canvas.get_pixel(47, 62), white());
}

#[test]
fn logo_resized_and_centred() {
    let source = solid(50, 40, red());
    let logo_src = solid(8, 8, Color { r: 0, g: 200, b: 0, a: 255 });
    let logo_png = encode_image(&logo_src, 100).unwrap();
    let mut cfg = plain_config(100);
    cfg.logo = Some(LogoInfo { width: 4, height: 4, x_offset: 0, y_offset: 8 });
    let proc = ImageProcessor::new(cfg, Some(&logo_png), None, None).unwrap();
    let tile = proc.logo_tile.as_ref().expect("logo tile");
    assert_eq!((tile.width, tile.height), (4, 4));
    let canvas = proc.compose(&source, None).unwrap();
    // canvas 70x80, strip top 60; anchor x = (70 - 4) / 2 = 33, y = 68
    let green = Color { r: 0, g: 200, b: 0, a: 255 };
    for ty in 0..4 {
        for tx in 0..4 {
            assert_eq!(canvas.get_pixel(33 + tx, 68 + ty), green, "at {} {}", tx, ty);
        }
    }
    assert_eq!(canvas.get_pixel(32, 68), white());
    assert_eq!(canvas.get_pixel(37, 68), white());
}

#[test]
fn construction_fails_on_bad_logo_bytes() {
    let junk: Vec<u8> = vec![1, 2, 3, 4, 5];
    let err = ImageProcessor::new(plain_config(100), Some(&junk), None, None).unwrap_err();
    assert_eq!(err, ImgError::ConstructionError);
}

#[test]
fn decode_rejects_junk() {
    let junk: Vec<u8> = vec![0, 1, 2, 3];
    assert_eq!(decode_image(&junk).unwrap_err(), ImgError::DecodeError);
}

#[test]
fn encode_at_full_quality_is_lossless() {
    let source = solid(20, 10, red());
    let bytes = encode_image(&source, 100).unwrap();
    // PNG signature
    assert_eq!(&bytes[0..4], &[0x89, b'P', b'N', b'G']);
    let back = decode_image(&bytes).unwrap();
    assert_eq!((back.width, back.height), (20, 10));
    assert_eq!(back.data, source.data);
}

#[test]
fn encode_below_full_quality_is_jpeg() {
    let source = solid(20, 10, red());
    for quality in [1u8, 50, 99] {
        let bytes = encode_image(&source, quality).unwrap();
        // JPEG start-of-image marker
        assert_eq!(&bytes[0..2], &[0xFF, 0xD8]);
        let decoded = image::load_from_memory(&bytes).unwrap();
        assert_eq!((decoded.width(), decoded.height()), (20, 10));
    }
}

#[test]
fn encoding_twice_is_byte_identical() {
    let source = solid(33, 21, Color { r: 12, g: 200, b: 77, a: 255 });
    for quality in [55u8, 100] {
        let a = encode_image(&source, quality).unwrap();
        let b = encode_image(&source, quality).unwrap();
        assert_eq!(a, b);
    }
}

#[test]
fn process_from_bytes_runs_the_whole_pipeline() {
    let source = solid(100, 100, red());
    let source_png = encode_image(&source, 100).unwrap();
    let proc = ImageProcessor::new(plain_config(100), None, None, None).unwrap();
    let out = proc.process_from_bytes(&source_png, None).unwrap();
    let final_img = decode_image(&out).unwrap();
    assert_eq!((final_img.width, final_img.height), (120, 140));
    assert_eq!(final_img.get_pixel(0, 0), white());
    assert_eq!(final_img.get_pixel(60, 60), red());
    assert_eq!(final_img.get_pixel(60, 130), white());
}

#[test]
fn oversized_radius_is_clamped() {
    // canvas 8x8; a huge radius clamps to 4, so the circle centres sit at
    // the (3, 3) diagonal of each corner box
    let source = solid(4, 4, red());
    let mut cfg = plain_config(100);
    cfg.frame_padding = 2;
    cfg.bottom_height = 0;
    cfg.corner_radius = 100;
    let proc = ImageProcessor::new(cfg, None, None, None).unwrap();
    let canvas = proc.compose(&source, None).unwrap();
    assert_eq!((canvas.width, canvas.height), (8, 8));
    let clear = Color { r: 0, g: 0, b: 0, a: 0 };
    assert_eq!(canvas.get_pixel(0, 0), clear);
    assert_eq!(canvas.get_pixel(7, 7), clear);
    assert_eq!(canvas.get_pixel(3, 3), red());
}

#[test]
fn compose_rejects_zero_canvas() {
    let source = RasterImage::new_image(0, 0).unwrap();
    let mut cfg = plain_config(100);
    cfg.frame_padding = 0;
    cfg.bottom_height = 0;
    let proc = ImageProcessor::new(cfg, None, None, None).unwrap();
    assert_eq!(proc.compose(&source, None).unwrap_err(), ImgError::InvalidDimensions);
}

#[test]
fn encode_fails_on_dimensions_jpeg_cannot_hold() {
    // JPEG holds dimensions in 16 bits; a wider canvas must report an error
    let source = solid(70000, 1, red());
    assert_eq!(encode_image(&source, 50).unwrap_err(), ImgError::EncodeError);
}

#[test]
fn process_from_bytes_lossy_path_succeeds() {
    let source = solid(60, 40, red());
    let source_png = encode_image(&source, 100).unwrap();
    let proc = ImageProcessor::new(plain_config(50), None, None, None).unwrap();
    let out = proc.process_from_bytes(&source_png, None).unwrap();
    assert_eq!(&out[0..2], &[0xFF, 0xD8]);
    let decoded = image::load_from_memory(&out).unwrap();
    assert_eq!((decoded.width(), decoded.height()), (80, 80));
}

#[test]
fn process_from_bytes_reports_decode_failure() {
    let proc = ImageProcessor::new(plain_config(90), None, None, None).unwrap();
    let junk: Vec<u8> = vec![9, 9, 9];
    assert_eq!(proc.process_from_bytes(&junk, None).unwrap_err(), ImgError::DecodeError);
}
