use vstd::prelude::*;

use crate::codec::decodable;
use crate::codec::decode_image;
use crate::codec::decoded_of;
use crate::codec::encode_image;
use crate::codec::encoded_of;
use crate::codec::lanczos_of;
use crate::codec::resize_lanczos;
use crate::color::Color;
use crate::color::blend;
use crate::color::erased;
use crate::color::lemma_blend_opaque;
use crate::compose::covers;
use crate::compose::fill;
use crate::compose::overlay_at;
use crate::compose::round_corners;
use crate::errors::ImgError;
use crate::layout::canvas_dims;
use crate::layout::canvas_height_spec;
use crate::layout::canvas_width_spec;
use crate::layout::center_anchor;
use crate::layout::center_anchor_spec;
use crate::layout::clamp_radius;
use crate::layout::clamped_radius;
use crate::layout::corner_cut;
use crate::layout::cut_at;
use crate::layout::dims_ok;
use crate::layout::inward;
use crate::layout::left_anchor;
use crate::layout::left_anchor_spec;
use crate::layout::right_anchor;
use crate::layout::right_anchor_spec;
use crate::layout::strip_top;
use crate::layout::strip_top_spec;
use crate::raster::RasterImage;
use crate::raster::RasterView;
use crate::raster::lemma_mul_u32_bound;
use vstd::arithmetic::div_mod::lemma_fundamental_div_mod;
use vstd::arithmetic::div_mod::lemma_mod_bound;

verus! {

/// One caption: text, font size, color and offsets from its anchor point.
#[derive(Debug)]
pub struct TextInfo {
    pub text: String,
    pub size: u32,
    pub color: Color,
    pub x_offset: i32,
    pub y_offset: i32,
}

/// Target size and offsets of the logo within the caption strip.
#[derive(Debug)]
pub struct LogoInfo {
    pub width: u32,
    pub height: u32,
    pub x_offset: i32,
    pub y_offset: i32,
}

/// Backdrop blur: its strength and the extra padding that enlarges the
/// source before blurring so no banding shows at the frame boundary.
#[derive(Debug)]
pub struct BlurConfig {
    pub sigma: u32,
    pub padding: u32,
}

/// The frame geometry, colors, optional caption strip elements, optional
/// backdrop, and output quality.
#[derive(Debug)]
pub struct PolaroidConfig {
    pub frame_color: Color,
    pub frame_padding: u32,
    pub bottom_height: u32,
    pub corner_radius: u32,
    pub left_text: Option<TextInfo>,
    pub right_text: Option<TextInfo>,
    pub logo: Option<LogoInfo>,
    pub blur: Option<BlurConfig>,
    pub quality: u8,
}

/// A caption rendered with the processor's font: the raster tile to
/// composite and the total advance width measured at the same font size.
#[derive(Debug)]
pub struct CaptionTile {
    pub image: RasterImage,
    pub measured_width: u32,
}

/// Owns the per-configuration resources: the config, the pre-resized logo
/// and the pre-rendered caption tiles. Immutable after construction; each
/// invocation works on its own canvas.
#[derive(Debug)]
pub struct ImageProcessor {
    pub config: PolaroidConfig,
    pub logo_tile: Option<RasterImage>,
    pub left_tile: Option<CaptionTile>,
    pub right_tile: Option<CaptionTile>,
}

impl ImageProcessor {
    /// Every held tile is well formed, belongs to a configured element,
    /// and is exactly as wide as the advance width measured for it.
    pub open spec fn wf(self) -> bool {
        &&& (self.left_tile is Some ==> self.config.left_text is Some
            && self.left_tile.unwrap().image.wf() && self.left_tile.unwrap().measured_width
            == self.left_tile.unwrap().image@.width)
        &&& (self.right_tile is Some ==> self.config.right_text is Some
            && self.right_tile.unwrap().image.wf() && self.right_tile.unwrap().measured_width
            == self.right_tile.unwrap().image@.width)
        &&& (self.logo_tile is Some ==> self.config.logo is Some && self.logo_tile.unwrap().wf())
    }
}

/// One compositing layer: the tile blended over what lies below where it
/// covers, and the lower layer elsewhere.
pub open spec fn layer_pix(prev: Color, t: RasterView, ax: int, ay: int, x: int, y: int) -> Color {
    if covers(t, ax, ay, x, y) {
        blend(t.pix(x - ax, y - ay), prev)
    } else {
        prev
    }
}

/// The finished canvas pixel at (x, y), built up in draw order: frame fill
/// with the rounded-corner mask, then the source photo, then the left and
/// right captions and the logo. A backdrop never shows here: the opaque
/// frame fill replaces every pixel after it is composited.
pub open spec fn composed_pix(p: ImageProcessor, src: RasterView, x: int, y: int) -> Color {
    let pad = p.config.frame_padding as int;
    let cw = canvas_width_spec(src.width as int, pad);
    let ch = canvas_height_spec(src.height as int, pad, p.config.bottom_height as int);
    let rr = clamped_radius(p.config.corner_radius as int, cw, ch);
    let top = strip_top_spec(ch, p.config.bottom_height as int);
    let base = if corner_cut(cw, ch, rr, x, y) {
        erased()
    } else {
        p.config.frame_color
    };
    let with_src = if covers(src, pad, pad, x, y) {
        blend(src.pix(x - pad, y - pad), base)
    } else {
        base
    };
    let with_left = if p.left_tile is Some {
        layer_pix(
            with_src,
            p.left_tile.unwrap().image@,
            left_anchor_spec(pad, p.config.left_text.unwrap().x_offset as int),
            top + p.config.left_text.unwrap().y_offset as int,
            x,
            y,
        )
    } else {
        with_src
    };
    let with_right = if p.right_tile is Some {
        layer_pix(
            with_left,
            p.right_tile.unwrap().image@,
            right_anchor_spec(
                cw,
                p.right_tile.unwrap().measured_width as int,
                pad,
                p.config.right_text.unwrap().x_offset as int,
            ),
            top + p.config.right_text.unwrap().y_offset as int,
            x,
            y,
        )
    } else {
        with_left
    };
    if p.logo_tile is Some {
        layer_pix(
            with_right,
            p.logo_tile.unwrap()@,
            center_anchor_spec(cw, p.config.logo.unwrap().width as int, p.config.logo.unwrap().x_offset as int),
            top + p.config.logo.unwrap().y_offset as int,
            x,
            y,
        )
    } else {
        with_right
    }
}

/// Byte `k` of a pixel, in storage order.
pub open spec fn channel_of(c: Color, k: int) -> u8 {
    if k == 0 {
        c.r
    } else if k == 1 {
        c.g
    } else if k == 2 {
        c.b
    } else {
        c.a
    }
}

/// The finished canvas as one raster view.
pub open spec fn composed_view(p: ImageProcessor, src: RasterView) -> RasterView {
    let pad = p.config.frame_padding as int;
    let cw = canvas_width_spec(src.width as int, pad);
    let ch = canvas_height_spec(src.height as int, pad, p.config.bottom_height as int);
    RasterView {
        width: cw as nat,
        height: ch as nat,
        data: Seq::new(
            (4 * cw * ch) as nat,
            |k: int| channel_of(composed_pix(p, src, (k / 4) % cw, (k / 4) / cw), k % 4),
        ),
    }
}

/// A well-formed canvas of the right dimensions whose every pixel matches
/// `composed_pix` is exactly `composed_view`.
proof fn lemma_pix_view(v: RasterView, p: ImageProcessor, src: RasterView)
    requires
        v.wf(),
        v.width == canvas_width_spec(src.width as int, p.config.frame_padding as int),
        v.height == canvas_height_spec(
            src.height as int,
            p.config.frame_padding as int,
            p.config.bottom_height as int,
        ),
        v.width > 0,
        v.height > 0,
        forall|x: int, y: int|
            v.in_bounds(x, y) ==> #[trigger] v.pix(x, y) == composed_pix(p, src, x, y),
    ensures
        v == composed_view(p, src),
{
    let u = composed_view(p, src);
    let cw = v.width as int;
    let ch = v.height as int;
    assert(4 * cw * ch == 4 * (cw * ch)) by (nonlinear_arith);
    assert(v.data.len() == u.data.len());
    assert forall|k: int| 0 <= k < v.data.len() implies v.data[k] == u.data[k] by {
        let m = k / 4;
        let x = m % cw;
        let y = m / cw;
        assert(0 <= m < cw * ch);
        lemma_mod_bound(m, cw);
        lemma_fundamental_div_mod(m, cw);
        assert(0 <= y < ch) by (nonlinear_arith)
            requires
                0 <= m < cw * ch,
                m == cw * y + x,
                0 <= x < cw,
                0 < cw,
        ;
        assert(y * cw + x == m) by (nonlinear_arith)
            requires
                m == cw * y + x,
        ;
        assert(v.in_bounds(x, y));
        assert(v.byte_index(x, y) == 4 * m);
        assert(k == 4 * m + k % 4);
        assert(0 <= k % 4 < 4);
        assert(v.pix(x, y) == composed_pix(p, src, x, y));
        assert(v.data[k] == channel_of(v.pix(x, y), k % 4));
    }
    assert(v.data =~= u.data);
}

/// The logo's horizontal resize target: the configured width, clamped to
/// at least one pixel.
pub open spec fn logo_target_w(config: PolaroidConfig) -> u32 {
    if config.logo.unwrap().width >= 1 {
        config.logo.unwrap().width
    } else {
        1u32
    }
}

/// The logo's vertical resize target: the configured height, clamped to
/// at least one pixel.
pub open spec fn logo_target_h(config: PolaroidConfig) -> u32 {
    if config.logo.unwrap().height >= 1 {
        config.logo.unwrap().height
    } else {
        1u32
    }
}

impl ImageProcessor {
    /// Build a processor: decode the logo bytes if given, resize the logo
    /// once to exactly its configured size (clamped to a pixel each way),
    /// and keep the caption tiles that belong to configured captions.
    /// Fails exactly when given logo bytes that do not decode.
    pub fn new(
        config: PolaroidConfig,
        logo_bytes: Option<&Vec<u8>>,
        left_tile: Option<CaptionTile>,
        right_tile: Option<CaptionTile>,
    ) -> (r: Result<ImageProcessor, ImgError>)
        requires
            left_tile is Some ==> left_tile.unwrap().image.wf() && left_tile.unwrap().measured_width
                == left_tile.unwrap().image@.width,
            right_tile is Some ==> right_tile.unwrap().image.wf()
                && right_tile.unwrap().measured_width == right_tile.unwrap().image@.width,
        ensures
            r is Ok <==> (logo_bytes is None || decodable(logo_bytes.unwrap()@)),
            r is Err ==> r.unwrap_err() == ImgError::ConstructionError,
            r is Ok ==> {
                let p = r.unwrap();
                &&& p.wf()
                &&& p.config == config
                &&& p.left_tile == (if config.left_text is Some {
                    left_tile
                } else {
                    None::<CaptionTile>
                })
                &&& p.right_tile == (if config.right_text is Some {
                    right_tile
                } else {
                    None::<CaptionTile>
                })
                &&& (logo_bytes is None ==> p.logo_tile is None)
                &&& (logo_bytes is Some ==> {
                    let d = decoded_of(logo_bytes.unwrap()@);
                    if config.logo is Some && 1 <= d.width && 1 <= d.height && 4 * (logo_target_w(
                        config,
                    ) as int) * (logo_target_h(config) as int) <= usize::MAX {
                        &&& p.logo_tile is Some
                        &&& p.logo_tile.unwrap()@.width == logo_target_w(config)
                        &&& p.logo_tile.unwrap()@.height == logo_target_h(config)
                        &&& p.logo_tile.unwrap()@.data == lanczos_of(
                            d,
                            logo_target_w(config),
                            logo_target_h(config),
                        )
                    } else {
                        p.logo_tile is None
                    }
                })
            },
    {
        let logo_src: Option<RasterImage> = match logo_bytes {
            Some(bytes) => match decode_image(bytes.as_slice()) {
                Ok(img) => Some(img),
                Err(_) => {
                    return Err(ImgError::ConstructionError);
                },
            },
            None => None,
        };
        let logo_tile: Option<RasterImage> = match (&config.logo, logo_src) {
            (Some(info), Some(src)) => {
                let tw: u32 = if info.width >= 1 {
                    info.width
                } else {
                    1
                };
                let th: u32 = if info.height >= 1 {
                    info.height
                } else {
                    1
                };
                proof {
                    lemma_mul_u32_bound(tw as int, th as int);
                    assert(4 * (tw as int) * (th as int) == 4 * ((tw as int) * (
                    th as int))) by (nonlinear_arith);
                }
                let twth: u128 = (tw as u128) * (th as u128);
                if src.width >= 1 && src.height >= 1 && 4 * twth <= usize::MAX as u128 {
                    Some(resize_lanczos(&src, tw, th))
                } else {
                    None
                }
            },
            _ => None,
        };
        let left_kept: Option<CaptionTile> = if config.left_text.is_some() {
            left_tile
        } else {
            None
        };
        let right_kept: Option<CaptionTile> = if config.right_text.is_some() {
            right_tile
        } else {
            None
        };
        Ok(
            ImageProcessor {
                config,
                logo_tile,
                left_tile: left_kept,
                right_tile: right_kept,
            },
        )
    }

    /// The enlarged copy of the source that the backdrop starts from, when
    /// a blur is configured and the enlarged size is representable: exactly
    /// the source plus the blur padding on every side. Blurring it is the
    /// caller's step; the result comes back to `compose`.
    pub fn backdrop_base(&self, source: &RasterImage) -> (r: Option<RasterImage>)
        requires
            source.wf(),
        ensures
            self.config.blur is None ==> r is None,
            r is Some ==> {
                let bp = self.config.blur.unwrap().padding as int;
                &&& self.config.blur is Some
                &&& r.unwrap().wf()
                &&& r.unwrap()@.width == source@.width + 2 * bp
                &&& r.unwrap()@.height == source@.height + 2 * bp
                &&& r.unwrap()@.data == lanczos_of(
                    source@,
                    (source@.width + 2 * bp) as u32,
                    (source@.height + 2 * bp) as u32,
                )
            },
            ({
                let bp = self.config.blur.unwrap().padding as int;
                self.config.blur is Some && 1 <= source@.width && 1 <= source@.height
                    && source@.width + 2 * bp <= u32::MAX && source@.height + 2 * bp <= u32::MAX
                    && 4 * ((source@.width + 2 * bp) as int) * ((source@.height + 2 * bp) as int)
                    <= usize::MAX
            }) ==> r is Some,
    {
        match &self.config.blur {
            Some(bcfg) => {
                let tw64: u64 = source.width as u64 + 2 * (bcfg.padding as u64);
                let th64: u64 = source.height as u64 + 2 * (bcfg.padding as u64);
                if source.width >= 1 && source.height >= 1 && tw64 <= u32::MAX as u64 && th64
                    <= u32::MAX as u64 {
                    proof {
                        lemma_mul_u32_bound(tw64 as int, th64 as int);
                        assert(4 * (tw64 as int) * (th64 as int) == 4 * ((tw64 as int) * (
                        th64 as int))) by (nonlinear_arith);
                    }
                    let twth: u128 = (tw64 as u128) * (th64 as u128);
                    if 4 * twth <= usize::MAX as u128 {
                        Some(resize_lanczos(source, tw64 as u32, th64 as u32))
                    } else {
                        None
                    }
                } else {
                    None
                }
            },
            None => None,
        }
    }

    /// Run the frame pipeline over one decoded source: allocate the canvas,
    /// composite the optional (pre-blurred) backdrop, fill the frame color,
    /// erase the rounded corners, overlay the source at the padding offset,
    /// and composite the caption tiles and logo. Fails exactly when the
    /// canvas size is zero or unrepresentable.
    pub fn compose(&self, source: &RasterImage, backdrop: Option<&RasterImage>) -> (r: Result<
        RasterImage,
        ImgError,
    >)
        requires
            self.wf(),
            source.wf(),
            backdrop is Some ==> backdrop.unwrap().wf(),
        ensures
            r is Ok <==> dims_ok(
                source@.width as int,
                source@.height as int,
                self.config.frame_padding as int,
                self.config.bottom_height as int,
            ),
            r is Err ==> r.unwrap_err() == ImgError::InvalidDimensions,
            r is Ok ==> {
                let v = r.unwrap()@;
                &&& r.unwrap().wf()
                &&& v.width == canvas_width_spec(
                    source@.width as int,
                    self.config.frame_padding as int,
                )
                &&& v.height == canvas_height_spec(
                    source@.height as int,
                    self.config.frame_padding as int,
                    self.config.bottom_height as int,
                )
                &&& forall|x: int, y: int|
                    v.in_bounds(x, y) ==> #[trigger] v.pix(x, y) == composed_pix(
                        *self,
                        source@,
                        x,
                        y,
                    )
            },
    {
        let pad = self.config.frame_padding;
        let (cw, ch) = match canvas_dims(
            source.width,
            source.height,
            pad,
            self.config.bottom_height,
        ) {
            Ok(d) => d,
            Err(e) => {
                return Err(e);
            },
        };
        let mut canvas = match RasterImage::new_image(cw, ch) {
            Some(c) => c,
            None => {
                proof {
                    assert(false);
                }
                return Err(ImgError::InvalidDimensions);
            },
        };
        match (&self.config.blur, backdrop) {
            (Some(bcfg), Some(b)) => {
                let ox: i64 = pad as i64 - bcfg.padding as i64;
                overlay_at(&mut canvas, b, ox, ox);
            },
            _ => {},
        }
        fill(&mut canvas, self.config.frame_color);
        let ghost v_fill = canvas@;
        let rr = clamp_radius(self.config.corner_radius, cw, ch);
        round_corners(&mut canvas, rr);
        let ghost v_mask = canvas@;
        overlay_at(&mut canvas, source, pad as i64, pad as i64);
        let ghost v_src = canvas@;
        let top = strip_top(ch, self.config.bottom_height);
        match (&self.left_tile, &self.config.left_text) {
            (Some(t), Some(ti)) => {
                let ax = left_anchor(pad, ti.x_offset);
                let ay = top + ti.y_offset as i64;
                overlay_at(&mut canvas, &t.image, ax, ay);
            },
            _ => {},
        }
        let ghost v_left = canvas@;
        match (&self.right_tile, &self.config.right_text) {
            (Some(t), Some(ti)) => {
                let ax = right_anchor(cw, t.measured_width, pad, ti.x_offset);
                let ay = top + ti.y_offset as i64;
                overlay_at(&mut canvas, &t.image, ax, ay);
            },
            _ => {},
        }
        let ghost v_right = canvas@;
        match (&self.logo_tile, &self.config.logo) {
            (Some(t), Some(info)) => {
                let ax = center_anchor(cw, info.width, info.x_offset);
                let ay = top + info.y_offset as i64;
                overlay_at(&mut canvas, t, ax, ay);
            },
            _ => {},
        }
        proof {
            assert forall|x: int, y: int| canvas@.in_bounds(x, y) implies #[trigger] canvas@.pix(
                x,
                y,
            ) == composed_pix(*self, source@, x, y) by {
                assert(v_mask.pix(x, y) == (if corner_cut(
                    cw as int,
                    ch as int,
                    rr as int,
                    x,
                    y,
                ) {
                    erased()
                } else {
                    self.config.frame_color
                }));
            }
        }
        Ok(canvas)
    }

    /// Decode source bytes, run the frame pipeline (with the pre-blurred
    /// backdrop, if one is in use), and serialize the finished canvas by
    /// the quality rule.
    pub fn process_from_bytes(&self, bytes: &[u8], backdrop: Option<&RasterImage>) -> (r: Result<
        Vec<u8>,
        ImgError,
    >)
        requires
            self.wf(),
            backdrop is Some ==> backdrop.unwrap().wf(),
        ensures
            r is Ok ==> {
                let src = decoded_of(bytes@);
                &&& dims_ok(
                    src.width as int,
                    src.height as int,
                    self.config.frame_padding as int,
                    self.config.bottom_height as int,
                )
                &&& r.unwrap()@ == encoded_of(composed_view(*self, src), self.config.quality)
            },
            !dims_ok(
                decoded_of(bytes@).width as int,
                decoded_of(bytes@).height as int,
                self.config.frame_padding as int,
                self.config.bottom_height as int,
            ) ==> r is Err,
            r is Err ==> (r.unwrap_err() == ImgError::DecodeError || r.unwrap_err()
                == ImgError::InvalidDimensions || r.unwrap_err() == ImgError::EncodeError),
            ({
                let src = decoded_of(bytes@);
                let cw = canvas_width_spec(src.width as int, self.config.frame_padding as int);
                let ch = canvas_height_spec(
                    src.height as int,
                    self.config.frame_padding as int,
                    self.config.bottom_height as int,
                );
                decodable(bytes@) && dims_ok(
                    src.width as int,
                    src.height as int,
                    self.config.frame_padding as int,
                    self.config.bottom_height as int,
                ) && (self.config.quality < 100 ==> cw <= 65535 && ch <= 65535)
            }) ==> r is Ok,
            (r is Err && r.unwrap_err() == ImgError::DecodeError) <==> !decodable(bytes@),
            decodable(bytes@) && !dims_ok(
                decoded_of(bytes@).width as int,
                decoded_of(bytes@).height as int,
                self.config.frame_padding as int,
                self.config.bottom_height as int,
            ) ==> r is Err && r.unwrap_err() == ImgError::InvalidDimensions,
            r is Ok && self.config.quality >= 100 ==> decoded_of(r.unwrap()@) == composed_view(
                *self,
                decoded_of(bytes@),
            ),
    {
        let src = match decode_image(bytes) {
            Ok(img) => img,
            Err(e) => {
                return Err(e);
            },
        };
        let canvas = match self.compose(&src, backdrop) {
            Ok(c) => c,
            Err(e) => {
                return Err(e);
            },
        };
        let out = match encode_image(&canvas, self.config.quality) {
            Ok(b) => b,
            Err(e) => {
                return Err(e);
            },
        };
        proof {
            lemma_pix_view(canvas@, *self, src@);
        }
        Ok(out)
    }
}

/// With corner radius zero no cutout is made: each of the four canvas
/// corners keeps the frame's opaque fill color. Stated with the caption
/// strip empty and at least one pixel of padding, so that no other layer
/// reaches a corner.
pub proof fn lemma_square_corners(p: ImageProcessor, src: RasterView)
    requires
        p.config.corner_radius == 0,
        p.left_tile is None,
        p.right_tile is None,
        p.logo_tile is None,
        1 <= p.config.frame_padding,
    ensures
        ({
            let pad = p.config.frame_padding as int;
            let cw = canvas_width_spec(src.width as int, pad);
            let ch = canvas_height_spec(src.height as int, pad, p.config.bottom_height as int);
            &&& composed_pix(p, src, 0, 0) == p.config.frame_color
            &&& composed_pix(p, src, cw - 1, 0) == p.config.frame_color
            &&& composed_pix(p, src, 0, ch - 1) == p.config.frame_color
            &&& composed_pix(p, src, cw - 1, ch - 1) == p.config.frame_color
        }),
{
}

/// With corner radius r > 0, the exact corner pixel of each corner is
/// erased (its distance r*sqrt(2) to the quarter circle's centre exceeds
/// r) while the pixel at the corner's (r-1, r-1) diagonal offset keeps the
/// opaque frame fill. Stated for a canvas whose quarter circles stay clear
/// of each other and of the photo, and for r at least 2: at r = 1 the two
/// named pixels coincide, so no mask can satisfy both demands at once.
pub proof fn lemma_corner_cutout(p: ImageProcessor, src: RasterView)
    requires
        p.left_tile is None,
        p.right_tile is None,
        p.logo_tile is None,
        2 <= p.config.corner_radius,
        p.config.corner_radius <= p.config.frame_padding,
        2 * p.config.corner_radius < canvas_width_spec(
            src.width as int,
            p.config.frame_padding as int,
        ),
        2 * p.config.corner_radius < canvas_height_spec(
            src.height as int,
            p.config.frame_padding as int,
            p.config.bottom_height as int,
        ),
    ensures
        ({
            let pad = p.config.frame_padding as int;
            let r = p.config.corner_radius as int;
            let cw = canvas_width_spec(src.width as int, pad);
            let ch = canvas_height_spec(src.height as int, pad, p.config.bottom_height as int);
            &&& composed_pix(p, src, 0, 0) == erased()
            &&& composed_pix(p, src, cw - 1, 0) == erased()
            &&& composed_pix(p, src, 0, ch - 1) == erased()
            &&& composed_pix(p, src, cw - 1, ch - 1) == erased()
            &&& composed_pix(p, src, r - 1, r - 1) == p.config.frame_color
            &&& composed_pix(p, src, cw - r, r - 1) == p.config.frame_color
            &&& composed_pix(p, src, r - 1, ch - r) == p.config.frame_color
            &&& composed_pix(p, src, cw - r, ch - r) == p.config.frame_color
        }),
{
    let pad = p.config.frame_padding as int;
    let r = p.config.corner_radius as int;
    let cw = canvas_width_spec(src.width as int, pad);
    let ch = canvas_height_spec(src.height as int, pad, p.config.bottom_height as int);
    assert(1 <= r * r && 4 <= r * r) by (nonlinear_arith)
        requires
            2 <= r,
    ;
    assert(clamped_radius(r, cw, ch) == r);
    assert(cut_at(r, 0, 0));
    assert((r - (r - 1)) * (r - (r - 1)) + (r - (r - 1)) * (r - (r - 1)) <= r * r) by (nonlinear_arith)
        requires
            2 <= r,
    ;
    assert(!cut_at(r, r - 1, r - 1));
    assert(inward(cw, r, 0) == 0 && inward(ch, r, 0) == 0);
    assert(inward(cw, r, cw - 1) == 0 && inward(ch, r, ch - 1) == 0);
    assert(inward(cw, r, r - 1) == r - 1 && inward(ch, r, r - 1) == r - 1);
    assert(inward(cw, r, cw - r) == r - 1 && inward(ch, r, ch - r) == r - 1);
}

/// The source photo shows unmodified at the padding offset: where its
/// pixel is fully opaque and no caption or logo tile covers the spot, the
/// composed canvas holds exactly that pixel, whatever the blur and corner
/// settings.
pub proof fn lemma_source_preserved(p: ImageProcessor, src: RasterView, sx: int, sy: int)
    requires
        0 <= sx < src.width,
        0 <= sy < src.height,
        src.pix(sx, sy).a == 255,
        ({
            let pad = p.config.frame_padding as int;
            let cw = canvas_width_spec(src.width as int, pad);
            let ch = canvas_height_spec(src.height as int, pad, p.config.bottom_height as int);
            let top = strip_top_spec(ch, p.config.bottom_height as int);
            &&& (p.left_tile is Some ==> !covers(
                p.left_tile.unwrap().image@,
                left_anchor_spec(pad, p.config.left_text.unwrap().x_offset as int),
                top + p.config.left_text.unwrap().y_offset as int,
                pad + sx,
                pad + sy,
            ))
            &&& (p.right_tile is Some ==> !covers(
                p.right_tile.unwrap().image@,
                right_anchor_spec(
                    cw,
                    p.right_tile.unwrap().measured_width as int,
                    pad,
                    p.config.right_text.unwrap().x_offset as int,
                ),
                top + p.config.right_text.unwrap().y_offset as int,
                pad + sx,
                pad + sy,
            ))
            &&& (p.logo_tile is Some ==> !covers(
                p.logo_tile.unwrap()@,
                center_anchor_spec(
                    cw,
                    p.config.logo.unwrap().width as int,
                    p.config.logo.unwrap().x_offset as int,
                ),
                top + p.config.logo.unwrap().y_offset as int,
                pad + sx,
                pad + sy,
            ))
        }),
    ensures
        composed_pix(p, src, p.config.frame_padding + sx, p.config.frame_padding + sy) == src.pix(
            sx,
            sy,
        ),
{
    let pad = p.config.frame_padding as int;
    let cw = canvas_width_spec(src.width as int, pad);
    let ch = canvas_height_spec(src.height as int, pad, p.config.bottom_height as int);
    let rr = clamped_radius(p.config.corner_radius as int, cw, ch);
    let base = if corner_cut(cw, ch, rr, pad + sx, pad + sy) {
        erased()
    } else {
        p.config.frame_color
    };
    lemma_blend_opaque(src.pix(sx, sy), base);
}

/// The right caption tile's right edge: the processor's well-formedness
/// makes the tile exactly as wide as its measured advance width, so the
/// anchor plus the rendered tile's width lands exactly at canvas width
/// minus padding plus the configured offset.
pub proof fn lemma_right_tile_edge(p: ImageProcessor, src: RasterView)
    requires
        p.wf(),
        p.right_tile is Some,
    ensures
        ({
            let pad = p.config.frame_padding as int;
            let cw = canvas_width_spec(src.width as int, pad);
            let xoff = p.config.right_text.unwrap().x_offset as int;
            right_anchor_spec(cw, p.right_tile.unwrap().measured_width as int, pad, xoff)
                + p.right_tile.unwrap().image@.width == cw - pad + xoff
        }),
{
}

} // verus!
