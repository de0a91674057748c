use vstd::prelude::*;

use crate::errors::ImgError;
use crate::raster::RasterImage;
use crate::raster::lemma_mul_u32_bound;

verus! {

/// Width of the canvas: the source plus padding on both sides.
pub open spec fn canvas_width_spec(sw: int, pad: int) -> int {
    sw + 2 * pad
}

/// Height of the canvas: the source plus padding on both sides plus the
/// caption strip at the bottom.
pub open spec fn canvas_height_spec(sh: int, pad: int, bottom: int) -> int {
    sh + 2 * pad + bottom
}

/// Whether the canvas for the given source and frame geometry is nonzero
/// and addressable.
pub open spec fn dims_ok(sw: int, sh: int, pad: int, bottom: int) -> bool {
    let w = canvas_width_spec(sw, pad);
    let h = canvas_height_spec(sh, pad, bottom);
    &&& 0 < w <= u32::MAX
    &&& 0 < h <= u32::MAX
    &&& RasterImage::size_ok(w, h)
}

/// Compute the canvas dimensions, rejecting a zero or overflowing size.
pub fn canvas_dims(sw: u32, sh: u32, pad: u32, bottom: u32) -> (r: Result<(u32, u32), ImgError>)
    ensures
        r is Ok <==> dims_ok(sw as int, sh as int, pad as int, bottom as int),
        r is Ok ==> r.unwrap().0 == canvas_width_spec(sw as int, pad as int),
        r is Ok ==> r.unwrap().1 == canvas_height_spec(sh as int, pad as int, bottom as int),
        r is Err ==> r.unwrap_err() == ImgError::InvalidDimensions,
{
    let w64: u64 = sw as u64 + 2 * (pad as u64);
    let h64: u64 = sh as u64 + 2 * (pad as u64) + bottom as u64;
    if w64 == 0 || w64 > u32::MAX as u64 || h64 == 0 || h64 > u32::MAX as u64 {
        return Err(ImgError::InvalidDimensions);
    }
    let w: u32 = w64 as u32;
    let h: u32 = h64 as u32;
    proof {
        lemma_mul_u32_bound(w as int, h as int);
        assert(4 * (w as int) * (h as int) == 4 * ((w as int) * (h as int))) by (nonlinear_arith);
    }
    let wh: u128 = (w as u128) * (h as u128);
    if 4 * wh > usize::MAX as u128 {
        return Err(ImgError::InvalidDimensions);
    }
    Ok((w, h))
}

/// Corner radius clamped so that two quarter circles never overlap.
pub open spec fn clamped_radius(r: int, w: int, h: int) -> int {
    let m = if w < h {
        w
    } else {
        h
    };
    if 2 * r <= m {
        r
    } else {
        m / 2
    }
}

/// Clamp the corner radius to half the smaller canvas dimension.
pub fn clamp_radius(r: u32, w: u32, h: u32) -> (c: u32)
    ensures
        c == clamped_radius(r as int, w as int, h as int),
        2 * c <= w,
        2 * c <= h,
{
    let m: u32 = if w < h {
        w
    } else {
        h
    };
    let half: u32 = m / 2;
    if r <= half {
        r
    } else {
        half
    }
}

/// Inward offset of a coordinate that lies in one of the two corner bands
/// of an axis, or -1 outside them.
pub open spec fn inward(extent: int, r: int, c: int) -> int {
    if c < r {
        c
    } else if extent - r <= c {
        extent - 1 - c
    } else {
        -1
    }
}

/// The binary inside/outside test of the corner cutout, on inward offsets:
/// a pixel is cut when its distance to the quarter circle's centre, the
/// point `r` pixels in from both adjacent edges, exceeds the radius. The
/// exact corner pixel (offset 0, 0) sits at distance r·sqrt(2) and is cut
/// for every positive radius.
pub open spec fn cut_at(r: int, i: int, j: int) -> bool {
    (r - i) * (r - i) + (r - j) * (r - j) > r * r
}

/// Whether the canvas pixel (x, y) is erased by the rounded-corner mask.
pub open spec fn corner_cut(w: int, h: int, r: int, x: int, y: int) -> bool {
    let i = inward(w, r, x);
    let j = inward(h, r, y);
    0 <= i && 0 <= j && cut_at(r, i, j)
}

/// With a corner radius of zero the mask cuts nothing: no canvas pixel is
/// erased, so every corner keeps whatever fill it carries.
pub proof fn lemma_zero_radius_no_cut(w: int, h: int, x: int, y: int)
    requires
        0 <= x < w,
        0 <= y < h,
    ensures
        !corner_cut(w, h, 0, x, y),
{
}

/// Top edge of the caption strip.
pub open spec fn strip_top_spec(ch: int, bottom: int) -> int {
    ch - bottom
}

/// Anchor of the left caption: left edge fixed at the padding boundary.
pub open spec fn left_anchor_spec(pad: int, xoff: int) -> int {
    pad + xoff
}

/// Anchor of the right caption: its measured width pushed in from the
/// right padding boundary.
pub open spec fn right_anchor_spec(cw: int, mw: int, pad: int, xoff: int) -> int {
    cw - mw - pad + xoff
}

/// Anchor of the logo: horizontally centred, then offset.
pub open spec fn center_anchor_spec(cw: int, lw: int, xoff: int) -> int {
    if lw <= cw {
        (cw - lw) / 2 + xoff
    } else {
        xoff - (lw - cw) / 2
    }
}

pub fn strip_top(ch: u32, bottom: u32) -> (r: i64)
    ensures
        r == strip_top_spec(ch as int, bottom as int),
{
    ch as i64 - bottom as i64
}

pub fn left_anchor(pad: u32, xoff: i32) -> (r: i64)
    ensures
        r == left_anchor_spec(pad as int, xoff as int),
{
    pad as i64 + xoff as i64
}

pub fn right_anchor(cw: u32, mw: u32, pad: u32, xoff: i32) -> (r: i64)
    ensures
        r == right_anchor_spec(cw as int, mw as int, pad as int, xoff as int),
{
    cw as i64 - mw as i64 - pad as i64 + xoff as i64
}

pub fn center_anchor(cw: u32, lw: u32, xoff: i32) -> (r: i64)
    ensures
        r == center_anchor_spec(cw as int, lw as int, xoff as int),
{
    if lw <= cw {
        (cw - lw) as i64 / 2 + xoff as i64
    } else {
        xoff as i64 - (lw - cw) as i64 / 2
    }
}

/// The right caption's right edge lands at the right padding boundary,
/// shifted by the configured offset: anchoring at the measured width away
/// from it and advancing by that same width returns there exactly.
pub proof fn lemma_right_caption_alignment(cw: int, mw: int, pad: int, xoff: int)
    ensures
        right_anchor_spec(cw, mw, pad, xoff) + mw == cw - pad + xoff,
{
}

} // verus!
