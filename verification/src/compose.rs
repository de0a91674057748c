use vstd::prelude::*;

use crate::color::Color;
use crate::color::blend;
use crate::color::blend_px;
use crate::color::erased;
use crate::layout::corner_cut;
use crate::layout::cut_at;
use crate::layout::inward;
use crate::raster::RasterImage;
use crate::raster::RasterView;

verus! {

/// Fill the whole canvas with one color, replacing every pixel.
pub fn fill(img: &mut RasterImage, c: Color)
    requires
        old(img).wf(),
    ensures
        final (img).wf(),
        final (img)@.width == old(img)@.width,
        final (img)@.height == old(img)@.height,
        forall|x: int, y: int|
            final (img)@.in_bounds(x, y) ==> #[trigger] final (img)@.pix(x, y) == c,
{
    let w = img.width;
    let h = img.height;
    let mut y: u32 = 0;
    while y < h
        invariant
            img.wf(),
            img@.width == w,
            img@.height == h,
            y <= h,
            forall|x2: int, y2: int|
                img@.in_bounds(x2, y2) && y2 < y ==> #[trigger] img@.pix(x2, y2) == c,
        decreases h - y,
    {
        let mut x: u32 = 0;
        while x < w
            invariant
                img.wf(),
                img@.width == w,
                img@.height == h,
                x <= w,
                y < h,
                forall|x2: int, y2: int|
                    img@.in_bounds(x2, y2) && y2 < y ==> #[trigger] img@.pix(x2, y2) == c,
                forall|x2: int| 0 <= x2 < x ==> #[trigger] img@.pix(x2, y as int) == c,
            decreases w - x,
        {
            img.set_pixel(x, y, c);
            x = x + 1;
        }
        y = y + 1;
    }
}

/// Whether (x, y) lies on the hollow border band of the given thickness.
pub open spec fn on_border(w: int, h: int, t: int, x: int, y: int) -> bool {
    x < t || y < t || w - t <= x || h - t <= y
}

/// Draw a hollow border band of the given thickness over the canvas edge;
/// the interior keeps its pixels.
pub fn add_frame(img: &mut RasterImage, thickness: u32, color: Color)
    requires
        old(img).wf(),
    ensures
        final (img).wf(),
        final (img)@.width == old(img)@.width,
        final (img)@.height == old(img)@.height,
        forall|x: int, y: int|
            final (img)@.in_bounds(x, y) ==> #[trigger] final (img)@.pix(x, y) == (if on_border(
                final (img)@.width as int,
                final (img)@.height as int,
                thickness as int,
                x,
                y,
            ) {
                color
            } else {
                old(img)@.pix(x, y)
            }),
{
    let w = img.width;
    let h = img.height;
    let ghost orig = img@;
    let mut y: u32 = 0;
    while y < h
        invariant
            img.wf(),
            img@.width == w,
            img@.height == h,
            y <= h,
            forall|x2: int, y2: int|
                img@.in_bounds(x2, y2) && y2 < y ==> #[trigger] img@.pix(x2, y2) == (if on_border(
                    w as int,
                    h as int,
                    thickness as int,
                    x2,
                    y2,
                ) {
                    color
                } else {
                    orig.pix(x2, y2)
                }),
            forall|x2: int, y2: int|
                img@.in_bounds(x2, y2) && y <= y2 ==> #[trigger] img@.pix(x2, y2) == orig.pix(
                    x2,
                    y2,
                ),
        decreases h - y,
    {
        let mut x: u32 = 0;
        while x < w
            invariant
                img.wf(),
                img@.width == w,
                img@.height == h,
                x <= w,
                y < h,
                forall|x2: int, y2: int|
                    img@.in_bounds(x2, y2) && y2 < y ==> #[trigger] img@.pix(x2, y2) == (
                    if on_border(w as int, h as int, thickness as int, x2, y2) {
                        color
                    } else {
                        orig.pix(x2, y2)
                    }),
                forall|x2: int| 0 <= x2 < x ==> #[trigger] img@.pix(x2, y as int) == (if on_border(
                    w as int,
                    h as int,
                    thickness as int,
                    x2,
                    y as int,
                ) {
                    color
                } else {
                    orig.pix(x2, y as int)
                }),
                forall|x2: int, y2: int|
                    img@.in_bounds(x2, y2) && (y2 > y || (y2 == y && x <= x2))
                        ==> #[trigger] img@.pix(x2, y2) == orig.pix(x2, y2),
            decreases w - x,
        {
            let border = x < thickness || y < thickness || w as u64 <= x as u64 + thickness as u64
                || h as u64 <= y as u64 + thickness as u64;
            proof {
                assert(border == on_border(w as int, h as int, thickness as int, x as int, y as int));
            }
            if border {
                img.set_pixel(x, y, color);
            }
            x = x + 1;
        }
        y = y + 1;
    }
}

proof fn lemma_sq_bound(a: int)
    by (nonlinear_arith)
    requires
        0 <= a < 0x8000_0000,
    ensures
        0 <= a * a < 0x4000_0000_0000_0000,
{
}

/// Erase the rounded-corner cutouts: within each radius-by-radius corner
/// box, a pixel farther from the quarter circle's centre (the point radius
/// pixels in from both adjacent edges) than the radius becomes fully
/// transparent; every other pixel keeps its value. A radius of zero erases
/// nothing.
pub fn round_corners(img: &mut RasterImage, radius: u32)
    requires
        old(img).wf(),
        2 * radius <= old(img)@.width,
        2 * radius <= old(img)@.height,
    ensures
        final (img).wf(),
        final (img)@.width == old(img)@.width,
        final (img)@.height == old(img)@.height,
        forall|x: int, y: int|
            final (img)@.in_bounds(x, y) ==> #[trigger] final (img)@.pix(x, y) == (if corner_cut(
                final (img)@.width as int,
                final (img)@.height as int,
                radius as int,
                x,
                y,
            ) {
                erased()
            } else {
                old(img)@.pix(x, y)
            }),
{
    let w = img.width;
    let h = img.height;
    let ghost orig = img@;
    if radius == 0 {
        return ;
    }
    let mut y: u32 = 0;
    while y < h
        invariant
            img.wf(),
            img@.width == w,
            img@.height == h,
            y <= h,
            1 <= radius,
            2 * radius <= w,
            2 * radius <= h,
            forall|x2: int, y2: int|
                img@.in_bounds(x2, y2) && y2 < y ==> #[trigger] img@.pix(x2, y2) == (
                if corner_cut(w as int, h as int, radius as int, x2, y2) {
                    erased()
                } else {
                    orig.pix(x2, y2)
                }),
            forall|x2: int, y2: int|
                img@.in_bounds(x2, y2) && y <= y2 ==> #[trigger] img@.pix(x2, y2) == orig.pix(
                    x2,
                    y2,
                ),
        decreases h - y,
    {
        let mut x: u32 = 0;
        while x < w
            invariant
                img.wf(),
                img@.width == w,
                img@.height == h,
                x <= w,
                y < h,
                1 <= radius,
                2 * radius <= w,
                2 * radius <= h,
                forall|x2: int, y2: int|
                    img@.in_bounds(x2, y2) && y2 < y ==> #[trigger] img@.pix(x2, y2) == (
                    if corner_cut(w as int, h as int, radius as int, x2, y2) {
                        erased()
                    } else {
                        orig.pix(x2, y2)
                    }),
                forall|x2: int| 0 <= x2 < x ==> #[trigger] img@.pix(x2, y as int) == (
                if corner_cut(w as int, h as int, radius as int, x2, y as int) {
                    erased()
                } else {
                    orig.pix(x2, y as int)
                }),
                forall|x2: int, y2: int|
                    img@.in_bounds(x2, y2) && (y2 > y || (y2 == y && x <= x2))
                        ==> #[trigger] img@.pix(x2, y2) == orig.pix(x2, y2),
            decreases w - x,
        {
            let cut: bool;
            if (x < radius || w - radius <= x) && (y < radius || h - radius <= y) {
                let ix: u32 = if x < radius {
                    x
                } else {
                    w - 1 - x
                };
                let iy: u32 = if y < radius {
                    y
                } else {
                    h - 1 - y
                };
                let a: u64 = (radius - ix) as u64;
                let b: u64 = (radius - iy) as u64;
                proof {
                    lemma_sq_bound(a as int);
                    lemma_sq_bound(b as int);
                    lemma_sq_bound(radius as int);
                }
                cut = a * a + b * b > (radius as u64) * (radius as u64);
            } else {
                cut = false;
            }
            proof {
                assert(cut == corner_cut(w as int, h as int, radius as int, x as int, y as int));
            }
            if cut {
                img.set_pixel(x, y, Color { r: 0, g: 0, b: 0, a: 0 });
            }
            x = x + 1;
        }
        y = y + 1;
    }
}

/// Whether the overlaid raster `s`, placed at (ox, oy), covers (x, y).
pub open spec fn covers(s: RasterView, ox: int, oy: int, x: int, y: int) -> bool {
    ox <= x < ox + s.width && oy <= y < oy + s.height
}

/// The canvas pixel after overlaying `s` at (ox, oy): the covered region is
/// alpha-blended over the canvas, the rest keeps its pixels.
pub open spec fn overlay_pix(d: RasterView, s: RasterView, ox: int, oy: int, x: int, y: int) -> Color {
    if covers(s, ox, oy, x, y) {
        blend(s.pix(x - ox, y - oy), d.pix(x, y))
    } else {
        d.pix(x, y)
    }
}

/// Composite `src` over `dst` with its top-left corner at (ox, oy); a
/// negative or out-of-range offset crops the overlay at the canvas bounds.
pub fn overlay_at(dst: &mut RasterImage, src: &RasterImage, ox: i64, oy: i64)
    requires
        old(dst).wf(),
        src.wf(),
        ox + src@.width <= i64::MAX,
        oy + src@.height <= i64::MAX,
    ensures
        final (dst).wf(),
        final (dst)@.width == old(dst)@.width,
        final (dst)@.height == old(dst)@.height,
        forall|x: int, y: int|
            final (dst)@.in_bounds(x, y) ==> #[trigger] final (dst)@.pix(x, y) == overlay_pix(
                old(dst)@,
                src@,
                ox as int,
                oy as int,
                x,
                y,
            ),
{
    let ghost orig = dst@;
    let dw: i64 = dst.width as i64;
    let dh: i64 = dst.height as i64;
    let x0: i64 = if ox > 0 {
        ox
    } else {
        0
    };
    let y0: i64 = if oy > 0 {
        oy
    } else {
        0
    };
    let xe: i64 = ox + src.width as i64;
    let ye: i64 = oy + src.height as i64;
    let x1: i64 = if xe < dw {
        xe
    } else {
        dw
    };
    let y1: i64 = if ye < dh {
        ye
    } else {
        dh
    };
    if x0 >= x1 || y0 >= y1 {
        proof {
            assert forall|x: int, y: int| dst@.in_bounds(x, y) implies #[trigger] dst@.pix(x, y)
                == overlay_pix(orig, src@, ox as int, oy as int, x, y) by {}
        }
        return ;
    }
    let mut y: i64 = y0;
    while y < y1
        invariant
            dst.wf(),
            dst@.width == orig.width,
            dst@.height == orig.height,
            src.wf(),
            y0 <= y <= y1,
            x0 == if ox > 0 { ox } else { 0 },
            y0 == if oy > 0 { oy } else { 0 },
            x1 <= orig.width,
            y1 <= orig.height,
            0 <= x0,
            0 <= y0,
            x0 < x1,
            x1 == if ox + src@.width < orig.width { ox + src@.width } else { orig.width as int },
            y1 == if oy + src@.height < orig.height { oy + src@.height } else { orig.height as int },
            forall|x2: int, y2: int|
                dst@.in_bounds(x2, y2) && y2 < y && covers(src@, ox as int, oy as int, x2, y2)
                    ==> #[trigger] dst@.pix(x2, y2) == blend(
                    src@.pix(x2 - ox, y2 - oy),
                    orig.pix(x2, y2),
                ),
            forall|x2: int, y2: int|
                dst@.in_bounds(x2, y2) && !(y2 < y && covers(src@, ox as int, oy as int, x2, y2))
                    ==> #[trigger] dst@.pix(x2, y2) == orig.pix(x2, y2),
        decreases y1 - y,
    {
        let mut x: i64 = x0;
        while x < x1
            invariant
                dst.wf(),
                dst@.width == orig.width,
                dst@.height == orig.height,
                src.wf(),
                y0 <= y < y1,
                x0 <= x <= x1,
                x0 == if ox > 0 { ox } else { 0 },
                y0 == if oy > 0 { oy } else { 0 },
                x1 <= orig.width,
                y1 <= orig.height,
                0 <= x0,
                0 <= y0,
                x1 == if ox + src@.width < orig.width { ox + src@.width } else { orig.width as int },
                y1 == if oy + src@.height < orig.height {
                    oy + src@.height
                } else {
                    orig.height as int
                },
                forall|x2: int, y2: int|
                    dst@.in_bounds(x2, y2) && y2 < y && covers(src@, ox as int, oy as int, x2, y2)
                        ==> #[trigger] dst@.pix(x2, y2) == blend(
                        src@.pix(x2 - ox, y2 - oy),
                        orig.pix(x2, y2),
                    ),
                forall|x2: int|
                    x0 <= x2 < x ==> #[trigger] dst@.pix(x2, y as int) == blend(
                        src@.pix(x2 - ox, y - oy),
                        orig.pix(x2, y as int),
                    ),
                forall|x2: int, y2: int|
                    dst@.in_bounds(x2, y2) && !(y2 < y && covers(
                        src@,
                        ox as int,
                        oy as int,
                        x2,
                        y2,
                    )) && !(y2 == y && x0 <= x2 < x) ==> #[trigger] dst@.pix(x2, y2) == orig.pix(
                        x2,
                        y2,
                    ),
            decreases x1 - x,
        {
            let sx: u32 = (x - ox) as u32;
            let sy: u32 = (y - oy) as u32;
            let s = src.get_pixel(sx, sy);
            let d = dst.get_pixel(x as u32, y as u32);
            let b = blend_px(s, d);
            dst.set_pixel(x as u32, y as u32, b);
            x = x + 1;
        }
        y = y + 1;
    }
    proof {
        assert forall|x: int, y: int| dst@.in_bounds(x, y) implies #[trigger] dst@.pix(x, y)
            == overlay_pix(orig, src@, ox as int, oy as int, x, y) by {}
    }
}

} // verus!
