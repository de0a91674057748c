use vstd::prelude::*;

use crate::color::Color;
use crate::color::erased;

verus! {

/// Mathematical view of a raster: its dimensions and the flat RGBA byte
/// sequence, four bytes per pixel, rows stored top to bottom.
pub ghost struct RasterView {
    pub width: nat,
    pub height: nat,
    pub data: Seq<u8>,
}

impl RasterView {
    /// A view is well formed when the byte sequence holds exactly four
    /// bytes for every pixel.
    pub open spec fn wf(self) -> bool {
        self.data.len() == 4 * self.width * self.height
    }

    pub open spec fn in_bounds(self, x: int, y: int) -> bool {
        0 <= x < self.width && 0 <= y < self.height
    }

    /// Index of the first byte of pixel (x, y).
    pub open spec fn byte_index(self, x: int, y: int) -> int {
        4 * (y * self.width + x)
    }

    /// The pixel at (x, y).
    pub open spec fn pix(self, x: int, y: int) -> Color {
        let i = self.byte_index(x, y);
        Color {
            r: self.data[i],
            g: self.data[i + 1],
            b: self.data[i + 2],
            a: self.data[i + 3],
        }
    }
}

/// The four bytes of a pixel lie inside a well-formed byte sequence.
pub proof fn lemma_byte_index_in_range(v: RasterView, x: int, y: int)
    requires
        v.wf(),
        v.in_bounds(x, y),
    ensures
        0 <= y * v.width,
        y * v.width + x < v.width * v.height,
        4 * (v.width * v.height) == v.data.len(),
        0 <= v.byte_index(x, y),
        v.byte_index(x, y) + 4 <= v.data.len(),
{
    assert(0 <= y * v.width && y * v.width + x < v.width * v.height) by (nonlinear_arith)
        requires
            0 <= x < v.width,
            0 <= y < v.height,
    ;
    assert(4 * (v.width * v.height) == 4 * v.width * v.height) by (nonlinear_arith);
}

pub proof fn lemma_mul_u32_bound(a: int, b: int)
    by (nonlinear_arith)
    requires
        0 <= a <= 0xffff_ffff,
        0 <= b <= 0xffff_ffff,
    ensures
        0 <= a * b <= 0xffff_ffff * 0xffff_ffff,
{
}

/// Distinct pixels occupy disjoint byte ranges.
pub proof fn lemma_byte_index_disjoint(v: RasterView, x1: int, y1: int, x2: int, y2: int)
    requires
        v.in_bounds(x1, y1),
        v.in_bounds(x2, y2),
        !(x1 == x2 && y1 == y2),
    ensures
        v.byte_index(x1, y1) + 4 <= v.byte_index(x2, y2) || v.byte_index(x2, y2) + 4
            <= v.byte_index(x1, y1),
{
    assert(y1 * v.width + x1 < y2 * v.width + x2 || y2 * v.width + x2 < y1 * v.width
        + x1) by (nonlinear_arith)
        requires
            0 <= x1 < v.width,
            0 <= y1 < v.height,
            0 <= x2 < v.width,
            0 <= y2 < v.height,
            !(x1 == x2 && y1 == y2),
    ;
}

/// Owned RGBA image buffer: the one shared mutable resource that the
/// pipeline stages rework in place.
#[derive(Debug)]
pub struct RasterImage {
    pub width: u32,
    pub height: u32,
    pub data: Vec<u8>,
}

impl View for RasterImage {
    type V = RasterView;

    open spec fn view(&self) -> RasterView {
        RasterView { width: self.width as nat, height: self.height as nat, data: self.data@ }
    }
}

impl RasterImage {
    pub open spec fn wf(self) -> bool {
        self@.wf()
    }

    /// Whether a raster of the given dimensions fits in one addressable buffer.
    pub open spec fn size_ok(width: int, height: int) -> bool {
        4 * width * height <= usize::MAX
    }

    /// A zero-initialized, fully transparent raster of the given size, or
    /// `None` when the byte count would not fit in an allocation.
    pub fn new_image(width: u32, height: u32) -> (r: Option<RasterImage>)
        ensures
            r is Some <==> Self::size_ok(width as int, height as int),
            r is Some ==> {
                let v = r.unwrap()@;
                &&& v.wf()
                &&& v.width == width
                &&& v.height == height
                &&& forall|x: int, y: int|
                    v.in_bounds(x, y) ==> #[trigger] v.pix(x, y) == erased()
            },
    {
        proof {
            lemma_mul_u32_bound(width as int, height as int);
            assert(4 * (width as int) * (height as int) == 4 * ((width as int) * (
            height as int))) by (nonlinear_arith);
        }
        let wh: u128 = (width as u128) * (height as u128);
        let total: u128 = 4 * wh;
        if total > usize::MAX as u128 {
            return None;
        }
        let n: usize = total as usize;
        let mut data: Vec<u8> = Vec::new();
        let mut i: usize = 0;
        while i < n
            invariant
                i <= n,
                data@.len() == i,
                forall|k: int| 0 <= k < i ==> data@[k] == 0u8,
            decreases n - i,
        {
            data.push(0u8);
            i = i + 1;
        }
        let img = RasterImage { width, height, data };
        proof {
            assert forall|x: int, y: int| img@.in_bounds(x, y) implies #[trigger] img@.pix(x, y)
                == erased() by {
                lemma_byte_index_in_range(img@, x, y);
            }
        }
        Some(img)
    }

    /// The pixel at (x, y).
    pub fn get_pixel(&self, x: u32, y: u32) -> (c: Color)
        requires
            self.wf(),
            self@.in_bounds(x as int, y as int),
        ensures
            c == self@.pix(x as int, y as int),
    {
        proof {
            lemma_byte_index_in_range(self@, x as int, y as int);
        }
        let len: usize = self.data.len();
        let pi: usize = (y as usize) * (self.width as usize) + (x as usize);
        let i: usize = 4 * pi;
        Color {
            r: self.data[i],
            g: self.data[i + 1],
            b: self.data[i + 2],
            a: self.data[i + 3],
        }
    }

    /// Overwrite the pixel at (x, y); every other pixel keeps its value.
    pub fn set_pixel(&mut self, x: u32, y: u32, c: Color)
        requires
            old(self).wf(),
            old(self)@.in_bounds(x as int, y as int),
        ensures
            final(self).wf(),
            final(self)@.width == old(self)@.width,
            final(self)@.height == old(self)@.height,
            final(self)@.pix(x as int, y as int) == c,
            forall|x2: int, y2: int|
                final(self)@.in_bounds(x2, y2) && !(x2 == x as int && y2 == y as int)
                    ==> #[trigger] final(self)@.pix(x2, y2) == old(self)@.pix(x2, y2),
    {
        proof {
            lemma_byte_index_in_range(self@, x as int, y as int);
        }
        let ghost pre = self@;
        let len: usize = self.data.len();
        let pi: usize = (y as usize) * (self.width as usize) + (x as usize);
        let i: usize = 4 * pi;
        self.data.set(i, c.r);
        self.data.set(i + 1, c.g);
        self.data.set(i + 2, c.b);
        self.data.set(i + 3, c.a);
        proof {
            assert forall|x2: int, y2: int|
                self@.in_bounds(x2, y2) && !(x2 == x as int && y2 == y as int) implies #[trigger] self@.pix(
                x2,
                y2,
            ) == pre.pix(x2, y2) by {
                lemma_byte_index_in_range(pre, x2, y2);
                lemma_byte_index_disjoint(pre, x2, y2, x as int, y as int);
            }
        }
    }
}

} // verus!
