use vstd::prelude::*;

verus! {

/// One RGBA pixel, eight bits per channel.
#[derive(Clone, Copy, PartialEq, Eq, Structural, Debug)]
pub struct Color {
    pub r: u8,
    pub g: u8,
    pub b: u8,
    pub a: u8,
}

/// The fully transparent pixel that a corner cutout leaves behind.
pub open spec fn erased() -> Color {
    Color { r: 0, g: 0, b: 0, a: 0 }
}

/// One color channel of source-over compositing with eight-bit alpha,
/// rounded to the nearest representable value.
pub open spec fn blend_channel(s: u8, d: u8, a: u8) -> int {
    (s * a + d * (255 - a) + 127) / 255
}

/// The alpha channel of source-over compositing.
pub open spec fn blend_alpha(sa: u8, da: u8) -> int {
    sa + (da * (255 - sa) + 127) / 255
}

/// Source-over blend of pixel `s` onto pixel `d`: a fully opaque source
/// replaces the destination, a fully transparent one leaves it unchanged.
pub open spec fn blend(s: Color, d: Color) -> Color {
    Color {
        r: blend_channel(s.r, d.r, s.a) as u8,
        g: blend_channel(s.g, d.g, s.a) as u8,
        b: blend_channel(s.b, d.b, s.a) as u8,
        a: blend_alpha(s.a, d.a) as u8,
    }
}

/// A fully opaque source pixel replaces whatever lies beneath it.
pub proof fn lemma_blend_opaque(s: Color, d: Color)
    requires
        s.a == 255,
    ensures
        blend(s, d) == s,
{
    assert forall|c: u8, e: u8| #[trigger] blend_channel(c, e, 255u8) == c by {
        assert((c * 255 + e * 0 + 127) / 255 == c) by (nonlinear_arith);
    }
    assert(blend_alpha(255u8, d.a) == 255) by (nonlinear_arith);
}

/// A fully transparent source pixel leaves the destination unchanged.
pub proof fn lemma_blend_transparent(s: Color, d: Color)
    requires
        s.a == 0,
    ensures
        blend(s, d) == d,
{
    assert forall|c: u8, e: u8| #[trigger] blend_channel(c, e, 0u8) == e by {
        assert((c * 0 + e * 255 + 127) / 255 == e) by (nonlinear_arith);
    }
    assert(blend_alpha(0u8, d.a) == d.a) by (nonlinear_arith);
}

proof fn lemma_mul_255(x: u32, y: u32)
    by (nonlinear_arith)
    requires
        x <= 255,
        y <= 255,
    ensures
        x * y <= 65025,
{
}

/// Source-over blend, computed in integer arithmetic.
pub fn blend_px(s: Color, d: Color) -> (r: Color)
    ensures
        r == blend(s, d),
{
    let sa: u32 = s.a as u32;
    let ia: u32 = 255 - sa;
    proof {
        lemma_mul_255(s.r as u32, sa);
        lemma_mul_255(s.g as u32, sa);
        lemma_mul_255(s.b as u32, sa);
        lemma_mul_255(d.r as u32, ia);
        lemma_mul_255(d.g as u32, ia);
        lemma_mul_255(d.b as u32, ia);
        lemma_mul_255(d.a as u32, ia);
    }
    let rr: u8 = ((s.r as u32 * sa + d.r as u32 * ia + 127) / 255) as u8;
    let rg: u8 = ((s.g as u32 * sa + d.g as u32 * ia + 127) / 255) as u8;
    let rb: u8 = ((s.b as u32 * sa + d.b as u32 * ia + 127) / 255) as u8;
    let ra: u8 = (sa + (d.a as u32 * ia + 127) / 255) as u8;
    Color { r: rr, g: rg, b: rb, a: ra }
}

} // verus!
