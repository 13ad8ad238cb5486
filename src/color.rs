//! Packed RGBA colors and straight-alpha "over" compositing.

use vstd::prelude::*;

verus! {

/// The fully transparent color: every channel, alpha included, is zero.
pub const TRANSPARENT: u32 = 0;

/// The packed value of the four channels, red in the most significant byte
/// and alpha in the least significant one.
pub open spec fn pack(r: u8, g: u8, b: u8, a: u8) -> u32 {
    ((r as u32) << 24u32) | ((g as u32) << 16u32) | ((b as u32) << 8u32) | (a as u32)
}

pub open spec fn red(c: u32) -> u8 {
    (c >> 24u32) as u8
}

pub open spec fn green(c: u32) -> u8 {
    ((c >> 16u32) & 0xffu32) as u8
}

pub open spec fn blue(c: u32) -> u8 {
    ((c >> 8u32) & 0xffu32) as u8
}

pub open spec fn alpha(c: u32) -> u8 {
    (c & 0xffu32) as u8
}

/// Unpacking a packed color gives back its four channels.
pub proof fn lemma_unpack_pack(r: u8, g: u8, b: u8, a: u8)
    ensures
        red(pack(r, g, b, a)) == r,
        green(pack(r, g, b, a)) == g,
        blue(pack(r, g, b, a)) == b,
        alpha(pack(r, g, b, a)) == a,
{
    let (r32, g32, b32, a32) = (r as u32, g as u32, b as u32, a as u32);
    assert(r32 < 256 && g32 < 256 && b32 < 256 && a32 < 256);
    assert((((r32 << 24u32) | (g32 << 16u32) | (b32 << 8u32) | a32) >> 24u32) == r32) by (bit_vector)
        requires r32 < 256 && g32 < 256 && b32 < 256 && a32 < 256;
    assert(((((r32 << 24u32) | (g32 << 16u32) | (b32 << 8u32) | a32) >> 16u32) & 0xffu32) == g32) by (bit_vector)
        requires r32 < 256 && g32 < 256 && b32 < 256 && a32 < 256;
    assert(((((r32 << 24u32) | (g32 << 16u32) | (b32 << 8u32) | a32) >> 8u32) & 0xffu32) == b32) by (bit_vector)
        requires r32 < 256 && g32 < 256 && b32 < 256 && a32 < 256;
    assert((((r32 << 24u32) | (g32 << 16u32) | (b32 << 8u32) | a32) & 0xffu32) == a32) by (bit_vector)
        requires r32 < 256 && g32 < 256 && b32 < 256 && a32 < 256;
}

/// Packing the four channels of a color gives back the color.
pub proof fn lemma_pack_unpack(c: u32)
    ensures
        pack(red(c), green(c), blue(c), alpha(c)) == c,
{
    assert(((((c >> 24u32) as u8) as u32) << 24u32 | ((((c >> 16u32) & 0xffu32) as u8) as u32) << 16u32
        | ((((c >> 8u32) & 0xffu32) as u8) as u32) << 8u32 | (((c & 0xffu32) as u8) as u32)) == c)
        by (bit_vector);
}

/// Builds a color from its four channels.
pub fn pack_rgba(r: u8, g: u8, b: u8, a: u8) -> (c: u32)
    ensures
        c == pack(r, g, b, a),
{
    ((r as u32) << 24u32) | ((g as u32) << 16u32) | ((b as u32) << 8u32) | (a as u32)
}

/// Splits a color into its red, green, blue and alpha channels.
pub fn unpack_rgba(c: u32) -> (rgba: (u8, u8, u8, u8))
    ensures
        rgba == (red(c), green(c), blue(c), alpha(c)),
{
    ((c >> 24u32) as u8, ((c >> 16u32) & 0xffu32) as u8, ((c >> 8u32) & 0xffu32) as u8, (c & 0xffu32) as u8)
}

/// The output alpha of "over" compositing, scaled by 255 * 255: with
/// alphas normalised to [0, 1] it is `a_base + a_over * (1 - a_base)`.
pub open spec fn blend_weight(a_base: int, a_over: int) -> int {
    255 * a_base + a_over * (255 - a_base)
}

/// One color channel of "over" compositing, the weighted mean
/// `(c_base * a_base + c_over * a_over * (1 - a_base)) / a_out`,
/// computed exactly and truncated.
pub open spec fn blend_channel(c_base: u8, c_over: u8, a_base: int, a_over: int) -> int {
    (c_base * a_base * 255 + c_over * a_over * (255 - a_base)) / blend_weight(a_base, a_over)
}

/// Straight-alpha "over" compositing of two colors that are both partly
/// transparent. Where both alphas are zero the result is transparent.
pub open spec fn blend(base: u32, over: u32) -> u32 {
    let a1 = alpha(base) as int;
    let a2 = alpha(over) as int;
    if blend_weight(a1, a2) == 0 {
        TRANSPARENT
    } else {
        pack(
            blend_channel(red(base), red(over), a1, a2) as u8,
            blend_channel(green(base), green(over), a1, a2) as u8,
            blend_channel(blue(base), blue(over), a1, a2) as u8,
            (blend_weight(a1, a2) / 255) as u8,
        )
    }
}

/// `over` painted on top of `base`.
pub open spec fn composite_spec(base: u32, over: u32) -> u32 {
    if base == TRANSPARENT || alpha(over) == 255 {
        over
    } else if over == TRANSPARENT {
        base
    } else {
        blend(base, over)
    }
}

proof fn lemma_low_byte(c: u32)
    ensures
        c & 0xffu32 <= 255,
        (c >> 24u32) <= 255,
        (c >> 16u32) & 0xffu32 <= 255,
        (c >> 8u32) & 0xffu32 <= 255,
{
    assert(c & 0xffu32 <= 255) by (bit_vector);
    assert((c >> 24u32) <= 255) by (bit_vector);
    assert((c >> 16u32) & 0xffu32 <= 255) by (bit_vector);
    assert((c >> 8u32) & 0xffu32 <= 255) by (bit_vector);
}

fn blend_channel_exec(c1: u8, c2: u8, a1: u32, a2: u32) -> (r: u8)
    requires
        a1 <= 255,
        a2 <= 255,
        blend_weight(a1 as int, a2 as int) > 0,
    ensures
        r as int == blend_channel(c1, c2, a1 as int, a2 as int),
{
    assert(a2 * (255 - a1) <= 255 * 255) by (nonlinear_arith)
        requires a1 <= 255, a2 <= 255;
    let d: u32 = 255 * a1 + a2 * (255 - a1);
    let (x1, x2) = (c1 as u32, c2 as u32);
    assert(x1 * a1 * 255 <= 255 * 255 * 255) by (nonlinear_arith)
        requires x1 <= 255, a1 <= 255;
    assert(x2 * a2 <= 255 * 255) by (nonlinear_arith)
        requires x2 <= 255, a2 <= 255;
    assert(x2 * a2 * (255 - a1) <= 255 * 255 * 255) by (nonlinear_arith)
        requires x2 <= 255, a2 <= 255, a1 <= 255;
    let n: u32 = x1 * a1 * 255 + x2 * a2 * (255 - a1);
    assert(n <= 255 * d) by (nonlinear_arith)
        requires
            x1 <= 255, x2 <= 255, a1 <= 255, a2 <= 255,
            n == x1 * a1 * 255 + x2 * a2 * (255 - a1),
            d == 255 * a1 + a2 * (255 - a1);
    assert(n / d <= 255) by (nonlinear_arith)
        requires n <= 255 * d, d > 0;
    (n / d) as u8
}

/// Paints `overlay` on top of `base` (straight-alpha "over" compositing).
/// A transparent base or an opaque overlay gives the overlay, a transparent
/// overlay gives the base; otherwise each channel is blended exactly and
/// truncated to 8 bits.
pub fn composite(base: u32, overlay: u32) -> (r: u32)
    ensures
        r == composite_spec(base, overlay),
{
    if base == TRANSPARENT || (overlay & 0xffu32) == 0xffu32 {
        return overlay;
    }
    if overlay == TRANSPARENT {
        return base;
    }
    let (r1, g1, b1, a1) = unpack_rgba(base);
    let (r2, g2, b2, a2) = unpack_rgba(overlay);
    proof {
        lemma_low_byte(base);
        lemma_low_byte(overlay);
    }
    let (a1, a2) = (a1 as u32, a2 as u32);
    assert(a2 * (255 - a1) <= 255 * 255) by (nonlinear_arith)
        requires a1 <= 255, a2 <= 255;
    let d: u32 = 255 * a1 + a2 * (255 - a1);
    if d == 0 {
        return TRANSPARENT;
    }
    assert(d / 255 <= 255) by (nonlinear_arith)
        requires a1 <= 255, a2 <= 255, d == 255 * a1 + a2 * (255 - a1);
    pack_rgba(
        blend_channel_exec(r1, r2, a1, a2),
        blend_channel_exec(g1, g2, a1, a2),
        blend_channel_exec(b1, b2, a1, a2),
        (d / 255) as u8,
    )
}

/// Painting on a transparent base gives the overlay.
pub proof fn lemma_composite_on_transparent(c: u32)
    ensures
        composite_spec(TRANSPARENT, c) == c,
{
}

/// An opaque overlay hides the base entirely.
pub proof fn lemma_composite_opaque_overlay(base: u32, over: u32)
    requires
        alpha(over) == 255,
    ensures
        composite_spec(base, over) == over,
{
}

/// Painting a transparent overlay leaves the base as it was.
pub proof fn lemma_composite_transparent_overlay(c: u32)
    ensures
        composite_spec(c, TRANSPARENT) == c,
{
    assert(0u32 & 0xffu32 == 0) by (bit_vector);
}

} // verus!
