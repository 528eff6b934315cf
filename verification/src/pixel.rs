//! Conversion between RGBA pixels and packed 32-bit BGRA words.
//!
//! A snapshot stores its pixels as four bytes in the order red, green, blue,
//! alpha. A window surface takes one 32-bit word per pixel, with blue in the
//! lowest byte and alpha in the highest. Every draw path goes through
//! [`pack_pixel`] and [`unpack_pixel`]; no other code shifts or masks
//! channels.

use vstd::prelude::*;

verus! {

/// One pixel of a snapshot, channel by channel.
#[derive(Clone, Copy, Debug, PartialEq, Eq, Structural)]
pub struct Rgba {
    pub r: u8,
    pub g: u8,
    pub b: u8,
    pub a: u8,
}

/// The colour of the selection outline: opaque red.
pub open spec fn highlight_color() -> Rgba {
    Rgba { r: 255, g: 0, b: 0, a: 255 }
}

/// The colour of the selection outline.
pub fn highlight() -> (p: Rgba)
    ensures
        p == highlight_color(),
{
    Rgba { r: 255, g: 0, b: 0, a: 255 }
}

/// The word that stands for `p` on a surface: blue in the lowest byte, then
/// green, then red, and alpha in the highest.
pub open spec fn packed(p: Rgba) -> int {
    p.b as int + 0x100 * (p.g as int) + 0x1_0000 * (p.r as int) + 0x100_0000 * (p.a as int)
}

/// The pixel that the word `w` stands for.
pub open spec fn unpacked(w: int) -> Rgba {
    Rgba {
        r: ((w / 0x1_0000) % 0x100) as u8,
        g: ((w / 0x100) % 0x100) as u8,
        b: (w % 0x100) as u8,
        a: ((w / 0x100_0000) % 0x100) as u8,
    }
}

/// One channel raised by `offset`, stopping at the channel maximum.
pub open spec fn raised(c: u8, offset: u8) -> u8 {
    if c as int + offset as int > 255 {
        255u8
    } else {
        (c as int + offset as int) as u8
    }
}

/// `p` with each colour channel raised by `offset`; alpha is kept.
pub open spec fn brightened(p: Rgba, offset: u8) -> Rgba {
    Rgba { r: raised(p.r, offset), g: raised(p.g, offset), b: raised(p.b, offset), a: p.a }
}

/// Packs an RGBA pixel into a BGRA word.
pub fn pack_pixel(p: Rgba) -> (w: u32)
    ensures
        w as int == packed(p),
{
    let r: u32 = p.r as u32;
    let g: u32 = p.g as u32;
    let b: u32 = p.b as u32;
    let a: u32 = p.a as u32;
    assert(b | (g << 8) | (r << 16) | (a << 24) == b + 0x100 * g + 0x1_0000 * r + 0x100_0000 * a)
        by (bit_vector)
        requires
            r < 0x100,
            g < 0x100,
            b < 0x100,
            a < 0x100,
    ;
    b | (g << 8) | (r << 16) | (a << 24)
}

/// Reads the four channels back out of a BGRA word.
pub fn unpack_pixel(w: u32) -> (p: Rgba)
    ensures
        p == unpacked(w as int),
{
    assert((w >> 16) & 0xFF == (w / 0x1_0000) % 0x100) by (bit_vector);
    assert((w >> 8) & 0xFF == (w / 0x100) % 0x100) by (bit_vector);
    assert(w & 0xFF == w % 0x100) by (bit_vector);
    assert((w >> 24) & 0xFF == (w / 0x100_0000) % 0x100) by (bit_vector);
    Rgba {
        r: ((w >> 16) & 0xFF) as u8,
        g: ((w >> 8) & 0xFF) as u8,
        b: (w & 0xFF) as u8,
        a: ((w >> 24) & 0xFF) as u8,
    }
}

/// Raises the three colour channels of `p` by `offset`, each clamped to 255.
pub fn brighten(p: Rgba, offset: u8) -> (q: Rgba)
    ensures
        q == brightened(p, offset),
{
    Rgba {
        r: p.r.saturating_add(offset),
        g: p.g.saturating_add(offset),
        b: p.b.saturating_add(offset),
        a: p.a,
    }
}

/// A packed word read back gives the pixel that was written.
pub proof fn lemma_pack_roundtrip(p: Rgba)
    ensures
        0 <= packed(p) <= u32::MAX,
        unpacked(packed(p)) == p,
{
    let r: u32 = p.r as u32;
    let g: u32 = p.g as u32;
    let b: u32 = p.b as u32;
    let a: u32 = p.a as u32;
    assert({
        let w = b + 0x100 * g + 0x1_0000 * r + 0x100_0000 * a;
        &&& w <= 0xFFFF_FFFF
        &&& w % 0x100 == b
        &&& (w / 0x100) % 0x100 == g
        &&& (w / 0x1_0000) % 0x100 == r
        &&& (w / 0x100_0000) % 0x100 == a
    }) by (bit_vector)
        requires
            r < 0x100,
            g < 0x100,
            b < 0x100,
            a < 0x100,
    ;
}

/// A word taken apart and packed again is the same word.
pub proof fn lemma_unpack_roundtrip(w: u32)
    ensures
        packed(unpacked(w as int)) == w as int,
{
}

/// With no offset, brightening changes nothing.
pub proof fn lemma_brighten_zero(p: Rgba)
    ensures
        brightened(p, 0) == p,
{
}

} // verus!
