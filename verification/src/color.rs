//! Colours as the renderer stores them: four integer channels, and the
//! 32-bit pixel they pack into.

use vstd::prelude::*;

verus! {

/// A colour whose channels have already been scaled by 255 and truncated to
/// integers.
///
/// Nothing clamps a channel: one that was out of gamut before scaling may
/// hold any 32-bit value, and packing deals with it as described at
/// [`Color::packed`].
#[derive(Clone, Copy, Debug, PartialEq, Eq, Structural)]
pub struct Color {
    pub r: u32,
    pub g: u32,
    pub b: u32,
    pub a: u32,
}

/// The pixel that an opaque black colour packs into.
pub const BACKGROUND: u32 = 0xFF00_0000;

impl Color {
    /// Opaque black, the colour of a ray that hits nothing.
    pub open spec fn black() -> Color {
        Color { r: 0, g: 0, b: 0, a: 255 }
    }

    /// Whether every channel fits in one byte.
    pub open spec fn in_gamut(self) -> bool {
        self.r <= 255 && self.g <= 255 && self.b <= 255 && self.a <= 255
    }

    /// The pixel this colour packs into: `A<<24 | B<<16 | G<<8 | R`, computed
    /// in 32 bits.
    ///
    /// The shifts drop whatever leaves the top of the word and the channels
    /// are or-ed together, so a channel above 255 spills into the channels
    /// above it rather than being clamped.
    pub open spec fn packed(self) -> u32 {
        (self.a << 24) | (self.b << 16) | (self.g << 8) | self.r
    }

    /// The in-gamut colour whose bytes a pixel holds.
    pub open spec fn unpacked(pixel: u32) -> Color {
        Color {
            r: pixel & 0xFF,
            g: (pixel >> 8) & 0xFF,
            b: (pixel >> 16) & 0xFF,
            a: (pixel >> 24) & 0xFF,
        }
    }

    /// Opaque black.
    pub fn opaque_black() -> (color: Color)
        ensures
            color == Color::black(),
    {
        Color { r: 0, g: 0, b: 0, a: 255 }
    }
}

/// Packs a colour into one little-endian RGBA pixel.
pub fn convert_to_rgba(color: &Color) -> (pixel: u32)
    ensures
        pixel == color.packed(),
        color.in_gamut() ==> pixel == color.a * 0x100_0000 + color.b * 0x1_0000 + color.g * 0x100
            + color.r,
{
    proof {
        lemma_packed_in_gamut(*color);
    }
    (color.a << 24) | (color.b << 16) | (color.g << 8) | color.r
}

/// For an in-gamut colour the packed pixel is the base-256 number with the
/// digits A, B, G, R, most significant first.
pub proof fn lemma_packed_in_gamut(color: Color)
    ensures
        color.in_gamut() ==> color.packed() == color.a * 0x100_0000 + color.b * 0x1_0000 + color.g
            * 0x100 + color.r,
{
    let (r, g, b, a) = (color.r, color.g, color.b, color.a);
    assert(r <= 255 && g <= 255 && b <= 255 && a <= 255 ==> ((a << 24) | (b << 16) | (g << 8) | r)
        == a * 0x100_0000 + b * 0x1_0000 + g * 0x100 + r) by (bit_vector);
}

/// Packing loses nothing of an in-gamut colour: unpacking the pixel gives the
/// colour back.
pub proof fn lemma_pack_round_trip(color: Color)
    requires
        color.in_gamut(),
    ensures
        Color::unpacked(color.packed()) == color,
{
    let (r, g, b, a) = (color.r, color.g, color.b, color.a);
    assert(r <= 255 && g <= 255 && b <= 255 && a <= 255 ==> {
        let p = (a << 24) | (b << 16) | (g << 8) | r;
        &&& p & 0xFF == r
        &&& (p >> 8) & 0xFF == g
        &&& (p >> 16) & 0xFF == b
        &&& (p >> 24) & 0xFF == a
    }) by (bit_vector);
}

/// Every pixel is the packing of the colour it unpacks to.
pub proof fn lemma_unpack_round_trip(pixel: u32)
    ensures
        Color::unpacked(pixel).in_gamut(),
        Color::unpacked(pixel).packed() == pixel,
{
    assert({
        let r = pixel & 0xFF;
        let g = (pixel >> 8) & 0xFF;
        let b = (pixel >> 16) & 0xFF;
        let a = (pixel >> 24) & 0xFF;
        &&& r <= 255 && g <= 255 && b <= 255 && a <= 255
        &&& ((a << 24) | (b << 16) | (g << 8) | r) == pixel
    }) by (bit_vector);
}

/// Opaque black packs into [`BACKGROUND`].
pub proof fn lemma_black_is_background()
    ensures
        Color::black().packed() == BACKGROUND,
{
    assert(((255u32 << 24) | (0u32 << 16) | (0u32 << 8) | 0u32) == 0xFF00_0000u32) by (bit_vector);
}

/// Only the low byte of the alpha channel reaches the pixel; the other
/// channels reach it whole, each from its own position upwards.
pub proof fn lemma_packed_out_of_gamut(color: Color)
    ensures
        color.packed() & 0xFF == (color.r & 0xFF),
        (color.packed() >> 8) & 0xFF == ((color.g | (color.r >> 8)) & 0xFF),
        (color.packed() >> 16) & 0xFF == ((color.b | (color.g >> 8) | (color.r >> 16)) & 0xFF),
        (color.packed() >> 24) == ((color.a | (color.b >> 8) | (color.g >> 16) | (color.r >> 24))
            & 0xFF),
{
    let (r, g, b, a) = (color.r, color.g, color.b, color.a);
    assert({
        let p = (a << 24) | (b << 16) | (g << 8) | r;
        &&& p & 0xFF == (r & 0xFF)
        &&& (p >> 8) & 0xFF == ((g | (r >> 8)) & 0xFF)
        &&& (p >> 16) & 0xFF == ((b | (g >> 8) | (r >> 16)) & 0xFF)
        &&& (p >> 24) == ((a | (b >> 8) | (g >> 16) | (r >> 24)) & 0xFF)
    }) by (bit_vector);
}

} // verus!
