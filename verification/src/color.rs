//! An RGBA color with 8-bit channels, as the panels use it.

use vstd::prelude::*;

verus! {

/// A color with red, green, blue and alpha channels.
#[derive(Clone, Copy, PartialEq, Eq, Debug, Structural)]
pub struct Rgba {
    pub r: u8,
    pub g: u8,
    pub b: u8,
    pub a: u8,
}

impl Rgba {
    /// An opaque color from its red, green and blue channels.
    pub fn from_rgb(r: u8, g: u8, b: u8) -> (c: Rgba)
        ensures
            c == (Rgba { r, g, b, a: 255 }),
    {
        Rgba { r, g, b, a: 255 }
    }

    /// An opaque gray whose three channels all equal `level`.
    pub fn from_gray(level: u8) -> (c: Rgba)
        ensures
            c == (Rgba { r: level, g: level, b: level, a: 255 }),
    {
        Rgba { r: level, g: level, b: level, a: 255 }
    }
}

/// The red, green and blue channels of a color packed as `0xRRGGBB`; bits
/// above the lowest twenty-four are ignored.
pub fn unpack_rgb(color: u32) -> (channels: (u8, u8, u8))
    ensures
        channels.0 == (color / 0x10000) % 0x100,
        channels.1 == (color / 0x100) % 0x100,
        channels.2 == color % 0x100,
{
    let r = (color >> 16) & 0xFF;
    let g = (color >> 8) & 0xFF;
    let b = color & 0xFF;
    assert(r == (color / 0x10000) % 0x100 && r < 0x100) by (bit_vector)
        requires
            r == (color >> 16) & 0xFF,
    ;
    assert(g == (color / 0x100) % 0x100 && g < 0x100) by (bit_vector)
        requires
            g == (color >> 8) & 0xFF,
    ;
    assert(b == color % 0x100 && b < 0x100) by (bit_vector)
        requires
            b == color & 0xFF,
    ;
    (r as u8, g as u8, b as u8)
}

} // verus!
