//! Colours packed into 32 bits: red in the highest byte, then green,
//! blue, and alpha in the lowest.

use vstd::prelude::*;

verus! {

/// One pixel as it lies in the buffer: red, green, blue, alpha.
pub type Rgba = (u8, u8, u8, u8);

/// The red channel of a packed colour.
pub open spec fn red(color: u32) -> u8 {
    (color / 0x100_0000) as u8
}

/// The green channel of a packed colour.
pub open spec fn green(color: u32) -> u8 {
    (color / 0x1_0000 % 0x100) as u8
}

/// The blue channel of a packed colour.
pub open spec fn blue(color: u32) -> u8 {
    (color / 0x100 % 0x100) as u8
}

/// The alpha channel of a packed colour.
pub open spec fn alpha(color: u32) -> u8 {
    (color % 0x100) as u8
}

/// The four channels of a packed colour, in buffer order.
pub open spec fn rgba(color: u32) -> Rgba {
    (red(color), green(color), blue(color), alpha(color))
}

/// The byte that a pixel of this colour holds at position `k` of its four.
pub open spec fn channel(color: u32, k: int) -> u8 {
    if k == 0 {
        red(color)
    } else if k == 1 {
        green(color)
    } else if k == 2 {
        blue(color)
    } else {
        alpha(color)
    }
}

/// Unpacks a colour into its four channel bytes.
pub fn channels(color: u32) -> (px: Rgba)
    ensures
        px == rgba(color),
{
    let r: u32 = (color >> 24) & 0xff;
    let g: u32 = (color >> 16) & 0xff;
    let b: u32 = (color >> 8) & 0xff;
    let a: u32 = color & 0xff;
    assert(r == color / 0x100_0000 && r < 0x100) by (bit_vector)
        requires
            r == (color >> 24) & 0xff,
    ;
    assert(g == color / 0x1_0000 % 0x100) by (bit_vector)
        requires
            g == (color >> 16) & 0xff,
    ;
    assert(b == color / 0x100 % 0x100) by (bit_vector)
        requires
            b == (color >> 8) & 0xff,
    ;
    assert(a == color % 0x100) by (bit_vector)
        requires
            a == color & 0xff,
    ;
    (r as u8, g as u8, b as u8, a as u8)
}

/// The channels of a colour, put back in order, give the colour: nothing
/// is lost in unpacking.
pub proof fn lemma_channels_pack(color: u32)
    ensures
        red(color) * 0x100_0000 + green(color) * 0x1_0000 + blue(color) * 0x100 + alpha(color)
            == color,
{
}

} // verus!
