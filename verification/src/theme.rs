//! Colours of the viewer's palette, given as `0xRRGGBB`.

use vstd::prelude::*;

verus! {

/// The red, green and blue bytes of the colour `0xRRGGBB` held in `hex`;
/// bits above the lowest 24 are ignored.
pub fn hex_rgb(hex: u32) -> (rgb: (u8, u8, u8))
    ensures
        rgb.0 == (hex / 0x10000) % 0x100,
        rgb.1 == (hex / 0x100) % 0x100,
        rgb.2 == hex % 0x100,
{
    assert(((hex >> 16u32) & 0xffu32) == (hex / 0x10000) % 0x100) by (bit_vector);
    assert(((hex >> 8u32) & 0xffu32) == (hex / 0x100) % 0x100) by (bit_vector);
    assert((hex & 0xffu32) == hex % 0x100) by (bit_vector);
    (((hex >> 16u32) & 0xffu32) as u8, ((hex >> 8u32) & 0xffu32) as u8, (hex & 0xffu32) as u8)
}

} // verus!
