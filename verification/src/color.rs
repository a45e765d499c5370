//! RGB colours and their packed 32-bit form.

use crate::binary64::ZERO;
use crate::channel::{channel_level, is_above_one, is_below_zero, lemma_level_saturates, level_of};
use vstd::arithmetic::div_mod::lemma_fundamental_div_mod_converse;
use vstd::prelude::*;

verus! {

/// A colour: three channels, each an IEEE 754 binary64 value held as its
/// bit pattern. Channels are not confined to the unit interval; they are
/// clamped only when the colour is packed for display.
#[derive(Clone, Copy, Debug, PartialEq, Eq, Structural)]
pub struct Color {
    pub red: u64,
    pub green: u64,
    pub blue: u64,
}

/// The packed pixel of three 8-bit levels: opaque alpha in the top byte, then
/// red, green and blue.
pub open spec fn packed_argb(red: int, green: int, blue: int) -> int {
    0xFF00_0000 + red * 0x1_0000 + green * 0x100 + blue
}

/// The alpha byte of a packed pixel.
pub open spec fn alpha_of(pixel: u32) -> int {
    pixel as int / 0x100_0000
}

/// The red byte of a packed pixel.
pub open spec fn red_of(pixel: u32) -> int {
    (pixel as int / 0x1_0000) % 0x100
}

/// The green byte of a packed pixel.
pub open spec fn green_of(pixel: u32) -> int {
    (pixel as int / 0x100) % 0x100
}

/// The blue byte of a packed pixel.
pub open spec fn blue_of(pixel: u32) -> int {
    pixel as int % 0x100
}

/// The bytes of a packed pixel are the opaque alpha and the three levels it
/// was packed from.
pub proof fn lemma_packed_bytes(red: int, green: int, blue: int)
    requires
        0 <= red <= 255,
        0 <= green <= 255,
        0 <= blue <= 255,
    ensures
        0xFF00_0000 <= packed_argb(red, green, blue) <= 0xFFFF_FFFF,
        alpha_of(packed_argb(red, green, blue) as u32) == 0xFF,
        red_of(packed_argb(red, green, blue) as u32) == red,
        green_of(packed_argb(red, green, blue) as u32) == green,
        blue_of(packed_argb(red, green, blue) as u32) == blue,
{
    let pixel = packed_argb(red, green, blue);
    lemma_fundamental_div_mod_converse(pixel, 0x100_0000, 0xFF, red * 0x1_0000 + green * 0x100 + blue);
    lemma_fundamental_div_mod_converse(pixel, 0x1_0000, 0xFF00 + red, green * 0x100 + blue);
    lemma_fundamental_div_mod_converse(0xFF00 + red, 0x100, 0xFF, red);
    lemma_fundamental_div_mod_converse(pixel, 0x100, 0xFF_0000 + red * 0x100 + green, blue);
    lemma_fundamental_div_mod_converse(0xFF_0000 + red * 0x100 + green, 0x100, 0xFF00 + red, green);
}

/// Packs three 8-bit levels into one opaque pixel.
pub fn pack_argb(red: u8, green: u8, blue: u8) -> (pixel: u32)
    ensures
        pixel as int == packed_argb(red as int, green as int, blue as int),
        alpha_of(pixel) == 0xFF,
        red_of(pixel) == red,
        green_of(pixel) == green,
        blue_of(pixel) == blue,
{
    proof {
        lemma_packed_bytes(red as int, green as int, blue as int);
    }
    let r: u32 = red as u32;
    let g: u32 = green as u32;
    let b: u32 = blue as u32;
    0xFF00_0000 + r * 0x1_0000 + g * 0x100 + b
}

impl Color {
    /// The packed pixel that this colour is displayed as.
    pub open spec fn argb(self) -> u32 {
        packed_argb(level_of(self.red), level_of(self.green), level_of(self.blue)) as u32
    }

    /// A colour from the bit patterns of its three channels.
    pub fn new(red: u64, green: u64, blue: u64) -> (color: Color)
        ensures
            color == (Color { red, green, blue }),
    {
        Color { red, green, blue }
    }

    /// Black: every channel is 0.0.
    pub open spec fn spec_black() -> Color {
        Color { red: ZERO, green: ZERO, blue: ZERO }
    }

    /// Black: every channel is 0.0.
    pub fn black() -> (color: Color)
        ensures
            color == Color::spec_black(),
    {
        Color { red: ZERO, green: ZERO, blue: ZERO }
    }

    /// Clamps each channel to the unit interval, scales it to an 8-bit level
    /// and packs the three levels behind an opaque alpha byte.
    pub fn to_argb_32(&self) -> (pixel: u32)
        ensures
            pixel == self.argb(),
            alpha_of(pixel) == 0xFF,
            red_of(pixel) == level_of(self.red),
            green_of(pixel) == level_of(self.green),
            blue_of(pixel) == level_of(self.blue),
    {
        proof {
            lemma_packed_channels_saturate(*self);
        }
        pack_argb(channel_level(self.red), channel_level(self.green), channel_level(self.blue))
    }
}

/// A packed colour is a 32-bit value whose bytes are, from the top, 255 and
/// the levels of red, green and blue. A channel above 1.0 gives the byte 255,
/// one below 0.0 the byte 0.
pub proof fn lemma_packed_channels_saturate(color: Color)
    ensures
        color.argb() as int == packed_argb(
            level_of(color.red),
            level_of(color.green),
            level_of(color.blue),
        ),
        alpha_of(color.argb()) == 0xFF,
        red_of(color.argb()) == level_of(color.red),
        green_of(color.argb()) == level_of(color.green),
        blue_of(color.argb()) == level_of(color.blue),
        is_above_one(color.red) ==> red_of(color.argb()) == 255,
        is_above_one(color.green) ==> green_of(color.argb()) == 255,
        is_above_one(color.blue) ==> blue_of(color.argb()) == 255,
        is_below_zero(color.red) ==> red_of(color.argb()) == 0,
        is_below_zero(color.green) ==> green_of(color.argb()) == 0,
        is_below_zero(color.blue) ==> blue_of(color.argb()) == 0,
{
    lemma_level_saturates(color.red);
    lemma_level_saturates(color.green);
    lemma_level_saturates(color.blue);
    lemma_packed_bytes(level_of(color.red), level_of(color.green), level_of(color.blue));
}

} // verus!
