//! A single RGB565 pixel and its three 8-bit channels.
//!
//! A packed pixel is a 16-bit word: bits 15 to 11 are red, bits 10 to 5 are
//! green, bits 4 to 0 are blue. Expanding a pixel moves each field to the top
//! of a byte and leaves the low bits of the byte zero; nothing is rounded and
//! no bit is repeated. Packing keeps the top bits of each byte and drops the
//! rest.

use vstd::prelude::*;

verus! {

/// The five red bits of a packed pixel, bits 15 to 11.
pub const RED_MASK: u16 = 0b1111_1000_0000_0000;

/// The six green bits of a packed pixel, bits 10 to 5.
pub const GREEN_MASK: u16 = 0b0000_0111_1110_0000;

/// The five blue bits of a packed pixel, bits 4 to 0.
pub const BLUE_MASK: u16 = 0b0000_0000_0001_1111;

/// The red channel of a packed pixel as a byte: the five red bits moved to the
/// top of the byte, the three low bits zero.
pub open spec fn red_of(word: u16) -> u8 {
    ((word & RED_MASK) >> 8u16) as u8
}

/// The green channel of a packed pixel as a byte: the six green bits moved to
/// the top of the byte, the two low bits zero.
pub open spec fn green_of(word: u16) -> u8 {
    ((word & GREEN_MASK) >> 3u16) as u8
}

/// The blue channel of a packed pixel as a byte: the five blue bits moved to
/// the top of the byte, the three low bits zero.
pub open spec fn blue_of(word: u16) -> u8 {
    ((word & BLUE_MASK) << 3u16) as u8
}

/// The packed pixel that keeps the top five bits of `r`, the top six of `g`
/// and the top five of `b`.
pub open spec fn pack_of(r: u8, g: u8, b: u8) -> u16 {
    (((r as u16) & 0xF8u16) << 8u16) | (((g as u16) & 0xFCu16) << 3u16) | ((b as u16) >> 3u16)
}

/// A 16-bit pixel that has 5 red bits, 6 green bits and 5 blue bits.
/// Every 16-bit value is a pixel.
#[derive(Copy, Clone, Debug, PartialEq, Eq, Structural)]
pub struct Rgb565Pixel(pub u16);

impl Rgb565Pixel {
    /// Return the red component as a u8.
    ///
    /// The bits are shifted so that the result is between 0 and 255:
    /// it is eight times the five-bit red field.
    pub fn red(self) -> (r: u8)
        ensures
            r == red_of(self.0),
            r == 8 * (self.0 / 2048),
    {
        let word: u16 = self.0;
        assert(((word & RED_MASK) >> 8u16) <= 0xF8u16) by (bit_vector);
        proof {
            lemma_channels_scale_their_fields(word);
        }
        ((word & RED_MASK) >> 8) as u8
    }

    /// Return the green component as a u8.
    ///
    /// The bits are shifted so that the result is between 0 and 255:
    /// it is four times the six-bit green field.
    pub fn green(self) -> (g: u8)
        ensures
            g == green_of(self.0),
            g == 4 * ((self.0 / 32) % 64),
    {
        let word: u16 = self.0;
        assert(((word & GREEN_MASK) >> 3u16) <= 0xFCu16) by (bit_vector);
        proof {
            lemma_channels_scale_their_fields(word);
        }
        ((word & GREEN_MASK) >> 3) as u8
    }

    /// Return the blue component as a u8.
    ///
    /// The bits are shifted so that the result is between 0 and 255:
    /// it is eight times the five-bit blue field.
    pub fn blue(self) -> (b: u8)
        ensures
            b == blue_of(self.0),
            b == 8 * (self.0 % 32),
    {
        let word: u16 = self.0;
        assert(((word & BLUE_MASK) << 3u16) <= 0xF8u16) by (bit_vector);
        proof {
            lemma_channels_scale_their_fields(word);
        }
        ((word & BLUE_MASK) << 3) as u8
    }

    /// Pack three 8-bit channels into one pixel, dropping the low three bits
    /// of red, the low two of green and the low three of blue.
    pub fn from_rgb(r: u8, g: u8, b: u8) -> (p: Rgb565Pixel)
        ensures
            p.0 == pack_of(r, g, b),
            p.0 == (r / 8) * 2048 + (g / 4) * 32 + b / 8,
    {
        proof {
            lemma_pack_lays_fields_side_by_side(r, g, b);
        }
        Rgb565Pixel(((r as u16 & 0b11111000) << 8) | ((g as u16 & 0b11111100) << 3) | (b as u16 >> 3))
    }
}

impl Default for Rgb565Pixel {
    /// The black pixel, all bits zero.
    fn default() -> (p: Rgb565Pixel)
        ensures
            p.0 == 0,
    {
        Rgb565Pixel(0)
    }
}

/// Packing three bytes and unpacking the pixel again gives each byte back
/// with its low bits cleared: the low three bits of red and of blue, the low
/// two of green.
pub proof fn lemma_unpack_of_pack_masks_low_bits(r: u8, g: u8, b: u8)
    ensures
        red_of(pack_of(r, g, b)) == r & 0xF8,
        green_of(pack_of(r, g, b)) == g & 0xFC,
        blue_of(pack_of(r, g, b)) == b & 0xF8,
{
    assert(red_of(pack_of(r, g, b)) == r & 0xF8) by (bit_vector);
    assert(green_of(pack_of(r, g, b)) == g & 0xFC) by (bit_vector);
    assert(blue_of(pack_of(r, g, b)) == b & 0xF8) by (bit_vector);
}

/// Unpacking a pixel and packing its three channels again gives the same
/// pixel: no bit of the 16 is lost on the way.
pub proof fn lemma_pack_of_unpack_is_identity(word: u16)
    ensures
        pack_of(red_of(word), green_of(word), blue_of(word)) == word,
{
    assert(pack_of(red_of(word), green_of(word), blue_of(word)) == word) by (bit_vector);
}

/// The channels of a pixel read as numbers: red and blue are eight times
/// their five-bit fields, green is four times its six-bit field. So red and
/// blue are multiples of 8 up to 248, and green is a multiple of 4 up to 252.
pub proof fn lemma_channels_scale_their_fields(word: u16)
    ensures
        red_of(word) == 8 * (word / 2048),
        green_of(word) == 4 * ((word / 32) % 64),
        blue_of(word) == 8 * (word % 32),
{
    assert(red_of(word) == 8 * (word / 2048)) by (bit_vector);
    assert(green_of(word) == 4 * ((word / 32) % 64)) by (bit_vector);
    assert(blue_of(word) == 8 * (word % 32)) by (bit_vector);
}

/// Packing read as numbers: each channel is divided down to its field, and
/// the fields are laid side by side.
pub proof fn lemma_pack_lays_fields_side_by_side(r: u8, g: u8, b: u8)
    ensures
        pack_of(r, g, b) == (r / 8) * 2048 + (g / 4) * 32 + b / 8,
{
    assert(pack_of(r, g, b) == (r / 8) * 2048 + (g / 4) * 32 + b / 8) by (bit_vector);
}

} // verus!
