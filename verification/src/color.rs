//! The 15-bit BGR555 color value and its codecs.
//!
//! A color is three 5-bit channels.  Its binary form is a 16-bit
//! little-endian word: bits 0-4 red, bits 5-9 green, bits 10-14 blue,
//! bit 15 unused (ignored on decode, written as zero on encode).

use vstd::arithmetic::div_mod::{
    lemma_fundamental_div_mod, lemma_fundamental_div_mod_converse,
};
use vstd::prelude::*;

verus! {

/// An RGB color with three 5-bit channels, each in `0..32`.
#[derive(Clone, Copy, Debug, PartialEq, Eq, Structural)]
pub struct Color {
    pub red: u8,
    pub green: u8,
    pub blue: u8,
}

/// Clamp a channel value to the 5-bit range; out-of-range input becomes 31.
pub open spec fn clamp5(v: u8) -> u8 {
    if v > 31 {
        31
    } else {
        v
    }
}

/// The 16-bit word that encodes `c`: bits 0-4 red, 5-9 green, 10-14 blue.
pub open spec fn color_word(c: Color) -> int {
    c.red + 32 * c.green + 1024 * c.blue
}

/// The 16-bit little-endian word held by the byte pair `(lo, hi)`.
pub open spec fn word_of_bytes(lo: u8, hi: u8) -> int {
    lo + 256 * hi
}

/// The color decoded from the byte pair `(lo, hi)`; bit 15 is ignored.
pub open spec fn spec_decode(lo: u8, hi: u8) -> Color {
    Color {
        red: (word_of_bytes(lo, hi) % 32) as u8,
        green: ((word_of_bytes(lo, hi) / 32) % 32) as u8,
        blue: ((word_of_bytes(lo, hi) / 1024) % 32) as u8,
    }
}

/// Low byte of the encoded form of `c`.
pub open spec fn encode_lo(c: Color) -> u8 {
    (color_word(c) % 256) as u8
}

/// High byte of the encoded form of `c`; bit 15 is zero.
pub open spec fn encode_hi(c: Color) -> u8 {
    (color_word(c) / 256) as u8
}

/// An 8-bit channel expanded from the 5-bit channel `v` by bit replication:
/// `v << 3 | v >> 2`, here written arithmetically.
pub open spec fn expand5(v: u8) -> int {
    8 * v + v / 4
}

impl Color {
    /// All three channels fit in 5 bits.
    pub open spec fn wf(self) -> bool {
        self.red < 32 && self.green < 32 && self.blue < 32
    }

    /// Build a color from three channel values, clamping each to 31.
    pub fn new(red: u8, green: u8, blue: u8) -> (c: Color)
        ensures
            c.red == clamp5(red),
            c.green == clamp5(green),
            c.blue == clamp5(blue),
            c.wf(),
    {
        Color {
            red: if red > 31 {
                31
            } else {
                red
            },
            green: if green > 31 {
                31
            } else {
                green
            },
            blue: if blue > 31 {
                31
            } else {
                blue
            },
        }
    }

    /// Copy of `self` with the red channel replaced (clamped to 31).
    pub fn with_red(self, red: u8) -> (c: Color)
        ensures
            c.red == clamp5(red),
            c.green == self.green,
            c.blue == self.blue,
    {
        Color {
            red: if red > 31 {
                31
            } else {
                red
            },
            ..self
        }
    }

    /// Copy of `self` with the green channel replaced (clamped to 31).
    pub fn with_green(self, green: u8) -> (c: Color)
        ensures
            c.red == self.red,
            c.green == clamp5(green),
            c.blue == self.blue,
    {
        Color {
            green: if green > 31 {
                31
            } else {
                green
            },
            ..self
        }
    }

    /// Copy of `self` with the blue channel replaced (clamped to 31).
    pub fn with_blue(self, blue: u8) -> (c: Color)
        ensures
            c.red == self.red,
            c.green == self.green,
            c.blue == clamp5(blue),
    {
        Color {
            blue: if blue > 31 {
                31
            } else {
                blue
            },
            ..self
        }
    }

    /// The three channels as a tuple.
    pub fn to_tuple(&self) -> (rgb: (u8, u8, u8))
        ensures
            rgb == (self.red, self.green, self.blue),
    {
        (self.red, self.green, self.blue)
    }

    /// Unpack a color from its 2-byte little-endian form.  Every 16-bit
    /// pattern is valid; the unused top bit is ignored.
    pub fn decode(bytes: [u8; 2]) -> (c: Color)
        ensures
            c == spec_decode(bytes[0], bytes[1]),
            c.wf(),
    {
        let lo = bytes[0];
        let hi = bytes[1];
        let w: u16 = lo as u16 + 256 * (hi as u16);
        Color {
            red: (w % 32) as u8,
            green: ((w / 32) % 32) as u8,
            blue: ((w / 1024) % 32) as u8,
        }
    }

    /// Pack a color into its 2-byte little-endian form, with bit 15 zero.
    pub fn encode(self) -> (bytes: [u8; 2])
        requires
            self.wf(),
        ensures
            bytes[0] == encode_lo(self),
            bytes[1] == encode_hi(self),
    {
        let w: u16 = self.red as u16 + 32 * (self.green as u16) + 1024 * (self.blue as u16);
        [(w % 256) as u8, (w / 256) as u8]
    }

    /// Quantize 8-bit channels down to 5 bits by discarding the low 3 bits.
    pub fn from_rgb24(red: u8, green: u8, blue: u8) -> (c: Color)
        ensures
            c.red == red / 8,
            c.green == green / 8,
            c.blue == blue / 8,
            c.wf(),
    {
        Color { red: red / 8, green: green / 8, blue: blue / 8 }
    }

    /// Expand the 5-bit channels to the canonical nearest 8-bit values by
    /// bit replication.
    pub fn to_rgb24(self) -> (rgb: (u8, u8, u8))
        requires
            self.wf(),
        ensures
            rgb.0 == expand5(self.red),
            rgb.1 == expand5(self.green),
            rgb.2 == expand5(self.blue),
    {
        (
            self.red * 8 + self.red / 4,
            self.green * 8 + self.green / 4,
            self.blue * 8 + self.blue / 4,
        )
    }
}

impl Default for Color {
    /// Black: all channels zero.
    fn default() -> (c: Color)
        ensures
            c == (Color { red: 0, green: 0, blue: 0 }),
    {
        Color { red: 0, green: 0, blue: 0 }
    }
}

/// Encoding a valid color and decoding the two bytes returns the color.
pub proof fn lemma_color_round_trip(c: Color)
    requires
        c.wf(),
    ensures
        spec_decode(encode_lo(c), encode_hi(c)) == c,
{
    let w = color_word(c);
    assert(0 <= w < 32768);
    let lo = encode_lo(c);
    let hi = encode_hi(c);
    lemma_fundamental_div_mod(w, 256);
    assert(lo == w % 256 && hi == w / 256);
    assert(word_of_bytes(lo, hi) == w);
    lemma_fundamental_div_mod_converse(w, 32, c.green + 32 * c.blue, c.red as int);
    assert(w % 32 == c.red && w / 32 == c.green + 32 * c.blue);
    lemma_fundamental_div_mod_converse(w / 32, 32, c.blue as int, c.green as int);
    lemma_fundamental_div_mod_converse(w, 1024, c.blue as int, c.red + 32 * c.green);
}

/// Decoding any byte pair whose top bit is clear and re-encoding the color
/// returns the same two bytes.  A set top bit is the one byte pattern the
/// codec does not preserve: it is ignored on decode and written back as zero.
pub proof fn lemma_color_bytes_round_trip(lo: u8, hi: u8)
    requires
        hi < 128,
    ensures
        encode_lo(spec_decode(lo, hi)) == lo,
        encode_hi(spec_decode(lo, hi)) == hi,
{
    let w = word_of_bytes(lo, hi);
    assert(0 <= w < 32768);
    let c = spec_decode(lo, hi);
    lemma_fundamental_div_mod(w, 32);
    lemma_fundamental_div_mod(w / 32, 32);
    lemma_fundamental_div_mod_converse(w, 1024, (w / 32) / 32, 32 * ((w / 32) % 32) + w % 32);
    assert(w / 1024 == (w / 32) / 32);
    assert(w / 1024 < 32);
    assert((w / 1024) % 32 == w / 1024) by {
        lemma_fundamental_div_mod_converse(w / 1024, 32, 0, w / 1024);
    }
    assert(color_word(c) == w % 32 + 32 * ((w / 32) % 32) + 1024 * (w / 1024));
    assert(color_word(c) == w);
    lemma_fundamental_div_mod_converse(w, 256, hi as int, lo as int);
}

/// Quantizing an expanded channel returns the original 5-bit value, so the
/// expansion to 8 bits is the canonical one: expanding, quantizing and
/// expanding again is the identity on the 8-bit side.
pub proof fn lemma_expand5_quantize(v: u8)
    requires
        v < 32,
    ensures
        0 <= expand5(v) < 256,
        expand5(v) / 8 == v,
{
    lemma_fundamental_div_mod_converse(expand5(v), 8, v as int, v as int / 4);
}

} // verus!
