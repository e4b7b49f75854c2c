//! The 256-entry color table, its two on-disk codecs, and the arithmetic
//! that maps a background mode, sub-palette and in-sub-palette index to an
//! absolute table slot.

use crate::color::{
    encode_hi, encode_lo, expand5, lemma_color_bytes_round_trip, spec_decode, Color,
};
use crate::file_format::{FormatError, PaletteFile};
use crate::list_items::{spec_colors_per_subpalette, spec_palette_offset, BGModeTwo, Bpp};
use vstd::arithmetic::div_mod::lemma_fundamental_div_mod;
use vstd::prelude::*;

verus! {

/// A fixed table of exactly 256 colors, addressed 0-255.
pub struct Palette(pub Vec<Color>);

impl View for Palette {
    type V = Seq<Color>;

    open spec fn view(&self) -> Seq<Color> {
        self.0@
    }
}

impl Palette {
    /// Exactly 256 entries, every channel within 5 bits.
    pub open spec fn wf(&self) -> bool {
        self@.len() == 256 && forall|i: int| 0 <= i < 256 ==> self@[i].wf()
    }
}

/// Byte `j` of the buffer, or zero past its end (the conceptual padding of
/// a short BGR555 palette file).
pub open spec fn byte_or_zero(bytes: Seq<u8>, j: int) -> u8 {
    if 0 <= j < bytes.len() {
        bytes[j]
    } else {
        0
    }
}

/// The 256 colors read from a BGR555 buffer: byte pair `2i, 2i+1` gives
/// color `i`; missing bytes read as zero, extra bytes are ignored.
pub open spec fn spec_decode_bgr555(bytes: Seq<u8>) -> Seq<Color> {
    Seq::new(256, |i: int| spec_decode(byte_or_zero(bytes, 2 * i), byte_or_zero(bytes, 2 * i + 1)))
}

/// The 512-byte BGR555 form of 256 colors.
pub open spec fn spec_encode_bgr555(colors: Seq<Color>) -> Seq<u8> {
    Seq::new(
        512,
        |j: int|
            if j % 2 == 0 {
                encode_lo(colors[j / 2])
            } else {
                encode_hi(colors[j / 2])
            },
    )
}

/// The 256 colors read from a 768-byte RGB24 buffer: byte triple
/// `3i, 3i+1, 3i+2` quantizes to color `i`.
pub open spec fn spec_decode_rgb24(bytes: Seq<u8>) -> Seq<Color> {
    Seq::new(
        256,
        |i: int| Color {
            red: (bytes[3 * i] / 8) as u8,
            green: (bytes[3 * i + 1] / 8) as u8,
            blue: (bytes[3 * i + 2] / 8) as u8,
        },
    )
}

/// The 768-byte RGB24 form of 256 colors, each channel bit-replicated to
/// 8 bits.
pub open spec fn spec_encode_rgb24(colors: Seq<Color>) -> Seq<u8> {
    Seq::new(
        768,
        |j: int|
            {
                let c = colors[j / 3];
                if j % 3 == 0 {
                    expand5(c.red) as u8
                } else if j % 3 == 1 {
                    expand5(c.green) as u8
                } else {
                    expand5(c.blue) as u8
                }
            },
    )
}

/// The color at slot `i` of the built-in starter palette: eight 16-step
/// ramps toward white, red, green, yellow, blue, magenta, cyan and black in
/// the first half, and a 4-bit red / 3-bit green / blue-flag spread in the
/// second half.
pub open spec fn spec_default_color(i: int) -> Color {
    if i < 128 {
        let band = i / 16;
        let step = i % 16;
        Color {
            red: if band % 2 == 0 {
                (2 * step) as u8
            } else {
                0
            },
            green: if (band / 2) % 2 == 0 {
                (2 * step) as u8
            } else {
                0
            },
            blue: if (band / 4) % 2 == 0 {
                (2 * step) as u8
            } else {
                0
            },
        }
    } else {
        Color { red: (2 * (i % 16)) as u8, green: (4 * ((i / 16) % 8)) as u8, blue: 31 }
    }
}

/// Absolute palette slot of color 0 of sub-palette 0: the background's own
/// offset for the 2bpp modes, 0 for 4bpp.
pub open spec fn spec_palette_base(bpp: Bpp, mode: BGModeTwo) -> u8 {
    match bpp {
        Bpp::Two => spec_palette_offset(mode),
        Bpp::Four => 0,
    }
}

impl Palette {
    /// Read a palette from a BGR555 buffer.  Never fails: a buffer shorter
    /// than 512 bytes is conceptually zero-padded (black tail colors), a
    /// longer one is truncated.  Exactly 256 colors come back.
    pub fn decode(bytes: &[u8]) -> (p: Palette)
        ensures
            p@ == spec_decode_bgr555(bytes@),
            p.wf(),
    {
        let mut colors: Vec<Color> = Vec::new();
        let len = bytes.len();
        for i in 0..256usize
            invariant
                len == bytes@.len(),
                colors@.len() == i,
                forall|j: int|
                    0 <= j < i ==> colors@[j] == spec_decode(
                        byte_or_zero(bytes@, 2 * j),
                        byte_or_zero(bytes@, 2 * j + 1),
                    ),
                forall|j: int| 0 <= j < i ==> colors@[j].wf(),
        {
            let lo = if 2 * i < len {
                bytes[2 * i]
            } else {
                0
            };
            let hi = if 2 * i + 1 < len {
                bytes[2 * i + 1]
            } else {
                0
            };
            colors.push(Color::decode([lo, hi]));
        }
        let p = Palette(colors);
        assert(p@ =~= spec_decode_bgr555(bytes@));
        p
    }

    /// Write the palette to its 512-byte BGR555 form.
    pub fn encode(&self) -> (r: Vec<u8>)
        requires
            self.wf(),
        ensures
            r@ == spec_encode_bgr555(self@),
            r@.len() == 512,
    {
        let mut out: Vec<u8> = Vec::new();
        for i in 0..256usize
            invariant
                self.wf(),
                out@.len() == 2 * i,
                forall|j: int|
                    0 <= j < i ==> out@[2 * j] == encode_lo(self@[j]) && out@[2 * j + 1]
                        == encode_hi(self@[j]),
        {
            let bytes = self.0[i].encode();
            out.push(bytes[0]);
            out.push(bytes[1]);
        }
        proof {
            assert forall|j: int| 0 <= j < 512 implies out@[j] == spec_encode_bgr555(self@)[j] by {
                lemma_fundamental_div_mod(j, 2);
                let i = j / 2;
                if j % 2 == 0 {
                    assert(out@[2 * i] == encode_lo(self@[i]));
                } else {
                    assert(out@[2 * i + 1] == encode_hi(self@[i]));
                }
            }
            assert(out@ =~= spec_encode_bgr555(self@));
        }
        out
    }

    /// Read a palette from a 768-byte RGB24 buffer; any other length is
    /// rejected with `WrongSize` and nothing is produced.
    pub fn decode_rgb24(bytes: &[u8]) -> (r: Result<Palette, FormatError>)
        ensures
            r is Ok <==> bytes@.len() == 768,
            r matches Err(e) ==> e == FormatError::WrongSize,
            r matches Ok(p) ==> p@ == spec_decode_rgb24(bytes@) && p.wf(),
    {
        if bytes.len() != 768 {
            return Err(FormatError::WrongSize);
        }
        let mut colors: Vec<Color> = Vec::new();
        for i in 0..256usize
            invariant
                bytes@.len() == 768,
                colors@.len() == i,
                forall|j: int| 0 <= j < i ==> colors@[j] == spec_decode_rgb24(bytes@)[j],
                forall|j: int| 0 <= j < i ==> colors@[j].wf(),
        {
            colors.push(Color::from_rgb24(bytes[3 * i], bytes[3 * i + 1], bytes[3 * i + 2]));
        }
        let p = Palette(colors);
        assert(p@ =~= spec_decode_rgb24(bytes@));
        Ok(p)
    }

    /// Write the palette to its 768-byte RGB24 form.
    pub fn encode_rgb24(&self) -> (r: Vec<u8>)
        requires
            self.wf(),
        ensures
            r@ == spec_encode_rgb24(self@),
            r@.len() == 768,
    {
        let mut out: Vec<u8> = Vec::new();
        for i in 0..256usize
            invariant
                self.wf(),
                out@.len() == 3 * i,
                forall|j: int|
                    0 <= j < i ==> out@[3 * j] == expand5(self@[j].red) && out@[3 * j + 1]
                        == expand5(self@[j].green) && out@[3 * j + 2] == expand5(self@[j].blue),
        {
            let (red, green, blue) = self.0[i].to_rgb24();
            out.push(red);
            out.push(green);
            out.push(blue);
        }
        proof {
            assert forall|j: int| 0 <= j < 768 implies out@[j] == spec_encode_rgb24(self@)[j] by {
                lemma_fundamental_div_mod(j, 3);
                let i = j / 3;
                if j % 3 == 0 {
                    assert(out@[3 * i] == expand5(self@[i].red));
                } else if j % 3 == 1 {
                    assert(out@[3 * i + 1] == expand5(self@[i].green));
                } else {
                    assert(out@[3 * i + 2] == expand5(self@[i].blue));
                }
            }
            assert(out@ =~= spec_encode_rgb24(self@));
        }
        out
    }

    /// Read a palette from a buffer in the named format: BGR555 is lenient
    /// about length, RGB24 demands exactly 768 bytes.
    pub fn decode_with(bytes: &[u8], format: PaletteFile) -> (r: Result<Palette, FormatError>)
        ensures
            format == PaletteFile::BGR555 ==> (r matches Ok(p) && p@ == spec_decode_bgr555(
                bytes@,
            )),
            format == PaletteFile::RGB24 ==> {
                &&& r is Ok <==> bytes@.len() == 768
                &&& (r matches Err(e) ==> e == FormatError::WrongSize)
                &&& (r matches Ok(p) ==> p@ == spec_decode_rgb24(bytes@))
            },
            r matches Ok(p) ==> p.wf(),
    {
        match format {
            PaletteFile::BGR555 => Ok(Palette::decode(bytes)),
            PaletteFile::RGB24 => Palette::decode_rgb24(bytes),
        }
    }

    /// Write the palette to the named format.
    pub fn encode_with(&self, format: PaletteFile) -> (r: Vec<u8>)
        requires
            self.wf(),
        ensures
            format == PaletteFile::BGR555 ==> r@ == spec_encode_bgr555(self@),
            format == PaletteFile::RGB24 ==> r@ == spec_encode_rgb24(self@),
    {
        match format {
            PaletteFile::BGR555 => self.encode(),
            PaletteFile::RGB24 => self.encode_rgb24(),
        }
    }

    /// Overwrite one slot, reporting whether the stored value actually
    /// changed; an equal write reports `false` so no undo entry is recorded.
    pub fn set(&mut self, slot: u8, color: Color) -> (changed: bool)
        requires
            old(self).wf(),
            color.wf(),
        ensures
            final(self)@ == old(self)@.update(slot as int, color),
            final(self).wf(),
            changed == (old(self)@[slot as int] != color),
    {
        let previous = self.0[slot as usize];
        self.0[slot as usize] = color;
        previous != color
    }

    /// Absolute palette slot of color 0 of sub-palette 0 for this mode.
    pub fn palette_base(bpp: Bpp, mode: BGModeTwo) -> (r: u8)
        ensures
            r == spec_palette_base(bpp, mode),
    {
        match bpp {
            Bpp::Two => mode.palette_offset(),
            Bpp::Four => 0,
        }
    }

    /// Absolute palette slot of color `color_idx` of sub-palette
    /// `sub_palette` under the given mode:
    /// `base + sub_palette * colors_per_subpalette + color_idx`.
    /// Indices must be pre-validated by the caller; within these bounds the
    /// result never leaves the 256-slot table.
    pub fn slot_index(bpp: Bpp, mode: BGModeTwo, sub_palette: u8, color_idx: u8) -> (r: u8)
        requires
            sub_palette < 8,
            color_idx < spec_colors_per_subpalette(bpp),
        ensures
            r == spec_palette_base(bpp, mode) + sub_palette * spec_colors_per_subpalette(bpp)
                + color_idx,
            r < 128,
    {
        let base = Palette::palette_base(bpp, mode);
        let span = bpp.to_val();
        base + sub_palette * span + color_idx
    }
}

impl Default for Palette {
    /// The starter palette shown before any file is loaded: 256 entries of
    /// the fixed colorful pattern described by `spec_default_color`.
    fn default() -> (p: Palette)
        ensures
            p@.len() == 256,
            forall|i: int| 0 <= i < 256 ==> p@[i] == spec_default_color(i),
            p.wf(),
    {
        let mut colors: Vec<Color> = Vec::new();
        for i in 0..256usize
            invariant
                colors@.len() == i,
                forall|j: int| 0 <= j < i ==> colors@[j] == spec_default_color(j),
                forall|j: int| 0 <= j < i ==> colors@[j].wf(),
        {
            let step = (i % 16) as u8;
            let color = if i < 128 {
                let band = i / 16;
                Color {
                    red: if band % 2 == 0 {
                        2 * step
                    } else {
                        0
                    },
                    green: if (band / 2) % 2 == 0 {
                        2 * step
                    } else {
                        0
                    },
                    blue: if (band / 4) % 2 == 0 {
                        2 * step
                    } else {
                        0
                    },
                }
            } else {
                Color { red: 2 * step, green: 4 * ((i / 16) % 8) as u8, blue: 31 }
            };
            colors.push(color);
        }
        Palette(colors)
    }
}

/// Law: encoding the palette decoded from any 512-byte BGR555 buffer whose
/// color words all have the unused top bit clear returns the buffer
/// unchanged.  A buffer with a set top bit is the one exception: that bit
/// is ignored on decode and written back as zero.
pub proof fn lemma_palette_bytes_round_trip(bytes: Seq<u8>)
    requires
        bytes.len() == 512,
        forall|i: int| 0 <= i < 256 ==> #[trigger] bytes[2 * i + 1] < 128,
    ensures
        spec_encode_bgr555(spec_decode_bgr555(bytes)) == bytes,
{
    let colors = spec_decode_bgr555(bytes);
    assert forall|j: int| 0 <= j < 512 implies spec_encode_bgr555(colors)[j] == bytes[j] by {
        lemma_fundamental_div_mod(j, 2);
        let i = j / 2;
        assert(bytes[2 * i + 1] < 128);
        lemma_color_bytes_round_trip(bytes[2 * i], bytes[2 * i + 1]);
    }
    assert(spec_encode_bgr555(colors) =~= bytes);
}

} // verus!
