//! The planar tile codec and the tileset.
//!
//! An 8x8 tile is stored as bit-planes: for each row `r`, byte `2r` holds
//! bit 0 of the row's eight pixels MSB-first and byte `2r+1` holds bit 1;
//! a 4bpp tile appends 16 more bytes with the identical layout for bits 2
//! and 3.  Decoded, a tile is a flat row-major array of 64 pixel indices.

use crate::bits::{bit, get_bit, set_bit};
use crate::file_format::FormatError;
use crate::list_items::{spec_tile_bytes, Bpp, TileSize};
use vstd::arithmetic::div_mod::{
    lemma_div_denominator, lemma_fundamental_div_mod, lemma_fundamental_div_mod_converse,
};
use vstd::arithmetic::mul::lemma_mul_inequality;
use vstd::prelude::*;
use vstd::slice::slice_subrange;

verus! {

/// Pixel `i` (row-major) of a 2bpp planar block: bit 0 from byte `2r`,
/// bit 1 from byte `2r+1`, both at bit position `7 - column`.
pub open spec fn pix2_at(s: Seq<u8>, i: int) -> int {
    bit(s[2 * (i / 8)], (7 - i % 8) as u8) + 2 * bit(s[2 * (i / 8) + 1], (7 - i % 8) as u8)
}

/// Pixel `i` (row-major) of a 4bpp planar block: the 2bpp planes give bits
/// 0-1 and the second 16 bytes give bits 2-3 in the same layout.
pub open spec fn pix4_at(s: Seq<u8>, i: int) -> int {
    pix2_at(s, i) + 4 * bit(s[16 + 2 * (i / 8)], (7 - i % 8) as u8) + 8 * bit(
        s[16 + 2 * (i / 8) + 1],
        (7 - i % 8) as u8,
    )
}

/// The 64 pixel indices decoded from one tile block at the given depth.
pub open spec fn spec_decode_tile(block: Seq<u8>, bpp: Bpp) -> Seq<u8> {
    Seq::new(
        64,
        |i: int|
            match bpp {
                Bpp::Two => pix2_at(block, i) as u8,
                Bpp::Four => pix4_at(block, i) as u8,
            },
    )
}

/// Bytes of tile `k` within a raw tileset blob of `size`-byte blocks.
pub open spec fn spec_tile_block(bytes: Seq<u8>, size: int, k: int) -> Seq<u8> {
    bytes.subrange(k * size, (k + 1) * size)
}

/// The 64 decoded pixel indices of one 8x8 tile, row-major.
pub struct TileData(pub Vec<u8>);

impl View for TileData {
    type V = Seq<u8>;

    open spec fn view(&self) -> Seq<u8> {
        self.0@
    }
}

impl TileData {
    /// Exactly 64 pixels.
    pub open spec fn wf(&self) -> bool {
        self@.len() == 64
    }

    /// Decode a 16-byte 2bpp planar block; any other length gives `None`.
    /// Every decoded pixel index is below 4.
    pub fn from_2bpp(s: &[u8]) -> (r: Option<TileData>)
        ensures
            r is Some <==> s@.len() == 16,
            r matches Some(t) ==> t.wf() && forall|i: int|
                0 <= i < 64 ==> #[trigger] t@[i] == pix2_at(s@, i) && t@[i] < 4,
    {
        if s.len() != 16 {
            return None;
        }
        let mut chr: Vec<u8> = Vec::new();
        for i in 0..64usize
            invariant
                s@.len() == 16,
                chr@.len() == i,
                forall|j: int| 0 <= j < i ==> #[trigger] chr@[j] == pix2_at(s@, j) && chr@[j] < 4,
        {
            let a = i / 8;
            let b = i % 8;
            let k = (7 - b) as u8;
            let b0 = get_bit(s[2 * a], k);
            let b1 = get_bit(s[2 * a + 1], k);
            chr.push(b0 + 2 * b1);
        }
        Some(TileData(chr))
    }

    /// Decode a 32-byte 4bpp planar block; any other length gives `None`.
    /// Every decoded pixel index is below 16.
    pub fn from_4bpp(s: &[u8]) -> (r: Option<TileData>)
        ensures
            r is Some <==> s@.len() == 32,
            r matches Some(t) ==> t.wf() && forall|i: int|
                0 <= i < 64 ==> #[trigger] t@[i] == pix4_at(s@, i) && t@[i] < 16,
    {
        if s.len() != 32 {
            return None;
        }
        let mut chr: Vec<u8> = Vec::new();
        for i in 0..64usize
            invariant
                s@.len() == 32,
                chr@.len() == i,
                forall|j: int| 0 <= j < i ==> #[trigger] chr@[j] == pix4_at(s@, j) && chr@[j] < 16,
        {
            let a = i / 8;
            let b = i % 8;
            let k = (7 - b) as u8;
            let b0 = get_bit(s[2 * a], k);
            let b1 = get_bit(s[2 * a + 1], k);
            let b2 = get_bit(s[16 + 2 * a], k);
            let b3 = get_bit(s[16 + 2 * a + 1], k);
            chr.push(b0 + 2 * b1 + 4 * b2 + 8 * b3);
        }
        Some(TileData(chr))
    }

    /// Encode the tile back to its 16-byte 2bpp planar form, the exact
    /// inverse of `from_2bpp`: decoding the result returns these pixels.
    pub fn encode_2bpp(&self) -> (r: Vec<u8>)
        requires
            self.wf(),
            forall|i: int| 0 <= i < 64 ==> self@[i] < 4,
        ensures
            r@.len() == 16,
            forall|i: int| 0 <= i < 64 ==> pix2_at(r@, i) == self@[i],
    {
        let mut out: Vec<u8> = Vec::new();
        for a in 0..8usize
            invariant
                self.wf(),
                forall|i: int| 0 <= i < 64 ==> self@[i] < 4,
                out@.len() == 2 * a,
                forall|i: int| 0 <= i < 8 * a ==> pix2_at(out@, i) == self@[i],
        {
            let ghost pre = out@;
            let mut p0: u8 = 0;
            let mut p1: u8 = 0;
            let mut b: usize = 0;
            while b < 8
                invariant
                    self.wf(),
                    forall|i: int| 0 <= i < 64 ==> self@[i] < 4,
                    a < 8,
                    b <= 8,
                    forall|k: u8|
                        8 - b <= k < 8 ==> #[trigger] bit(p0, k) == self@[8 * a + 7 - k] % 2
                            && bit(p1, k) == self@[8 * a + 7 - k] / 2,
                decreases 8 - b,
            {
                let ghost p0_in = p0;
                let ghost p1_in = p1;
                let px = self.0[8 * a + b];
                p0 = set_bit(p0, (7 - b) as u8, px % 2);
                p1 = set_bit(p1, (7 - b) as u8, px / 2);
                proof {
                    assert(px == self@[8 * a + b] && px < 4);
                    assert(bit(p0, (7 - b) as u8) == px % 2);
                    assert(bit(p1, (7 - b) as u8) == px / 2);
                    assert(7 - ((7 - b) as u8) == b);
                    assert forall|k: u8| 8 - (b + 1) <= k < 8 implies #[trigger] bit(p0, k)
                        == self@[8 * a + 7 - k] % 2 && bit(p1, k) == self@[8 * a + 7 - k] / 2 by {
                        if k != (7 - b) as u8 {
                            assert(8 - b <= k < 8);
                            assert(bit(p0_in, k) == self@[8 * a + 7 - k] % 2);
                            assert(bit(p1_in, k) == self@[8 * a + 7 - k] / 2);
                            assert(bit(p0, k) == bit(p0_in, k));
                            assert(bit(p1, k) == bit(p1_in, k));
                        }
                    }
                }
                b += 1;
            }
            out.push(p0);
            out.push(p1);
            proof {
                assert forall|i: int| 0 <= i < 8 * (a + 1) implies pix2_at(out@, i) == self@[i] by {
                    if i < 8 * a {
                        assert(out@[2 * (i / 8)] == pre[2 * (i / 8)]);
                        assert(out@[2 * (i / 8) + 1] == pre[2 * (i / 8) + 1]);
                    } else {
                        let c = i - 8 * a;
                        lemma_fundamental_div_mod_converse(i, 8, a as int, c);
                        assert(out@[2 * (i / 8)] == p0 && out@[2 * (i / 8) + 1] == p1);
                        assert(bit(p0, (7 - c) as u8) == self@[i] % 2);
                        assert(bit(p1, (7 - c) as u8) == self@[i] / 2);
                        lemma_fundamental_div_mod(self@[i] as int, 2);
                    }
                }
            }
        }
        out
    }

    /// Encode the tile back to its 32-byte 4bpp planar form, the exact
    /// inverse of `from_4bpp`.  The bit 0-1 planes fill the first 16 bytes
    /// and the bit 2-3 planes the second 16, so the two halves are built
    /// separately and concatenated.
    pub fn encode_4bpp(&self) -> (r: Vec<u8>)
        requires
            self.wf(),
            forall|i: int| 0 <= i < 64 ==> self@[i] < 16,
        ensures
            r@.len() == 32,
            forall|i: int| 0 <= i < 64 ==> pix4_at(r@, i) == self@[i],
    {
        let mut low: Vec<u8> = Vec::new();
        let mut high: Vec<u8> = Vec::new();
        for a in 0..8usize
            invariant
                self.wf(),
                forall|i: int| 0 <= i < 64 ==> self@[i] < 16,
                low@.len() == 2 * a,
                high@.len() == 2 * a,
                forall|i: int|
                    0 <= i < 8 * a ==> pix2_at(low@, i) == self@[i] % 4 && pix2_at(high@, i)
                        == self@[i] / 4,
        {
            let ghost pre_low = low@;
            let ghost pre_high = high@;
            let mut p0: u8 = 0;
            let mut p1: u8 = 0;
            let mut p2: u8 = 0;
            let mut p3: u8 = 0;
            let mut b: usize = 0;
            while b < 8
                invariant
                    self.wf(),
                    forall|i: int| 0 <= i < 64 ==> self@[i] < 16,
                    a < 8,
                    b <= 8,
                    forall|k: u8|
                        8 - b <= k < 8 ==> #[trigger] bit(p0, k) == self@[8 * a + 7 - k] % 2
                            && bit(p1, k) == (self@[8 * a + 7 - k] / 2) % 2 && bit(p2, k) == (
                        self@[8 * a + 7 - k] / 4) % 2 && bit(p3, k) == self@[8 * a + 7 - k] / 8,
                decreases 8 - b,
            {
                let ghost p0_in = p0;
                let ghost p1_in = p1;
                let ghost p2_in = p2;
                let ghost p3_in = p3;
                let px = self.0[8 * a + b];
                p0 = set_bit(p0, (7 - b) as u8, px % 2);
                p1 = set_bit(p1, (7 - b) as u8, (px / 2) % 2);
                p2 = set_bit(p2, (7 - b) as u8, (px / 4) % 2);
                p3 = set_bit(p3, (7 - b) as u8, px / 8);
                proof {
                    assert(px == self@[8 * a + b] && px < 16);
                    assert(7 - ((7 - b) as u8) == b);
                    assert forall|k: u8| 8 - (b + 1) <= k < 8 implies #[trigger] bit(p0, k)
                        == self@[8 * a + 7 - k] % 2 && bit(p1, k) == (self@[8 * a + 7 - k] / 2) % 2
                        && bit(p2, k) == (self@[8 * a + 7 - k] / 4) % 2 && bit(p3, k) == self@[8 * a
                        + 7 - k] / 8 by {
                        if k != (7 - b) as u8 {
                            assert(8 - b <= k < 8);
                            assert(bit(p0, k) == bit(p0_in, k));
                            assert(bit(p1, k) == bit(p1_in, k));
                            assert(bit(p2, k) == bit(p2_in, k));
                            assert(bit(p3, k) == bit(p3_in, k));
                        }
                    }
                }
                b += 1;
            }
            low.push(p0);
            low.push(p1);
            high.push(p2);
            high.push(p3);
            proof {
                assert forall|i: int| 0 <= i < 8 * (a + 1) implies pix2_at(low@, i) == self@[i] % 4
                    && pix2_at(high@, i) == self@[i] / 4 by {
                    if i < 8 * a {
                        assert(pix2_at(pre_low, i) == self@[i] % 4);
                        assert(pix2_at(pre_high, i) == self@[i] / 4);
                        assert(low@[2 * (i / 8)] == pre_low[2 * (i / 8)]);
                        assert(low@[2 * (i / 8) + 1] == pre_low[2 * (i / 8) + 1]);
                        assert(high@[2 * (i / 8)] == pre_high[2 * (i / 8)]);
                        assert(high@[2 * (i / 8) + 1] == pre_high[2 * (i / 8) + 1]);
                    } else {
                        let c = i - 8 * a;
                        lemma_fundamental_div_mod_converse(i, 8, a as int, c);
                        assert(low@[2 * (i / 8)] == p0 && low@[2 * (i / 8) + 1] == p1);
                        assert(high@[2 * (i / 8)] == p2 && high@[2 * (i / 8) + 1] == p3);
                        let px = self@[i] as int;
                        assert(bit(p0, (7 - c) as u8) == px % 2);
                        assert(bit(p1, (7 - c) as u8) == (px / 2) % 2);
                        assert(bit(p2, (7 - c) as u8) == (px / 4) % 2);
                        assert(bit(p3, (7 - c) as u8) == px / 8);
                        let q = px / 4;
                        let rem = px % 4;
                        lemma_fundamental_div_mod(px, 4);
                        lemma_fundamental_div_mod(rem, 2);
                        lemma_fundamental_div_mod_converse(px, 2, 2 * q + rem / 2, rem % 2);
                        lemma_fundamental_div_mod_converse(px / 2, 2, q, rem / 2);
                        assert(pix2_at(low@, i) == rem % 2 + 2 * (rem / 2));
                        assert(rem % 2 + 2 * (rem / 2) == rem);
                        lemma_div_denominator(px, 4, 2);
                        lemma_fundamental_div_mod(q, 2);
                        assert(pix2_at(high@, i) == q % 2 + 2 * (q / 2));
                    }
                }
            }
        }
        let ghost low_bytes = low@;
        let mut out = low;
        let mut j: usize = 0;
        while j < 16
            invariant
                high@.len() == 16,
                out@.len() == 16 + j,
                j <= 16,
                forall|m: int| 0 <= m < 16 ==> out@[m] == low_bytes[m],
                forall|m: int| 0 <= m < j ==> out@[16 + m] == high@[m],
            decreases 16 - j,
        {
            out.push(high[j]);
            j += 1;
        }
        proof {
            assert forall|i: int| 0 <= i < 64 implies pix4_at(out@, i) == self@[i] by {
                assert(0 <= 2 * (i / 8) < 16 && 0 <= 2 * (i / 8) + 1 < 16);
                assert(out@[2 * (i / 8)] == low_bytes[2 * (i / 8)]);
                assert(out@[2 * (i / 8) + 1] == low_bytes[2 * (i / 8) + 1]);
                assert(pix2_at(out@, i) == pix2_at(low_bytes, i));
                assert(pix2_at(low_bytes, i) == self@[i] % 4);
                assert(out@[16 + 2 * (i / 8)] == high@[2 * (i / 8)]);
                assert(out@[16 + 2 * (i / 8) + 1] == high@[2 * (i / 8) + 1]);
                assert(pix2_at(high@, i) == self@[i] / 4);
                assert(pix4_at(out@, i) == pix2_at(out@, i) + 4 * pix2_at(high@, i));
                lemma_fundamental_div_mod(self@[i] as int, 4);
            }
        }
        out
    }
}

impl Default for TileData {
    /// A blank tile: 64 zero pixels.
    fn default() -> (t: TileData)
        ensures
            t.wf(),
            forall|i: int| 0 <= i < 64 ==> t@[i] == 0,
    {
        let mut chr: Vec<u8> = Vec::new();
        for i in 0..64usize
            invariant
                chr@.len() == i,
                forall|j: int| 0 <= j < i ==> chr@[j] == 0,
        {
            chr.push(0);
        }
        TileData(chr)
    }
}

/// An ordered collection of decoded tiles sharing one bit depth, at most
/// 1024 of them (a tile reference field is 10 bits wide).
pub struct Tileset(pub Vec<TileData>);

impl Tileset {
    /// At most 1024 tiles, each of exactly 64 pixels.
    pub open spec fn wf(&self) -> bool {
        self.0@.len() <= 1024 && forall|k: int| 0 <= k < self.0@.len() ==> (
        #[trigger] self.0@[k]).wf()
    }

    /// Decode a raw tileset blob: a concatenation of 16-byte (2bpp) or
    /// 32-byte (4bpp) blocks.  An empty blob is `Empty`, a length that is
    /// no multiple of the block size is `Misaligned`, and more than 1024
    /// blocks is `TooManyTiles`.
    pub fn decode(bytes: &[u8], bpp: Bpp) -> (r: Result<Tileset, FormatError>)
        ensures
            r is Ok <==> bytes@.len() != 0 && bytes@.len() as int % spec_tile_bytes(bpp) == 0
                && bytes@.len() as int / spec_tile_bytes(bpp) <= 1024,
            bytes@.len() == 0 ==> (r matches Err(e) && e == FormatError::Empty),
            bytes@.len() != 0 && bytes@.len() as int % spec_tile_bytes(bpp) != 0 ==> (r matches Err(
                e,
            ) && e == FormatError::Misaligned),
            bytes@.len() != 0 && bytes@.len() as int % spec_tile_bytes(bpp) == 0 && bytes@.len()
                as int / spec_tile_bytes(bpp) > 1024 ==> (r matches Err(e) && e
                == FormatError::TooManyTiles),
            r matches Ok(ts) ==> ts.wf() && ts.0@.len() == bytes@.len() as int / spec_tile_bytes(
                bpp,
            )
                && forall|k: int|
                0 <= k < ts.0@.len() ==> (#[trigger] ts.0@[k])@ == spec_decode_tile(
                    spec_tile_block(bytes@, spec_tile_bytes(bpp), k),
                    bpp,
                ),
    {
        let len = bytes.len();
        if len == 0 {
            return Err(FormatError::Empty);
        }
        let align = bpp.tile_bytes();
        if len % align != 0 {
            return Err(FormatError::Misaligned);
        }
        let count = len / align;
        if count > 1024 {
            return Err(FormatError::TooManyTiles);
        }
        let mut tiles: Vec<TileData> = Vec::new();
        for k in 0..count
            invariant
                len == bytes@.len(),
                align == spec_tile_bytes(bpp),
                align == 16 || align == 32,
                len % align == 0,
                count == len / align,
                count <= 1024,
                tiles@.len() == k,
                forall|k2: int|
                    0 <= k2 < k ==> (#[trigger] tiles@[k2])@ == spec_decode_tile(
                        spec_tile_block(bytes@, align as int, k2),
                        bpp,
                    ),
                forall|k2: int| 0 <= k2 < k ==> (#[trigger] tiles@[k2]).wf(),
        {
            proof {
                lemma_mul_inequality(k + 1 as int, count as int, align as int);
                lemma_fundamental_div_mod(len as int, align as int);
            }
            let start = k * align;
            let stop = start + align;
            let chunk = slice_subrange(bytes, start, stop);
            let decoded = match bpp {
                Bpp::Two => TileData::from_2bpp(chunk),
                Bpp::Four => TileData::from_4bpp(chunk),
            };
            let tile = match decoded {
                Some(t) => t,
                None => {
                    proof {
                        assert(false);
                    }
                    TileData(Vec::new())
                },
            };
            proof {
                assert forall|i: int| 0 <= i < 64 implies tile@[i] == spec_decode_tile(
                    spec_tile_block(bytes@, align as int, k as int),
                    bpp,
                )[i] by {
                    match bpp {
                        Bpp::Two => assert(tile@[i] == pix2_at(chunk@, i)),
                        Bpp::Four => assert(tile@[i] == pix4_at(chunk@, i)),
                    }
                }
                assert(tile@ =~= spec_decode_tile(
                    spec_tile_block(bytes@, align as int, k as int),
                    bpp,
                ));
            }
            tiles.push(tile);
        }
        Ok(Tileset(tiles))
    }

    /// The tile at `idx`, or `None` out of range; callers draw a
    /// placeholder on `None` rather than failing.
    pub fn get(&self, idx: u16) -> (r: Option<&TileData>)
        ensures
            r is Some <==> (idx as int) < self.0@.len(),
            r matches Some(t) ==> *t == self.0@[idx as int],
    {
        if (idx as usize) < self.0.len() {
            Some(&self.0[idx as usize])
        } else {
            None
        }
    }

    /// Whether the four tiles of the 16x16 composite anchored at `idx`
    /// (top-left `idx`, top-right `idx+1`, bottom-left `idx+16`,
    /// bottom-right `idx+17`) are all present.
    pub fn supports_2x2(&self, idx: u16) -> (r: bool)
        ensures
            r <==> idx + 17 < self.0@.len(),
    {
        (idx as usize) + 17 < self.0.len()
    }

    /// Whether a selected tile index can be drawn at the given display
    /// size: the tile itself for 8x8, all four composite tiles for 16x16.
    pub fn is_valid_idx(&self, idx: u16, size: TileSize) -> (r: bool)
        ensures
            r <==> match size {
                TileSize::Eight => (idx as int) < self.0@.len(),
                TileSize::Sixteen => idx + 17 < self.0@.len(),
            },
    {
        match size {
            TileSize::Eight => (idx as usize) < self.0.len(),
            TileSize::Sixteen => self.supports_2x2(idx),
        }
    }
}

impl Default for Tileset {
    /// A fresh tileset holding a single blank tile.
    fn default() -> (ts: Tileset)
        ensures
            ts.wf(),
            ts.0@.len() == 1,
            forall|i: int| 0 <= i < 64 ==> #[trigger] ts.0@[0]@[i] == 0,
    {
        let mut tiles: Vec<TileData> = Vec::new();
        tiles.push(TileData::default());
        Tileset(tiles)
    }
}

} // verus!
