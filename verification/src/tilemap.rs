//! The 32x32 tilemap: packed 16-bit cells, the tilemap codec, and the bulk
//! mutations (single cell, rectangle fill, freehand paint) that report
//! exactly which cells changed so the undo engine can reverse them.

use crate::color::word_of_bytes;
use crate::file_format::FormatError;
use crate::list_items::spec_in_rect;
use vstd::arithmetic::div_mod::{
    lemma_div_denominator, lemma_fundamental_div_mod, lemma_fundamental_div_mod_converse,
};
use vstd::prelude::*;

verus! {

/// One tilemap cell.  Its binary form is a 16-bit little-endian word:
/// bits 0-9 tile index, 10-12 sub-palette, 13 priority, 14 horizontal flip,
/// 15 vertical flip.
#[derive(Clone, Copy, Debug, PartialEq, Eq, Structural)]
pub struct Tile {
    pub tile_idx: u16,
    pub palette: u8,
    pub priority: bool,
    pub x_flip: bool,
    pub y_flip: bool,
}

/// The all-zero cell a fresh tilemap is filled with.
pub open spec fn spec_default_tile() -> Tile {
    Tile { tile_idx: 0, palette: 0, priority: false, x_flip: false, y_flip: false }
}

/// The 16-bit word that encodes the cell `t`.
pub open spec fn cell_word(t: Tile) -> int {
    t.tile_idx + 1024 * t.palette + 8192 * (if t.priority {
        1int
    } else {
        0int
    }) + 16384 * (if t.x_flip {
        1int
    } else {
        0int
    }) + 32768 * (if t.y_flip {
        1int
    } else {
        0int
    })
}

/// The cell decoded from the byte pair `(lo, hi)`.  Every 16-bit pattern
/// is a valid cell.
pub open spec fn spec_cell_decode(lo: u8, hi: u8) -> Tile {
    let w = word_of_bytes(lo, hi);
    Tile {
        tile_idx: (w % 1024) as u16,
        palette: ((w / 1024) % 8) as u8,
        priority: (w / 8192) % 2 == 1,
        x_flip: (w / 16384) % 2 == 1,
        y_flip: (w / 32768) % 2 == 1,
    }
}

/// Low byte of the encoded form of the cell `t`.
pub open spec fn cell_lo(t: Tile) -> u8 {
    (cell_word(t) % 256) as u8
}

/// High byte of the encoded form of the cell `t`.
pub open spec fn cell_hi(t: Tile) -> u8 {
    (cell_word(t) / 256) as u8
}

impl Tile {
    /// The tile index fits its 10 bits and the sub-palette its 3.
    pub open spec fn wf(self) -> bool {
        self.tile_idx < 1024 && self.palette < 8
    }

    /// Build a cell from its fields.  The tile index and sub-palette must
    /// already fit their 10 and 3 bits.
    pub fn new(tile_idx: u16, palette: u8, priority: bool, x_flip: bool, y_flip: bool) -> (t: Tile)
        requires
            tile_idx < 1024,
            palette < 8,
        ensures
            t == (Tile { tile_idx, palette, priority, x_flip, y_flip }),
            t.wf(),
    {
        Tile { tile_idx, palette, priority, x_flip, y_flip }
    }

    /// Unpack a cell from its 2-byte little-endian form.
    pub fn decode(bytes: [u8; 2]) -> (t: Tile)
        ensures
            t == spec_cell_decode(bytes[0], bytes[1]),
            t.wf(),
    {
        let lo = bytes[0];
        let hi = bytes[1];
        let w: u16 = lo as u16 + 256 * (hi as u16);
        Tile {
            tile_idx: w % 1024,
            palette: ((w / 1024) % 8) as u8,
            priority: (w / 8192) % 2 == 1,
            x_flip: (w / 16384) % 2 == 1,
            y_flip: (w / 32768) % 2 == 1,
        }
    }

    /// Pack a cell into its 2-byte little-endian form.
    pub fn encode(self) -> (bytes: [u8; 2])
        requires
            self.wf(),
        ensures
            bytes[0] == cell_lo(self),
            bytes[1] == cell_hi(self),
    {
        let mut w: u16 = self.tile_idx + 1024 * (self.palette as u16);
        if self.priority {
            w = w + 8192;
        }
        if self.x_flip {
            w = w + 16384;
        }
        if self.y_flip {
            w = w + 32768;
        }
        [(w % 256) as u8, (w / 256) as u8]
    }
}

impl Default for Tile {
    /// The all-zero cell.
    fn default() -> (t: Tile)
        ensures
            t == spec_default_tile(),
            t.wf(),
    {
        Tile { tile_idx: 0, palette: 0, priority: false, x_flip: false, y_flip: false }
    }
}

/// Encoding a valid cell and decoding the two bytes returns the cell.
pub proof fn lemma_cell_round_trip(t: Tile)
    requires
        t.wf(),
    ensures
        spec_cell_decode(cell_lo(t), cell_hi(t)) == t,
{
    let w = cell_word(t);
    let pri = if t.priority {
        1int
    } else {
        0int
    };
    let xf = if t.x_flip {
        1int
    } else {
        0int
    };
    let yf = if t.y_flip {
        1int
    } else {
        0int
    };
    let rest = t.palette + 8 * pri + 16 * xf + 32 * yf;
    assert(0 <= w < 65536);
    lemma_fundamental_div_mod(w, 256);
    lemma_fundamental_div_mod_converse(w, 256, w / 256, w % 256);
    assert(word_of_bytes(cell_lo(t), cell_hi(t)) == w);
    lemma_fundamental_div_mod_converse(w, 1024, rest, t.tile_idx as int);
    assert(w % 1024 == t.tile_idx && w / 1024 == rest);
    lemma_fundamental_div_mod_converse(rest, 8, pri + 2 * xf + 4 * yf, t.palette as int);
    lemma_div_denominator(w, 1024, 8);
    assert(w / 8192 == pri + 2 * xf + 4 * yf);
    lemma_fundamental_div_mod_converse(pri + 2 * xf + 4 * yf, 2, xf + 2 * yf, pri);
    lemma_div_denominator(w, 8192, 2);
    assert(w / 16384 == xf + 2 * yf);
    lemma_fundamental_div_mod_converse(xf + 2 * yf, 2, yf, xf);
    lemma_div_denominator(w, 16384, 2);
    assert(w / 32768 == yf);
    lemma_fundamental_div_mod_converse(yf, 2, 0, yf);
}

/// The 1024 cells read from a tilemap buffer: word `i` gives cell `i`,
/// cells past the end of a short buffer stay at their default value.
pub open spec fn spec_tilemap_decode(bytes: Seq<u8>) -> Seq<Tile> {
    Seq::new(
        1024,
        |i: int|
            if 2 * i + 1 < bytes.len() {
                spec_cell_decode(bytes[2 * i], bytes[2 * i + 1])
            } else {
                spec_default_tile()
            },
    )
}

/// The 2048-byte form of 1024 cells.
pub open spec fn spec_tilemap_encode(cells: Seq<Tile>) -> Seq<u8> {
    Seq::new(
        2048,
        |j: int|
            if j % 2 == 0 {
                cell_lo(cells[j / 2])
            } else {
                cell_hi(cells[j / 2])
            },
    )
}

/// Linear cell index of the grid position `p`, row-major in the 32x32 map.
pub open spec fn pos_index(p: (usize, usize)) -> int {
    p.1 * 32 + p.0
}

/// A 32x32 grid of cells, row-major, always exactly 1024 entries.
pub struct Tilemap(pub Vec<Tile>);

impl View for Tilemap {
    type V = Seq<Tile>;

    open spec fn view(&self) -> Seq<Tile> {
        self.0@
    }
}

/// The report of a rectangle fill over `cells`: the positions inside the
/// rectangle whose cell differed from `fill`, in row-major order up to
/// linear index `n`, each with its pre-fill value.
pub open spec fn spec_region_diff(
    cells: Seq<Tile>,
    rect: ((usize, usize), (usize, usize)),
    fill: Tile,
    n: int,
) -> Seq<((usize, usize), Tile)>
    decreases n,
{
    if n <= 0 {
        Seq::empty()
    } else {
        let j = n - 1;
        let rest = spec_region_diff(cells, rect, fill, j);
        if spec_in_rect(rect.0, rect.1, j % 32, j / 32) && cells[j] != fill {
            rest.push((((j % 32) as usize, (j / 32) as usize), cells[j]))
        } else {
            rest
        }
    }
}

impl Tilemap {
    /// Exactly 1024 cells, each well-formed.
    pub open spec fn wf(&self) -> bool {
        self@.len() == 1024 && forall|i: int| 0 <= i < 1024 ==> self@[i].wf()
    }

    /// Read a tilemap from a buffer of 16-bit little-endian cell words.
    /// An odd length is `Misaligned`, more than 2048 bytes is `TooLarge`;
    /// a shorter buffer leaves the trailing cells at their default value.
    pub fn decode(bytes: &[u8]) -> (r: Result<Tilemap, FormatError>)
        ensures
            r is Ok <==> bytes@.len() % 2 == 0 && bytes@.len() <= 2048,
            bytes@.len() % 2 != 0 ==> (r matches Err(e) && e == FormatError::Misaligned),
            bytes@.len() % 2 == 0 && bytes@.len() > 2048 ==> (r matches Err(e) && e
                == FormatError::TooLarge),
            r matches Ok(tm) ==> tm@ == spec_tilemap_decode(bytes@) && tm.wf(),
    {
        let len = bytes.len();
        if len % 2 != 0 {
            return Err(FormatError::Misaligned);
        }
        if len > 2048 {
            return Err(FormatError::TooLarge);
        }
        let mut cells: Vec<Tile> = Vec::new();
        for i in 0..1024usize
            invariant
                len == bytes@.len(),
                len % 2 == 0,
                len <= 2048,
                cells@.len() == i,
                forall|j: int| 0 <= j < i ==> cells@[j] == spec_tilemap_decode(bytes@)[j],
                forall|j: int| 0 <= j < i ==> cells@[j].wf(),
        {
            let cell = if 2 * i + 1 < len {
                Tile::decode([bytes[2 * i], bytes[2 * i + 1]])
            } else {
                Tile::default()
            };
            cells.push(cell);
        }
        let tm = Tilemap(cells);
        assert(tm@ =~= spec_tilemap_decode(bytes@));
        Ok(tm)
    }

    /// Write the tilemap to its full 2048-byte form.
    pub fn encode(&self) -> (r: Vec<u8>)
        requires
            self.wf(),
        ensures
            r@ == spec_tilemap_encode(self@),
            r@.len() == 2048,
    {
        let mut out: Vec<u8> = Vec::new();
        for i in 0..1024usize
            invariant
                self.wf(),
                out@.len() == 2 * i,
                forall|j: int|
                    0 <= j < i ==> out@[2 * j] == cell_lo(self@[j]) && out@[2 * j + 1] == cell_hi(
                        self@[j],
                    ),
        {
            let bytes = self.0[i].encode();
            out.push(bytes[0]);
            out.push(bytes[1]);
        }
        proof {
            assert forall|j: int| 0 <= j < 2048 implies out@[j] == spec_tilemap_encode(self@)[j] by {
                lemma_fundamental_div_mod(j, 2);
                let i = j / 2;
                if j % 2 == 0 {
                    assert(out@[2 * i] == cell_lo(self@[i]));
                } else {
                    assert(out@[2 * i + 1] == cell_hi(self@[i]));
                }
            }
            assert(out@ =~= spec_tilemap_encode(self@));
        }
        out
    }

    /// Overwrite the cell at linear index `idx` if it is in range,
    /// reporting whether the stored value actually changed.  An
    /// out-of-range index changes nothing and reports `false`.
    pub fn set_cell(&mut self, idx: u32, cell: Tile) -> (changed: bool)
        requires
            old(self).wf(),
            cell.wf(),
        ensures
            final(self).wf(),
            idx < 1024 ==> final(self)@ == old(self)@.update(idx as int, cell) && changed == (old(
                self,
            )@[idx as int] != cell),
            idx >= 1024 ==> final(self)@ == old(self)@ && !changed,
    {
        if idx >= 1024 {
            return false;
        }
        let previous = self.0[idx as usize];
        self.0[idx as usize] = cell;
        previous != cell
    }

    /// Fill every cell inside the rectangle spanned by the two corners of
    /// `rect` (in either order) with `cell`.  The returned report holds
    /// exactly the positions whose value actually changed, in row-major
    /// order, each with its pre-fill value: an empty report means the fill
    /// changed nothing and no undo entry is owed.
    pub fn set_region(&mut self, rect: ((usize, usize), (usize, usize)), cell: Tile) -> (changed:
        Vec<((usize, usize), Tile)>)
        requires
            old(self).wf(),
            cell.wf(),
            rect.0.0 < 32,
            rect.0.1 < 32,
            rect.1.0 < 32,
            rect.1.1 < 32,
        ensures
            final(self).wf(),
            forall|j: int|
                0 <= j < 1024 ==> final(self)@[j] == (if spec_in_rect(rect.0, rect.1, j % 32, j
                    / 32) {
                    cell
                } else {
                    old(self)@[j]
                }),
            changed@ == spec_region_diff(old(self)@, rect, cell, 1024),
    {
        let (start, end) = rect;
        let x_min = if start.0 <= end.0 {
            start.0
        } else {
            end.0
        };
        let x_max = if start.0 <= end.0 {
            end.0
        } else {
            start.0
        };
        let y_min = if start.1 <= end.1 {
            start.1
        } else {
            end.1
        };
        let y_max = if start.1 <= end.1 {
            end.1
        } else {
            start.1
        };
        let mut diff: Vec<((usize, usize), Tile)> = Vec::new();
        for i in 0..1024usize
            invariant
                self@.len() == 1024,
                cell.wf(),
                forall|j: int| 0 <= j < 1024 ==> #[trigger] self@[j].wf(),
                x_min == (if rect.0.0 <= rect.1.0 {
                    rect.0.0
                } else {
                    rect.1.0
                }),
                x_max == (if rect.0.0 <= rect.1.0 {
                    rect.1.0
                } else {
                    rect.0.0
                }),
                y_min == (if rect.0.1 <= rect.1.1 {
                    rect.0.1
                } else {
                    rect.1.1
                }),
                y_max == (if rect.0.1 <= rect.1.1 {
                    rect.1.1
                } else {
                    rect.0.1
                }),
                forall|j: int|
                    0 <= j < i ==> self@[j] == (if spec_in_rect(rect.0, rect.1, j % 32, j / 32) {
                        cell
                    } else {
                        old(self)@[j]
                    }),
                forall|j: int| i <= j < 1024 ==> self@[j] == old(self)@[j],
                diff@ == spec_region_diff(old(self)@, rect, cell, i as int),
        {
            let x = i % 32;
            let y = i / 32;
            let inside = x >= x_min && x <= x_max && y >= y_min && y <= y_max;
            assert(inside == spec_in_rect(rect.0, rect.1, i as int % 32, i as int / 32));
            if inside {
                let previous = self.0[i];
                if previous != cell {
                    diff.push(((x, y), previous));
                }
                self.0[i] = cell;
            }
            assert(diff@ == spec_region_diff(old(self)@, rect, cell, i + 1));
        }
        diff
    }

    /// Paint `cell` at every listed grid position (the freehand pen path).
    /// The returned report holds exactly the positions whose value actually
    /// changed, each once with its pre-paint value, even when a position is
    /// listed more than once.
    #[verifier::rlimit(60)]
    pub fn set_cells(&mut self, positions: &Vec<(usize, usize)>, cell: Tile) -> (changed: Vec<
        ((usize, usize), Tile),
    >)
        requires
            old(self).wf(),
            cell.wf(),
            forall|k: int|
                0 <= k < positions@.len() ==> (#[trigger] positions@[k]).0 < 32
                    && positions@[k].1 < 32,
        ensures
            final(self).wf(),
            forall|j: int|
                0 <= j < 1024 ==> final(self)@[j] == (if (exists|k: int|
                    0 <= k < positions@.len() && pos_index(#[trigger] positions@[k]) == j) {
                    cell
                } else {
                    old(self)@[j]
                }),
            forall|m: int|
                0 <= m < changed@.len() ==> (exists|k: int|
                    0 <= k < positions@.len() && positions@[k] == (#[trigger] changed@[m]).0)
                    && changed@[m].1 == old(self)@[pos_index(changed@[m].0)] && changed@[m].1
                    != cell,
            forall|m1: int, m2: int|
                0 <= m1 < m2 < changed@.len() ==> (#[trigger] changed@[m1]).0 != (
                #[trigger] changed@[m2]).0,
            forall|k: int|
                0 <= k < positions@.len() && old(self)@[pos_index(#[trigger] positions@[k])]
                    != cell ==> (exists|m: int|
                    0 <= m < changed@.len() && (#[trigger] changed@[m]).0 == positions@[k]),
    {
        let mut diff: Vec<((usize, usize), Tile)> = Vec::new();
        let count = positions.len();
        for k in 0..count
            invariant
                count == positions@.len(),
                self@.len() == 1024,
                cell.wf(),
                forall|j: int| 0 <= j < 1024 ==> #[trigger] self@[j].wf(),
                forall|k2: int|
                    0 <= k2 < positions@.len() ==> (#[trigger] positions@[k2]).0 < 32
                        && positions@[k2].1 < 32,
                forall|j: int|
                    0 <= j < 1024 ==> self@[j] == (if (exists|k2: int|
                        0 <= k2 < k && pos_index(#[trigger] positions@[k2]) == j) {
                        cell
                    } else {
                        old(self)@[j]
                    }),
                forall|m: int|
                    0 <= m < diff@.len() ==> (exists|k2: int|
                        0 <= k2 < k && positions@[k2] == (#[trigger] diff@[m]).0) && diff@[m].1
                        == old(self)@[pos_index(diff@[m].0)] && diff@[m].1 != cell,
                forall|m: int|
                    0 <= m < diff@.len() ==> self@[pos_index((#[trigger] diff@[m]).0)] == cell,
                forall|m1: int, m2: int|
                    0 <= m1 < m2 < diff@.len() ==> (#[trigger] diff@[m1]).0 != (
                    #[trigger] diff@[m2]).0,
                forall|k2: int|
                    0 <= k2 < k && old(self)@[pos_index(#[trigger] positions@[k2])] != cell ==> (
                    exists|m: int|
                        0 <= m < diff@.len() && (#[trigger] diff@[m]).0 == positions@[k2]),
        {
            let ghost pre_cells = self@;
            let ghost pre_diff = diff@;
            let p = positions[k];
            let idx = p.1 * 32 + p.0;
            assert(idx == pos_index(positions@[k as int]));
            let previous = self.0[idx];
            if previous != cell {
                assert(forall|k2: int|
                    0 <= k2 < k ==> pos_index(#[trigger] positions@[k2]) != idx);
                assert(previous == old(self)@[idx as int]);
                diff.push((p, previous));
            }
            self.0[idx] = cell;
            proof {
                if previous != cell {
                    assert(diff@ == pre_diff.push((p, previous)));
                } else {
                    assert(diff@ == pre_diff);
                }
                assert forall|k2: int|
                    0 <= k2 < k + 1 && old(self)@[pos_index(#[trigger] positions@[k2])]
                        != cell implies (exists|m: int|
                    0 <= m < diff@.len() && (#[trigger] diff@[m]).0 == positions@[k2]) by {
                    if k2 < k as int {
                        let m = choose|m: int|
                            0 <= m < pre_diff.len() && (#[trigger] pre_diff[m]).0
                                == positions@[k2];
                        assert(diff@[m].0 == positions@[k2]);
                    } else {
                        if previous != cell {
                            assert(diff@[diff@.len() - 1].0 == positions@[k2]);
                        } else {
                            // the cell already held the fill value, so an
                            // earlier listed position wrote it and owns the
                            // report entry
                            assert(pre_cells[idx as int] == previous);
                            let k3 = choose|k3: int|
                                0 <= k3 < k && pos_index(#[trigger] positions@[k3]) == idx;
                            lemma_pos_index_injective(positions@[k3], positions@[k2]);
                            let m = choose|m: int|
                                0 <= m < pre_diff.len() && (#[trigger] pre_diff[m]).0
                                    == positions@[k3];
                            assert(diff@[m].0 == positions@[k2]);
                        }
                    }
                }
            }
        }
        proof {
            assert forall|m: int| 0 <= m < diff@.len() implies (exists|k: int|
                0 <= k < positions@.len() && positions@[k] == (#[trigger] diff@[m]).0) && diff@[m].1
                == old(self)@[pos_index(diff@[m].0)] && diff@[m].1 != cell by {
                let k2 = choose|k2: int|
                    0 <= k2 < count && positions@[k2] == (#[trigger] diff@[m]).0;
                assert(0 <= k2 < positions@.len() && positions@[k2] == diff@[m].0);
            }
        }
        diff
    }
}

/// Two in-range grid positions with the same linear index are the same
/// position.
pub proof fn lemma_pos_index_injective(p: (usize, usize), q: (usize, usize))
    requires
        p.0 < 32 && p.1 < 32,
        q.0 < 32 && q.1 < 32,
        pos_index(p) == pos_index(q),
    ensures
        p == q,
{
    lemma_fundamental_div_mod_converse(pos_index(p), 32, p.1 as int, p.0 as int);
    lemma_fundamental_div_mod_converse(pos_index(q), 32, q.1 as int, q.0 as int);
}

impl Default for Tilemap {
    /// A fresh map: 1024 default cells.
    fn default() -> (tm: Tilemap)
        ensures
            tm@.len() == 1024,
            forall|i: int| 0 <= i < 1024 ==> tm@[i] == spec_default_tile(),
            tm.wf(),
    {
        let mut cells: Vec<Tile> = Vec::new();
        for i in 0..1024usize
            invariant
                cells@.len() == i,
                forall|j: int| 0 <= j < i ==> cells@[j] == spec_default_tile(),
        {
            cells.push(Tile::default());
        }
        Tilemap(cells)
    }
}

/// Law: decoding the 2048-byte encoding of any full, well-formed tilemap
/// returns its cells unchanged.
pub proof fn lemma_tilemap_round_trip(cells: Seq<Tile>)
    requires
        cells.len() == 1024,
        forall|i: int| 0 <= i < 1024 ==> cells[i].wf(),
    ensures
        spec_tilemap_decode(spec_tilemap_encode(cells)) == cells,
{
    let bytes = spec_tilemap_encode(cells);
    assert forall|i: int| 0 <= i < 1024 implies spec_tilemap_decode(bytes)[i] == cells[i] by {
        assert(bytes[2 * i] == cell_lo(cells[i])) by {
            assert((2 * i) % 2 == 0 && (2 * i) / 2 == i) by {
                lemma_fundamental_div_mod_converse(2 * i, 2, i, 0);
            }
        }
        assert(bytes[2 * i + 1] == cell_hi(cells[i])) by {
            assert((2 * i + 1) % 2 == 1 && (2 * i + 1) / 2 == i) by {
                lemma_fundamental_div_mod_converse(2 * i + 1, 2, i, 1);
            }
        }
        lemma_cell_round_trip(cells[i]);
    }
    assert(spec_tilemap_decode(bytes) =~= cells);
}

proof fn lemma_region_diff_empty_upto(
    cells: Seq<Tile>,
    rect: ((usize, usize), (usize, usize)),
    fill: Tile,
    n: int,
)
    requires
        cells.len() == 1024,
        n <= 1024,
        forall|j: int|
            0 <= j < 1024 ==> (spec_in_rect(rect.0, rect.1, j % 32, j / 32) ==> cells[j] == fill),
    ensures
        spec_region_diff(cells, rect, fill, n).len() == 0,
    decreases n,
{
    if n > 0 {
        lemma_region_diff_empty_upto(cells, rect, fill, n - 1);
    }
}

/// Law: a rectangle fill over a region whose every cell already holds the
/// fill value reports no changed cell, so the caller records no operation.
pub proof fn lemma_region_fill_no_change(
    cells: Seq<Tile>,
    rect: ((usize, usize), (usize, usize)),
    fill: Tile,
)
    requires
        cells.len() == 1024,
        forall|j: int|
            0 <= j < 1024 ==> (spec_in_rect(rect.0, rect.1, j % 32, j / 32) ==> cells[j] == fill),
    ensures
        spec_region_diff(cells, rect, fill, 1024).len() == 0,
{
    lemma_region_diff_empty_upto(cells, rect, fill, 1024);
}

} // verus!
