//! Small configuration enums supplied by the caller to the codec and
//! palette-indexing calls: tile bit depth, tile display size, zoom level,
//! 2bpp background mode, and the drawing mode of the tilemap editor.

use vstd::prelude::*;

verus! {

/// Bits per pixel of a tile: 2 or 4.
#[derive(Clone, Copy, Debug, PartialEq, Eq, Structural)]
pub enum Bpp {
    Two,
    Four,
}

impl Default for Bpp {
    fn default() -> (b: Bpp)
        ensures
            b == Bpp::Two,
    {
        Bpp::Two
    }
}

/// Number of bits each pixel of a tile occupies at this depth.
pub open spec fn spec_bits(b: Bpp) -> u8 {
    match b {
        Bpp::Two => 2,
        Bpp::Four => 4,
    }
}

/// Number of colors a sub-palette spans at this depth.
pub open spec fn spec_colors_per_subpalette(b: Bpp) -> u8 {
    match b {
        Bpp::Two => 4,
        Bpp::Four => 16,
    }
}

/// Bytes of one 8x8 tile at this depth (8 * 8 pixels at `bits` bits per
/// pixel, packed 8 bits to the byte): 16 for 2bpp, 32 for 4bpp.
pub open spec fn spec_tile_bytes(b: Bpp) -> int {
    match b {
        Bpp::Two => 16,
        Bpp::Four => 32,
    }
}

impl Bpp {
    /// Bits per pixel as a number.
    pub fn bits(&self) -> (r: u8)
        ensures
            r == spec_bits(*self),
    {
        match self {
            Bpp::Two => 2,
            Bpp::Four => 4,
        }
    }

    /// Number of colors a sub-palette spans: 4 for 2bpp, 16 for 4bpp.
    pub fn to_val(&self) -> (r: u8)
        ensures
            r == spec_colors_per_subpalette(*self),
    {
        match self {
            Bpp::Two => 4,
            Bpp::Four => 16,
        }
    }

    /// Bytes of one 8x8 tile at this depth.
    pub fn tile_bytes(&self) -> (r: usize)
        ensures
            r == spec_tile_bytes(*self),
    {
        match self {
            Bpp::Two => 16,
            Bpp::Four => 32,
        }
    }
}

/// Side length in pixels of the tile block a tilemap cell is drawn at.
#[derive(Clone, Copy, Debug, PartialEq, Eq, Structural)]
pub enum TileSize {
    Eight,
    Sixteen,
}

impl Default for TileSize {
    fn default() -> (s: TileSize)
        ensures
            s == TileSize::Eight,
    {
        TileSize::Eight
    }
}

/// Zoom level of the tilemap view.  The scale factor itself is a rendering
/// concern of the shell; the core only carries the selection.
#[derive(Clone, Copy, Debug, PartialEq, Eq, Structural)]
pub enum Zoom {
    Half,
    One,
    Two,
}

impl Default for Zoom {
    fn default() -> (z: Zoom)
        ensures
            z == Zoom::One,
    {
        Zoom::One
    }
}

/// The 2bpp background layers of mode 0.  Each starts its eight
/// sub-palettes at a different absolute palette offset.
#[derive(Clone, Copy, Debug, PartialEq, Eq, Structural)]
pub enum BGModeTwo {
    M0BG1,
    M0BG2,
    M0BG3,
    M0BG4,
}

impl Default for BGModeTwo {
    fn default() -> (m: BGModeTwo)
        ensures
            m == BGModeTwo::M0BG1,
    {
        BGModeTwo::M0BG1
    }
}

/// Absolute palette slot at which sub-palette 0 of this background starts.
pub open spec fn spec_palette_offset(m: BGModeTwo) -> u8 {
    match m {
        BGModeTwo::M0BG1 => 0,
        BGModeTwo::M0BG2 => 32,
        BGModeTwo::M0BG3 => 64,
        BGModeTwo::M0BG4 => 96,
    }
}

impl BGModeTwo {
    /// Absolute palette slot at which sub-palette 0 of this background
    /// starts: 0, 32, 64 or 96.
    pub fn palette_offset(&self) -> (r: u8)
        ensures
            r == spec_palette_offset(*self),
    {
        match self {
            BGModeTwo::M0BG1 => 0,
            BGModeTwo::M0BG2 => 32,
            BGModeTwo::M0BG3 => 64,
            BGModeTwo::M0BG4 => 96,
        }
    }
}

/// An in-progress drag gesture on the tilemap: nothing, freehand painting,
/// or a rectangle fill between two corner cells.
#[derive(Clone, Copy, Debug)]
pub enum DrawMode {
    Idle,
    Pen,
    RectFill { start: (usize, usize), end: (usize, usize) },
}

impl Default for DrawMode {
    fn default() -> (d: DrawMode)
        ensures
            d is Idle,
    {
        DrawMode::Idle
    }
}

/// Whether the cell `(x, y)` lies inside the rectangle spanned by the two
/// corners, whatever order the corners were given in.
pub open spec fn spec_in_rect(start: (usize, usize), end: (usize, usize), x: int, y: int) -> bool {
    let x_min = if start.0 <= end.0 {
        start.0 as int
    } else {
        end.0 as int
    };
    let x_max = if start.0 <= end.0 {
        end.0 as int
    } else {
        start.0 as int
    };
    let y_min = if start.1 <= end.1 {
        start.1 as int
    } else {
        end.1 as int
    };
    let y_max = if start.1 <= end.1 {
        end.1 as int
    } else {
        start.1 as int
    };
    x_min <= x <= x_max && y_min <= y <= y_max
}

impl DrawMode {
    /// True iff a rectangle fill is in progress and the cell `(ix, iy)`
    /// falls inside it; freehand and idle modes highlight nothing.
    pub fn idx_in_range(&self, ix: usize, iy: usize) -> (r: bool)
        ensures
            r == match *self {
                DrawMode::RectFill { start, end } => spec_in_rect(start, end, ix as int, iy as int),
                DrawMode::Pen => false,
                DrawMode::Idle => false,
            },
    {
        match self {
            DrawMode::RectFill { start, end } => {
                let x_min = if start.0 <= end.0 {
                    start.0
                } else {
                    end.0
                };
                let x_max = if start.0 <= end.0 {
                    end.0
                } else {
                    start.0
                };
                let y_min = if start.1 <= end.1 {
                    start.1
                } else {
                    end.1
                };
                let y_max = if start.1 <= end.1 {
                    end.1
                } else {
                    start.1
                };
                ix >= x_min && ix <= x_max && iy >= y_min && iy <= y_max
            },
            DrawMode::Pen => false,
            DrawMode::Idle => false,
        }
    }
}

} // verus!
