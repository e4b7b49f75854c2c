//! Core engine of an editor for SNES-style indexed graphics assets.
//!
//! The library covers the data model, the binary codecs and the undo/redo
//! engine for three documents: a 256-entry BGR555 color palette, a tileset
//! of 8x8 planar tiles (2 or 4 bits per pixel), and a 32x32 tilemap of
//! packed 16-bit cells.  The decode/encode rules, the palette-indexing
//! arithmetic, the bulk tilemap mutations and the undo log with coalescing
//! and dirty-distance tracking are stated in contracts and verified.
//!
//! File I/O, rendering and the widget shell are collaborators outside this
//! crate: they hand byte buffers in and take byte buffers or change
//! reports back, and they sequence all calls on one thread.

pub mod bits;
pub mod color;
pub mod file_format;
pub mod list_items;
pub mod palette;
pub mod tilemap;
pub mod tiles;
pub mod undo_stack;
