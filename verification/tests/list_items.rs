use snesgfx::file_format::PaletteFile;
use snesgfx::list_items::{BGModeTwo, DrawMode, TileSize, Zoom};

#[test]
fn rect_fill_range_normalizes_its_corners() {
    let drag = DrawMode::RectFill { start: (5, 6), end: (2, 3) };
    assert!(drag.idx_in_range(2, 3));
    assert!(drag.idx_in_range(5, 6));
    assert!(drag.idx_in_range(3, 4));
    assert!(!drag.idx_in_range(1, 4));
    assert!(!drag.idx_in_range(6, 4));
    assert!(!drag.idx_in_range(3, 2));
    assert!(!drag.idx_in_range(3, 7));
}

#[test]
fn idle_and_pen_modes_highlight_nothing() {
    assert!(!DrawMode::Idle.idx_in_range(0, 0));
    assert!(!DrawMode::Pen.idx_in_range(0, 0));
}

#[test]
fn single_cell_rectangle_contains_only_itself() {
    let drag = DrawMode::RectFill { start: (4, 4), end: (4, 4) };
    assert!(drag.idx_in_range(4, 4));
    assert!(!drag.idx_in_range(4, 5));
    assert!(!drag.idx_in_range(3, 4));
}

#[test]
fn mode_offsets_cover_the_four_backgrounds() {
    assert_eq!(BGModeTwo::M0BG1.palette_offset(), 0);
    assert_eq!(BGModeTwo::M0BG2.palette_offset(), 32);
    assert_eq!(BGModeTwo::M0BG3.palette_offset(), 64);
    assert_eq!(BGModeTwo::M0BG4.palette_offset(), 96);
    assert_eq!(BGModeTwo::default(), BGModeTwo::M0BG1);
}

#[test]
fn configuration_defaults_match_a_fresh_session() {
    assert_eq!(PaletteFile::default(), PaletteFile::BGR555);
    assert_eq!(TileSize::default(), TileSize::Eight);
    assert_eq!(Zoom::default(), Zoom::One);
    assert!(matches!(DrawMode::default(), DrawMode::Idle));
}
