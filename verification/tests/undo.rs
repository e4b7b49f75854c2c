use snesgfx::color::Color;
use snesgfx::palette::Palette;
use snesgfx::tilemap::{Tile, Tilemap};
use snesgfx::undo_stack::{ChangePaletteColor, ChangeTilemapTile, Operation, UndoStack};

fn palette_op(idx: u8, before: Color, after: Color) -> Operation {
    Operation::ChangePaletteColor(ChangePaletteColor::new(idx, before, after))
}

fn tilemap_op(cells: Vec<((usize, usize), Tile)>, after: Tile) -> Operation {
    Operation::ChangeTilemapTile(ChangeTilemapTile::new(cells, after))
}

fn fresh() -> (UndoStack, Palette, Tilemap) {
    let mut stack = UndoStack::default();
    stack.init();
    (stack, Palette::default(), Tilemap::default())
}

#[test]
fn same_slot_palette_edits_coalesce() {
    let (mut stack, mut pal, mut tm) = fresh();
    let a = Color::new(1, 1, 1);
    let b = Color::new(2, 2, 2);
    let c = Color::new(3, 3, 3);
    stack.push(palette_op(5, a, b));
    stack.push(palette_op(5, b, c));
    assert_eq!(stack.stack.len(), 1);
    match &stack.stack[0] {
        Operation::ChangePaletteColor(op) => {
            assert_eq!(op.idx, 5);
            assert_eq!(op.before, a);
            assert_eq!(op.after, c);
        },
        Operation::ChangeTilemapTile(_) => panic!("expected a palette entry"),
    }
    stack.undo(&mut pal, &mut tm);
    assert_eq!(pal.0[5], a);
    assert_eq!(stack.curr, 0);
}

#[test]
fn different_slots_do_not_coalesce() {
    let (mut stack, _, _) = fresh();
    let a = Color::new(1, 1, 1);
    let b = Color::new(2, 2, 2);
    stack.push(palette_op(5, a, b));
    stack.push(palette_op(6, a, b));
    assert_eq!(stack.stack.len(), 2);
    assert_eq!(stack.curr, 2);
}

#[test]
fn a_clean_mark_blocks_coalescing() {
    let (mut stack, _, _) = fresh();
    let a = Color::new(1, 1, 1);
    let b = Color::new(2, 2, 2);
    let c = Color::new(3, 3, 3);
    stack.push(palette_op(5, a, b));
    stack.mark_palette_clean();
    stack.push(palette_op(5, b, c));
    assert_eq!(stack.stack.len(), 2);
    assert_eq!(stack.curr, 2);
}

#[test]
fn tilemap_edits_never_coalesce() {
    let (mut stack, _, _) = fresh();
    let t = Tile::new(7, 1, false, false, false);
    stack.push(tilemap_op(vec![((0, 0), Tile::default())], t));
    stack.push(tilemap_op(vec![((0, 0), t)], Tile::default()));
    assert_eq!(stack.stack.len(), 2);
}

#[test]
fn undo_on_an_empty_log_is_a_no_op() {
    let (mut stack, mut pal, mut tm) = fresh();
    let before_pal = pal.0.clone();
    stack.undo(&mut pal, &mut tm);
    assert_eq!(stack.curr, 0);
    assert_eq!(pal.0, before_pal);
    assert!(!stack.palette_dirty());
}

#[test]
fn redo_at_the_end_of_the_log_is_a_no_op() {
    let (mut stack, mut pal, mut tm) = fresh();
    let a = Color::new(1, 1, 1);
    let b = Color::new(2, 2, 2);
    stack.push(palette_op(5, a, b));
    let before_pal = pal.0.clone();
    stack.redo(&mut pal, &mut tm);
    assert_eq!(stack.curr, 1);
    assert_eq!(pal.0, before_pal);
}

#[test]
fn undo_and_redo_replay_palette_edits() {
    let (mut stack, mut pal, mut tm) = fresh();
    let a = pal.0[5];
    let b = Color::new(9, 9, 9);
    pal.set(5, b);
    stack.push(palette_op(5, a, b));
    stack.undo(&mut pal, &mut tm);
    assert_eq!(pal.0[5], a);
    stack.redo(&mut pal, &mut tm);
    assert_eq!(pal.0[5], b);
}

#[test]
fn undo_and_redo_replay_tilemap_edits() {
    let (mut stack, mut pal, mut tm) = fresh();
    let t = Tile::new(42, 3, true, false, false);
    let changed = tm.set_region(((0, 0), (1, 0)), t);
    stack.push(tilemap_op(changed, t));
    stack.undo(&mut pal, &mut tm);
    assert_eq!(tm.0[0], Tile::default());
    assert_eq!(tm.0[1], Tile::default());
    stack.redo(&mut pal, &mut tm);
    assert_eq!(tm.0[0], t);
    assert_eq!(tm.0[1], t);
}

#[test]
fn push_discards_the_redo_tail() {
    let (mut stack, mut pal, mut tm) = fresh();
    let a = Color::new(1, 1, 1);
    let b = Color::new(2, 2, 2);
    let c = Color::new(3, 3, 3);
    stack.push(palette_op(5, a, b));
    stack.undo(&mut pal, &mut tm);
    stack.push(palette_op(6, a, c));
    assert_eq!(stack.stack.len(), 1);
    assert_eq!(stack.curr, 1);
    match &stack.stack[0] {
        Operation::ChangePaletteColor(op) => assert_eq!(op.idx, 6),
        Operation::ChangeTilemapTile(_) => panic!("expected a palette entry"),
    }
}

#[test]
fn dirty_tracks_the_distance_to_the_clean_mark() {
    let (mut stack, mut pal, mut tm) = fresh();
    assert!(!stack.palette_dirty());
    assert!(!stack.tilemap_dirty());
    let a = Color::new(1, 1, 1);
    let b = Color::new(2, 2, 2);
    stack.push(palette_op(5, a, b));
    assert!(stack.palette_dirty());
    assert!(!stack.tilemap_dirty());
    stack.mark_palette_clean();
    assert!(!stack.palette_dirty());
    stack.undo(&mut pal, &mut tm);
    assert!(stack.palette_dirty());
    stack.redo(&mut pal, &mut tm);
    assert!(!stack.palette_dirty());
}

#[test]
fn undoing_past_a_save_then_editing_loses_the_clean_state() {
    let (mut stack, mut pal, mut tm) = fresh();
    let a = Color::new(1, 1, 1);
    let b = Color::new(2, 2, 2);
    let c = Color::new(3, 3, 3);
    stack.push(palette_op(5, a, b));
    stack.mark_palette_clean();
    stack.undo(&mut pal, &mut tm);
    assert!(stack.palette_dirty());
    // the clean state lived in the redo tail, which this push discards
    stack.push(palette_op(6, a, c));
    assert!(stack.palette_dirty());
    // no amount of undoing reaches a clean state again
    stack.undo(&mut pal, &mut tm);
    assert!(stack.palette_dirty());
    stack.undo(&mut pal, &mut tm);
    assert!(stack.palette_dirty());
}

#[test]
fn the_two_documents_track_dirtiness_independently() {
    let (mut stack, _, _) = fresh();
    let t = Tile::new(1, 0, false, false, false);
    stack.push(tilemap_op(vec![((0, 0), Tile::default())], t));
    assert!(stack.tilemap_dirty());
    assert!(!stack.palette_dirty());
    stack.mark_tilemap_clean();
    assert!(!stack.tilemap_dirty());
}

#[test]
fn a_default_stack_reports_dirty_until_a_baseline_exists() {
    let mut stack = UndoStack::default();
    assert!(stack.palette_dirty());
    assert!(stack.tilemap_dirty());
    stack.init();
    assert!(!stack.palette_dirty());
    assert!(!stack.tilemap_dirty());
}

#[test]
fn clear_empties_the_log_but_keeps_the_dirty_state() {
    let (mut stack, _, _) = fresh();
    let a = Color::new(1, 1, 1);
    let b = Color::new(2, 2, 2);
    stack.push(palette_op(5, a, b));
    stack.clear();
    assert_eq!(stack.stack.len(), 0);
    assert_eq!(stack.curr, 0);
    assert!(stack.palette_dirty());
    stack.mark_palette_clean();
    assert!(!stack.palette_dirty());
}

#[test]
fn batched_tilemap_undo_restores_every_recorded_cell() {
    let (mut stack, mut pal, mut tm) = fresh();
    let t1 = Tile::new(1, 0, false, false, false);
    let t2 = Tile::new(2, 0, false, false, false);
    tm.set_cell(0, t1);
    tm.set_cell(33, t2);
    let fill = Tile::new(3, 0, false, false, false);
    let changed = tm.set_region(((0, 0), (1, 1)), fill);
    assert_eq!(changed.len(), 4);
    stack.push(tilemap_op(changed, fill));
    stack.undo(&mut pal, &mut tm);
    assert_eq!(tm.0[0], t1);
    assert_eq!(tm.0[1], Tile::default());
    assert_eq!(tm.0[32], Tile::default());
    assert_eq!(tm.0[33], t2);
}
