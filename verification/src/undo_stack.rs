//! The undo/redo engine: a bounded log of document edits with a cursor,
//! same-slot coalescing for palette edits, and one signed dirty-distance
//! counter per document.
//!
//! A distance of `Some(0)` means the document sits exactly at its last
//! clean (saved) state; any other count, and `None`, mean dirty.  A push
//! first discards the redo tail; a counter that had gone negative (the
//! clean state lay in that tail) becomes `None`, since no sequence of
//! undos or redos can reach the clean state again.  A count that would
//! leave the `i64` range also becomes `None`: the distance is given up
//! rather than wrapped.

use crate::color::Color;
use crate::palette::Palette;
use crate::tilemap::{pos_index, Tile, Tilemap};
use vstd::prelude::*;

verus! {

/// One palette edit: slot `idx` went from `before` to `after`.
#[derive(Clone, Copy, Debug, PartialEq, Eq, Structural)]
pub struct ChangePaletteColor {
    pub idx: u8,
    pub before: Color,
    pub after: Color,
}

impl ChangePaletteColor {
    /// Both colors within channel range.
    pub open spec fn wf(&self) -> bool {
        self.before.wf() && self.after.wf()
    }

    pub fn new(idx: u8, before: Color, after: Color) -> (op: ChangePaletteColor)
        requires
            before.wf(),
            after.wf(),
        ensures
            op == (ChangePaletteColor { idx, before, after }),
            op.wf(),
    {
        ChangePaletteColor { idx, before, after }
    }

    /// Restore the pre-edit color into the palette.
    pub fn undo(&self, palette: &mut Palette) -> (changed: bool)
        requires
            old(palette).wf(),
            self.wf(),
        ensures
            final(palette)@ == old(palette)@.update(self.idx as int, self.before),
            final(palette).wf(),
    {
        palette.set(self.idx, self.before)
    }

    /// Write the post-edit color into the palette.
    pub fn redo(&self, palette: &mut Palette) -> (changed: bool)
        requires
            old(palette).wf(),
            self.wf(),
        ensures
            final(palette)@ == old(palette)@.update(self.idx as int, self.after),
            final(palette).wf(),
    {
        palette.set(self.idx, self.after)
    }
}

/// The before-value an edit recorded for grid position `(x, y)`, searching
/// the most recent entry first.
pub open spec fn diff_lookup(entries: Seq<((usize, usize), Tile)>, x: int, y: int) -> Option<Tile>
    decreases entries.len(),
{
    if entries.len() == 0 {
        Option::None
    } else if entries.last().0.0 == x && entries.last().0.1 == y {
        Option::Some(entries.last().1)
    } else {
        diff_lookup(entries.drop_last(), x, y)
    }
}

/// The cells after restoring every recorded before-value into `tm`.
pub open spec fn cells_restored(entries: Seq<((usize, usize), Tile)>, tm: Seq<Tile>) -> Seq<Tile> {
    Seq::new(
        1024,
        |j: int|
            match diff_lookup(entries, j % 32, j / 32) {
                Option::Some(t) => t,
                Option::None => tm[j],
            },
    )
}

/// The cells after writing `after` at every recorded position of `tm`.
pub open spec fn cells_overwritten(
    entries: Seq<((usize, usize), Tile)>,
    after: Tile,
    tm: Seq<Tile>,
) -> Seq<Tile> {
    Seq::new(
        1024,
        |j: int|
            if diff_lookup(entries, j % 32, j / 32) is Some {
                after
            } else {
                tm[j]
            },
    )
}

/// One tilemap edit: each listed cell went from its own recorded value to
/// the shared `after` value (a rectangle fill or a pen stroke batches many
/// cells into one undo entry).
pub struct ChangeTilemapTile {
    pub before: Vec<((usize, usize), Tile)>,
    pub after: Tile,
}

impl ChangeTilemapTile {
    /// Positions on the grid, values well-formed, each position listed at
    /// most once.
    pub open spec fn wf(&self) -> bool {
        &&& self.after.wf()
        &&& forall|m: int|
            0 <= m < self.before@.len() ==> (#[trigger] self.before@[m]).0.0 < 32
                && self.before@[m].0.1 < 32 && self.before@[m].1.wf()
        &&& forall|m1: int, m2: int|
            0 <= m1 < m2 < self.before@.len() ==> (#[trigger] self.before@[m1]).0 != (
            #[trigger] self.before@[m2]).0
    }

    pub fn new(before: Vec<((usize, usize), Tile)>, after: Tile) -> (op: ChangeTilemapTile)
        requires
            after.wf(),
            forall|m: int|
                0 <= m < before@.len() ==> (#[trigger] before@[m]).0.0 < 32 && before@[m].0.1 < 32
                    && before@[m].1.wf(),
            forall|m1: int, m2: int|
                0 <= m1 < m2 < before@.len() ==> (#[trigger] before@[m1]).0 != (
                #[trigger] before@[m2]).0,
        ensures
            op.before == before,
            op.after == after,
            op.wf(),
    {
        ChangeTilemapTile { before, after }
    }

    /// Restore every recorded before-value into the tilemap.
    pub fn undo(&self, tilemap: &mut Tilemap)
        requires
            old(tilemap).wf(),
            self.wf(),
        ensures
            final(tilemap)@ == cells_restored(self.before@, old(tilemap)@),
            final(tilemap).wf(),
    {
        let count = self.before.len();
        for m in 0..count
            invariant
                count == self.before@.len(),
                self.wf(),
                tilemap@.len() == 1024,
                forall|j: int| 0 <= j < 1024 ==> (#[trigger] tilemap@[j]).wf(),
                forall|j: int|
                    0 <= j < 1024 ==> tilemap@[j] == cells_restored(
                        self.before@.take(m as int),
                        old(tilemap)@,
                    )[j],
        {
            let ((x, y), t) = self.before[m];
            let idx = y * 32 + x;
            assert(idx == pos_index(self.before@[m as int].0));
            tilemap.0[idx] = t;
            proof {
                let taken = self.before@.take(m + 1);
                assert(taken.drop_last() =~= self.before@.take(m as int));
                assert(taken.last() == self.before@[m as int]);
                assert forall|j: int| 0 <= j < 1024 implies tilemap@[j] == cells_restored(
                    taken,
                    old(tilemap)@,
                )[j] by {
                    if j == idx {
                        assert(j % 32 == x && j / 32 == y) by {
                            vstd::arithmetic::div_mod::lemma_fundamental_div_mod_converse(
                                j,
                                32,
                                y as int,
                                x as int,
                            );
                        }
                        assert(diff_lookup(taken, j % 32, j / 32) == Option::Some(t));
                    } else {
                        assert(!(taken.last().0.0 == j % 32 && taken.last().0.1 == j / 32)) by {
                            if x == j % 32 && y == j / 32 {
                                vstd::arithmetic::div_mod::lemma_fundamental_div_mod(j, 32);
                            }
                        }
                        assert(diff_lookup(taken, j % 32, j / 32) == diff_lookup(
                            self.before@.take(m as int),
                            j % 32,
                            j / 32,
                        ));
                    }
                }
            }
        }
        proof {
            assert(self.before@.take(count as int) =~= self.before@);
            assert(tilemap@ =~= cells_restored(self.before@, old(tilemap)@));
        }
    }

    /// Write the shared after-value at every recorded position.
    pub fn redo(&self, tilemap: &mut Tilemap)
        requires
            old(tilemap).wf(),
            self.wf(),
        ensures
            final(tilemap)@ == cells_overwritten(self.before@, self.after, old(tilemap)@),
            final(tilemap).wf(),
    {
        let count = self.before.len();
        for m in 0..count
            invariant
                count == self.before@.len(),
                self.wf(),
                tilemap@.len() == 1024,
                forall|j: int| 0 <= j < 1024 ==> (#[trigger] tilemap@[j]).wf(),
                forall|j: int|
                    0 <= j < 1024 ==> tilemap@[j] == cells_overwritten(
                        self.before@.take(m as int),
                        self.after,
                        old(tilemap)@,
                    )[j],
        {
            let ((x, y), _) = self.before[m];
            let idx = y * 32 + x;
            assert(idx == pos_index(self.before@[m as int].0));
            tilemap.0[idx] = self.after;
            proof {
                let taken = self.before@.take(m + 1);
                assert(taken.drop_last() =~= self.before@.take(m as int));
                assert(taken.last() == self.before@[m as int]);
                assert forall|j: int| 0 <= j < 1024 implies tilemap@[j] == cells_overwritten(
                    taken,
                    self.after,
                    old(tilemap)@,
                )[j] by {
                    if j == idx {
                        assert(j % 32 == x && j / 32 == y) by {
                            vstd::arithmetic::div_mod::lemma_fundamental_div_mod_converse(
                                j,
                                32,
                                y as int,
                                x as int,
                            );
                        }
                        assert(diff_lookup(taken, j % 32, j / 32) is Some);
                    } else {
                        assert(!(taken.last().0.0 == j % 32 && taken.last().0.1 == j / 32)) by {
                            if x == j % 32 && y == j / 32 {
                                vstd::arithmetic::div_mod::lemma_fundamental_div_mod(j, 32);
                            }
                        }
                        assert(diff_lookup(taken, j % 32, j / 32) == diff_lookup(
                            self.before@.take(m as int),
                            j % 32,
                            j / 32,
                        ));
                    }
                }
            }
        }
        proof {
            assert(self.before@.take(count as int) =~= self.before@);
            assert(tilemap@ =~= cells_overwritten(self.before@, self.after, old(tilemap)@));
        }
    }
}

/// A document edit the undo log can hold and replay in either direction.
pub enum Operation {
    ChangePaletteColor(ChangePaletteColor),
    ChangeTilemapTile(ChangeTilemapTile),
}

impl Operation {
    pub open spec fn wf(&self) -> bool {
        match self {
            Operation::ChangePaletteColor(c) => c.wf(),
            Operation::ChangeTilemapTile(t) => t.wf(),
        }
    }

    /// Apply the edit backward against the document it targets.
    pub fn undo(&self, palette: &mut Palette, tilemap: &mut Tilemap)
        requires
            old(palette).wf(),
            old(tilemap).wf(),
            self.wf(),
        ensures
            final(palette).wf(),
            final(tilemap).wf(),
            final(palette)@ == palette_after_op_undo(*self, old(palette)@),
            final(tilemap)@ == tilemap_after_op_undo(*self, old(tilemap)@),
    {
        match self {
            Operation::ChangePaletteColor(c) => {
                c.undo(palette);
            },
            Operation::ChangeTilemapTile(t) => {
                t.undo(tilemap);
            },
        }
    }

    /// Apply the edit forward against the document it targets.
    pub fn redo(&self, palette: &mut Palette, tilemap: &mut Tilemap)
        requires
            old(palette).wf(),
            old(tilemap).wf(),
            self.wf(),
        ensures
            final(palette).wf(),
            final(tilemap).wf(),
            final(palette)@ == palette_after_op_redo(*self, old(palette)@),
            final(tilemap)@ == tilemap_after_op_redo(*self, old(tilemap)@),
    {
        match self {
            Operation::ChangePaletteColor(c) => {
                c.redo(palette);
            },
            Operation::ChangeTilemapTile(t) => {
                t.redo(tilemap);
            },
        }
    }
}

/// The palette after applying `op` backward.
pub open spec fn palette_after_op_undo(op: Operation, pal: Seq<Color>) -> Seq<Color> {
    match op {
        Operation::ChangePaletteColor(c) => pal.update(c.idx as int, c.before),
        Operation::ChangeTilemapTile(_) => pal,
    }
}

/// The palette after applying `op` forward.
pub open spec fn palette_after_op_redo(op: Operation, pal: Seq<Color>) -> Seq<Color> {
    match op {
        Operation::ChangePaletteColor(c) => pal.update(c.idx as int, c.after),
        Operation::ChangeTilemapTile(_) => pal,
    }
}

/// The tilemap after applying `op` backward.
pub open spec fn tilemap_after_op_undo(op: Operation, tm: Seq<Tile>) -> Seq<Tile> {
    match op {
        Operation::ChangePaletteColor(_) => tm,
        Operation::ChangeTilemapTile(t) => cells_restored(t.before@, tm),
    }
}

/// The tilemap after applying `op` forward.
pub open spec fn tilemap_after_op_redo(op: Operation, tm: Seq<Tile>) -> Seq<Tile> {
    match op {
        Operation::ChangePaletteColor(_) => tm,
        Operation::ChangeTilemapTile(t) => cells_overwritten(t.before@, t.after, tm),
    }
}

/// Capacity of the undo log; the oldest entry is evicted beyond it.
pub const MAX_LOG: usize = usize::MAX / 4;

/// The abstract state of the undo engine: the logged operations, the
/// cursor (how many of them are currently applied), and the two
/// dirty-distance counters.
#[verifier::ext_equal]
pub struct LogState {
    pub log: Seq<Operation>,
    pub cursor: int,
    pub palette_distance: Option<i64>,
    pub tilemap_distance: Option<i64>,
}

/// A distance counter reports dirty unless it is exactly `Some(0)`.
pub open spec fn spec_dirty(d: Option<i64>) -> bool {
    d != Option::Some(0i64)
}

/// A negative distance marks a clean state that lives in the redo tail; a
/// push discards that tail, so the counter becomes unknowable.
pub open spec fn forget_negative(d: Option<i64>) -> Option<i64> {
    match d {
        Option::Some(n) => if n < 0 {
            Option::None
        } else {
            Option::Some(n)
        },
        Option::None => Option::None,
    }
}

/// Distance after one more applied operation; a count that would leave the
/// `i64` range is given up instead of wrapped.
pub open spec fn bump_up(d: Option<i64>) -> Option<i64> {
    match d {
        Option::Some(n) => if n == i64::MAX {
            Option::None
        } else {
            Option::Some((n + 1) as i64)
        },
        Option::None => Option::None,
    }
}

/// Distance after one operation taken back.
pub open spec fn bump_down(d: Option<i64>) -> Option<i64> {
    match d {
        Option::Some(n) => if n == i64::MIN {
            Option::None
        } else {
            Option::Some((n - 1) as i64)
        },
        Option::None => Option::None,
    }
}

/// Whether `op` merges into the last logged entry instead of appending:
/// both must edit the same palette slot and the palette must still be
/// dirty (no clean mark since the earlier edit).
pub open spec fn can_coalesce(log: Seq<Operation>, op: Operation, palette_distance: Option<
    i64,
>) -> bool {
    log.len() > 0 && spec_dirty(palette_distance) && match (log.last(), op) {
        (Operation::ChangePaletteColor(prev), Operation::ChangePaletteColor(next)) => prev.idx
            == next.idx,
        _ => false,
    }
}

/// The merged entry: the earlier `before` with the later `after`.
pub open spec fn coalesced(prev: Operation, next: Operation) -> Operation {
    match (prev, next) {
        (Operation::ChangePaletteColor(p), Operation::ChangePaletteColor(n)) => {
            Operation::ChangePaletteColor(
                ChangePaletteColor { idx: p.idx, before: p.before, after: n.after },
            )
        },
        _ => next,
    }
}

/// The engine state after pushing `op`: the redo tail is discarded and a
/// negative counter forgotten, then `op` either coalesces into the last
/// entry or is appended (evicting the oldest entry when the log is full,
/// in which case the cursor stays at the new effective length).
pub open spec fn spec_push(s: LogState, op: Operation) -> LogState {
    let log = s.log.take(s.cursor);
    let pd = forget_negative(s.palette_distance);
    let td = forget_negative(s.tilemap_distance);
    if can_coalesce(log, op, pd) {
        LogState {
            log: log.update(log.len() - 1, coalesced(log.last(), op)),
            cursor: s.cursor,
            palette_distance: pd,
            tilemap_distance: td,
        }
    } else {
        let pd2 = if op is ChangePaletteColor {
            bump_up(pd)
        } else {
            pd
        };
        let td2 = if op is ChangeTilemapTile {
            bump_up(td)
        } else {
            td
        };
        if log.len() >= MAX_LOG {
            LogState {
                log: log.drop_first().push(op),
                cursor: s.cursor,
                palette_distance: pd2,
                tilemap_distance: td2,
            }
        } else {
            LogState {
                log: log.push(op),
                cursor: s.cursor + 1,
                palette_distance: pd2,
                tilemap_distance: td2,
            }
        }
    }
}

/// The engine state after one undo: a no-op at cursor 0, otherwise the
/// cursor steps back over the entry and the matching counter goes down.
pub open spec fn spec_undo(s: LogState) -> LogState {
    if s.cursor <= 0 {
        s
    } else {
        let op = s.log[s.cursor - 1];
        LogState {
            log: s.log,
            cursor: s.cursor - 1,
            palette_distance: if op is ChangePaletteColor {
                bump_down(s.palette_distance)
            } else {
                s.palette_distance
            },
            tilemap_distance: if op is ChangeTilemapTile {
                bump_down(s.tilemap_distance)
            } else {
                s.tilemap_distance
            },
        }
    }
}

/// The engine state after one redo: a no-op at the end of the log,
/// otherwise the cursor steps forward over the entry and the matching
/// counter goes up.
pub open spec fn spec_redo(s: LogState) -> LogState {
    if s.cursor >= s.log.len() {
        s
    } else {
        let op = s.log[s.cursor];
        LogState {
            log: s.log,
            cursor: s.cursor + 1,
            palette_distance: if op is ChangePaletteColor {
                bump_up(s.palette_distance)
            } else {
                s.palette_distance
            },
            tilemap_distance: if op is ChangeTilemapTile {
                bump_up(s.tilemap_distance)
            } else {
                s.tilemap_distance
            },
        }
    }
}

/// The palette after one undo from `s`.
pub open spec fn palette_after_undo(s: LogState, pal: Seq<Color>) -> Seq<Color> {
    if s.cursor <= 0 {
        pal
    } else {
        palette_after_op_undo(s.log[s.cursor - 1], pal)
    }
}

/// The tilemap after one undo from `s`.
pub open spec fn tilemap_after_undo(s: LogState, tm: Seq<Tile>) -> Seq<Tile> {
    if s.cursor <= 0 {
        tm
    } else {
        tilemap_after_op_undo(s.log[s.cursor - 1], tm)
    }
}

/// The palette after one redo from `s`.
pub open spec fn palette_after_redo(s: LogState, pal: Seq<Color>) -> Seq<Color> {
    if s.cursor >= s.log.len() {
        pal
    } else {
        palette_after_op_redo(s.log[s.cursor], pal)
    }
}

/// The tilemap after one redo from `s`.
pub open spec fn tilemap_after_redo(s: LogState, tm: Seq<Tile>) -> Seq<Tile> {
    if s.cursor >= s.log.len() {
        tm
    } else {
        tilemap_after_op_redo(s.log[s.cursor], tm)
    }
}

/// The operation log of an editing session, with its cursor and the two
/// per-document dirty-distance counters.  Despite the name it is a bounded
/// double-ended log, not a pure stack: pushing past the capacity evicts
/// the oldest entry.
pub struct UndoStack {
    pub stack: Vec<Operation>,
    pub curr: usize,
    pub palette_distance: Option<i64>,
    pub tilemap_distance: Option<i64>,
}

impl View for UndoStack {
    type V = LogState;

    open spec fn view(&self) -> LogState {
        LogState {
            log: self.stack@,
            cursor: self.curr as int,
            palette_distance: self.palette_distance,
            tilemap_distance: self.tilemap_distance,
        }
    }
}

fn distance_up(d: Option<i64>) -> (r: Option<i64>)
    ensures
        r == bump_up(d),
{
    match d {
        Option::Some(n) => if n == i64::MAX {
            None
        } else {
            Some(n + 1)
        },
        Option::None => None,
    }
}

fn distance_down(d: Option<i64>) -> (r: Option<i64>)
    ensures
        r == bump_down(d),
{
    match d {
        Option::Some(n) => if n == i64::MIN {
            None
        } else {
            Some(n - 1)
        },
        Option::None => None,
    }
}

impl UndoStack {
    /// The cursor never passes the end of the log and every logged entry
    /// is well-formed.
    pub open spec fn wf(&self) -> bool {
        self.curr <= self.stack@.len() && forall|m: int|
            0 <= m < self.stack@.len() ==> (#[trigger] self.stack@[m]).wf()
    }

    /// Establish the clean baselines of both documents, as at the start of
    /// an editing session.
    pub fn init(&mut self)
        ensures
            final(self)@ == (LogState {
                palette_distance: Option::Some(0i64),
                tilemap_distance: Option::Some(0i64),
                ..old(self)@
            }),
            old(self).wf() ==> final(self).wf(),
    {
        self.palette_distance = Some(0);
        self.tilemap_distance = Some(0);
    }

    /// Empty the log and reset the cursor, as when a new file replaces a
    /// document and the old history no longer applies.  The dirty
    /// distances are untouched: clearing history does not save anything.
    pub fn clear(&mut self)
        ensures
            final(self)@ == (LogState { log: Seq::empty(), cursor: 0, ..old(self)@ }),
            final(self).wf(),
    {
        self.stack.clear();
        self.curr = 0;
        proof {
            assert(final(self)@.log =~= Seq::<Operation>::empty());
        }
    }

    /// Record one operation: discard the redo tail, then coalesce it into
    /// the last entry (same palette slot, still dirty) or append it.
    pub fn push(&mut self, op: Operation)
        requires
            old(self).wf(),
            op.wf(),
        ensures
            final(self).wf(),
            final(self)@ == spec_push(old(self)@, op),
    {
        let ghost s0 = old(self)@;
        self.stack.truncate(self.curr);
        if matches!(self.palette_distance, Some(n) if n < 0) {
            self.palette_distance = None;
        }
        if matches!(self.tilemap_distance, Some(n) if n < 0) {
            self.tilemap_distance = None;
        }
        proof {
            assert(self.stack@ =~= s0.log.take(s0.cursor));
            assert(self.palette_distance == forget_negative(s0.palette_distance));
            assert(self.tilemap_distance == forget_negative(s0.tilemap_distance));
        }
        let len = self.stack.len();
        let dirty = self.palette_dirty();
        let mut merge_target: Option<(u8, Color, Color)> = None;
        if len > 0 && dirty {
            if let Operation::ChangePaletteColor(prev) = &self.stack[len - 1] {
                if let Operation::ChangePaletteColor(next) = &op {
                    if prev.idx == next.idx {
                        merge_target = Some((prev.idx, prev.before, next.after));
                    }
                }
            }
        }
        match merge_target {
            Some((idx, before, after)) => {
                assert(can_coalesce(self.stack@, op, self.palette_distance));
                self.stack[len - 1] =
                Operation::ChangePaletteColor(ChangePaletteColor { idx, before, after });
                proof {
                    assert(final(self)@.log =~= spec_push(s0, op).log);
                    assert(final(self)@ =~= spec_push(s0, op));
                }
            },
            None => {
                assert(!can_coalesce(self.stack@, op, self.palette_distance));
                match &op {
                    Operation::ChangePaletteColor(_) => {
                        self.palette_distance = distance_up(self.palette_distance);
                    },
                    Operation::ChangeTilemapTile(_) => {
                        self.tilemap_distance = distance_up(self.tilemap_distance);
                    },
                }
                if len >= MAX_LOG {
                    self.stack.remove(0);
                    self.stack.push(op);
                    proof {
                        assert(final(self)@.log =~= spec_push(s0, op).log);
                        assert(final(self)@ =~= spec_push(s0, op));
                    }
                } else {
                    self.stack.push(op);
                    self.curr = len + 1;
                    proof {
                        assert(final(self)@.log =~= spec_push(s0, op).log);
                        assert(final(self)@ =~= spec_push(s0, op));
                    }
                }
            },
        }
    }

    /// Take back the operation before the cursor, restoring its recorded
    /// before-values into the matching document.  At cursor 0 there is
    /// nothing to undo: the call is a no-op and does not fail.
    pub fn undo(&mut self, palette: &mut Palette, tilemap: &mut Tilemap)
        requires
            old(self).wf(),
            old(palette).wf(),
            old(tilemap).wf(),
        ensures
            final(self).wf(),
            final(palette).wf(),
            final(tilemap).wf(),
            final(self)@ == spec_undo(old(self)@),
            final(palette)@ == palette_after_undo(old(self)@, old(palette)@),
            final(tilemap)@ == tilemap_after_undo(old(self)@, old(tilemap)@),
            old(self)@.cursor == 0 ==> final(self)@ == old(self)@
                && final(palette)@ == old(palette)@
                && final(tilemap)@ == old(tilemap)@,
    {
        if self.curr == 0 {
            return ;
        }
        let i = self.curr - 1;
        let is_palette: bool;
        match &self.stack[i] {
            Operation::ChangePaletteColor(c) => {
                c.undo(palette);
                is_palette = true;
            },
            Operation::ChangeTilemapTile(t) => {
                t.undo(tilemap);
                is_palette = false;
            },
        }
        if is_palette {
            self.palette_distance = distance_down(self.palette_distance);
        } else {
            self.tilemap_distance = distance_down(self.tilemap_distance);
        }
        self.curr = i;
    }

    /// Re-apply the operation at the cursor, writing its after-values into
    /// the matching document.  At the end of the log there is nothing to
    /// redo: the call is a no-op and does not fail.
    pub fn redo(&mut self, palette: &mut Palette, tilemap: &mut Tilemap)
        requires
            old(self).wf(),
            old(palette).wf(),
            old(tilemap).wf(),
        ensures
            final(self).wf(),
            final(palette).wf(),
            final(tilemap).wf(),
            final(self)@ == spec_redo(old(self)@),
            final(palette)@ == palette_after_redo(old(self)@, old(palette)@),
            final(tilemap)@ == tilemap_after_redo(old(self)@, old(tilemap)@),
            old(self)@.cursor == old(self)@.log.len() ==> final(self)@ == old(self)@
                && final(palette)@ == old(palette)@
                && final(tilemap)@ == old(tilemap)@,
    {
        if self.curr >= self.stack.len() {
            return ;
        }
        let i = self.curr;
        let is_palette: bool;
        match &self.stack[i] {
            Operation::ChangePaletteColor(c) => {
                c.redo(palette);
                is_palette = true;
            },
            Operation::ChangeTilemapTile(t) => {
                t.redo(tilemap);
                is_palette = false;
            },
        }
        if is_palette {
            self.palette_distance = distance_up(self.palette_distance);
        } else {
            self.tilemap_distance = distance_up(self.tilemap_distance);
        }
        self.curr = i + 1;
    }

    /// Whether the palette differs from its last saved state (or no saved
    /// state is reachable).
    pub fn palette_dirty(&self) -> (r: bool)
        ensures
            r == spec_dirty(self@.palette_distance),
    {
        !matches!(self.palette_distance, Some(0))
    }

    /// Record that the palette was just saved: it is clean here.
    pub fn mark_palette_clean(&mut self)
        ensures
            final(self)@ == (LogState { palette_distance: Option::Some(0i64), ..old(self)@ }),
            old(self).wf() ==> final(self).wf(),
    {
        self.palette_distance = Some(0);
    }

    /// Whether the tilemap differs from its last saved state (or no saved
    /// state is reachable).
    pub fn tilemap_dirty(&self) -> (r: bool)
        ensures
            r == spec_dirty(self@.tilemap_distance),
    {
        !matches!(self.tilemap_distance, Some(0))
    }

    /// Record that the tilemap was just saved: it is clean here.
    pub fn mark_tilemap_clean(&mut self)
        ensures
            final(self)@ == (LogState { tilemap_distance: Option::Some(0i64), ..old(self)@ }),
            old(self).wf() ==> final(self).wf(),
    {
        self.tilemap_distance = Some(0);
    }
}

impl Default for UndoStack {
    /// An empty log with no clean baseline yet: both documents report
    /// dirty until `init` or a clean mark establishes one.
    fn default() -> (s: UndoStack)
        ensures
            s@.log.len() == 0,
            s@.cursor == 0,
            s@.palette_distance is None,
            s@.tilemap_distance is None,
            s.wf(),
    {
        UndoStack { stack: Vec::new(), curr: 0, palette_distance: None, tilemap_distance: None }
    }
}

/// Law: from an empty log, pushing an edit of one palette slot and then a
/// second edit of the same slot, with no clean mark in between, leaves
/// exactly one log entry, carrying the first edit's before-value and the
/// second edit's after-value; a single undo from that state steps the
/// cursor back to 0 and restores the first before-value at that slot.
pub proof fn lemma_palette_coalescing(
    s: LogState,
    idx: u8,
    a: Color,
    b: Color,
    c: Color,
    pal: Seq<Color>,
)
    requires
        s.log.len() == 0,
        s.cursor == 0,
    ensures
        ({
            let s1 = spec_push(s, Operation::ChangePaletteColor(ChangePaletteColor { idx, before: a, after: b }));
            let s2 = spec_push(s1, Operation::ChangePaletteColor(ChangePaletteColor { idx, before: b, after: c }));
            &&& s2.log =~= seq![Operation::ChangePaletteColor(ChangePaletteColor { idx, before: a, after: c })]
            &&& s2.cursor == 1
            &&& spec_undo(s2).cursor == 0
            &&& palette_after_undo(s2, pal) == pal.update(idx as int, a)
        }),
{
    let op1 = Operation::ChangePaletteColor(ChangePaletteColor { idx, before: a, after: b });
    let op2 = Operation::ChangePaletteColor(ChangePaletteColor { idx, before: b, after: c });
    let log0 = s.log.take(s.cursor);
    assert(log0 =~= Seq::<Operation>::empty());
    assert(!can_coalesce(log0, op1, forget_negative(s.palette_distance)));
    let s1 = spec_push(s, op1);
    assert(s1.log =~= seq![op1]);
    assert(s1.cursor == 1);
    assert(spec_dirty(s1.palette_distance));
    let log1 = s1.log.take(s1.cursor);
    assert(log1 =~= seq![op1]);
    assert(can_coalesce(log1, op2, forget_negative(s1.palette_distance)));
    let s2 = spec_push(s1, op2);
    assert(s2.log =~= seq![Operation::ChangePaletteColor(
        ChangePaletteColor { idx, before: a, after: c },
    )]);
}

} // verus!
