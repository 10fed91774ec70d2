//! Laws on what an edit leaves at any one place of a sheet: in the graph, among the staged
//! texts, in the store and in the overlay over it.

use crate::cells::{
    after_delta, after_logged_formula, after_old_state, after_sheet, after_value_edit, formula_run,
    plain_formula_run, sheet_of, value_run, SetFormulaReplies, SetValueReplies,
};
use crate::engine::{
    cell_at, formula_of, CellRef, EngineEvent, EngineFlags, WorkbookEngine,
};
use crate::error::{ExcelError, IoError};
use crate::formula::{parsed_formula, parsed_text};
use crate::laws_action::signed;
use crate::laws_grid::law_signed_formulas_are_parsed;
use crate::laws_values::tells;
use crate::store::{after_capacity, after_mirror, CapacityReplies, MirrorReplies};
use crate::value::{LiteralValue, OverlayValue};
use crate::workbook::Workbook;
use vstd::prelude::*;

verus! {

/// A place of a sheet, by its row and column counted from one, and what is in force: the
/// sheet has the id `id`, and the engine the flags `flags`.
pub struct Place {
    pub sheet: Seq<char>,
    pub id: u32,
    pub row: u32,
    pub col: u32,
    pub flags: EngineFlags,
}

/// What the graph and the staged texts hold at a place.
pub struct Spot {
    pub value: Option<LiteralValue>,
    pub tree: Option<formualizer_parse::ASTNode>,
    pub text: Option<Seq<char>>,
    /// Whether the graph holds the cell.
    pub held: bool,
    /// How often the data was marked as edited.
    pub marks: nat,
    /// Whether an edit is open.
    pub open: bool,
    /// Whether every answer was the true one.
    pub truth: bool,
    /// Whether edits were made in an open edit only.
    pub sound: bool,
}

/// What the store has of a sheet.
pub struct Room {
    pub stored: bool,
    pub rows: int,
    pub columns: int,
    /// Whether every answer was the true one.
    pub truth: bool,
    /// Whether columns were added behind the last one only, and sheets in chunks of 32768
    /// rows.
    pub sound: bool,
}

/// What is laid over the store at a place.
pub struct Overlay {
    pub value: Option<OverlayValue>,
    /// The row, counted from zero, that the store was last asked for, and its chunk and
    /// offset.
    pub found: Option<(int, usize, usize)>,
    /// Whether every answer was the true one, and the store had a chunk for each cell.
    pub truth: bool,
    /// Whether values were laid at the place that was asked for only.
    pub sound: bool,
}

/// Whether a cell of the graph is the one at the place.
pub open spec fn is_at(k: Place, cell: CellRef) -> bool {
    cell.sheet_id == k.id && cell.row + 1 == k.row && cell.col + 1 == k.col
}

/// Whether a call speaks of the place.
pub open spec fn at(k: Place, sheet: Seq<char>, row: u32, col: u32) -> bool {
    sheet == k.sheet && row == k.row && col == k.col
}

/// The spot with a value, where it is `here`.
pub open spec fn put_value(z: Spot, here: bool, value: LiteralValue) -> Spot {
    if here {
        Spot { value: Some(value), tree: None, held: true, ..z }
    } else {
        z
    }
}

/// The spot with a formula, where it is `here`.
pub open spec fn put_tree(z: Spot, here: bool, tree: formualizer_parse::ASTNode) -> Spot {
    if here {
        Spot { value: None, tree: Some(tree), held: true, ..z }
    } else {
        z
    }
}

/// The spot after an edit, which must be open.
pub open spec fn in_edit(z: Spot) -> Spot {
    Spot { sound: z.sound && z.open, ..z }
}

/// The spot after one more call.
pub open spec fn spot_step<E: WorkbookEngine>(z: Spot, k: Place, e: EngineEvent<E>) -> Spot {
    match e {
        EngineEvent::Flags { reply } => Spot { truth: z.truth && reply == k.flags, ..z },
        EngineEvent::SheetId { name, reply } => Spot {
            truth: z.truth && (name == k.sheet && reply is Some ==> reply->0 == k.id),
            ..z
        },
        EngineEvent::MustAddSheet { name, reply } => Spot {
            truth: z.truth && (name == k.sheet ==> reply == k.id),
            ..z
        },
        EngineEvent::GetCell { sheet, row, col, reply } => Spot {
            truth: z.truth && (at(k, sheet, row, col) ==> (reply is Some) == z.held),
            ..z
        },
        EngineEvent::SetCellValue { sheet, row, col, value, reply } => put_value(
            z,
            at(k, sheet, row, col) && reply is Ok,
            value,
        ),
        EngineEvent::SetCellFormula { sheet, row, col, tree, reply } => put_tree(
            z,
            at(k, sheet, row, col) && reply is Ok,
            tree,
        ),
        EngineEvent::MarkDataEdited => Spot { marks: z.marks + 1, ..z },
        EngineEvent::StagedFormulaText { sheet, row, col, reply } => Spot {
            truth: z.truth && (at(k, sheet, row, col) ==> reply == z.text),
            ..z
        },
        EngineEvent::StageFormulaText { sheet, row, col, formula } => if at(k, sheet, row, col) {
            Spot { text: Some(formula), ..z }
        } else {
            z
        },
        EngineEvent::ClearStagedFormulaText { sheet, row, col } => if at(k, sheet, row, col) {
            Spot { text: None, ..z }
        } else {
            z
        },
        EngineEvent::EditBegin => Spot { open: true, ..z },
        EngineEvent::EditEnd => Spot { open: false, ..z },
        EngineEvent::EditSetValue { cell, value } => put_value(in_edit(z), is_at(k, cell), value),
        EngineEvent::EditSetValueWithOldState { cell, value, old_value, old_formula } =>
            put_value(in_edit(z), is_at(k, cell), value),
        EngineEvent::EditSetFormula { cell, tree } => put_tree(in_edit(z), is_at(k, cell), tree),
        EngineEvent::EditSetFormulaWithOldState { cell, tree, old_value, old_formula } => put_tree(
            in_edit(z),
            is_at(k, cell),
            tree,
        ),
        _ => z,
    }
}

/// The room after one more call.
pub open spec fn room_step<E: WorkbookEngine>(z: Room, name: Seq<char>, e: EngineEvent<E>) -> Room {
    match e {
        EngineEvent::HasStoreSheet { sheet, reply } => Room {
            truth: z.truth && (sheet == name ==> reply == z.stored),
            ..z
        },
        EngineEvent::StoreRows { sheet, reply } => Room {
            truth: z.truth && (sheet == name ==> reply == z.rows),
            ..z
        },
        EngineEvent::StoreColumns { sheet, reply } => Room {
            truth: z.truth && (sheet == name ==> reply == z.columns),
            ..z
        },
        EngineEvent::PushStoreSheet { sheet, chunk_rows } => if sheet == name {
            Room {
                stored: true,
                rows: 0,
                columns: 0,
                sound: z.sound && chunk_rows == 32768,
                ..z
            }
        } else {
            z
        },
        EngineEvent::EnsureStoreRows { sheet, rows } => if sheet == name && rows > z.rows {
            Room { rows: rows as int, ..z }
        } else {
            z
        },
        EngineEvent::InsertStoreColumns { sheet, at, count } => if sheet == name {
            Room { columns: z.columns + count, sound: z.sound && at == z.columns, ..z }
        } else {
            z
        },
        _ => z,
    }
}

/// What is laid over the store after one more call.
pub open spec fn overlay_step<E: WorkbookEngine>(
    z: Overlay,
    k: Place,
    e: EngineEvent<E>,
) -> Overlay {
    match e {
        EngineEvent::Flags { reply } => Overlay { truth: z.truth && reply == k.flags, ..z },
        EngineEvent::ChunkOfRow { sheet, row0, reply } => if sheet == k.sheet {
            match reply {
                Some((chunk, offset)) => Overlay {
                    found: Some((row0 as int, chunk, offset)),
                    ..z
                },
                None => Overlay { truth: false, ..z },
            }
        } else {
            z
        },
        EngineEvent::EnsureColumnChunk { sheet, col0, chunk, reply } => Overlay {
            truth: z.truth && (sheet == k.sheet ==> reply),
            ..z
        },
        EngineEvent::SetOverlay { sheet, col0, chunk, offset, value } => if sheet == k.sheet {
            Overlay {
                value: if z.found is Some && (z.found->0).0 + 1 == k.row && col0 + 1 == k.col {
                    Some(value)
                } else {
                    z.value
                },
                sound: z.sound && z.found is Some && (z.found->0).1 == chunk && (z.found->0).2
                    == offset,
                ..z
            }
        } else {
            z
        },
        _ => z,
    }
}

/// The spot `z` after the calls of `h` behind the first `from`.
pub open spec fn spot<E: WorkbookEngine>(
    z: Spot,
    k: Place,
    h: Seq<EngineEvent<E>>,
    from: int,
) -> Spot
    decreases h.len(),
{
    if h.len() <= from || h.len() == 0 {
        z
    } else {
        spot_step(spot(z, k, h.drop_last(), from), k, h.last())
    }
}

/// The room `z` after the calls of `h` behind the first `from`.
pub open spec fn room<E: WorkbookEngine>(
    z: Room,
    name: Seq<char>,
    h: Seq<EngineEvent<E>>,
    from: int,
) -> Room
    decreases h.len(),
{
    if h.len() <= from || h.len() == 0 {
        z
    } else {
        room_step(room(z, name, h.drop_last(), from), name, h.last())
    }
}

/// What is laid over the store after the calls of `h` behind the first `from`.
pub open spec fn overlay<E: WorkbookEngine>(
    z: Overlay,
    k: Place,
    h: Seq<EngineEvent<E>>,
    from: int,
) -> Overlay
    decreases h.len(),
{
    if h.len() <= from || h.len() == 0 {
        z
    } else {
        overlay_step(overlay(z, k, h.drop_last(), from), k, h.last())
    }
}

pub broadcast proof fn lemma_spot_push<E: WorkbookEngine>(
    z: Spot,
    k: Place,
    h: Seq<EngineEvent<E>>,
    e: EngineEvent<E>,
    from: int,
)
    requires
        0 <= from <= h.len(),
    ensures
        #[trigger] spot(z, k, h.push(e), from) == spot_step(spot(z, k, h, from), k, e),
{
    assert(h.push(e).drop_last() =~= h);
}

pub broadcast proof fn lemma_room_push<E: WorkbookEngine>(
    z: Room,
    name: Seq<char>,
    h: Seq<EngineEvent<E>>,
    e: EngineEvent<E>,
    from: int,
)
    requires
        0 <= from <= h.len(),
    ensures
        #[trigger] room(z, name, h.push(e), from) == room_step(room(z, name, h, from), name, e),
{
    assert(h.push(e).drop_last() =~= h);
}

pub broadcast proof fn lemma_overlay_push<E: WorkbookEngine>(
    z: Overlay,
    k: Place,
    h: Seq<EngineEvent<E>>,
    e: EngineEvent<E>,
    from: int,
)
    requires
        0 <= from <= h.len(),
    ensures
        #[trigger] overlay(z, k, h.push(e), from) == overlay_step(
            overlay(z, k, h, from),
            k,
            e,
        ),
{
    assert(h.push(e).drop_last() =~= h);
}

/// The larger of two numbers.
pub open spec fn larger(a: int, b: int) -> int {
    if a > b {
        a
    } else {
        b
    }
}

/// Whether the store has the sheet at `end`, with room for `rows` rows and `columns`
/// columns, and no more than that and what there was at `z`. Columns were added behind the
/// last one only.
pub open spec fn has_room(z: Room, end: Room, rows: int, columns: int) -> bool {
    &&& end.stored
    &&& end.rows == larger(rows, if z.stored {
        z.rows
    } else {
        0
    })
    &&& end.columns == larger(columns, if z.stored {
        z.columns
    } else {
        0
    })
    &&& z.sound ==> end.sound
}

/// Whether the graph and the staged texts hold this at a spot.
pub open spec fn holds(
    z: Spot,
    value: Option<LiteralValue>,
    tree: Option<formualizer_parse::ASTNode>,
    text: Option<Seq<char>>,
) -> bool {
    z.value == value && z.tree == tree && z.text == text
}

/// Whether values are laid over the store.
pub open spec fn overlays(k: Place) -> bool {
    k.flags.arrow_storage_enabled && k.flags.delta_overlay_enabled
}

/// Whether `value` was laid over the store between `z` and `end`, or nothing where there is
/// no value.
pub open spec fn laid_over(
    k: Place,
    z: Overlay,
    end: Overlay,
    value: Option<LiteralValue>,
) -> bool {
    &&& z.sound ==> end.sound
    &&& match value {
        None => end.value == z.value,
        Some(v) => end.value is Some && tells(end.value->0, v, k.flags.date_system),
    }
}

pub proof fn lemma_capacity<E: WorkbookEngine>(
    z: Spot,
    y: Room,
    x: Overlay,
    k: Place,
    h: Seq<EngineEvent<E>>,
    from: int,
    rows: int,
    columns: int,
    r: CapacityReplies,
)
    requires
        0 <= from <= h.len(),
        0 <= rows <= u32::MAX,
        0 <= columns <= u32::MAX,
    ensures
        after_capacity(h, k.sheet, rows, columns, r).len() >= h.len(),
        spot(z, k, after_capacity(h, k.sheet, rows, columns, r), from) == spot(z, k, h, from),
        overlay(x, k, after_capacity(h, k.sheet, rows, columns, r), from) == overlay(
            x,
            k,
            h,
            from,
        ),
        ({
            let before = room(y, k.sheet, h, from);
            let after = room(y, k.sheet, after_capacity(h, k.sheet, rows, columns, r), from);
            after.truth ==> before.truth && has_room(before, after, rows, columns)
        }),
{
    assert(spot(z, k, after_capacity(h, k.sheet, rows, columns, r), from) == spot(z, k, h, from))
        by {
        broadcast use lemma_spot_push;

    }
    assert(overlay(x, k, after_capacity(h, k.sheet, rows, columns, r), from) == overlay(
        x,
        k,
        h,
        from,
    )) by {
        broadcast use lemma_overlay_push;

    }
    lemma_room_made(y, h, k.sheet, from, rows, columns, r);
}

/// Making room in the store makes just the room that is asked for.
pub proof fn lemma_room_made<E: WorkbookEngine>(
    y: Room,
    h: Seq<EngineEvent<E>>,
    sheet: Seq<char>,
    from: int,
    rows: int,
    columns: int,
    r: CapacityReplies,
)
    requires
        0 <= from <= h.len(),
        0 <= rows <= u32::MAX,
        0 <= columns <= u32::MAX,
    ensures
        ({
            let before = room(y, sheet, h, from);
            let after = room(y, sheet, after_capacity(h, sheet, rows, columns, r), from);
            after.truth ==> before.truth && has_room(before, after, rows, columns)
        }),
{
    broadcast use lemma_room_push;

}

pub proof fn lemma_mirror<E: WorkbookEngine>(
    z: Spot,
    y: Room,
    x: Overlay,
    k: Place,
    h: Seq<EngineEvent<E>>,
    from: int,
    row: u32,
    col: u32,
    value: LiteralValue,
    r: MirrorReplies,
)
    requires
        0 <= from <= h.len(),
        row >= 1,
        col >= 1,
    ensures
        after_mirror(h, k.sheet, row, col, value, r).len() >= h.len(),
        ({
            let before = spot(z, k, h, from);
            let after = spot(z, k, after_mirror(h, k.sheet, row, col, value, r), from);
            after == (Spot { truth: before.truth && r.flags == k.flags, ..before })
        }),
        ({
            let before = room(y, k.sheet, h, from);
            let after = room(y, k.sheet, after_mirror(h, k.sheet, row, col, value, r), from);
            &&& r.flags == k.flags && overlays(k) && after.truth ==> before.truth && has_room(
                before,
                after,
                row as int,
                col as int,
            )
            &&& r.flags == k.flags && !overlays(k) ==> after == before
        }),
        ({
            let before = overlay(x, k, h, from);
            let after = overlay(x, k, after_mirror(h, k.sheet, row, col, value, r), from);
            after.truth ==> before.truth && r.flags == k.flags && laid_over(
                k,
                before,
                after,
                if overlays(k) && row == k.row && col == k.col {
                    Some(value)
                } else {
                    None
                },
            )
        }),
{
    let asked = h.push(EngineEvent::Flags { reply: r.flags });
    assert(asked.len() >= from);
    lemma_capacity(z, y, x, k, asked, from, row as int, col as int, r.capacity);
    let roomy = after_capacity(asked, k.sheet, row as int, col as int, r.capacity);
    let end = after_mirror(h, k.sheet, row, col, value, r);
    assert(({
        let before = spot(z, k, h, from);
        let after = spot(z, k, end, from);
        after == (Spot { truth: before.truth && r.flags == k.flags, ..before })
    })) by {
        broadcast use lemma_spot_push;

    }
    assert(({
        let before = room(y, k.sheet, h, from);
        let after = room(y, k.sheet, end, from);
        &&& r.flags == k.flags && overlays(k) && after.truth ==> before.truth && has_room(
            before,
            after,
            row as int,
            col as int,
        )
        &&& r.flags == k.flags && !overlays(k) ==> after == before
    })) by {
        broadcast use lemma_room_push;

    }
    broadcast use lemma_overlay_push;

}

/// What stands at a place, and what there is for it.
pub struct Sheet {
    pub spot: Spot,
    pub room: Room,
    pub overlay: Overlay,
}

/// What `s` is after the calls of `h` behind the first `from`.
pub open spec fn sheet_after<E: WorkbookEngine>(
    s: Sheet,
    k: Place,
    h: Seq<EngineEvent<E>>,
    from: int,
) -> Sheet {
    Sheet {
        spot: spot(s.spot, k, h, from),
        room: room(s.room, k.sheet, h, from),
        overlay: overlay(s.overlay, k, h, from),
    }
}

/// Whether every answer was the true one.
pub open spec fn truthful(s: Sheet) -> bool {
    s.spot.truth && s.room.truth && s.overlay.truth
}

/// How often the data is marked as edited by a change of the graph.
pub open spec fn marks_of(logged: bool) -> nat {
    if logged {
        1
    } else {
        0
    }
}

/// Whether `e` is what a setting of a value leaves of `s`.
pub open spec fn value_left(
    s: Sheet,
    e: Sheet,
    k: Place,
    logged: bool,
    row: u32,
    col: u32,
    value: LiteralValue,
) -> bool {
    let here = k.row == row && k.col == col;
    &&& has_room(s.room, e.room, row as int, col as int)
    &&& e.spot.marks == s.spot.marks + marks_of(logged)
    &&& s.spot.sound ==> e.spot.sound
    &&& here ==> holds(e.spot, Some(value), None, None)
    &&& !here ==> holds(e.spot, s.spot.value, s.spot.tree, s.spot.text)
    &&& laid_over(
        k,
        s.overlay,
        e.overlay,
        if here && logged && overlays(k) {
            Some(value)
        } else {
            None
        },
    )
}

/// See [`value_left`].
pub proof fn lemma_value_left<E: WorkbookEngine>(
    s: Sheet,
    k: Place,
    h: Seq<EngineEvent<E>>,
    from: int,
    logged: bool,
    row: u32,
    col: u32,
    value: LiteralValue,
    replies: SetValueReplies,
)
    requires
        0 <= from <= h.len(),
        row >= 1,
        col >= 1,
        k.row >= 1,
        k.col >= 1,
        value_run(h, logged, k.sheet, row, col, value, replies).outcome is Ok,
    ensures
        ({
            let run = value_run(h, logged, k.sheet, row, col, value, replies);
            let b = sheet_after(s, k, h, from);
            let e = sheet_after(s, k, run.history, from);
            &&& run.history.len() >= h.len()
            &&& truthful(e) ==> truthful(b) && value_left(b, e, k, logged, row, col, value)
            &&& truthful(e) ==> e.spot.held == (b.spot.held || k.row == row && k.col == col)
        }),
{
    lemma_capacity(
        s.spot,
        s.room,
        s.overlay,
        k,
        h,
        from,
        row as int,
        col as int,
        replies.capacity,
    );
    let roomy = after_capacity(h, k.sheet, row as int, col as int, replies.capacity);
    if logged {
        let edited = lemma_value_edited(s, k, roomy, from, row, col, value, replies);
        lemma_mirror(
            s.spot,
            s.room,
            s.overlay,
            k,
            edited,
            from,
            row,
            col,
            value,
            replies.mirror,
        );
        let mirrored = after_mirror(edited, k.sheet, row, col, value, replies.mirror);
        lemma_value_settled(s, k, mirrored, from, row, col, replies.staged);
    } else {
        lemma_value_set(s, k, roomy, from, row, col, value, replies.set);
    }
}

proof fn lemma_value_edited<E: WorkbookEngine>(
    s: Sheet,
    k: Place,
    g: Seq<EngineEvent<E>>,
    from: int,
    row: u32,
    col: u32,
    value: LiteralValue,
    replies: SetValueReplies,
) -> (edited: Seq<EngineEvent<E>>)
    requires
        0 <= from <= g.len(),
        row >= 1,
        col >= 1,
        k.row >= 1,
        k.col >= 1,
    ensures
        edited.len() >= g.len(),
        edited == after_value_edit(
            after_old_state(
                after_sheet(
                    g.push(
                        EngineEvent::StagedFormulaText {
                            sheet: k.sheet,
                            row,
                            col,
                            reply: replies.staged,
                        },
                    ),
                    k.sheet,
                    replies.sheet,
                ),
                k.sheet,
                row,
                col,
                replies.old_state,
            ).push(EngineEvent::EditBegin),
            cell_at(sheet_of(replies.sheet), row, col),
            value,
            replies.old_state,
        ).push(EngineEvent::EditEnd),
        overlay(s.overlay, k, edited, from) == overlay(s.overlay, k, g, from),
        room(s.room, k.sheet, edited, from) == room(s.room, k.sheet, g, from),
        ({
            let before = spot(s.spot, k, g, from);
            let after = spot(s.spot, k, edited, from);
            after.truth ==> {
                &&& before.truth
                &&& after.marks == before.marks
                &&& before.sound ==> after.sound
                &&& after.text == before.text
                &&& after.held == (before.held || k.row == row && k.col == col)
                &&& k.row == row && k.col == col ==> after.value == Some(value) && after.tree
                    is None
                &&& !(k.row == row && k.col == col) ==> after.value == before.value && after.tree
                    == before.tree
            }
        }),
{
    let edited = after_value_edit(
        after_old_state(
            after_sheet(
                g.push(
                    EngineEvent::StagedFormulaText {
                        sheet: k.sheet,
                        row,
                        col,
                        reply: replies.staged,
                    },
                ),
                k.sheet,
                replies.sheet,
            ),
            k.sheet,
            row,
            col,
            replies.old_state,
        ).push(EngineEvent::EditBegin),
        cell_at(sheet_of(replies.sheet), row, col),
        value,
        replies.old_state,
    ).push(EngineEvent::EditEnd);
    assert(overlay(s.overlay, k, edited, from) == overlay(s.overlay, k, g, from)) by {
        broadcast use lemma_overlay_push;

    }
    assert(room(s.room, k.sheet, edited, from) == room(s.room, k.sheet, g, from)) by {
        broadcast use lemma_room_push;

    }
    broadcast use lemma_spot_push;

    edited
}

proof fn lemma_value_settled<E: WorkbookEngine>(
    s: Sheet,
    k: Place,
    g: Seq<EngineEvent<E>>,
    from: int,
    row: u32,
    col: u32,
    staged: Option<Seq<char>>,
)
    requires
        0 <= from <= g.len(),
    ensures
        ({
            let cleared = g.push(
                EngineEvent::ClearStagedFormulaText { sheet: k.sheet, row, col },
            );
            let end = after_delta(cleared, true, k.sheet, row, col, staged, None).push(
                EngineEvent::MarkDataEdited,
            );
            let before = spot(s.spot, k, g, from);
            &&& overlay(s.overlay, k, end, from) == overlay(s.overlay, k, g, from)
            &&& room(s.room, k.sheet, end, from) == room(s.room, k.sheet, g, from)
            &&& spot(s.spot, k, end, from) == (Spot {
                marks: before.marks + 1,
                text: if k.row == row && k.col == col {
                    None
                } else {
                    before.text
                },
                ..before
            })
        }),
{
    broadcast use lemma_spot_push;
    broadcast use lemma_room_push;
    broadcast use lemma_overlay_push;

}

pub proof fn lemma_value_set<E: WorkbookEngine>(
    s: Sheet,
    k: Place,
    g: Seq<EngineEvent<E>>,
    from: int,
    row: u32,
    col: u32,
    value: LiteralValue,
    reply: Result<(), ExcelError>,
)
    requires
        0 <= from <= g.len(),
        reply is Ok,
    ensures
        ({
            let end = g.push(
                EngineEvent::SetCellValue { sheet: k.sheet, row, col, value, reply },
            ).push(EngineEvent::ClearStagedFormulaText { sheet: k.sheet, row, col });
            let before = spot(s.spot, k, g, from);
            &&& overlay(s.overlay, k, end, from) == overlay(s.overlay, k, g, from)
            &&& room(s.room, k.sheet, end, from) == room(s.room, k.sheet, g, from)
            &&& spot(s.spot, k, end, from) == if k.row == row && k.col == col {
                Spot { value: Some(value), tree: None, held: true, text: None, ..before }
            } else {
                before
            }
        }),
{
    broadcast use lemma_spot_push;
    broadcast use lemma_room_push;
    broadcast use lemma_overlay_push;

}

/// What a successful setting of a value leaves at any place of the sheet. In the cell: the
/// value in the graph and no staged text. The sheet is in the store and has room for the
/// cell. While the change log is on, the data is marked as edited once and the value laid
/// over the store, where values are laid over it; while it is off, the engine sees to
/// that. All other places are as they were.
pub proof fn law_set_value_leaves_the_value<E: WorkbookEngine>(
    sheet: &str,
    row: u32,
    col: u32,
    value: LiteralValue,
    s: Sheet,
    k: Place,
)
    requires
        row >= 1,
        col >= 1,
        k.sheet == sheet@,
        k.row >= 1,
        k.col >= 1,
    ensures
        forall|wb: &mut Workbook<E>| #[trigger]
            call_ensures(Workbook::<E>::set_value, (wb, sheet, row, col, value), Ok(())) ==> {
                let e = sheet_after(
                    s,
                    k,
                    (*final(wb)).history(),
                    (*wb).history().len() as int,
                );
                truthful(e) ==> value_left(s, e, k, (*wb).logged(), row, col, value)
            },
{
    assert forall|wb: &mut Workbook<E>| #[trigger]
        call_ensures(Workbook::<E>::set_value, (wb, sheet, row, col, value), Ok(())) implies {
        let e = sheet_after(s, k, (*final(wb)).history(), (*wb).history().len() as int);
        truthful(e) ==> value_left(s, e, k, (*wb).logged(), row, col, value)
    } by {
        let h = (*wb).history();
        let r: Result<(), IoError> = Ok(());
        let replies = choose|replies: SetValueReplies|
            crate::cells::ran((*final(wb)).history(), r) == #[trigger] value_run(
                h,
                (*wb).logged(),
                sheet@,
                row,
                col,
                value,
                replies,
            );
        lemma_value_left(s, k, h, h.len() as int, (*wb).logged(), row, col, value, replies);
    }
}

/// Whether `e` is what a setting of a formula leaves of `s`.
pub open spec fn formula_left(
    s: Sheet,
    e: Sheet,
    k: Place,
    logged: bool,
    row: u32,
    col: u32,
    formula: Seq<char>,
) -> bool {
    let here = k.row == row && k.col == col;
    &&& has_room(s.room, e.room, row as int, col as int)
    &&& s.spot.sound ==> e.spot.sound
    &&& laid_over(k, s.overlay, e.overlay, None)
    &&& !here ==> holds(e.spot, s.spot.value, s.spot.tree, s.spot.text)
    &&& here && k.flags.defer_graph_building && !s.spot.held ==> holds(
        e.spot,
        s.spot.value,
        s.spot.tree,
        Some(formula),
    ) && e.spot.marks == s.spot.marks
    &&& here && !(k.flags.defer_graph_building && !s.spot.held) ==> {
        &&& parsed_text(signed(formula)) is Ok
        &&& holds(e.spot, None, Some(parsed_text(signed(formula))->Ok_0), None)
        &&& e.spot.marks == s.spot.marks + marks_of(logged)
    }
}

/// See [`formula_left`].
pub proof fn lemma_formula_left<E: WorkbookEngine>(
    s: Sheet,
    k: Place,
    h: Seq<EngineEvent<E>>,
    from: int,
    logged: bool,
    row: u32,
    col: u32,
    formula: Seq<char>,
    replies: SetFormulaReplies,
)
    requires
        0 <= from <= h.len(),
        row >= 1,
        col >= 1,
        k.row >= 1,
        k.col >= 1,
        formula_run(h, logged, k.sheet, row, col, formula, replies).outcome is Ok,
    ensures
        ({
            let run = formula_run(h, logged, k.sheet, row, col, formula, replies);
            let b = sheet_after(s, k, h, from);
            let e = sheet_after(s, k, run.history, from);
            &&& run.history.len() >= h.len()
            &&& truthful(e) ==> truthful(b) && formula_left(b, e, k, logged, row, col, formula)
            &&& truthful(e) && !(k.row == row && k.col == col) ==> e.spot.held == b.spot.held
        }),
{
    lemma_capacity(
        s.spot,
        s.room,
        s.overlay,
        k,
        h,
        from,
        row as int,
        col as int,
        replies.capacity,
    );
    let roomy = after_capacity(h, k.sheet, row as int, col as int, replies.capacity);
    lemma_formula_tail(s, k, roomy, from, logged, row, col, formula, replies);
}

/// What follows the making of room when a formula is set.
spec fn formula_tail<E: WorkbookEngine>(
    g: Seq<EngineEvent<E>>,
    logged: bool,
    sheet: Seq<char>,
    row: u32,
    col: u32,
    formula: Seq<char>,
    replies: SetFormulaReplies,
) -> Seq<EngineEvent<E>> {
    let staged = if logged {
        g.push(EngineEvent::StagedFormulaText { sheet, row, col, reply: replies.staged })
    } else {
        g
    };
    let asked = staged.push(EngineEvent::Flags { reply: replies.flags });
    let deferred = replies.flags.defer_graph_building;
    let looked = if deferred {
        asked.push(EngineEvent::GetCell { sheet, row, col, reply: replies.present })
    } else {
        asked
    };
    if deferred && replies.present is None {
        let kept = looked.push(EngineEvent::StageFormulaText { sheet, row, col, formula });
        if logged {
            after_delta(
                kept.push(
                    EngineEvent::StagedFormulaText {
                        sheet,
                        row,
                        col,
                        reply: replies.staged_after,
                    },
                ),
                true,
                sheet,
                row,
                col,
                replies.staged,
                replies.staged_after,
            )
        } else {
            kept
        }
    } else {
        let tree = parsed_formula(formula)->Ok_0;
        if !logged {
            plain_formula_run(looked, sheet, row, col, tree, replies.set).history
        } else {
            let named = after_sheet(looked, sheet, replies.sheet);
            let cell = cell_at(sheet_of(replies.sheet), row, col);
            let edited = if deferred {
                after_old_state(named, sheet, row, col, replies.old_state).push(
                    EngineEvent::EditBegin,
                ).push(
                    EngineEvent::EditSetFormulaWithOldState {
                        cell,
                        tree,
                        old_value: replies.old_state.value,
                        old_formula: formula_of(replies.old_state.cell),
                    },
                )
            } else {
                named.push(EngineEvent::EditBegin).push(EngineEvent::EditSetFormula { cell, tree })
            };
            after_logged_formula(
                edited.push(EngineEvent::EditEnd),
                sheet,
                row,
                col,
                replies.staged,
            )
        }
    }
}

#[verifier::rlimit(60)]
#[verifier::spinoff_prover]
proof fn lemma_formula_tail<E: WorkbookEngine>(
    s: Sheet,
    k: Place,
    g: Seq<EngineEvent<E>>,
    from: int,
    logged: bool,
    row: u32,
    col: u32,
    formula: Seq<char>,
    replies: SetFormulaReplies,
)
    requires
        0 <= from <= g.len(),
        row >= 1,
        col >= 1,
        k.row >= 1,
        k.col >= 1,
        replies.flags.defer_graph_building && replies.present is None || (parsed_formula(formula)
            is Ok && (logged || replies.set is Ok)),
    ensures
        ({
            let end = formula_tail(g, logged, k.sheet, row, col, formula, replies);
            let before = spot(s.spot, k, g, from);
            let after = spot(s.spot, k, end, from);
            let here = k.row == row && k.col == col;
            &&& overlay(s.overlay, k, end, from).value == overlay(s.overlay, k, g, from).value
            &&& overlay(s.overlay, k, end, from).sound == overlay(s.overlay, k, g, from).sound
            &&& overlay(s.overlay, k, end, from).truth ==> overlay(s.overlay, k, g, from).truth
            &&& end.len() >= g.len()
            &&& room(s.room, k.sheet, end, from) == room(s.room, k.sheet, g, from)
            &&& after.truth ==> {
                &&& before.truth
                &&& before.sound ==> after.sound
                &&& !here ==> holds(after, before.value, before.tree, before.text) && after.held
                    == before.held
                &&& here && k.flags.defer_graph_building && !before.held ==> holds(
                    after,
                    before.value,
                    before.tree,
                    Some(formula),
                ) && after.marks == before.marks
                &&& here && !(k.flags.defer_graph_building && !before.held) ==> {
                    &&& parsed_text(signed(formula)) is Ok
                    &&& holds(after, None, Some(parsed_text(signed(formula))->Ok_0), None)
                    &&& after.marks == before.marks + marks_of(logged)
                }
            }
        }),
{
    law_signed_formulas_are_parsed(formula);
    let end = formula_tail(g, logged, k.sheet, row, col, formula, replies);
    assert(overlay(s.overlay, k, end, from).value == overlay(s.overlay, k, g, from).value
        && overlay(s.overlay, k, end, from).sound == overlay(s.overlay, k, g, from).sound && (
    overlay(s.overlay, k, end, from).truth ==> overlay(s.overlay, k, g, from).truth)) by {
        broadcast use lemma_overlay_push;

    }
    assert(room(s.room, k.sheet, end, from) == room(s.room, k.sheet, g, from)) by {
        broadcast use lemma_room_push;

    }
    broadcast use lemma_spot_push;

}

/// What a successful setting of a formula leaves at any place of the sheet. In the cell:
/// the tree of the formula in the graph and no staged text; or, while graph building is
/// deferred and the graph does not hold the cell, the text as it was given among the staged
/// ones and the rest as it was. The sheet is in the store and has room for the cell. The
/// data is marked as edited where the graph is changed and the change log on. All other
/// places are as they were, and nothing is laid over the store.
pub proof fn law_set_formula_leaves_the_formula<E: WorkbookEngine>(
    sheet: &str,
    row: u32,
    col: u32,
    formula: &str,
    s: Sheet,
    k: Place,
)
    requires
        row >= 1,
        col >= 1,
        k.sheet == sheet@,
        k.row >= 1,
        k.col >= 1,
    ensures
        forall|wb: &mut Workbook<E>| #[trigger]
            call_ensures(Workbook::<E>::set_formula, (wb, sheet, row, col, formula), Ok(())) ==> {
                let e = sheet_after(
                    s,
                    k,
                    (*final(wb)).history(),
                    (*wb).history().len() as int,
                );
                truthful(e) ==> formula_left(s, e, k, (*wb).logged(), row, col, formula@)
            },
{
    assert forall|wb: &mut Workbook<E>| #[trigger]
        call_ensures(Workbook::<E>::set_formula, (wb, sheet, row, col, formula), Ok(())) implies {
        let e = sheet_after(s, k, (*final(wb)).history(), (*wb).history().len() as int);
        truthful(e) ==> formula_left(s, e, k, (*wb).logged(), row, col, formula@)
    } by {
        let h = (*wb).history();
        let r: Result<(), IoError> = Ok(());
        let replies = choose|replies: SetFormulaReplies|
            crate::cells::ran((*final(wb)).history(), r) == #[trigger] formula_run(
                h,
                (*wb).logged(),
                sheet@,
                row,
                col,
                formula@,
                replies,
            );
        lemma_formula_left(
            s,
            k,
            h,
            h.len() as int,
            (*wb).logged(),
            row,
            col,
            formula@,
            replies,
        );
    }
}

} // verus!
