//! Laws on what an edit of many cells leaves at any one place of a sheet.

use crate::batch::{
    after_reads, after_settling, after_value_edits, plain_values_run, values_answered, values_run,
    CellReplies, SetValuesReplies, Target,
};
use crate::cells::{after_sheet, sheet_of, SheetReplies};
use crate::engine::{EngineEvent, WorkbookEngine};
use crate::error::{io_view, ExcelError, IoError};
use crate::grid::{cells_of, fits};
use crate::laws_grid::law_rectangle_holds_its_cells;
use crate::laws_spot::{
    holds, laid_over, lemma_mirror, lemma_overlay_push, lemma_room_push, lemma_spot_push,
    lemma_value_set, marks_of, overlay, overlays, room, sheet_after, spot, truthful, Place, Room,
    Sheet, Spot,
};
use crate::store::{after_mirror, MirrorReplies};
use crate::value::LiteralValue;
use crate::workbook::Workbook;
use vstd::prelude::*;

verus! {

/// What the first `n` cells give to the place, where one of them lies there.
pub open spec fn hit<V>(cells: Seq<Target<V>>, n: int, k: Place) -> Option<V>
    decreases n,
{
    if n <= 0 {
        None
    } else if cells[n - 1].0 == k.row && cells[n - 1].1 == k.col {
        Some(cells[n - 1].2)
    } else {
        hit(cells, n - 1, k)
    }
}

/// Whether all cells have coordinates counted from one.
pub open spec fn from_one<V>(cells: Seq<Target<V>>) -> bool {
    forall|i: int| 0 <= i < cells.len() ==> (#[trigger] cells[i]).0 >= 1 && cells[i].1 >= 1
}

/// Whether no two cells are the same.
pub open spec fn apart<V>(cells: Seq<Target<V>>) -> bool {
    forall|i: int, j: int|
        0 <= i < j < cells.len() ==> (#[trigger] cells[i]).0 != (#[trigger] cells[j]).0
            || cells[i].1 != cells[j].1
}

/// The cell at a place is the one that is hit.
pub proof fn lemma_hit<V>(cells: Seq<Target<V>>, n: int, k: Place, i: int)
    requires
        apart(cells),
        0 <= i < n <= cells.len(),
        cells[i].0 == k.row,
        cells[i].1 == k.col,
    ensures
        hit(cells, n, k) == Some(cells[i].2),
    decreases n,
{
    if i < n - 1 {
        assert(cells[i].0 != cells[n - 1].0 || cells[i].1 != cells[n - 1].1);
        lemma_hit(cells, n - 1, k, i);
    }
}

/// No cell is hit where none lies at the place.
pub proof fn lemma_no_hit<V>(cells: Seq<Target<V>>, n: int, k: Place)
    requires
        0 <= n <= cells.len(),
        forall|i: int| 0 <= i < n ==> (#[trigger] cells[i]).0 != k.row || cells[i].1 != k.col,
    ensures
        hit(cells, n, k) is None,
    decreases n,
{
    if n > 0 {
        lemma_no_hit(cells, n - 1, k);
    }
}

/// Whether nothing but the truth of the answers differs between two spots.
pub open spec fn only_asked(before: Spot, after: Spot) -> bool {
    after == (Spot { truth: after.truth, ..before }) && (after.truth ==> before.truth)
}

/// Looking up a sheet, or adding it, changes nothing at a place and gives its id.
pub proof fn lemma_sheet_asked<E: WorkbookEngine>(
    s: Sheet,
    k: Place,
    g: Seq<EngineEvent<E>>,
    from: int,
    r: SheetReplies,
)
    requires
        0 <= from <= g.len(),
    ensures
        after_sheet(g, k.sheet, r).len() >= g.len(),
        only_asked(
            spot(s.spot, k, g, from),
            spot(s.spot, k, after_sheet(g, k.sheet, r), from),
        ),
        spot(s.spot, k, after_sheet(g, k.sheet, r), from).truth ==> sheet_of(r) == k.id,
        room(s.room, k.sheet, after_sheet(g, k.sheet, r), from) == room(
            s.room,
            k.sheet,
            g,
            from,
        ),
        overlay(s.overlay, k, after_sheet(g, k.sheet, r), from) == overlay(
            s.overlay,
            k,
            g,
            from,
        ),
{
    broadcast use lemma_spot_push;
    broadcast use lemma_room_push;
    broadcast use lemma_overlay_push;

}

/// Reading the states of cells changes nothing at a place.
pub proof fn lemma_reads_asked<E: WorkbookEngine, V>(
    s: Sheet,
    k: Place,
    g: Seq<EngineEvent<E>>,
    from: int,
    cells: Seq<Target<V>>,
    reads: Seq<CellReplies>,
)
    requires
        0 <= from <= g.len(),
    ensures
        after_reads(g, k.sheet, cells, reads).len() >= g.len(),
        only_asked(
            spot(s.spot, k, g, from),
            spot(s.spot, k, after_reads(g, k.sheet, cells, reads), from),
        ),
        room(s.room, k.sheet, after_reads(g, k.sheet, cells, reads), from) == room(
            s.room,
            k.sheet,
            g,
            from,
        ),
        overlay(s.overlay, k, after_reads(g, k.sheet, cells, reads), from) == overlay(
            s.overlay,
            k,
            g,
            from,
        ),
    decreases reads.len(),
{
    broadcast use lemma_spot_push;
    broadcast use lemma_room_push;
    broadcast use lemma_overlay_push;

    if reads.len() > 0 {
        lemma_reads_asked(s, k, g, from, cells, reads.drop_last());
    }
}

proof fn lemma_value_edits<E: WorkbookEngine>(
    s: Sheet,
    k: Place,
    g: Seq<EngineEvent<E>>,
    from: int,
    id: u32,
    cells: Seq<Target<LiteralValue>>,
    reads: Seq<CellReplies>,
    n: int,
)
    requires
        0 <= from <= g.len(),
        0 <= n <= cells.len(),
        from_one(cells),
        k.row >= 1,
        k.col >= 1,
        spot(s.spot, k, g, from).open,
    ensures
        ({
            let end = after_value_edits(g, id, cells, reads, n);
            let before = spot(s.spot, k, g, from);
            let after = spot(s.spot, k, end, from);
            &&& end.len() >= g.len()
            &&& room(s.room, k.sheet, end, from) == room(s.room, k.sheet, g, from)
            &&& overlay(s.overlay, k, end, from) == overlay(s.overlay, k, g, from)
            &&& after.truth == before.truth
            &&& after.open
            &&& id == k.id ==> after == match hit(cells, n, k) {
                Some(value) => Spot { value: Some(value), tree: None, held: true, ..before },
                None => before,
            }
        }),
    decreases n,
{
    broadcast use lemma_spot_push;
    broadcast use lemma_room_push;
    broadcast use lemma_overlay_push;

    if n > 0 {
        lemma_value_edits(s, k, g, from, id, cells, reads, n - 1);
        assert(cells[n - 1].0 >= 1 && cells[n - 1].1 >= 1);
    }
}

/// Whether the store has room for the first `n` cells.
pub open spec fn room_for<V>(r: Room, cells: Seq<Target<V>>, n: int) -> bool {
    forall|i: int|
        0 <= i < n ==> r.stored && r.rows >= (#[trigger] cells[i]).0 && r.columns >= cells[i].1
}

proof fn lemma_settling<E: WorkbookEngine>(
    s: Sheet,
    k: Place,
    g: Seq<EngineEvent<E>>,
    from: int,
    cells: Seq<Target<LiteralValue>>,
    reads: Seq<CellReplies>,
    mirrors: Seq<MirrorReplies>,
)
    requires
        0 <= from <= g.len(),
        mirrors.len() <= cells.len(),
        from_one(cells),
    ensures
        ({
            let end = after_settling(g, k.sheet, cells, reads, mirrors);
            let n = mirrors.len() as int;
            let before = spot(s.spot, k, g, from);
            let after = spot(s.spot, k, end, from);
            let old_room = room(s.room, k.sheet, g, from);
            let new_room = room(s.room, k.sheet, end, from);
            let old_laid = overlay(s.overlay, k, g, from);
            let new_laid = overlay(s.overlay, k, end, from);
            &&& end.len() >= g.len()
            &&& after == (Spot {
                truth: after.truth,
                text: if hit(cells, n, k) is Some {
                    None
                } else {
                    before.text
                },
                ..before
            })
            &&& after.truth ==> before.truth
            &&& after.truth && new_room.truth && overlays(k) ==> room_for(new_room, cells, n)
                && old_room.truth && (old_room.sound ==> new_room.sound)
                && (old_room.stored ==> new_room.stored && new_room.rows >= old_room.rows
                && new_room.columns >= old_room.columns)
            &&& after.truth && !overlays(k) ==> new_room == old_room
            &&& new_laid.truth ==> old_laid.truth && laid_over(
                k,
                old_laid,
                new_laid,
                if overlays(k) {
                    hit(cells, n, k)
                } else {
                    None
                },
            )
        }),
    decreases mirrors.len(),
{
    if mirrors.len() > 0 {
        let n = mirrors.len() - 1;
        let (row, col, value) = cells[n];
        lemma_settling(s, k, g, from, cells, reads, mirrors.drop_last());
        let before = after_settling(g, k.sheet, cells, reads, mirrors.drop_last());
        lemma_mirror(
            s.spot,
            s.room,
            s.overlay,
            k,
            before,
            from,
            row,
            col,
            value,
            mirrors.last(),
        );
        let mirrored = after_mirror(before, k.sheet, row, col, value, mirrors.last());
        lemma_dropped(s, k, mirrored, from, row, col, reads[n].staged);
    }
}

/// What follows the laying of a value in a batch.
proof fn lemma_dropped<E: WorkbookEngine>(
    s: Sheet,
    k: Place,
    g: Seq<EngineEvent<E>>,
    from: int,
    row: u32,
    col: u32,
    staged: Option<Seq<char>>,
)
    requires
        0 <= from <= g.len(),
    ensures
        ({
            let end = crate::cells::after_delta(
                g.push(EngineEvent::ClearStagedFormulaText { sheet: k.sheet, row, col }),
                true,
                k.sheet,
                row,
                col,
                staged,
                None,
            );
            let before = spot(s.spot, k, g, from);
            &&& end.len() >= g.len()
            &&& spot(s.spot, k, end, from) == (Spot {
                text: if k.row == row && k.col == col {
                    None
                } else {
                    before.text
                },
                ..before
            })
            &&& room(s.room, k.sheet, end, from) == room(s.room, k.sheet, g, from)
            &&& overlay(s.overlay, k, end, from) == overlay(s.overlay, k, g, from)
        }),
{
    broadcast use lemma_spot_push;
    broadcast use lemma_room_push;
    broadcast use lemma_overlay_push;

}

proof fn lemma_plain_values<E: WorkbookEngine>(
    s: Sheet,
    k: Place,
    g: Seq<EngineEvent<E>>,
    from: int,
    cells: Seq<Target<LiteralValue>>,
    sets: Seq<Result<(), ExcelError>>,
)
    requires
        0 <= from <= g.len(),
        sets.len() <= cells.len(),
        plain_values_run(g, k.sheet, cells, sets).outcome is Ok,
    ensures
        ({
            let end = plain_values_run(g, k.sheet, cells, sets).history;
            let before = spot(s.spot, k, g, from);
            &&& end.len() >= g.len()
            &&& room(s.room, k.sheet, end, from) == room(s.room, k.sheet, g, from)
            &&& overlay(s.overlay, k, end, from) == overlay(s.overlay, k, g, from)
            &&& spot(s.spot, k, end, from) == match hit(cells, sets.len() as int, k) {
                Some(value) => Spot {
                    value: Some(value),
                    tree: None,
                    held: true,
                    text: None,
                    ..before
                },
                None => before,
            }
        }),
    decreases sets.len(),
{
    if sets.len() > 0 {
        let rest = sets.drop_last();
        lemma_plain_values(s, k, g, from, cells, rest);
        let before = plain_values_run(g, k.sheet, cells, rest);
        let (row, col, value) = cells[sets.len() - 1];
        lemma_value_set(s, k, before.history, from, row, col, value, sets.last());
    }
}

/// Whether `e` is what a setting of values leaves of `s`, where `value` is the one for the
/// place.
pub open spec fn values_left(
    s: Sheet,
    e: Sheet,
    k: Place,
    logged: bool,
    value: Option<LiteralValue>,
) -> bool {
    &&& e.spot.marks == s.spot.marks + marks_of(logged)
    &&& s.spot.sound ==> e.spot.sound
    &&& s.room.sound ==> e.room.sound
    &&& value is Some ==> holds(e.spot, value, None, None)
    &&& value is None ==> holds(e.spot, s.spot.value, s.spot.tree, s.spot.text)
    &&& logged && overlays(k) && value is Some ==> e.room.stored && e.room.rows >= k.row
        && e.room.columns >= k.col
    &&& !(logged && overlays(k)) ==> e.room.stored == s.room.stored && e.room.rows == s.room.rows
        && e.room.columns == s.room.columns
    &&& laid_over(
        k,
        s.overlay,
        e.overlay,
        if logged && overlays(k) {
            value
        } else {
            None
        },
    )
}

proof fn lemma_values_left<E: WorkbookEngine>(
    s: Sheet,
    k: Place,
    h: Seq<EngineEvent<E>>,
    logged: bool,
    cells: Seq<Target<LiteralValue>>,
    replies: SetValuesReplies,
)
    requires
        from_one(cells),
        k.row >= 1,
        k.col >= 1,
        values_run(h, logged, k.sheet, cells, replies).outcome is Ok,
        values_answered(logged, cells.len(), replies, Ok(())),
    ensures
        ({
            let run = values_run(h, logged, k.sheet, cells, replies);
            let e = sheet_after(s, k, run.history, h.len() as int);
            truthful(e) ==> values_left(s, e, k, logged, hit(cells, cells.len() as int, k))
        }),
{
    let from = h.len() as int;
    let n = cells.len() as int;
    let begun = h.push(EngineEvent::BeginDeferredDirty);
    lemma_one_more(s, k, h, from, EngineEvent::BeginDeferredDirty);
    if logged {
        lemma_sheet_asked(s, k, begun, from, replies.sheet);
        let named = after_sheet(begun, k.sheet, replies.sheet);
        lemma_reads_asked(s, k, named, from, cells, replies.reads);
        let seen = after_reads(named, k.sheet, cells, replies.reads);
        lemma_one_more(s, k, seen, from, EngineEvent::EditBegin);
        let opened = seen.push(EngineEvent::EditBegin);
        let id = sheet_of(replies.sheet);
        lemma_value_edits(s, k, opened, from, id, cells, replies.reads, n);
        let edits = after_value_edits(opened, id, cells, replies.reads, n);
        lemma_one_more(s, k, edits, from, EngineEvent::EditEnd);
        let edited = edits.push(EngineEvent::EditEnd);
        lemma_settling(s, k, edited, from, cells, replies.reads, replies.mirrors);
        let settled = after_settling(edited, k.sheet, cells, replies.reads, replies.mirrors);
        lemma_one_more(s, k, settled, from, EngineEvent::MarkDataEdited);
        let marked = settled.push(EngineEvent::MarkDataEdited);
        lemma_one_more(s, k, marked, from, EngineEvent::EndDeferredDirty);
        if hit(cells, n, k) is Some {
            let i = lemma_hit_somewhere(cells, n, k);
            assert(cells[i].0 == k.row);
        }
    } else {
        lemma_plain_values(s, k, begun, from, cells, replies.sets);
        let set = plain_values_run(begun, k.sheet, cells, replies.sets).history;
        lemma_one_more(s, k, set, from, EngineEvent::EndDeferredDirty);
    }
}

/// A cell that is hit is one of them.
pub proof fn lemma_hit_somewhere<V>(cells: Seq<Target<V>>, n: int, k: Place) -> (i: int)
    requires
        0 <= n <= cells.len(),
        hit(cells, n, k) is Some,
    ensures
        0 <= i < n,
        cells[i].0 == k.row,
        cells[i].1 == k.col,
        cells[i].2 == hit(cells, n, k)->0,
    decreases n,
{
    if cells[n - 1].0 == k.row && cells[n - 1].1 == k.col {
        n - 1
    } else {
        lemma_hit_somewhere(cells, n - 1, k)
    }
}

/// What calls without an answer change: whether an edit is open, and how often the data was
/// marked.
pub proof fn lemma_one_more<E: WorkbookEngine>(
    s: Sheet,
    k: Place,
    g: Seq<EngineEvent<E>>,
    from: int,
    e: EngineEvent<E>,
)
    requires
        0 <= from <= g.len(),
        e is BeginDeferredDirty || e is EndDeferredDirty || e is EditBegin || e is EditEnd || e
            is MarkDataEdited || e is Flags,
    ensures
        room(s.room, k.sheet, g.push(e), from) == room(s.room, k.sheet, g, from),
        overlay(s.overlay, k, g.push(e), from).value == overlay(s.overlay, k, g, from).value,
        overlay(s.overlay, k, g.push(e), from).sound == overlay(s.overlay, k, g, from).sound,
        overlay(s.overlay, k, g.push(e), from).truth ==> overlay(s.overlay, k, g, from).truth,
        spot(s.spot, k, g.push(e), from) == (Spot {
            open: if e is EditBegin {
                true
            } else if e is EditEnd {
                false
            } else {
                spot(s.spot, k, g, from).open
            },
            marks: if e is MarkDataEdited {
                spot(s.spot, k, g, from).marks + 1
            } else {
                spot(s.spot, k, g, from).marks
            },
            truth: spot(s.spot, k, g, from).truth && (e is Flags ==> e->Flags_reply == k.flags),
            ..spot(s.spot, k, g, from)
        }),
{
    broadcast use lemma_spot_push;
    broadcast use lemma_room_push;
    broadcast use lemma_overlay_push;

}

/// What lies at a place of a rectangle whose first cell is at `row` and `col`.
pub open spec fn in_rows<V>(rows: Seq<Vec<V>>, row: u32, col: u32, k: Place) -> Option<V> {
    let i = k.row - row;
    let j = k.col - col;
    if 0 <= i < rows.len() && 0 <= j < rows[i]@.len() {
        Some(rows[i]@[j])
    } else {
        None
    }
}

/// The cells of a rectangle hit a place with what lies there.
pub proof fn lemma_rows_hit<V>(row: u32, col: u32, rows: Seq<Vec<V>>, k: Place)
    requires
        fits(row, col, rows),
        row >= 1,
        col >= 1,
    ensures
        hit(cells_of(row, col, rows), cells_of(row, col, rows).len() as int, k) == in_rows(
            rows,
            row,
            col,
            k,
        ),
        from_one(cells_of(row, col, rows)),
        apart(cells_of(row, col, rows)),
{
    let cells = cells_of(row, col, rows);
    let n = cells.len() as int;
    law_rectangle_holds_its_cells(row, col, rows);
    let i = k.row - row;
    let j = k.col - col;
    assert forall|m: int| 0 <= m < cells.len() implies (#[trigger] cells[m]).0 >= 1 && cells[m].1
        >= 1 by {
        assert(cells.contains(cells[m]));
    }
    if 0 <= i < rows.len() && 0 <= j < rows[i]@.len() {
        let want = ((row + i) as u32, (col + j) as u32, rows[i]@[j]);
        assert(cells.contains(want));
        let m = choose|m: int| 0 <= m < cells.len() && cells[m] == want;
        lemma_hit(cells, n, k, m);
    } else {
        assert forall|m: int| 0 <= m < cells.len() implies (#[trigger] cells[m]).0 != k.row
            || cells[m].1 != k.col by {
            assert(cells.contains(cells[m]));
        }
        lemma_no_hit(cells, n, k);
    }
}

/// What a successful setting of the values of a rectangle leaves at any place of the sheet.
/// In the cell that lies as far from the first one as a value does in the rows: that value
/// in the graph and no staged text. While the change log is on, the data is marked as
/// edited once, the sheet has room for the cells and the values are laid over the store,
/// where values are laid over it; while it is off, the engine sees to that. All other
/// places are as they were.
pub proof fn law_set_values_leaves_the_values<E: WorkbookEngine>(
    sheet: &str,
    start_row: u32,
    start_col: u32,
    rows: &[Vec<LiteralValue>],
    s: Sheet,
    k: Place,
)
    requires
        fits(start_row, start_col, rows@),
        start_row >= 1,
        start_col >= 1,
        k.sheet == sheet@,
        k.row >= 1,
        k.col >= 1,
    ensures
        forall|wb: &mut Workbook<E>| #[trigger]
            call_ensures(
                Workbook::<E>::set_values,
                (wb, sheet, start_row, start_col, rows),
                Ok(()),
            ) ==> {
                let e = sheet_after(
                    s,
                    k,
                    (*final(wb)).history(),
                    (*wb).history().len() as int,
                );
                truthful(e) ==> values_left(
                    s,
                    e,
                    k,
                    (*wb).logged(),
                    in_rows(rows@, start_row, start_col, k),
                )
            },
{
    assert forall|wb: &mut Workbook<E>| #[trigger]
        call_ensures(
            Workbook::<E>::set_values,
            (wb, sheet, start_row, start_col, rows),
            Ok(()),
        ) implies {
        let e = sheet_after(s, k, (*final(wb)).history(), (*wb).history().len() as int);
        truthful(e) ==> values_left(
            s,
            e,
            k,
            (*wb).logged(),
            in_rows(rows@, start_row, start_col, k),
        )
    } by {
        let h = (*wb).history();
        let r: Result<(), IoError> = Ok(());
        let cells = cells_of(start_row, start_col, rows@);
        let replies = choose|replies: SetValuesReplies|
            crate::cells::ran((*final(wb)).history(), r) == #[trigger] values_run(
                h,
                (*wb).logged(),
                sheet@,
                cells,
                replies,
            ) && values_answered((*wb).logged(), cells.len(), replies, io_view(r));
        lemma_rows_hit(start_row, start_col, rows@, k);
        lemma_values_left(s, k, h, (*wb).logged(), cells, replies);
    }
}

} // verus!
