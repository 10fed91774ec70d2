//! Laws on what a writer of spreadsheets makes of a workbook, at any one place of a sheet.

use crate::batch::{covers, Target};
use crate::cell_data::{cell_before, is_listing, CellData};
use crate::cells::{done, ran, Run, SetValueReplies};
use crate::engine::{EngineEvent, WorkbookEngine};
use crate::error::{io_view, ErrorView, ExcelError, IoError};
use crate::formula::parsed_text;
use crate::laws_action::signed;
use crate::laws_spot::{
    holds, laid_over, lemma_formula_left, lemma_value_left, overlays, sheet_after, truthful,
    Place, Sheet,
};
use crate::laws_spots::{apart, from_one, hit, lemma_hit, lemma_no_hit};
use crate::laws_workbook::{
    added_so, deleted_so, lemma_added_so, lemma_deleted_so, lemma_renamed_so, named_apart,
    renamed_so, Tabs,
};
use crate::store::CapacityReplies;
use crate::value::LiteralValue;
use crate::workbook::{sheet_addition, sheet_deletion, sheet_renaming, Workbook};
use crate::writer::{
    cell_write_run, cell_writes_run, clear_row_run, clear_rows_run, clearing_answered, sheet_run,
    span, CellWriteReplies, SpreadsheetWriter,
};
use std::collections::BTreeMap;
use vstd::prelude::*;

verus! {

/// Whether what was sound and what there was of the sheet in the store stays.
pub open spec fn stays(b: Sheet, e: Sheet) -> bool {
    &&& b.spot.sound ==> e.spot.sound
    &&& b.room.sound ==> e.room.sound
    &&& b.room.stored ==> e.room.stored && e.room.rows >= b.room.rows && e.room.columns
        >= b.room.columns
}

/// Whether `e` is what a clearing leaves of `b`, where the place is `inside` or not: an
/// empty value in its cell and no staged text, or all as it was.
pub open spec fn cleared_left(b: Sheet, e: Sheet, k: Place, logged: bool, inside: bool) -> bool {
    &&& stays(b, e)
    &&& inside ==> holds(e.spot, Some(LiteralValue::Empty), None, None)
    &&& inside ==> e.room.stored && e.room.rows >= k.row && e.room.columns >= k.col
    &&& !inside ==> holds(e.spot, b.spot.value, b.spot.tree, b.spot.text)
    &&& laid_over(
        k,
        b.overlay,
        e.overlay,
        if inside && logged && overlays(k) {
            Some(LiteralValue::Empty)
        } else {
            None
        },
    )
}

proof fn lemma_clear_row<E: WorkbookEngine>(
    s: Sheet,
    k: Place,
    run: Run<E>,
    from: int,
    logged: bool,
    row: u32,
    col: u32,
    replies: Seq<SetValueReplies>,
)
    requires
        0 <= from <= run.history.len(),
        row >= 1,
        col >= 1,
        k.row >= 1,
        k.col >= 1,
        col + replies.len() <= u32::MAX + 1,
        clear_row_run(run, logged, k.sheet, row, col, replies).outcome is Ok,
    ensures
        run.outcome is Ok,
        ({
            let end = clear_row_run(run, logged, k.sheet, row, col, replies).history;
            let b = sheet_after(s, k, run.history, from);
            let e = sheet_after(s, k, end, from);
            let inside = k.row == row && col <= k.col < col + replies.len();
            &&& end.len() >= run.history.len()
            &&& truthful(e) ==> truthful(b) && cleared_left(b, e, k, logged, inside)
        }),
    decreases replies.len(),
{
    if replies.len() > 0 {
        let rest = replies.drop_last();
        lemma_clear_row(s, k, run, from, logged, row, col, rest);
        let before = clear_row_run(run, logged, k.sheet, row, col, rest);
        let at = (col + replies.len() - 1) as u32;
        lemma_value_left(
            s,
            k,
            before.history,
            from,
            logged,
            row,
            at,
            LiteralValue::Empty,
            replies.last(),
        );
    }
}

proof fn lemma_clear_rows<E: WorkbookEngine>(
    s: Sheet,
    k: Place,
    run: Run<E>,
    from: int,
    logged: bool,
    row: u32,
    col: u32,
    rows: Seq<Seq<SetValueReplies>>,
    width: nat,
)
    requires
        0 <= from <= run.history.len(),
        row >= 1,
        col >= 1,
        k.row >= 1,
        k.col >= 1,
        row + rows.len() <= u32::MAX + 1,
        col + width <= u32::MAX + 1,
        forall|i: int| 0 <= i < rows.len() ==> (#[trigger] rows[i]).len() == width,
        clear_rows_run(run, logged, k.sheet, row, col, rows).outcome is Ok,
    ensures
        run.outcome is Ok,
        ({
            let end = clear_rows_run(run, logged, k.sheet, row, col, rows).history;
            let b = sheet_after(s, k, run.history, from);
            let e = sheet_after(s, k, end, from);
            let inside = row <= k.row < row + rows.len() && col <= k.col < col + width;
            &&& end.len() >= run.history.len()
            &&& truthful(e) ==> truthful(b) && cleared_left(b, e, k, logged, inside)
        }),
    decreases rows.len(),
{
    if rows.len() > 0 {
        let rest = rows.drop_last();
        assert(rows[rows.len() - 1].len() == width);
        assert forall|i: int| 0 <= i < rest.len() implies (#[trigger] rest[i]).len() == width by {
            assert(rows[i].len() == width);
        }
        let before = clear_rows_run(run, logged, k.sheet, row, col, rest);
        lemma_outcome_row(
            before,
            logged,
            k.sheet,
            (row + rows.len() - 1) as u32,
            col,
            rows.last(),
        );
        lemma_clear_rows(s, k, run, from, logged, row, col, rest, width);
        lemma_clear_row(
            s,
            k,
            before,
            from,
            logged,
            (row + rows.len() - 1) as u32,
            col,
            rows.last(),
        );
    }
}

proof fn lemma_outcome_row<E: WorkbookEngine>(
    run: Run<E>,
    logged: bool,
    sheet: Seq<char>,
    row: u32,
    col: u32,
    replies: Seq<SetValueReplies>,
)
    requires
        clear_row_run(run, logged, sheet, row, col, replies).outcome is Ok,
    ensures
        run.outcome is Ok,
    decreases replies.len(),
{
    if replies.len() > 0 {
        lemma_outcome_row(run, logged, sheet, row, col, replies.drop_last());
    }
}

/// A rectangle that was cleared holds empty values, and no staged texts, in every cell from
/// its first to its last, both included. Every other cell is as it was.
pub proof fn law_cleared_cells_are_empty<E: WorkbookEngine>(
    sheet: &str,
    start: (u32, u32),
    end: (u32, u32),
    s: Sheet,
    k: Place,
)
    requires
        start.0 >= 1,
        start.1 >= 1,
        k.sheet == sheet@,
        k.row >= 1,
        k.col >= 1,
    ensures
        forall|wb: &mut Workbook<E>| #[trigger]
            call_ensures(
                <Workbook<E> as SpreadsheetWriter>::clear_range,
                (wb, sheet, start, end),
                Ok(()),
            ) ==> {
                let e = sheet_after(
                    s,
                    k,
                    (*final(wb)).history(),
                    (*wb).history().len() as int,
                );
                truthful(e) ==> cleared_left(
                    s,
                    e,
                    k,
                    (*wb).logged(),
                    start.0 <= k.row <= end.0 && start.1 <= k.col <= end.1,
                )
            },
{
    assert forall|wb: &mut Workbook<E>| #[trigger]
        call_ensures(
            <Workbook<E> as SpreadsheetWriter>::clear_range,
            (wb, sheet, start, end),
            Ok(()),
        ) implies {
        let e = sheet_after(s, k, (*final(wb)).history(), (*wb).history().len() as int);
        truthful(e) ==> cleared_left(
            s,
            e,
            k,
            (*wb).logged(),
            start.0 <= k.row <= end.0 && start.1 <= k.col <= end.1,
        )
    } by {
        let h = (*wb).history();
        let r: Result<(), IoError> = Ok(());
        let rows = choose|rows: Seq<Seq<SetValueReplies>>|
            ran((*final(wb)).history(), r) == #[trigger] clear_rows_run(
                done(h),
                (*wb).logged(),
                sheet@,
                start.0,
                start.1,
                rows,
            ) && clearing_answered(rows, span(start.0, end.0), span(start.1, end.1), io_view(r));
        lemma_clear_rows(
            s,
            k,
            done(h),
            h.len() as int,
            (*wb).logged(),
            start.0,
            start.1,
            rows,
            span(start.1, end.1),
        );
    }
}

/// Whether `e` is what the writing of `data` leaves of `b`, where it is for the place: its
/// value, then its formula. A formula is staged as text while graph building is deferred
/// and the graph does not hold the cell, which it does once the cell has a value.
pub open spec fn written_left(
    b: Sheet,
    e: Sheet,
    k: Place,
    logged: bool,
    data: Option<CellData>,
) -> bool {
    &&& stays(b, e)
    &&& match data {
        None => holds(e.spot, b.spot.value, b.spot.tree, b.spot.text),
        Some(d) => match d.formula {
            Some(formula) => if k.flags.defer_graph_building && !b.spot.held && d.value is None {
                holds(e.spot, b.spot.value, b.spot.tree, Some(formula@))
            } else {
                &&& parsed_text(signed(formula@)) is Ok
                &&& holds(e.spot, None, Some(parsed_text(signed(formula@))->Ok_0), None)
            },
            None => if d.value is Some {
                holds(e.spot, d.value, None, None)
            } else {
                holds(e.spot, b.spot.value, b.spot.tree, b.spot.text)
            },
        },
    }
    &&& data is Some && ((data->0).value is Some || (data->0).formula is Some) ==> e.room.stored
        && e.room.rows >= k.row && e.room.columns >= k.col
    &&& laid_over(
        k,
        b.overlay,
        e.overlay,
        if logged && overlays(k) && data is Some {
            (data->0).value
        } else {
            None
        },
    )
}

proof fn lemma_written<E: WorkbookEngine>(
    s: Sheet,
    k: Place,
    h: Seq<EngineEvent<E>>,
    from: int,
    logged: bool,
    row: u32,
    col: u32,
    data: CellData,
    replies: CellWriteReplies,
)
    requires
        0 <= from <= h.len(),
        row >= 1,
        col >= 1,
        k.row >= 1,
        k.col >= 1,
        cell_write_run(h, logged, k.sheet, row, col, data, replies).outcome is Ok,
    ensures
        ({
            let end = cell_write_run(h, logged, k.sheet, row, col, data, replies).history;
            let b = sheet_after(s, k, h, from);
            let e = sheet_after(s, k, end, from);
            &&& end.len() >= h.len()
            &&& truthful(e) ==> truthful(b) && written_left(
                b,
                e,
                k,
                logged,
                if k.row == row && k.col == col {
                    Some(data)
                } else {
                    None
                },
            )
        }),
{
    let valued = if data.value is Some {
        crate::cells::value_run(h, logged, k.sheet, row, col, data.value->0, replies.value).history
    } else {
        h
    };
    if data.value is Some {
        lemma_value_left(s, k, h, from, logged, row, col, data.value->0, replies.value);
    }
    if data.formula is Some {
        lemma_formula_left(
            s,
            k,
            valued,
            from,
            logged,
            row,
            col,
            (data.formula->0)@,
            replies.formula,
        );
    }
}

proof fn lemma_all_written<E: WorkbookEngine>(
    s: Sheet,
    k: Place,
    h: Seq<EngineEvent<E>>,
    from: int,
    logged: bool,
    cells: Seq<Target<CellData>>,
    replies: Seq<CellWriteReplies>,
)
    requires
        0 <= from <= h.len(),
        replies.len() <= cells.len(),
        from_one(cells),
        apart(cells),
        k.row >= 1,
        k.col >= 1,
        cell_writes_run(h, logged, k.sheet, cells, replies).outcome is Ok,
    ensures
        ({
            let end = cell_writes_run(h, logged, k.sheet, cells, replies).history;
            let b = sheet_after(s, k, h, from);
            let e = sheet_after(s, k, end, from);
            &&& end.len() >= h.len()
            &&& truthful(e) ==> truthful(b) && written_left(
                b,
                e,
                k,
                logged,
                hit(cells, replies.len() as int, k),
            )
            &&& truthful(e) && hit(cells, replies.len() as int, k) is None ==> e.spot.held
                == b.spot.held
        }),
    decreases replies.len(),
{
    if replies.len() > 0 {
        let n = replies.len() as int;
        let rest = replies.drop_last();
        lemma_all_written(s, k, h, from, logged, cells, rest);
        let before = cell_writes_run(h, logged, k.sheet, cells, rest);
        let (row, col, data) = cells[n - 1];
        assert(cells[n - 1].0 >= 1 && cells[n - 1].1 >= 1);
        lemma_written(s, k, before.history, from, logged, row, col, data, replies.last());
        if row != k.row || col != k.col {
            lemma_held(s, k, before.history, from, logged, row, col, data, replies.last());
        }
        if row == k.row && col == k.col {
            assert forall|i: int| 0 <= i < n - 1 implies (#[trigger] cells[i]).0 != k.row
                || cells[i].1 != k.col by {
                assert(cells[i].0 != cells[n - 1].0 || cells[i].1 != cells[n - 1].1);
            }
            lemma_no_hit(cells, n - 1, k);
        }
    }
}

proof fn lemma_held<E: WorkbookEngine>(
    s: Sheet,
    k: Place,
    h: Seq<EngineEvent<E>>,
    from: int,
    logged: bool,
    row: u32,
    col: u32,
    data: CellData,
    replies: CellWriteReplies,
)
    requires
        0 <= from <= h.len(),
        row >= 1,
        col >= 1,
        k.row >= 1,
        k.col >= 1,
        row != k.row || col != k.col,
        cell_write_run(h, logged, k.sheet, row, col, data, replies).outcome is Ok,
    ensures
        ({
            let end = cell_write_run(h, logged, k.sheet, row, col, data, replies).history;
            let b = sheet_after(s, k, h, from);
            let e = sheet_after(s, k, end, from);
            truthful(e) ==> e.spot.held == b.spot.held
        }),
{
    let valued = if data.value is Some {
        crate::cells::value_run(h, logged, k.sheet, row, col, data.value->0, replies.value).history
    } else {
        h
    };
    if data.value is Some {
        lemma_value_left(s, k, h, from, logged, row, col, data.value->0, replies.value);
    }
    if data.formula is Some {
        lemma_formula_left(
            s,
            k,
            valued,
            from,
            logged,
            row,
            col,
            (data.formula->0)@,
            replies.formula,
        );
    }
}

/// A cell that was written one by one holds its formula, else its value; all other cells
/// are as they were.
pub proof fn law_written_cell_is_there<E: WorkbookEngine>(
    sheet: &str,
    row: u32,
    col: u32,
    data: CellData,
    s: Sheet,
    k: Place,
)
    requires
        row >= 1,
        col >= 1,
        k.sheet == sheet@,
        k.row >= 1,
        k.col >= 1,
    ensures
        forall|wb: &mut Workbook<E>| #[trigger]
            call_ensures(
                <Workbook<E> as SpreadsheetWriter>::write_cell,
                (wb, sheet, row, col, data),
                Ok(()),
            ) ==> {
                let e = sheet_after(
                    s,
                    k,
                    (*final(wb)).history(),
                    (*wb).history().len() as int,
                );
                truthful(e) ==> written_left(
                    s,
                    e,
                    k,
                    (*wb).logged(),
                    if k.row == row && k.col == col {
                        Some(data)
                    } else {
                        None
                    },
                )
            },
{
    assert forall|wb: &mut Workbook<E>| #[trigger]
        call_ensures(
            <Workbook<E> as SpreadsheetWriter>::write_cell,
            (wb, sheet, row, col, data),
            Ok(()),
        ) implies {
        let e = sheet_after(s, k, (*final(wb)).history(), (*wb).history().len() as int);
        truthful(e) ==> written_left(
            s,
            e,
            k,
            (*wb).logged(),
            if k.row == row && k.col == col {
                Some(data)
            } else {
                None
            },
        )
    } by {
        let h = (*wb).history();
        let r: Result<(), IoError> = Ok(());
        let replies = choose|replies: CellWriteReplies|
            ran((*final(wb)).history(), r) == #[trigger] cell_write_run(
                h,
                (*wb).logged(),
                sheet@,
                row,
                col,
                data,
                replies,
            );
        lemma_written(s, k, h, h.len() as int, (*wb).logged(), row, col, data, replies);
    }
}

/// Cells that were written one by one hold their formulas, else their values; all cells
/// that are not listed are as they were.
pub proof fn law_written_cells_are_there<E: WorkbookEngine>(
    sheet: &str,
    cells: BTreeMap<(u32, u32), CellData>,
    s: Sheet,
    k: Place,
)
    requires
        k.sheet == sheet@,
        k.row >= 1,
        k.col >= 1,
        forall|p: (u32, u32)| #[trigger] cells@.contains_key(p) ==> p.0 >= 1 && p.1 >= 1,
    ensures
        forall|wb: &mut Workbook<E>| #[trigger]
            call_ensures(
                <Workbook<E> as SpreadsheetWriter>::write_range,
                (wb, sheet, cells),
                Ok(()),
            ) ==> {
                let e = sheet_after(
                    s,
                    k,
                    (*final(wb)).history(),
                    (*wb).history().len() as int,
                );
                truthful(e) ==> written_left(
                    s,
                    e,
                    k,
                    (*wb).logged(),
                    if cells@.contains_key((k.row, k.col)) {
                        Some(cells@[(k.row, k.col)])
                    } else {
                        None
                    },
                )
            },
{
    assert forall|wb: &mut Workbook<E>| #[trigger]
        call_ensures(
            <Workbook<E> as SpreadsheetWriter>::write_range,
            (wb, sheet, cells),
            Ok(()),
        ) implies {
        let e = sheet_after(s, k, (*final(wb)).history(), (*wb).history().len() as int);
        truthful(e) ==> written_left(
            s,
            e,
            k,
            (*wb).logged(),
            if cells@.contains_key((k.row, k.col)) {
                Some(cells@[(k.row, k.col)])
            } else {
                None
            },
        )
    } by {
        let h = (*wb).history();
        let r: Result<(), IoError> = Ok(());
        let (order, replies) = choose|order: Seq<Target<CellData>>, replies: Seq<CellWriteReplies>|
            is_listing(order, cells@) && ran((*final(wb)).history(), r)
                == #[trigger] cell_writes_run(h, (*wb).logged(), sheet@, order, replies)
                && covers(replies.len(), order.len(), io_view(r));
        assert forall|i: int, j: int| 0 <= i < j < order.len() implies (#[trigger] order[i]).0
            != (#[trigger] order[j]).0 || order[i].1 != order[j].1 by {
            assert(cell_before((order[i].0, order[i].1), (order[j].0, order[j].1)));
        }
        assert forall|i: int| 0 <= i < order.len() implies (#[trigger] order[i]).0 >= 1
            && order[i].1 >= 1 by {
            assert(cells@.contains_key((order[i].0, order[i].1)));
        }
        let n = order.len() as int;
        if cells@.contains_key((k.row, k.col)) {
            let i = choose|i: int|
                0 <= i < order.len() && (#[trigger] order[i]).0 == k.row && order[i].1 == k.col;
            lemma_hit(order, n, k, i);
            assert(order[i].2 == cells@[(k.row, k.col)]);
        } else {
            assert forall|i: int| 0 <= i < n implies (#[trigger] order[i]).0 != k.row
                || order[i].1 != k.col by {
                assert(cells@.contains_key((order[i].0, order[i].1)));
            }
            lemma_no_hit(order, n, k);
        }
        lemma_all_written(s, k, h, h.len() as int, (*wb).logged(), order, replies);
    }
}

/// An error of the engine as a plain value, where a result has one.
pub open spec fn engine_refusal(r: Result<(), IoError>) -> Result<(), ErrorView> {
    match r {
        Ok(_) => Ok(()),
        Err(IoError::Engine(e)) => Err(e@),
        Err(_) => arbitrary(),
    }
}

/// A writer adds, deletes and renames sheets as the workbook does, and hands a refusal on
/// as one of the engine. It has nothing to finish.
pub proof fn law_writers_edit_sheets<E: WorkbookEngine>(
    name: &str,
    new_name: &str,
    r: Result<(), IoError>,
    t: Tabs,
    id: u32,
)
    requires
        named_apart(t.names),
    ensures
        forall|wb: &mut Workbook<E>| #[trigger]
            call_ensures(<Workbook<E> as SpreadsheetWriter>::create_sheet, (wb, name), r) ==> (r
                is Err ==> r->Err_0 is Engine) && added_so(
                t,
                (*wb).history(),
                (*final(wb)).history(),
                name@,
                engine_refusal(r),
            ),
        forall|wb: &mut Workbook<E>| #[trigger]
            call_ensures(<Workbook<E> as SpreadsheetWriter>::delete_sheet, (wb, name), r) ==> (r
                is Err ==> r->Err_0 is Engine) && deleted_so(
                t,
                (*wb).history(),
                (*final(wb)).history(),
                name@,
                id,
                engine_refusal(r),
            ),
        forall|wb: &mut Workbook<E>| #[trigger]
            call_ensures(
                <Workbook<E> as SpreadsheetWriter>::rename_sheet,
                (wb, name, new_name),
                r,
            ) ==> (r is Err ==> r->Err_0 is Engine) && renamed_so(
                t,
                (*wb).history(),
                (*final(wb)).history(),
                name@,
                new_name@,
                id,
                engine_refusal(r),
            ),
        forall|wb: &mut Workbook<E>| #[trigger]
            call_ensures(<Workbook<E> as SpreadsheetWriter>::flush, (wb,), r) ==> r is Ok
                && (*final(wb)) == (*wb),
{
    assert forall|wb: &mut Workbook<E>| #[trigger]
        call_ensures(<Workbook<E> as SpreadsheetWriter>::create_sheet, (wb, name), r) implies (r
        is Err ==> r->Err_0 is Engine) && added_so(
        t,
        (*wb).history(),
        (*final(wb)).history(),
        name@,
        engine_refusal(r),
    ) by {
        let h = (*wb).history();
        let (added, capacity) = choose|
            added: Result<u32, ExcelError>,
            capacity: CapacityReplies,
        |
            ran((*final(wb)).history(), r) == sheet_run(
                #[trigger] sheet_addition(h, name@, added, capacity),
            );
        lemma_added_so(t, h, name@, added, capacity);
    }
    assert forall|wb: &mut Workbook<E>| #[trigger]
        call_ensures(<Workbook<E> as SpreadsheetWriter>::delete_sheet, (wb, name), r) implies (r
        is Err ==> r->Err_0 is Engine) && deleted_so(
        t,
        (*wb).history(),
        (*final(wb)).history(),
        name@,
        id,
        engine_refusal(r),
    ) by {
        let h = (*wb).history();
        let (found, removed) = choose|found: Option<u32>, removed: Result<(), ExcelError>|
            ran((*final(wb)).history(), r) == sheet_run(
                #[trigger] sheet_deletion(h, name@, found, removed),
            );
        lemma_deleted_so(t, h, name@, id, found, removed);
    }
    assert forall|wb: &mut Workbook<E>| #[trigger]
        call_ensures(
            <Workbook<E> as SpreadsheetWriter>::rename_sheet,
            (wb, name, new_name),
            r,
        ) implies (r is Err ==> r->Err_0 is Engine) && renamed_so(
        t,
        (*wb).history(),
        (*final(wb)).history(),
        name@,
        new_name@,
        id,
        engine_refusal(r),
    ) by {
        let h = (*wb).history();
        let (found, renamed, stored) = choose|
            found: Option<u32>,
            renamed: Result<(), ExcelError>,
            stored: bool,
        |
            ran((*final(wb)).history(), r) == sheet_run(
                #[trigger] sheet_renaming(h, name@, new_name@, found, renamed, stored),
            );
        lemma_renamed_so(t, h, name@, new_name@, id, found, renamed, stored);
    }
}

} // verus!
