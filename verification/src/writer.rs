//! A workbook as the target of cell-by-cell writing.

use crate::batch::{covers, Target};
use crate::cell_data::{is_listing, list_range, CellData};
use crate::cells::{
    done, failed, formula_run, ran, value_run, Run, SetFormulaReplies, SetValueReplies,
};
use crate::engine::{EngineEvent, WorkbookEngine};
use crate::error::{io_view, ErrorView, ExcelError, IoError, IoErrorView};
use crate::grid::lists;
use crate::store::CapacityReplies;
use crate::value::LiteralValue;
use crate::workbook::{sheet_addition, sheet_deletion, sheet_renaming, Workbook};
use std::collections::BTreeMap;
use vstd::prelude::*;

verus! {

/// What spreadsheet contents can be written to.
pub trait SpreadsheetWriter: Sized {
    type Error;

    /// Whether `after` and `r` are what the writing of `cells` comes to.
    spec fn writes_range(
        before: Self,
        after: Self,
        sheet: Seq<char>,
        cells: Map<(u32, u32), CellData>,
        r: Result<(), Self::Error>,
    ) -> bool;

    /// Whether `after` and `r` are what the deletion of a sheet comes to.
    spec fn deletes_sheet(
        before: Self,
        after: Self,
        name: Seq<char>,
        r: Result<(), Self::Error>,
    ) -> bool;

    /// Whether `after` and `r` are what the renaming of a sheet comes to.
    spec fn renames_sheet(
        before: Self,
        after: Self,
        old_name: Seq<char>,
        new_name: Seq<char>,
        r: Result<(), Self::Error>,
    ) -> bool;

    /// Writes a cell.
    fn write_cell(&mut self, sheet: &str, row: u32, col: u32, data: CellData) -> Result<
        (),
        Self::Error,
    >;

    /// Writes cells.
    fn write_range(&mut self, sheet: &str, cells: BTreeMap<(u32, u32), CellData>) -> (r: Result<
        (),
        Self::Error,
    >)
        ensures
            Self::writes_range(*old(self), *final(self), sheet@, cells@, r),
    ;

    /// Empties the cells of a rectangle, its bounds included.
    fn clear_range(&mut self, sheet: &str, start: (u32, u32), end: (u32, u32)) -> Result<
        (),
        Self::Error,
    >;

    /// Adds a sheet.
    fn create_sheet(&mut self, name: &str) -> Result<(), Self::Error>;

    /// Deletes a sheet.
    fn delete_sheet(&mut self, name: &str) -> (r: Result<(), Self::Error>)
        ensures
            Self::deletes_sheet(*old(self), *final(self), name@, r),
    ;

    /// Renames a sheet.
    fn rename_sheet(&mut self, old_name: &str, new_name: &str) -> (r: Result<(), Self::Error>)
        ensures
            Self::renames_sheet(*old(self), *final(self), old_name@, new_name@, r),
    ;

    /// Finishes the writing.
    fn flush(&mut self) -> Result<(), Self::Error>;
}

/// What the engine answers when a cell is written.
pub struct CellWriteReplies {
    pub value: SetValueReplies,
    pub formula: SetFormulaReplies,
}

/// Where the writing of a cell leads: its value, then its formula.
pub open spec fn cell_write_run<E: WorkbookEngine>(
    h: Seq<EngineEvent<E>>,
    logged: bool,
    sheet: Seq<char>,
    row: u32,
    col: u32,
    data: CellData,
    replies: CellWriteReplies,
) -> Run<E> {
    let valued = match data.value {
        None => done(h),
        Some(value) => value_run(h, logged, sheet, row, col, value, replies.value),
    };
    if valued.outcome is Err {
        valued
    } else {
        match data.formula {
            None => valued,
            Some(formula) => formula_run(
                valued.history,
                logged,
                sheet,
                row,
                col,
                formula@,
                replies.formula,
            ),
        }
    }
}

/// Where the writing of the first cells leads; the first failure ends it.
pub open spec fn cell_writes_run<E: WorkbookEngine>(
    h: Seq<EngineEvent<E>>,
    logged: bool,
    sheet: Seq<char>,
    cells: Seq<Target<CellData>>,
    replies: Seq<CellWriteReplies>,
) -> Run<E>
    decreases replies.len(),
{
    if replies.len() == 0 {
        done(h)
    } else {
        let before = cell_writes_run(h, logged, sheet, cells, replies.drop_last());
        if before.outcome is Err {
            before
        } else {
            let (row, col, data) = cells[replies.len() - 1];
            cell_write_run(before.history, logged, sheet, row, col, data, replies.last())
        }
    }
}

/// Where the emptying of the first cells of a row, from column `col` on, leads.
pub open spec fn clear_row_run<E: WorkbookEngine>(
    run: Run<E>,
    logged: bool,
    sheet: Seq<char>,
    row: u32,
    col: u32,
    replies: Seq<SetValueReplies>,
) -> Run<E>
    decreases replies.len(),
{
    if replies.len() == 0 {
        run
    } else {
        let before = clear_row_run(run, logged, sheet, row, col, replies.drop_last());
        if before.outcome is Err {
            before
        } else {
            value_run(
                before.history,
                logged,
                sheet,
                row,
                (col + replies.len() - 1) as u32,
                LiteralValue::Empty,
                replies.last(),
            )
        }
    }
}

/// Where the emptying of the first rows of a rectangle leads; the first failure ends
/// it.
pub open spec fn clear_rows_run<E: WorkbookEngine>(
    run: Run<E>,
    logged: bool,
    sheet: Seq<char>,
    row: u32,
    col: u32,
    rows: Seq<Seq<SetValueReplies>>,
) -> Run<E>
    decreases rows.len(),
{
    if rows.len() == 0 {
        run
    } else {
        clear_row_run(
            clear_rows_run(run, logged, sheet, row, col, rows.drop_last()),
            logged,
            sheet,
            (row + rows.len() - 1) as u32,
            col,
            rows.last(),
        )
    }
}

/// The number of coordinates from `start` to `end`, both included.
pub open spec fn span(start: u32, end: u32) -> nat {
    if start <= end {
        (end - start + 1) as nat
    } else {
        0
    }
}

/// Whether `rows` go with a rectangle of this size: every cell is emptied unless a
/// failure ends it.
pub open spec fn clearing_answered(
    rows: Seq<Seq<SetValueReplies>>,
    height: nat,
    width: nat,
    outcome: Result<(), IoErrorView>,
) -> bool {
    &&& rows.len() <= height
    &&& forall|i: int| 0 <= i < rows.len() ==> (#[trigger] rows[i]).len() <= width
    &&& outcome is Ok ==> rows.len() == height && forall|i: int|
        0 <= i < rows.len() ==> (#[trigger] rows[i]).len() == width
}

/// A sheet operation with its refusal as one of the engine.
pub open spec fn sheet_run<E: WorkbookEngine>(
    made: (Seq<EngineEvent<E>>, Result<(), ErrorView>),
) -> Run<E> {
    match made.1 {
        Ok(_) => done(made.0),
        Err(e) => failed(made.0, IoErrorView::Engine(e)),
    }
}

fn put_cell<E: WorkbookEngine>(
    wb: &mut Workbook<E>,
    sheet: &str,
    row: u32,
    col: u32,
    data: &CellData,
) -> (r: (Result<(), IoError>, Ghost<CellWriteReplies>))
    ensures
        final(wb).keeps(*old(wb)),
        ran(final(wb).history(), r.0) == cell_write_run(
            old(wb).history(),
            old(wb).logged(),
            sheet@,
            row,
            col,
            *data,
            r.1@,
        ),
{
    let ghost mut replies: CellWriteReplies = arbitrary();
    if let Some(value) = &data.value {
        let (result, reply) = wb.put_value(sheet, row, col, value);
        proof {
            replies.value = reply@;
        }
        match result {
            Ok(_) => {},
            Err(e) => {
                return (Err(e), Ghost(replies));
            },
        }
    }
    if let Some(formula) = &data.formula {
        let (result, reply) = wb.put_formula(sheet, row, col, formula.as_str());
        proof {
            replies.formula = reply@;
        }
        return (result, Ghost(replies));
    }
    (Ok(()), Ghost(replies))
}

fn clear_row<E: WorkbookEngine>(
    wb: &mut Workbook<E>,
    sheet: &str,
    row: u32,
    start_col: u32,
    end_col: u32,
) -> (r: (Result<(), IoError>, Ghost<Seq<SetValueReplies>>))
    ensures
        final(wb).keeps(*old(wb)),
        covers(r.1@.len(), span(start_col, end_col), io_view(r.0)),
        ran(final(wb).history(), r.0) == clear_row_run(
            done(old(wb).history()),
            old(wb).logged(),
            sheet@,
            row,
            start_col,
            r.1@,
        ),
{
    let ghost start = done(wb.history());
    let ghost mut replies: Seq<SetValueReplies> = Seq::empty();
    let mut col: u64 = start_col as u64;
    while col <= end_col as u64
        invariant
            start_col <= col,
            start_col <= end_col ==> col <= end_col + 1,
            start_col > end_col ==> col == start_col,
            replies.len() == col - start_col,
            wb.keeps(*old(wb)),
            start == done(old(wb).history()),
            done(wb.history()) == clear_row_run(
                start,
                old(wb).logged(),
                sheet@,
                row,
                start_col,
                replies,
            ),
        decreases end_col + 1 - col,
    {
        let (result, reply) = wb.put_value(sheet, row, col as u32, &LiteralValue::Empty);
        proof {
            let grown = replies.push(reply@);
            assert(grown.drop_last() =~= replies);
            replies = grown;
        }
        match result {
            Ok(_) => {},
            Err(e) => {
                return (Err(e), Ghost(replies));
            },
        }
        col += 1;
    }
    (Ok(()), Ghost(replies))
}

impl<E: WorkbookEngine> Workbook<E> {
    /// Writes cells one by one, by row and then by column, up to the first failure.
    pub fn write_cells(&mut self, sheet: &str, cells: BTreeMap<(u32, u32), CellData>) -> (r: Result<
        (),
        IoError,
    >)
        ensures
            final(self).keeps(*old(self)),
            exists|order: Seq<Target<CellData>>, replies: Seq<CellWriteReplies>|
                is_listing(order, cells@) && ran(final(self).history(), r)
                    == #[trigger] cell_writes_run(
                    old(self).history(),
                    old(self).logged(),
                    sheet@,
                    order,
                    replies,
                ) && covers(replies.len(), order.len(), io_view(r)),
    {
        let (listed, order) = list_range(&cells);
        let ghost targets = order@;
        let ghost start = self.history();
        let ghost mut replies: Seq<CellWriteReplies> = Seq::empty();
        let mut i: usize = 0;
        while i < listed.len()
            invariant
                i <= listed@.len(),
                lists(listed@, targets),
                is_listing(targets, cells@),
                replies.len() == i,
                self.keeps(*old(self)),
                start == old(self).history(),
                done(self.history()) == cell_writes_run(
                    start,
                    old(self).logged(),
                    sheet@,
                    targets,
                    replies,
                ),
            decreases listed@.len() - i,
        {
            let (row, col, data) = listed[i];
            assert(listed@[i as int].0 == row);
            let (result, reply) = put_cell(self, sheet, row, col, data);
            proof {
                let grown = replies.push(reply@);
                assert(grown.drop_last() =~= replies);
                replies = grown;
            }
            match result {
                Ok(_) => {},
                Err(e) => {
                    assert(ran(self.history(), Err(e)) == cell_writes_run(
                        start,
                        old(self).logged(),
                        sheet@,
                        targets,
                        replies,
                    ));
                    return Err(e);
                },
            }
            i += 1;
        }
        assert(ran(self.history(), Ok(())) == cell_writes_run(
            start,
            old(self).logged(),
            sheet@,
            targets,
            replies,
        ));
        Ok(())
    }

    /// Deletes a sheet, a refusal taken as one of the engine.
    pub fn delete_sheet_as_writer(&mut self, name: &str) -> (r: Result<(), IoError>)
        ensures
            final(self).keeps(*old(self)),
            exists|found: Option<u32>, removed: Result<(), ExcelError>|
                ran(final(self).history(), r) == sheet_run(
                    #[trigger] sheet_deletion(old(self).history(), name@, found, removed),
                ),
    {
        IoError::engine_result(self.delete_sheet(name))
    }

    /// Renames a sheet, a refusal taken as one of the engine.
    pub fn rename_sheet_as_writer(&mut self, old_name: &str, new_name: &str) -> (r: Result<(), IoError>)
        ensures
            final(self).keeps(*old(self)),
            exists|found: Option<u32>, renamed: Result<(), ExcelError>, stored: bool|
                ran(final(self).history(), r) == sheet_run(
                    #[trigger] sheet_renaming(
                        old(self).history(),
                        old_name@,
                        new_name@,
                        found,
                        renamed,
                        stored,
                    ),
                ),
    {
        IoError::engine_result(self.rename_sheet(old_name, new_name))
    }
}

impl<E: WorkbookEngine> SpreadsheetWriter for Workbook<E> {
    type Error = IoError;

    /// The cells are written one by one, by row and then by column, up to the first
    /// failure.
    open spec fn writes_range(
        before: Self,
        after: Self,
        sheet: Seq<char>,
        cells: Map<(u32, u32), CellData>,
        r: Result<(), IoError>,
    ) -> bool {
        &&& after.keeps(before)
        &&& exists|order: Seq<Target<CellData>>, replies: Seq<CellWriteReplies>|
            is_listing(order, cells) && ran(after.history(), r) == #[trigger] cell_writes_run(
                before.history(),
                before.logged(),
                sheet,
                order,
                replies,
            ) && covers(replies.len(), order.len(), io_view(r))
    }

    /// The sheet is deleted, a refusal taken as one of the engine.
    open spec fn deletes_sheet(
        before: Self,
        after: Self,
        name: Seq<char>,
        r: Result<(), IoError>,
    ) -> bool {
        &&& after.keeps(before)
        &&& exists|found: Option<u32>, removed: Result<(), ExcelError>|
            ran(after.history(), r) == sheet_run(
                #[trigger] sheet_deletion(before.history(), name, found, removed),
            )
    }

    /// The sheet is renamed, a refusal taken as one of the engine.
    open spec fn renames_sheet(
        before: Self,
        after: Self,
        old_name: Seq<char>,
        new_name: Seq<char>,
        r: Result<(), IoError>,
    ) -> bool {
        &&& after.keeps(before)
        &&& exists|found: Option<u32>, renamed: Result<(), ExcelError>, stored: bool|
            ran(after.history(), r) == sheet_run(
                #[trigger] sheet_renaming(
                    before.history(),
                    old_name,
                    new_name,
                    found,
                    renamed,
                    stored,
                ),
            )
    }

    fn write_cell(&mut self, sheet: &str, row: u32, col: u32, data: CellData) -> (r: Result<
        (),
        IoError,
    >)
        ensures
            final(self).keeps(*old(self)),
            exists|replies: CellWriteReplies|
                ran(final(self).history(), r) == #[trigger] cell_write_run(
                    old(self).history(),
                    old(self).logged(),
                    sheet@,
                    row,
                    col,
                    data,
                    replies,
                ),
    {
        put_cell(self, sheet, row, col, &data).0
    }

    fn write_range(&mut self, sheet: &str, cells: BTreeMap<(u32, u32), CellData>) -> Result<
        (),
        IoError,
    > {
        self.write_cells(sheet, cells)
    }

    fn clear_range(&mut self, sheet: &str, start: (u32, u32), end: (u32, u32)) -> (r: Result<
        (),
        IoError,
    >)
        ensures
            final(self).keeps(*old(self)),
            exists|rows: Seq<Seq<SetValueReplies>>|
                ran(final(self).history(), r) == #[trigger] clear_rows_run(
                    done(old(self).history()),
                    old(self).logged(),
                    sheet@,
                    start.0,
                    start.1,
                    rows,
                ) && clearing_answered(
                    rows,
                    span(start.0, end.0),
                    span(start.1, end.1),
                    io_view(r),
                ),
    {
        let ghost begun = done(self.history());
        let ghost mut rows: Seq<Seq<SetValueReplies>> = Seq::empty();
        let ghost width = span(start.1, end.1);
        let mut row: u64 = start.0 as u64;
        while row <= end.0 as u64
            invariant
                start.0 <= row,
                start.0 <= end.0 ==> row <= end.0 + 1,
                start.0 > end.0 ==> row == start.0,
                rows.len() == row - start.0,
                width == span(start.1, end.1),
                forall|i: int| 0 <= i < rows.len() ==> (#[trigger] rows[i]).len() == width,
                self.keeps(*old(self)),
                begun == done(old(self).history()),
                done(self.history()) == clear_rows_run(
                    begun,
                    old(self).logged(),
                    sheet@,
                    start.0,
                    start.1,
                    rows,
                ),
            decreases end.0 + 1 - row,
        {
            let (result, cells) = clear_row(self, sheet, row as u32, start.1, end.1);
            proof {
                let grown = rows.push(cells@);
                assert(grown.drop_last() =~= rows);
                rows = grown;
            }
            match result {
                Ok(_) => {},
                Err(e) => {
                    assert(ran(self.history(), Err(e)) == clear_rows_run(
                        begun,
                        old(self).logged(),
                        sheet@,
                        start.0,
                        start.1,
                        rows,
                    ));
                    return Err(e);
                },
            }
            row += 1;
        }
        assert(ran(self.history(), Ok(())) == clear_rows_run(
            begun,
            old(self).logged(),
            sheet@,
            start.0,
            start.1,
            rows,
        ));
        Ok(())
    }

    fn create_sheet(&mut self, name: &str) -> (r: Result<(), IoError>)
        ensures
            final(self).keeps(*old(self)),
            exists|added: Result<u32, ExcelError>, capacity: CapacityReplies|
                ran(final(self).history(), r) == sheet_run(
                    #[trigger] sheet_addition(old(self).history(), name@, added, capacity),
                ),
    {
        IoError::engine_result(self.add_sheet(name))
    }

    fn delete_sheet(&mut self, name: &str) -> Result<(), IoError> {
        self.delete_sheet_as_writer(name)
    }

    fn rename_sheet(&mut self, old_name: &str, new_name: &str) -> Result<(), IoError> {
        self.rename_sheet_as_writer(old_name, new_name)
    }

    fn flush(&mut self) -> (r: Result<(), IoError>)
        ensures
            r is Ok,
            *final(self) == *old(self),
    {
        Ok(())
    }
}

} // verus!
