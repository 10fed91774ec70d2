//! Atomic actions: edits that are kept or rolled back together.

use crate::batch::{covers, Target};
use crate::cell_data::{is_listing, list_range, CellData};
use crate::cells::{done, failed, ran, Run};
use crate::engine::{EngineEvent, WorkbookEngine};
use crate::error::{editor_outcome, io_view, EditorError, IoError};
use crate::formula::{parse_formula, parsed_formula};
use crate::grid::{cells_of, fits, list_cells, lists};
use crate::host::Host;
use crate::value::LiteralValue;
use std::collections::BTreeMap;
use std::marker::PhantomData;
use vstd::prelude::*;

verus! {

/// Where one edit in a transaction leads: `event` is the call, `reply` its answer.
pub open spec fn tx_run<E: WorkbookEngine>(
    h: Seq<EngineEvent<E>>,
    event: EngineEvent<E>,
    reply: Result<(), EditorError>,
) -> Run<E> {
    Run { history: h.push(event), outcome: editor_outcome(reply) }
}

/// Where the setting of a value in a transaction leads.
pub open spec fn tx_value_run<E: WorkbookEngine>(
    h: Seq<EngineEvent<E>>,
    sheet: Seq<char>,
    row: u32,
    col: u32,
    value: LiteralValue,
    reply: Result<(), EditorError>,
) -> Run<E> {
    tx_run(h, EngineEvent::TxSetValue { sheet, row, col, value, reply }, reply)
}

/// Where the setting of a formula in a transaction leads. One that does not parse
/// does not reach the engine.
pub open spec fn tx_formula_run<E: WorkbookEngine>(
    h: Seq<EngineEvent<E>>,
    sheet: Seq<char>,
    row: u32,
    col: u32,
    formula: Seq<char>,
    reply: Result<(), EditorError>,
) -> Run<E> {
    match parsed_formula(formula) {
        Err(e) => failed(h, e),
        Ok(tree) => tx_run(h, EngineEvent::TxSetFormula { sheet, row, col, tree, reply }, reply),
    }
}

/// Where the setting of the first values in a transaction leads; the first refusal
/// ends it.
pub open spec fn tx_values_run<E: WorkbookEngine>(
    h: Seq<EngineEvent<E>>,
    sheet: Seq<char>,
    cells: Seq<Target<LiteralValue>>,
    replies: Seq<Result<(), EditorError>>,
) -> Run<E>
    decreases replies.len(),
{
    if replies.len() == 0 {
        done(h)
    } else {
        let before = tx_values_run(h, sheet, cells, replies.drop_last());
        if before.outcome is Err {
            before
        } else {
            let (row, col, value) = cells[replies.len() - 1];
            tx_value_run(before.history, sheet, row, col, value, replies.last())
        }
    }
}

/// What the engine answers for one cell written in a transaction.
pub struct TxCellReplies {
    pub value: Result<(), EditorError>,
    pub formula: Result<(), EditorError>,
}

/// Where the writing of one cell in a transaction leads: its value, then its
/// formula.
pub open spec fn tx_cell_run<E: WorkbookEngine>(
    h: Seq<EngineEvent<E>>,
    sheet: Seq<char>,
    row: u32,
    col: u32,
    data: CellData,
    replies: TxCellReplies,
) -> Run<E> {
    let valued = match data.value {
        None => done(h),
        Some(value) => tx_value_run(h, sheet, row, col, value, replies.value),
    };
    if valued.outcome is Err {
        valued
    } else {
        match data.formula {
            None => valued,
            Some(formula) => tx_formula_run(
                valued.history,
                sheet,
                row,
                col,
                formula@,
                replies.formula,
            ),
        }
    }
}

/// Where the writing of the first cells in a transaction leads; the first failure
/// ends it.
pub open spec fn tx_range_run<E: WorkbookEngine>(
    h: Seq<EngineEvent<E>>,
    sheet: Seq<char>,
    cells: Seq<Target<CellData>>,
    replies: Seq<TxCellReplies>,
) -> Run<E>
    decreases replies.len(),
{
    if replies.len() == 0 {
        done(h)
    } else {
        let before = tx_range_run(h, sheet, cells, replies.drop_last());
        if before.outcome is Err {
            before
        } else {
            let (row, col, data) = cells[replies.len() - 1];
            tx_cell_run(before.history, sheet, row, col, data, replies.last())
        }
    }
}

/// The edits that an action can make.
///
/// It gives no hold on the workbook itself while the transaction is open, only
/// edits that a rollback undoes. Its lifetime keeps the actions of two workbooks
/// apart.
pub struct WorkbookAction<'a, E: WorkbookEngine> {
    host: Host<E>,
    brand: PhantomData<&'a mut &'a ()>,
}

impl<'a, E: WorkbookEngine> WorkbookAction<'a, E> {
    /// The engine and its history.
    pub closed spec fn host(&self) -> Host<E> {
        self.host
    }

    /// The calls made to the engine so far, in order.
    pub open spec fn history(&self) -> Seq<EngineEvent<E>> {
        self.host().history()
    }

    pub(crate) fn new(host: Host<E>) -> (a: WorkbookAction<'a, E>)
        ensures
            a.host() == host,
    {
        WorkbookAction { host, brand: PhantomData }
    }

    pub(crate) fn host_ref(&self) -> (h: &Host<E>)
        ensures
            *h == self.host(),
    {
        &self.host
    }

    pub(crate) fn host_mut(&mut self) -> (h: &mut Host<E>)
        ensures
            *h == old(self).host(),
            *final(h) == final(self).host(),
    {
        &mut self.host
    }

    fn put_value(&mut self, sheet: &str, row: u32, col: u32, value: &LiteralValue) -> (r: (
        Result<(), IoError>,
        Ghost<Result<(), EditorError>>,
    ))
        ensures
            ran(final(self).history(), r.0) == tx_value_run(
                old(self).history(),
                sheet@,
                row,
                col,
                *value,
                r.1@,
            ),
    {
        let reply = self.host.tx_set_value(sheet, row, col, value);
        let ghost answer = reply;
        (IoError::editor_result(reply), Ghost(answer))
    }

    fn put_formula(&mut self, sheet: &str, row: u32, col: u32, formula: &str) -> (r: (
        Result<(), IoError>,
        Ghost<Result<(), EditorError>>,
    ))
        ensures
            ran(final(self).history(), r.0) == tx_formula_run(
                old(self).history(),
                sheet@,
                row,
                col,
                formula@,
                r.1@,
            ),
    {
        match parse_formula(formula) {
            Err(e) => (Err(e), Ghost(arbitrary())),
            Ok(tree) => {
                let reply = self.host.tx_set_formula(sheet, row, col, &tree);
                let ghost answer = reply;
                (IoError::editor_result(reply), Ghost(answer))
            },
        }
    }

    /// Sets the value of a cell.
    pub fn set_value(&mut self, sheet: &str, row: u32, col: u32, value: LiteralValue) -> (r: Result<
        (),
        IoError,
    >)
        ensures
            exists|reply: Result<(), EditorError>|
                ran(final(self).history(), r) == #[trigger] tx_value_run(
                    old(self).history(),
                    sheet@,
                    row,
                    col,
                    value,
                    reply,
                ),
    {
        self.put_value(sheet, row, col, &value).0
    }

    /// Sets the formula of a cell, given with or without its sign.
    pub fn set_formula(&mut self, sheet: &str, row: u32, col: u32, formula: &str) -> (r: Result<
        (),
        IoError,
    >)
        ensures
            exists|reply: Result<(), EditorError>|
                ran(final(self).history(), r) == #[trigger] tx_formula_run(
                    old(self).history(),
                    sheet@,
                    row,
                    col,
                    formula@,
                    reply,
                ),
    {
        self.put_formula(sheet, row, col, formula).0
    }

    /// Sets the values of a rectangle, row by row, up to the first refusal.
    pub fn set_values(
        &mut self,
        sheet: &str,
        start_row: u32,
        start_col: u32,
        rows: &[Vec<LiteralValue>],
    ) -> (r: Result<(), IoError>)
        requires
            fits(start_row, start_col, rows@),
        ensures
            exists|replies: Seq<Result<(), EditorError>>|
                ran(final(self).history(), r) == #[trigger] tx_values_run(
                    old(self).history(),
                    sheet@,
                    cells_of(start_row, start_col, rows@),
                    replies,
                ) && covers(
                    replies.len(),
                    cells_of(start_row, start_col, rows@).len(),
                    io_view(r),
                ),
    {
        let ghost targets = cells_of(start_row, start_col, rows@);
        let cells = list_cells(start_row, start_col, rows);
        let ghost start = self.history();
        let ghost mut replies: Seq<Result<(), EditorError>> = Seq::empty();
        let mut i: usize = 0;
        while i < cells.len()
            invariant
                i <= cells@.len(),
                lists(cells@, targets),
                targets == cells_of(start_row, start_col, rows@),
                replies.len() == i,
                start == old(self).history(),
                done(self.history()) == tx_values_run(start, sheet@, targets, replies),
            decreases cells@.len() - i,
        {
            let (row, col, value) = cells[i];
            assert(cells@[i as int].0 == row);
            let (result, reply) = self.put_value(sheet, row, col, value);
            proof {
                let grown = replies.push(reply@);
                assert(grown.drop_last() =~= replies);
                replies = grown;
            }
            match result {
                Ok(_) => {},
                Err(e) => {
                    assert(ran(self.history(), Err(e)) == tx_values_run(
                        start,
                        sheet@,
                        targets,
                        replies,
                    ));
                    return Err(e);
                },
            }
            i += 1;
        }
        assert(ran(self.history(), Ok(())) == tx_values_run(start, sheet@, targets, replies));
        Ok(())
    }

    fn put_cell(&mut self, sheet: &str, row: u32, col: u32, data: &CellData) -> (r: (
        Result<(), IoError>,
        Ghost<TxCellReplies>,
    ))
        ensures
            ran(final(self).history(), r.0) == tx_cell_run(
                old(self).history(),
                sheet@,
                row,
                col,
                *data,
                r.1@,
            ),
    {
        let ghost mut replies: TxCellReplies = arbitrary();
        if let Some(value) = &data.value {
            let (result, reply) = self.put_value(sheet, row, col, value);
            proof {
                replies.value = reply@;
            }
            match result {
                Ok(_) => {},
                Err(e) => {
                    return (Err(e), Ghost(replies));
                },
            }
        }
        if let Some(formula) = &data.formula {
            let (result, reply) = self.put_formula(sheet, row, col, formula.as_str());
            proof {
                replies.formula = reply@;
            }
            return (result, Ghost(replies));
        }
        (Ok(()), Ghost(replies))
    }

    /// Writes cells by row and then by column, up to the first failure. `_start` is
    /// not looked at.
    pub fn write_range(
        &mut self,
        sheet: &str,
        _start: (u32, u32),
        cells: BTreeMap<(u32, u32), CellData>,
    ) -> (r: Result<(), IoError>)
        ensures
            exists|order: Seq<Target<CellData>>, replies: Seq<TxCellReplies>|
                is_listing(order, cells@) && ran(final(self).history(), r)
                    == #[trigger] tx_range_run(old(self).history(), sheet@, order, replies)
                    && covers(replies.len(), order.len(), io_view(r)),
    {
        let (listed, order) = list_range(&cells);
        let ghost targets = order@;
        let ghost start = self.history();
        let ghost mut replies: Seq<TxCellReplies> = Seq::empty();
        let mut i: usize = 0;
        while i < listed.len()
            invariant
                i <= listed@.len(),
                lists(listed@, targets),
                is_listing(targets, cells@),
                replies.len() == i,
                start == old(self).history(),
                done(self.history()) == tx_range_run(start, sheet@, targets, replies),
            decreases listed@.len() - i,
        {
            let (row, col, data) = listed[i];
            assert(listed@[i as int].0 == row);
            let (result, reply) = self.put_cell(sheet, row, col, data);
            proof {
                let grown = replies.push(reply@);
                assert(grown.drop_last() =~= replies);
                replies = grown;
            }
            match result {
                Ok(_) => {},
                Err(e) => {
                    assert(ran(self.history(), Err(e)) == tx_range_run(
                        start,
                        sheet@,
                        targets,
                        replies,
                    ));
                    return Err(e);
                },
            }
            i += 1;
        }
        assert(ran(self.history(), Ok(())) == tx_range_run(start, sheet@, targets, replies));
        Ok(())
    }

    /// Hides or shows a row.
    pub fn set_row_hidden(&mut self, sheet: &str, row: u32, hidden: bool) -> (r: Result<
        (),
        IoError,
    >)
        ensures
            exists|reply: Result<(), EditorError>|
                ran(final(self).history(), r) == #[trigger] tx_run(
                    old(self).history(),
                    EngineEvent::TxSetRowHidden { sheet: sheet@, row, hidden, reply },
                    reply,
                ),
    {
        let reply = self.host.tx_set_row_hidden(sheet, row, hidden);
        let ghost answer = reply;
        let r = IoError::editor_result(reply);
        assert(ran(self.history(), r) == tx_run(
            old(self).history(),
            EngineEvent::TxSetRowHidden { sheet: sheet@, row, hidden, reply: answer },
            answer,
        ));
        r
    }

    /// Hides or shows rows.
    pub fn set_rows_hidden(
        &mut self,
        sheet: &str,
        start_row: u32,
        end_row: u32,
        hidden: bool,
    ) -> (r: Result<(), IoError>)
        ensures
            exists|reply: Result<(), EditorError>|
                ran(final(self).history(), r) == #[trigger] tx_run(
                    old(self).history(),
                    EngineEvent::TxSetRowsHidden {
                        sheet: sheet@,
                        start_row,
                        end_row,
                        hidden,
                        reply,
                    },
                    reply,
                ),
    {
        let reply = self.host.tx_set_rows_hidden(sheet, start_row, end_row, hidden);
        let ghost answer = reply;
        let r = IoError::editor_result(reply);
        assert(ran(self.history(), r) == tx_run(
            old(self).history(),
            EngineEvent::TxSetRowsHidden {
                sheet: sheet@,
                start_row,
                end_row,
                hidden,
                reply: answer,
            },
            answer,
        ));
        r
    }
}

} // verus!
