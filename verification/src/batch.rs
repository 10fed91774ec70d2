//! Edits of many cells at once. Changes are spread to dependents once per batch.

use crate::cells::{
    after_delta, after_old_state, after_sheet, after_value_edit, done, failed, ran, sheet_of,
    OldState, Run, SheetReplies,
};
use crate::engine::{cell_at, formula_of, CellRef, EngineEvent, WorkbookEngine};
use crate::error::{io_view, ExcelError, IoError, IoErrorView};
use crate::grid::{cells_of, fits, list_cells, lists};
use crate::host::Host;
use crate::store::{after_mirror, MirrorReplies};
use crate::text::text_view;
use crate::value::LiteralValue;
use vstd::prelude::*;

verus! {

/// A cell and the value or formula that it is to have.
pub type Target<V> = (u32, u32, V);

/// The state of a cell before a batch edit.
pub struct CellReplies {
    pub old_state: OldState,
    pub staged: Option<Seq<char>>,
}

/// The history `h` after the states of the first cells were read.
pub open spec fn after_reads<E: WorkbookEngine, V>(
    h: Seq<EngineEvent<E>>,
    sheet: Seq<char>,
    cells: Seq<Target<V>>,
    reads: Seq<CellReplies>,
) -> Seq<EngineEvent<E>>
    decreases reads.len(),
{
    if reads.len() == 0 {
        h
    } else {
        let before = after_reads(h, sheet, cells, reads.drop_last());
        let (row, col, _) = cells[reads.len() - 1];
        after_old_state(before, sheet, row, col, reads.last().old_state).push(
            EngineEvent::StagedFormulaText { sheet, row, col, reply: reads.last().staged },
        )
    }
}

/// The history `h` after the values of the first `n` cells were set in an open
/// edit.
pub open spec fn after_value_edits<E: WorkbookEngine>(
    h: Seq<EngineEvent<E>>,
    sheet_id: u32,
    cells: Seq<Target<LiteralValue>>,
    reads: Seq<CellReplies>,
    n: int,
) -> Seq<EngineEvent<E>>
    decreases n,
{
    if n <= 0 {
        h
    } else {
        let (row, col, value) = cells[n - 1];
        after_value_edit(
            after_value_edits(h, sheet_id, cells, reads, n - 1),
            cell_at(sheet_id, row, col),
            value,
            reads[n - 1].old_state,
        )
    }
}

/// The history `h` after the values of the first cells were laid into the overlay
/// and their staged formula texts dropped.
pub open spec fn after_settling<E: WorkbookEngine>(
    h: Seq<EngineEvent<E>>,
    sheet: Seq<char>,
    cells: Seq<Target<LiteralValue>>,
    reads: Seq<CellReplies>,
    mirrors: Seq<MirrorReplies>,
) -> Seq<EngineEvent<E>>
    decreases mirrors.len(),
{
    if mirrors.len() == 0 {
        h
    } else {
        let n = mirrors.len() - 1;
        let (row, col, value) = cells[n];
        let before = after_settling(h, sheet, cells, reads, mirrors.drop_last());
        let cleared = after_mirror(before, sheet, row, col, value, mirrors.last()).push(
            EngineEvent::ClearStagedFormulaText { sheet, row, col },
        );
        after_delta(cleared, true, sheet, row, col, reads[n].staged, None)
    }
}

/// Where the unlogged setting of the first values leads; the first refusal ends it.
pub open spec fn plain_values_run<E: WorkbookEngine>(
    h: Seq<EngineEvent<E>>,
    sheet: Seq<char>,
    cells: Seq<Target<LiteralValue>>,
    sets: Seq<Result<(), ExcelError>>,
) -> Run<E>
    decreases sets.len(),
{
    if sets.len() == 0 {
        done(h)
    } else {
        let before = plain_values_run(h, sheet, cells, sets.drop_last());
        if before.outcome is Err {
            before
        } else {
            let (row, col, value) = cells[sets.len() - 1];
            let set = before.history.push(
                EngineEvent::SetCellValue { sheet, row, col, value, reply: sets.last() },
            );
            match sets.last() {
                Err(e) => failed(set, IoErrorView::Engine(e@)),
                Ok(_) => done(
                    set.push(EngineEvent::ClearStagedFormulaText { sheet, row, col }),
                ),
            }
        }
    }
}

/// What the engine answers when the values of cells are set.
pub struct SetValuesReplies {
    pub sheet: SheetReplies,
    pub reads: Seq<CellReplies>,
    pub mirrors: Seq<MirrorReplies>,
    pub sets: Seq<Result<(), ExcelError>>,
}

/// Whether `answers` go with `n` cells of a batch with the outcome `outcome`: one
/// for each cell, up to the first failure.
pub open spec fn covers(answers: nat, n: nat, outcome: Result<(), IoErrorView>) -> bool {
    answers <= n && (outcome is Ok ==> answers == n)
}

/// Whether `replies` go with `n` cells.
pub open spec fn values_answered(
    logged: bool,
    n: nat,
    replies: SetValuesReplies,
    outcome: Result<(), IoErrorView>,
) -> bool {
    if logged {
        replies.reads.len() == n && replies.mirrors.len() == n
    } else {
        covers(replies.sets.len(), n, outcome)
    }
}

/// Where the setting of values leads from the history `h`, inside the bracket that
/// holds the spreading of changes back.
pub open spec fn values_run_inner<E: WorkbookEngine>(
    h: Seq<EngineEvent<E>>,
    logged: bool,
    sheet: Seq<char>,
    cells: Seq<Target<LiteralValue>>,
    replies: SetValuesReplies,
) -> Run<E> {
    if logged {
        let named = after_sheet(h, sheet, replies.sheet);
        let seen = after_reads(named, sheet, cells, replies.reads);
        let edited = after_value_edits(
            seen.push(EngineEvent::EditBegin),
            sheet_of(replies.sheet),
            cells,
            replies.reads,
            cells.len() as int,
        ).push(EngineEvent::EditEnd);
        let settled = after_settling(edited, sheet, cells, replies.reads, replies.mirrors);
        done(settled.push(EngineEvent::MarkDataEdited))
    } else {
        plain_values_run(h, sheet, cells, replies.sets)
    }
}

/// A run between a begin and an end of the bracket that holds the spreading of
/// changes back. It is closed whatever the outcome.
pub open spec fn bracketed<E: WorkbookEngine>(inner: Run<E>) -> Run<E> {
    Run { history: inner.history.push(EngineEvent::EndDeferredDirty), outcome: inner.outcome }
}

/// Where the setting of values leads from the history `h`.
pub open spec fn values_run<E: WorkbookEngine>(
    h: Seq<EngineEvent<E>>,
    logged: bool,
    sheet: Seq<char>,
    cells: Seq<Target<LiteralValue>>,
    replies: SetValuesReplies,
) -> Run<E> {
    bracketed(
        values_run_inner(h.push(EngineEvent::BeginDeferredDirty), logged, sheet, cells, replies),
    )
}

impl<E: WorkbookEngine> Host<E> {
    /// Reads the state of a cell: its value, its formula and its staged text.
    pub(crate) fn read_cell_state(&mut self, sheet: &str, row: u32, col: u32) -> (r: (
        Option<LiteralValue>,
        Option<formualizer_parse::ASTNode>,
        Option<String>,
        Ghost<CellReplies>,
    ))
        ensures
            r.0 == r.3@.old_state.value,
            r.1 == formula_of(r.3@.old_state.cell),
            text_view(r.2) == r.3@.staged,
            final(self).history() == after_old_state(
                old(self).history(),
                sheet@,
                row,
                col,
                r.3@.old_state,
            ).push(
                EngineEvent::StagedFormulaText { sheet: sheet@, row, col, reply: r.3@.staged },
            ),
    {
        let value = self.get_cell_value(sheet, row, col);
        let cell = self.get_cell(sheet, row, col);
        let ghost old_state = OldState { value, cell };
        let formula = match cell {
            Some(state) => state.formula,
            None => None,
        };
        let staged = self.staged_formula_text(sheet, row, col);
        let ghost replies = CellReplies { old_state, staged: text_view(staged) };
        (value, formula, staged, Ghost(replies))
    }

    fn edit_values_logged(
        &mut self,
        sheet: &str,
        cells: &Vec<(u32, u32, &LiteralValue)>,
        Ghost(targets): Ghost<Seq<Target<LiteralValue>>>,
    ) -> (replies: Ghost<SetValuesReplies>)
        requires
            lists(cells@, targets),
        ensures
            replies@.reads.len() == targets.len(),
            replies@.mirrors.len() == targets.len(),
            done(final(self).history()) == values_run_inner(
                old(self).history(),
                true,
                sheet@,
                targets,
                replies@,
            ),
    {
        let (sheet_id, named) = self.require_sheet(sheet);
        let ghost start = self.history();
        let ghost mut reads: Seq<CellReplies> = Seq::empty();
        let mut old_values: Vec<Option<LiteralValue>> = Vec::new();
        let mut old_formulas: Vec<Option<formualizer_parse::ASTNode>> = Vec::new();
        let mut befores: Vec<Option<String>> = Vec::new();
        let mut i: usize = 0;
        while i < cells.len()
            invariant
                i <= cells@.len(),
                lists(cells@, targets),
                reads.len() == i,
                old_values@.len() == i,
                old_formulas@.len() == i,
                befores@.len() == i,
                forall|j: int|
                    0 <= j < i ==> old_values@[j] == (#[trigger] reads[j]).old_state.value,
                forall|j: int|
                    0 <= j < i ==> old_formulas@[j] == formula_of(
                        (#[trigger] reads[j]).old_state.cell,
                    ),
                forall|j: int|
                    0 <= j < i ==> text_view(befores@[j]) == (#[trigger] reads[j]).staged,
                self.history() == after_reads(start, sheet@, targets, reads),
            decreases cells@.len() - i,
        {
            let (row, col) = (cells[i].0, cells[i].1);
            assert(targets[i as int].0 == row && targets[i as int].1 == col) by {
                assert(cells@[i as int].0 == row);
            }
            let (value, formula, staged, read) = self.read_cell_state(sheet, row, col);
            old_values.push(value);
            old_formulas.push(formula);
            befores.push(staged);
            proof {
                let grown = reads.push(read@);
                assert(grown.drop_last() =~= reads);
                reads = grown;
            }
            i += 1;
        }
        self.edit_begin();
        let ghost opened = self.history();
        let mut i: usize = 0;
        while i < cells.len()
            invariant
                i <= cells@.len(),
                lists(cells@, targets),
                reads.len() == cells@.len(),
                old_values@.len() == cells@.len(),
                old_formulas@.len() == cells@.len(),
                forall|j: int|
                    0 <= j < reads.len() ==> old_values@[j] == (
                    #[trigger] reads[j]).old_state.value,
                forall|j: int|
                    0 <= j < reads.len() ==> old_formulas@[j] == formula_of(
                        (#[trigger] reads[j]).old_state.cell,
                    ),
                self.history() == after_value_edits(opened, sheet_id, targets, reads, i as int),
            decreases cells@.len() - i,
        {
            let (row, col, value) = cells[i];
            assert(cells@[i as int].0 == row);
            assert(reads[i as int].old_state.value == old_values@[i as int]);
            let cell = CellRef::from_excel(sheet_id, row, col);
            self.edit_set_value_with_old_state(cell, value, &old_values[i], &old_formulas[i]);
            i += 1;
        }
        self.edit_end();
        let ghost edited = self.history();
        let ghost mut mirrors: Seq<MirrorReplies> = Seq::empty();
        let mut i: usize = 0;
        while i < cells.len()
            invariant
                i <= cells@.len(),
                lists(cells@, targets),
                reads.len() == cells@.len(),
                befores@.len() == cells@.len(),
                forall|j: int|
                    0 <= j < reads.len() ==> text_view(befores@[j]) == (#[trigger] reads[j]).staged,
                mirrors.len() == i,
                self.history() == after_settling(edited, sheet@, targets, reads, mirrors),
            decreases cells@.len() - i,
        {
            let (row, col, value) = cells[i];
            assert(cells@[i as int].0 == row);
            assert(reads[i as int].staged == text_view(befores@[i as int]));
            let mirror = self.mirror_value_to_overlay(sheet, row, col, value);
            self.clear_staged_formula_text(sheet, row, col);
            if befores[i].is_some() {
                let before = befores[i].clone();
                self.record_staged_formula_cell_change(true, sheet, row, col, before, None);
            }
            proof {
                let grown = mirrors.push(mirror@);
                assert(grown.drop_last() =~= mirrors);
                mirrors = grown;
            }
            i += 1;
        }
        self.mark_data_edited();
        Ghost(SetValuesReplies { sheet: named@, reads, mirrors, sets: arbitrary() })
    }

    fn edit_values_plain(
        &mut self,
        sheet: &str,
        cells: &Vec<(u32, u32, &LiteralValue)>,
        Ghost(targets): Ghost<Seq<Target<LiteralValue>>>,
    ) -> (r: (Result<(), IoError>, Ghost<Seq<Result<(), ExcelError>>>))
        requires
            lists(cells@, targets),
        ensures
            covers(r.1@.len(), targets.len(), io_view(r.0)),
            ran(final(self).history(), r.0) == plain_values_run(
                old(self).history(),
                sheet@,
                targets,
                r.1@,
            ),
    {
        let ghost start = self.history();
        let ghost mut sets: Seq<Result<(), ExcelError>> = Seq::empty();
        let mut i: usize = 0;
        while i < cells.len()
            invariant
                i <= cells@.len(),
                lists(cells@, targets),
                sets.len() == i,
                start == old(self).history(),
                done(self.history()) == plain_values_run(start, sheet@, targets, sets),
            decreases cells@.len() - i,
        {
            let (row, col, value) = cells[i];
            assert(cells@[i as int].0 == row);
            let reply = self.set_cell_value(sheet, row, col, value);
            proof {
                let grown = sets.push(reply);
                assert(grown.drop_last() =~= sets);
                sets = grown;
            }
            match reply {
                Err(e) => {
                    return (Err(IoError::Engine(e)), Ghost(sets));
                },
                Ok(_) => {},
            }
            self.clear_staged_formula_text(sheet, row, col);
            i += 1;
        }
        (Ok(()), Ghost(sets))
    }

    /// Sets the values of a rectangle, see [`values_run`].
    pub(crate) fn edit_values(
        &mut self,
        logged: bool,
        sheet: &str,
        start_row: u32,
        start_col: u32,
        rows: &[Vec<LiteralValue>],
    ) -> (r: (Result<(), IoError>, Ghost<SetValuesReplies>))
        requires
            fits(start_row, start_col, rows@),
        ensures
            values_answered(
                logged,
                cells_of(start_row, start_col, rows@).len(),
                r.1@,
                io_view(r.0),
            ),
            ran(final(self).history(), r.0) == values_run(
                old(self).history(),
                logged,
                sheet@,
                cells_of(start_row, start_col, rows@),
                r.1@,
            ),
    {
        let ghost targets = cells_of(start_row, start_col, rows@);
        let cells = list_cells(start_row, start_col, rows);
        self.begin_deferred_dirty();
        if logged {
            let replies = self.edit_values_logged(sheet, &cells, Ghost(targets));
            self.end_deferred_dirty();
            (Ok(()), replies)
        } else {
            let (result, sets) = self.edit_values_plain(sheet, &cells, Ghost(targets));
            self.end_deferred_dirty();
            (
                result,
                Ghost(
                    SetValuesReplies {
                        sheet: arbitrary(),
                        reads: arbitrary(),
                        mirrors: arbitrary(),
                        sets: sets@,
                    },
                ),
            )
        }
    }
}

} // verus!
