//! Setting the formulas of many cells at once.

use crate::batch::{bracketed, covers, Target};
use crate::cells::{
    after_delta, after_sheet, done, failed, plain_formula_run, ran, sheet_of, Run, SheetReplies,
};
use crate::engine::{cell_at, CellRef, EngineEvent, EngineFlags, WorkbookEngine};
use crate::error::{io_view, ExcelError, IoError, IoErrorView};
use crate::formula::{parse_formula, parsed_formula};
use crate::grid::{cells_of, fits, lemma_width_reached, list_cells, lists, width, width_of};
use crate::host::Host;
use crate::store::{after_capacity, CapacityReplies};
use crate::text::text_view;
use vstd::prelude::*;

verus! {

/// The formula text staged for a cell before and after it is staged anew.
pub struct StagingReplies {
    pub before: Option<Seq<char>>,
    pub after: Option<Seq<char>>,
}

/// The history `h` after the formulas of the first cells were staged as texts.
/// While the change log is on, each change of a staged text is recorded.
pub open spec fn after_stagings<E: WorkbookEngine>(
    h: Seq<EngineEvent<E>>,
    logged: bool,
    sheet: Seq<char>,
    cells: Seq<Target<String>>,
    stagings: Seq<StagingReplies>,
) -> Seq<EngineEvent<E>>
    decreases stagings.len(),
{
    if stagings.len() == 0 {
        h
    } else {
        let before = after_stagings(h, logged, sheet, cells, stagings.drop_last());
        let (row, col, formula) = cells[stagings.len() - 1];
        let replies = stagings.last();
        if logged {
            let staged = before.push(
                EngineEvent::StagedFormulaText { sheet, row, col, reply: replies.before },
            ).push(EngineEvent::StageFormulaText { sheet, row, col, formula: formula@ }).push(
                EngineEvent::StagedFormulaText { sheet, row, col, reply: replies.after },
            );
            after_delta(staged, true, sheet, row, col, replies.before, replies.after)
        } else {
            before.push(EngineEvent::StageFormulaText { sheet, row, col, formula: formula@ })
        }
    }
}

/// The history `h` after the staged texts of the first cells were read.
pub open spec fn after_staged_reads<E: WorkbookEngine>(
    h: Seq<EngineEvent<E>>,
    sheet: Seq<char>,
    cells: Seq<Target<String>>,
    staged: Seq<Option<Seq<char>>>,
) -> Seq<EngineEvent<E>>
    decreases staged.len(),
{
    if staged.len() == 0 {
        h
    } else {
        let (row, col, _) = cells[staged.len() - 1];
        after_staged_reads(h, sheet, cells, staged.drop_last()).push(
            EngineEvent::StagedFormulaText { sheet, row, col, reply: staged.last() },
        )
    }
}

/// Where the setting of the first `n` formulas in an open edit leads; the first
/// that does not parse ends it.
pub open spec fn formula_edits_run<E: WorkbookEngine>(
    h: Seq<EngineEvent<E>>,
    sheet_id: u32,
    cells: Seq<Target<String>>,
    n: int,
) -> Run<E>
    decreases n,
{
    if n <= 0 {
        done(h)
    } else {
        let before = formula_edits_run(h, sheet_id, cells, n - 1);
        if before.outcome is Err {
            before
        } else {
            let (row, col, formula) = cells[n - 1];
            match parsed_formula(formula@) {
                Err(e) => failed(before.history, e),
                Ok(tree) => done(
                    before.history.push(
                        EngineEvent::EditSetFormula { cell: cell_at(sheet_id, row, col), tree },
                    ),
                ),
            }
        }
    }
}

proof fn lemma_edits_end<E: WorkbookEngine>(
    h: Seq<EngineEvent<E>>,
    sheet_id: u32,
    cells: Seq<Target<String>>,
    k: int,
    n: int,
)
    requires
        0 <= k <= n,
        formula_edits_run(h, sheet_id, cells, k).outcome is Err,
    ensures
        formula_edits_run(h, sheet_id, cells, n) == formula_edits_run(h, sheet_id, cells, k),
    decreases n,
{
    if k < n {
        lemma_edits_end(h, sheet_id, cells, k, n - 1);
    }
}

/// The history `h` after the staged texts of the first `n` cells were dropped.
pub open spec fn after_clearings<E: WorkbookEngine>(
    h: Seq<EngineEvent<E>>,
    sheet: Seq<char>,
    cells: Seq<Target<String>>,
    n: int,
) -> Seq<EngineEvent<E>>
    decreases n,
{
    if n <= 0 {
        h
    } else {
        let (row, col, _) = cells[n - 1];
        after_clearings(h, sheet, cells, n - 1).push(
            EngineEvent::ClearStagedFormulaText { sheet, row, col },
        )
    }
}

/// The history `h` after it was recorded that the staged texts of the first `n`
/// cells are gone.
pub open spec fn after_losses<E: WorkbookEngine>(
    h: Seq<EngineEvent<E>>,
    sheet: Seq<char>,
    cells: Seq<Target<String>>,
    staged: Seq<Option<Seq<char>>>,
    n: int,
) -> Seq<EngineEvent<E>>
    decreases n,
{
    if n <= 0 {
        h
    } else {
        let (row, col, _) = cells[n - 1];
        after_delta(
            after_losses(h, sheet, cells, staged, n - 1),
            true,
            sheet,
            row,
            col,
            staged[n - 1],
            None,
        )
    }
}

/// Where the unlogged setting of the first formulas leads; the first that does not
/// parse or is refused ends it.
pub open spec fn plain_formulas_run<E: WorkbookEngine>(
    h: Seq<EngineEvent<E>>,
    sheet: Seq<char>,
    cells: Seq<Target<String>>,
    sets: Seq<Result<(), ExcelError>>,
) -> Run<E>
    decreases sets.len(),
{
    if sets.len() == 0 {
        done(h)
    } else {
        let before = plain_formulas_run(h, sheet, cells, sets.drop_last());
        if before.outcome is Err {
            before
        } else {
            let (row, col, formula) = cells[sets.len() - 1];
            match parsed_formula(formula@) {
                Err(e) => failed(before.history, e),
                Ok(tree) => plain_formula_run(
                    before.history,
                    sheet,
                    row,
                    col,
                    tree,
                    sets.last(),
                ),
            }
        }
    }
}

/// What the engine answers when the formulas of cells are set.
pub struct SetFormulasReplies {
    pub capacity: CapacityReplies,
    pub flags: EngineFlags,
    pub stagings: Seq<StagingReplies>,
    pub sheet: SheetReplies,
    pub staged: Seq<Option<Seq<char>>>,
    pub sets: Seq<Result<(), ExcelError>>,
}

/// Whether `replies` go with `n` cells.
pub open spec fn formulas_answered(
    logged: bool,
    n: nat,
    replies: SetFormulasReplies,
    outcome: Result<(), IoErrorView>,
) -> bool {
    if replies.flags.defer_graph_building {
        replies.stagings.len() == n
    } else if logged {
        replies.staged.len() == n
    } else {
        covers(replies.sets.len(), n, outcome)
    }
}

/// Whether `replies` go with the rectangle `rows`; nothing is asked of those for one
/// without a cell.
pub open spec fn rows_answered(
    logged: bool,
    start_row: u32,
    start_col: u32,
    rows: Seq<Vec<String>>,
    replies: SetFormulasReplies,
    outcome: Result<(), IoErrorView>,
) -> bool {
    width_of(rows, rows.len() as int) > 0 ==> formulas_answered(
        logged,
        cells_of(start_row, start_col, rows).len(),
        replies,
        outcome,
    )
}

/// Where the logged setting of formulas in the graph leads.
pub open spec fn logged_formulas_run<E: WorkbookEngine>(
    h: Seq<EngineEvent<E>>,
    sheet: Seq<char>,
    cells: Seq<Target<String>>,
    named: SheetReplies,
    staged: Seq<Option<Seq<char>>>,
) -> Run<E> {
    let seen = after_staged_reads(after_sheet(h, sheet, named), sheet, cells, staged);
    let edits = formula_edits_run(
        seen.push(EngineEvent::EditBegin),
        sheet_of(named),
        cells,
        cells.len() as int,
    );
    let closed = edits.history.push(EngineEvent::EditEnd);
    match edits.outcome {
        Err(e) => failed(closed, e),
        Ok(_) => {
            let n = cells.len() as int;
            let cleared = after_clearings(closed, sheet, cells, n);
            done(
                after_losses(cleared, sheet, cells, staged, n).push(EngineEvent::MarkDataEdited),
            )
        },
    }
}

/// Where the setting of formulas leads from the history `h`, inside the bracket
/// that holds the spreading of changes back. `last_row` and `last_col` bound the
/// rectangle; one without a cell is left alone.
pub open spec fn formulas_run_inner<E: WorkbookEngine>(
    h: Seq<EngineEvent<E>>,
    logged: bool,
    sheet: Seq<char>,
    cells: Seq<Target<String>>,
    last_row: int,
    last_col: int,
    replies: SetFormulasReplies,
) -> Run<E> {
    let roomy = after_capacity(h, sheet, last_row, last_col, replies.capacity);
    let asked = roomy.push(EngineEvent::Flags { reply: replies.flags });
    if replies.flags.defer_graph_building {
        done(after_stagings(asked, logged, sheet, cells, replies.stagings))
    } else if logged {
        logged_formulas_run(asked, sheet, cells, replies.sheet, replies.staged)
    } else {
        plain_formulas_run(asked, sheet, cells, replies.sets)
    }
}

/// Where the setting of the formulas `rows` leads from the history `h`.
pub open spec fn formulas_run<E: WorkbookEngine>(
    h: Seq<EngineEvent<E>>,
    logged: bool,
    sheet: Seq<char>,
    start_row: u32,
    start_col: u32,
    rows: Seq<Vec<String>>,
    replies: SetFormulasReplies,
) -> Run<E> {
    let begun = h.push(EngineEvent::BeginDeferredDirty);
    let wide = width_of(rows, rows.len() as int);
    if wide == 0 {
        bracketed(done(begun))
    } else {
        bracketed(
            formulas_run_inner(
                begun,
                logged,
                sheet,
                cells_of(start_row, start_col, rows),
                start_row + rows.len() - 1,
                start_col + wide - 1,
                replies,
            ),
        )
    }
}

impl<E: WorkbookEngine> Host<E> {
    fn stage_formulas(
        &mut self,
        logged: bool,
        sheet: &str,
        cells: &Vec<(u32, u32, &String)>,
        Ghost(targets): Ghost<Seq<Target<String>>>,
    ) -> (stagings: Ghost<Seq<StagingReplies>>)
        requires
            lists(cells@, targets),
        ensures
            stagings@.len() == targets.len(),
            final(self).history() == after_stagings(
                old(self).history(),
                logged,
                sheet@,
                targets,
                stagings@,
            ),
    {
        let ghost start = self.history();
        let ghost mut stagings: Seq<StagingReplies> = Seq::empty();
        let mut i: usize = 0;
        while i < cells.len()
            invariant
                i <= cells@.len(),
                lists(cells@, targets),
                stagings.len() == i,
                self.history() == after_stagings(start, logged, sheet@, targets, stagings),
            decreases cells@.len() - i,
        {
            let (row, col, formula) = cells[i];
            assert(cells@[i as int].0 == row);
            let before = if logged {
                self.staged_formula_text(sheet, row, col)
            } else {
                None
            };
            let ghost seen = text_view(before);
            self.stage_formula_text(sheet, row, col, formula.as_str());
            let ghost mut reread: Option<Seq<char>> = None;
            if logged {
                let after = self.staged_formula_text(sheet, row, col);
                proof {
                    reread = text_view(after);
                }
                self.record_staged_formula_cell_change(true, sheet, row, col, before, after);
            }
            proof {
                let grown = stagings.push(StagingReplies { before: seen, after: reread });
                assert(grown.drop_last() =~= stagings);
                stagings = grown;
            }
            i += 1;
        }
        Ghost(stagings)
    }

    fn edit_formulas_logged(
        &mut self,
        sheet: &str,
        cells: &Vec<(u32, u32, &String)>,
        Ghost(targets): Ghost<Seq<Target<String>>>,
    ) -> (r: (Result<(), IoError>, Ghost<(SheetReplies, Seq<Option<Seq<char>>>)>))
        requires
            lists(cells@, targets),
        ensures
            r.1@.1.len() == targets.len(),
            ran(final(self).history(), r.0) == logged_formulas_run(
                old(self).history(),
                sheet@,
                targets,
                r.1@.0,
                r.1@.1,
            ),
    {
        let (sheet_id, named) = self.require_sheet(sheet);
        let ghost start = self.history();
        let ghost mut staged: Seq<Option<Seq<char>>> = Seq::empty();
        let mut befores: Vec<Option<String>> = Vec::new();
        let mut i: usize = 0;
        while i < cells.len()
            invariant
                i <= cells@.len(),
                lists(cells@, targets),
                staged.len() == i,
                befores@.len() == i,
                forall|j: int| 0 <= j < i ==> text_view(befores@[j]) == #[trigger] staged[j],
                self.history() == after_staged_reads(start, sheet@, targets, staged),
            decreases cells@.len() - i,
        {
            let (row, col) = (cells[i].0, cells[i].1);
            assert(cells@[i as int].0 == row);
            let before = self.staged_formula_text(sheet, row, col);
            proof {
                let grown = staged.push(text_view(before));
                assert(grown.drop_last() =~= staged);
                staged = grown;
            }
            befores.push(before);
            i += 1;
        }
        self.edit_begin();
        let ghost opened = self.history();
        let mut parse_error: Option<IoError> = None;
        let mut i: usize = 0;
        while i < cells.len() && parse_error.is_none()
            invariant
                i <= cells@.len(),
                lists(cells@, targets),
                match parse_error {
                    None => done(self.history()) == formula_edits_run(
                        opened,
                        sheet_id,
                        targets,
                        i as int,
                    ),
                    Some(e) => failed(self.history(), e@) == formula_edits_run(
                        opened,
                        sheet_id,
                        targets,
                        i as int,
                    ),
                },
            decreases cells@.len() - i,
        {
            let (row, col, formula) = cells[i];
            assert(cells@[i as int].0 == row);
            let cell = CellRef::from_excel(sheet_id, row, col);
            match parse_formula(formula.as_str()) {
                Ok(tree) => {
                    self.edit_set_formula(cell, &tree);
                },
                Err(e) => {
                    parse_error = Some(e);
                },
            }
            i += 1;
        }
        let ghost edits = self.history();
        self.edit_end();
        if let Some(e) = parse_error {
            proof {
                lemma_edits_end(opened, sheet_id, targets, i as int, targets.len() as int);
            }
            return (Err(e), Ghost((named@, staged)));
        }
        let ghost closed = self.history();
        let mut i: usize = 0;
        while i < cells.len()
            invariant
                i <= cells@.len(),
                lists(cells@, targets),
                self.history() == after_clearings(closed, sheet@, targets, i as int),
            decreases cells@.len() - i,
        {
            let (row, col) = (cells[i].0, cells[i].1);
            assert(cells@[i as int].0 == row);
            self.clear_staged_formula_text(sheet, row, col);
            i += 1;
        }
        let ghost cleared = self.history();
        let mut i: usize = 0;
        while i < cells.len()
            invariant
                i <= cells@.len(),
                lists(cells@, targets),
                staged.len() == cells@.len(),
                befores@.len() == cells@.len(),
                forall|j: int|
                    0 <= j < staged.len() ==> text_view(befores@[j]) == #[trigger] staged[j],
                self.history() == after_losses(cleared, sheet@, targets, staged, i as int),
            decreases cells@.len() - i,
        {
            let (row, col) = (cells[i].0, cells[i].1);
            assert(cells@[i as int].0 == row);
            assert(staged[i as int] == text_view(befores@[i as int]));
            if befores[i].is_some() {
                let before = befores[i].clone();
                self.record_staged_formula_cell_change(true, sheet, row, col, before, None);
            }
            i += 1;
        }
        self.mark_data_edited();
        (Ok(()), Ghost((named@, staged)))
    }

    fn edit_formulas_plain(
        &mut self,
        sheet: &str,
        cells: &Vec<(u32, u32, &String)>,
        Ghost(targets): Ghost<Seq<Target<String>>>,
    ) -> (r: (Result<(), IoError>, Ghost<Seq<Result<(), ExcelError>>>))
        requires
            lists(cells@, targets),
        ensures
            covers(r.1@.len(), targets.len(), io_view(r.0)),
            ran(final(self).history(), r.0) == plain_formulas_run(
                old(self).history(),
                sheet@,
                targets,
                r.1@,
            ),
    {
        let ghost start = self.history();
        let ghost mut sets: Seq<Result<(), ExcelError>> = Seq::empty();
        let mut i: usize = 0;
        while i < cells.len()
            invariant
                i <= cells@.len(),
                lists(cells@, targets),
                sets.len() == i,
                start == old(self).history(),
                done(self.history()) == plain_formulas_run(start, sheet@, targets, sets),
            decreases cells@.len() - i,
        {
            let (row, col, formula) = cells[i];
            assert(cells@[i as int].0 == row);
            match parse_formula(formula.as_str()) {
                Ok(tree) => {
                    let reply = self.set_cell_formula(sheet, row, col, &tree);
                    proof {
                        let grown = sets.push(reply);
                        assert(grown.drop_last() =~= sets);
                        sets = grown;
                    }
                    match reply {
                        Err(e) => {
                            return (Err(IoError::Engine(e)), Ghost(sets));
                        },
                        Ok(_) => {},
                    }
                    self.clear_staged_formula_text(sheet, row, col);
                },
                Err(e) => {
                    proof {
                        let grown = sets.push(Ok(()));
                        assert(grown.drop_last() =~= sets);
                        sets = grown;
                    }
                    return (Err(e), Ghost(sets));
                },
            }
            i += 1;
        }
        (Ok(()), Ghost(sets))
    }

    fn edit_formulas_inner(
        &mut self,
        logged: bool,
        sheet: &str,
        start_row: u32,
        start_col: u32,
        rows: &[Vec<String>],
        wide: usize,
    ) -> (r: (Result<(), IoError>, Ghost<SetFormulasReplies>))
        requires
            fits(start_row, start_col, rows@),
            wide == width_of(rows@, rows@.len() as int),
            wide > 0,
        ensures
            formulas_answered(
                logged,
                cells_of(start_row, start_col, rows@).len(),
                r.1@,
                io_view(r.0),
            ),
            ran(final(self).history(), r.0) == formulas_run_inner(
                old(self).history(),
                logged,
                sheet@,
                cells_of(start_row, start_col, rows@),
                start_row + rows@.len() - 1,
                start_col + wide - 1,
                r.1@,
            ),
    {
        proof {
            let i = lemma_width_reached(rows@, rows@.len() as int);
            assert(start_col + rows@[i]@.len() <= 0x1_0000_0000);
        }
        let end_row = start_row.saturating_add((rows.len() - 1) as u32);
        let end_col = start_col.saturating_add((wide - 1) as u32);
        let ghost targets = cells_of(start_row, start_col, rows@);
        let cells = list_cells(start_row, start_col, rows);
        let ghost mut replies: SetFormulasReplies = arbitrary();
        let capacity = self.ensure_arrow_sheet_capacity(sheet, end_row as usize, end_col as usize);
        let flags = self.flags();
        proof {
            replies.capacity = capacity@;
            replies.flags = flags;
        }
        if flags.defer_graph_building {
            let stagings = self.stage_formulas(logged, sheet, &cells, Ghost(targets));
            proof {
                replies.stagings = stagings@;
            }
            (Ok(()), Ghost(replies))
        } else if logged {
            let (result, answers) = self.edit_formulas_logged(sheet, &cells, Ghost(targets));
            proof {
                replies.sheet = answers@.0;
                replies.staged = answers@.1;
            }
            (result, Ghost(replies))
        } else {
            let (result, sets) = self.edit_formulas_plain(sheet, &cells, Ghost(targets));
            proof {
                replies.sets = sets@;
            }
            (result, Ghost(replies))
        }
    }

    /// Sets the formulas of a rectangle, see [`formulas_run`].
    pub(crate) fn edit_formulas(
        &mut self,
        logged: bool,
        sheet: &str,
        start_row: u32,
        start_col: u32,
        rows: &[Vec<String>],
    ) -> (r: (Result<(), IoError>, Ghost<SetFormulasReplies>))
        requires
            width_of(rows@, rows@.len() as int) > 0 ==> fits(start_row, start_col, rows@),
        ensures
            rows_answered(logged, start_row, start_col, rows@, r.1@, io_view(r.0)),
            ran(final(self).history(), r.0) == formulas_run(
                old(self).history(),
                logged,
                sheet@,
                start_row,
                start_col,
                rows@,
                r.1@,
            ),
    {
        self.begin_deferred_dirty();
        let height = rows.len();
        let wide = width(rows);
        if height == 0 || wide == 0 {
            self.end_deferred_dirty();
            return (Ok(()), Ghost(arbitrary()));
        }
        let r = self.edit_formulas_inner(logged, sheet, start_row, start_col, rows, wide);
        self.end_deferred_dirty();
        r
    }
}

} // verus!
