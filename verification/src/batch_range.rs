//! Writing values and formulas of many cells at once.

use crate::batch::{after_reads, bracketed, covers, CellReplies, Target};
use crate::cell_data::{is_listing, list_range, CellData};
use crate::cells::{
    after_delta, after_sheet, after_value_edit, done, failed, plain_formula_run, ran, sheet_of,
    Run, SheetReplies,
};
use crate::engine::{cell_at, formula_of, CellRef, EngineEvent, EngineFlags, WorkbookEngine};
use crate::error::{io_view, ExcelError, IoError, IoErrorView};
use crate::formula::{parse_formula, parsed_formula};
use crate::grid::lists;
use crate::host::Host;
use crate::store::{after_mirror, MirrorReplies};
use crate::text::{same_optional_text, text_view};
use crate::value::LiteralValue;
use std::collections::BTreeMap;
use vstd::prelude::*;

verus! {

/// Whether a cell is to have a value and no formula.
pub open spec fn value_only(data: CellData) -> bool {
    data.value is Some && data.formula is None
}

/// Where one item of a batch leads inside an open edit. The old state of the cell
/// goes with the last edit of it: with the formula where that goes to the graph,
/// else with the value. A formula that is deferred is left for later.
pub open spec fn range_edit_run<E: WorkbookEngine>(
    h: Seq<EngineEvent<E>>,
    deferred: bool,
    cell: CellRef,
    data: CellData,
    read: CellReplies,
) -> Run<E> {
    let to_graph = data.formula is Some && !deferred;
    let valued = match data.value {
        None => h,
        Some(value) => if to_graph {
            h.push(EngineEvent::EditSetValue { cell, value })
        } else {
            after_value_edit(h, cell, value, read.old_state)
        },
    };
    match data.formula {
        None => done(valued),
        Some(formula) => if deferred {
            done(valued)
        } else {
            match parsed_formula(formula@) {
                Err(e) => failed(valued, e),
                Ok(tree) => done(
                    valued.push(
                        EngineEvent::EditSetFormulaWithOldState {
                            cell,
                            tree,
                            old_value: read.old_state.value,
                            old_formula: formula_of(read.old_state.cell),
                        },
                    ),
                ),
            }
        },
    }
}

/// Where the first `n` items lead inside an open edit; the first formula that does
/// not parse ends it.
pub open spec fn range_edits_run<E: WorkbookEngine>(
    h: Seq<EngineEvent<E>>,
    deferred: bool,
    sheet_id: u32,
    cells: Seq<Target<CellData>>,
    reads: Seq<CellReplies>,
    n: int,
) -> Run<E>
    decreases n,
{
    if n <= 0 {
        done(h)
    } else {
        let before = range_edits_run(h, deferred, sheet_id, cells, reads, n - 1);
        if before.outcome is Err {
            before
        } else {
            let (row, col, data) = cells[n - 1];
            range_edit_run(
                before.history,
                deferred,
                cell_at(sheet_id, row, col),
                data,
                reads[n - 1],
            )
        }
    }
}

proof fn lemma_range_edits_end<E: WorkbookEngine>(
    h: Seq<EngineEvent<E>>,
    deferred: bool,
    sheet_id: u32,
    cells: Seq<Target<CellData>>,
    reads: Seq<CellReplies>,
    k: int,
    n: int,
)
    requires
        0 <= k <= n,
        range_edits_run(h, deferred, sheet_id, cells, reads, k).outcome is Err,
    ensures
        range_edits_run(h, deferred, sheet_id, cells, reads, n) == range_edits_run(
            h,
            deferred,
            sheet_id,
            cells,
            reads,
            k,
        ),
    decreases n,
{
    if k < n {
        lemma_range_edits_end(h, deferred, sheet_id, cells, reads, k, n - 1);
    }
}

/// The history `h` after the values of the first cells were laid into the overlay.
/// A value beside a formula is not laid, it would hide the result of the formula.
pub open spec fn after_range_mirrors<E: WorkbookEngine>(
    h: Seq<EngineEvent<E>>,
    sheet: Seq<char>,
    cells: Seq<Target<CellData>>,
    mirrors: Seq<MirrorReplies>,
) -> Seq<EngineEvent<E>>
    decreases mirrors.len(),
{
    if mirrors.len() == 0 {
        h
    } else {
        let before = after_range_mirrors(h, sheet, cells, mirrors.drop_last());
        let (row, col, data) = cells[mirrors.len() - 1];
        if value_only(data) {
            after_mirror(before, sheet, row, col, data.value->0, mirrors.last())
        } else {
            before
        }
    }
}

/// The history `h` after the staged texts of the first `n` cells were dropped where
/// a value or a formula in the graph takes their place.
pub open spec fn after_range_clearings<E: WorkbookEngine>(
    h: Seq<EngineEvent<E>>,
    deferred: bool,
    sheet: Seq<char>,
    cells: Seq<Target<CellData>>,
    n: int,
) -> Seq<EngineEvent<E>>
    decreases n,
{
    if n <= 0 {
        h
    } else {
        let before = after_range_clearings(h, deferred, sheet, cells, n - 1);
        let (row, col, data) = cells[n - 1];
        if value_only(data) || (data.formula is Some && !deferred) {
            before.push(EngineEvent::ClearStagedFormulaText { sheet, row, col })
        } else {
            before
        }
    }
}

/// The history `h` after the formulas of the first `n` cells were staged as texts,
/// where that is what becomes of them.
pub open spec fn after_range_stagings<E: WorkbookEngine>(
    h: Seq<EngineEvent<E>>,
    deferred: bool,
    sheet: Seq<char>,
    cells: Seq<Target<CellData>>,
    n: int,
) -> Seq<EngineEvent<E>>
    decreases n,
{
    if n <= 0 {
        h
    } else {
        let before = after_range_stagings(h, deferred, sheet, cells, n - 1);
        let (row, col, data) = cells[n - 1];
        match data.formula {
            Some(formula) => if deferred {
                before.push(EngineEvent::StageFormulaText { sheet, row, col, formula: formula@ })
            } else {
                before
            },
            None => before,
        }
    }
}

/// The history `h` after the staged texts of the first cells were read again and
/// their changes recorded.
pub open spec fn after_range_deltas<E: WorkbookEngine>(
    h: Seq<EngineEvent<E>>,
    sheet: Seq<char>,
    cells: Seq<Target<CellData>>,
    reads: Seq<CellReplies>,
    afters: Seq<Option<Seq<char>>>,
) -> Seq<EngineEvent<E>>
    decreases afters.len(),
{
    if afters.len() == 0 {
        h
    } else {
        let n = afters.len() - 1;
        let (row, col, _) = cells[n];
        let reread = after_range_deltas(h, sheet, cells, reads, afters.drop_last()).push(
            EngineEvent::StagedFormulaText { sheet, row, col, reply: afters.last() },
        );
        after_delta(reread, true, sheet, row, col, reads[n].staged, afters.last())
    }
}

/// What the engine answers for one cell of an unlogged batch.
pub struct PlainCellReplies {
    pub value_set: Result<(), ExcelError>,
    pub flags: EngineFlags,
    pub formula_set: Result<(), ExcelError>,
}

/// Where the unlogged writing of one cell leads.
pub open spec fn plain_cell_run<E: WorkbookEngine>(
    h: Seq<EngineEvent<E>>,
    sheet: Seq<char>,
    row: u32,
    col: u32,
    data: CellData,
    replies: PlainCellReplies,
) -> Run<E> {
    let valued = match data.value {
        None => h,
        Some(value) => h.push(
            EngineEvent::SetCellValue { sheet, row, col, value, reply: replies.value_set },
        ),
    };
    if data.value is Some && replies.value_set is Err {
        failed(valued, IoErrorView::Engine(replies.value_set->Err_0@))
    } else {
        match data.formula {
            None => if data.value is Some {
                done(valued.push(EngineEvent::ClearStagedFormulaText { sheet, row, col }))
            } else {
                done(valued)
            },
            Some(formula) => {
                let asked = valued.push(EngineEvent::Flags { reply: replies.flags });
                if replies.flags.defer_graph_building {
                    done(
                        asked.push(
                            EngineEvent::StageFormulaText { sheet, row, col, formula: formula@ },
                        ),
                    )
                } else {
                    match parsed_formula(formula@) {
                        Err(e) => failed(asked, e),
                        Ok(tree) => plain_formula_run(
                            asked,
                            sheet,
                            row,
                            col,
                            tree,
                            replies.formula_set,
                        ),
                    }
                }
            },
        }
    }
}

/// Where the unlogged writing of the first cells leads; the first failure ends it.
pub open spec fn plain_range_run<E: WorkbookEngine>(
    h: Seq<EngineEvent<E>>,
    sheet: Seq<char>,
    cells: Seq<Target<CellData>>,
    answers: Seq<PlainCellReplies>,
) -> Run<E>
    decreases answers.len(),
{
    if answers.len() == 0 {
        done(h)
    } else {
        let before = plain_range_run(h, sheet, cells, answers.drop_last());
        if before.outcome is Err {
            before
        } else {
            let (row, col, data) = cells[answers.len() - 1];
            plain_cell_run(before.history, sheet, row, col, data, answers.last())
        }
    }
}

/// What the engine answers when cells are written.
pub struct WriteRangeReplies {
    pub sheet: SheetReplies,
    pub flags: EngineFlags,
    pub reads: Seq<CellReplies>,
    pub mirrors: Seq<MirrorReplies>,
    pub afters: Seq<Option<Seq<char>>>,
    pub answers: Seq<PlainCellReplies>,
}

/// Whether `replies` go with `n` cells.
pub open spec fn range_answered(
    logged: bool,
    n: nat,
    replies: WriteRangeReplies,
    outcome: Result<(), IoErrorView>,
) -> bool {
    if logged {
        &&& replies.reads.len() == n
        &&& outcome is Ok ==> replies.mirrors.len() == n && replies.afters.len() == n
    } else {
        covers(replies.answers.len(), n, outcome)
    }
}

/// Where the logged writing of cells leads from the history `h`.
pub open spec fn logged_range_run<E: WorkbookEngine>(
    h: Seq<EngineEvent<E>>,
    sheet: Seq<char>,
    cells: Seq<Target<CellData>>,
    replies: WriteRangeReplies,
) -> Run<E> {
    let named = after_sheet(h, sheet, replies.sheet);
    let asked = named.push(EngineEvent::Flags { reply: replies.flags });
    let deferred = replies.flags.defer_graph_building;
    let seen = after_reads(asked, sheet, cells, replies.reads);
    let n = cells.len() as int;
    let edits = range_edits_run(
        seen.push(EngineEvent::EditBegin),
        deferred,
        sheet_of(replies.sheet),
        cells,
        replies.reads,
        n,
    );
    let closed = edits.history.push(EngineEvent::EditEnd);
    match edits.outcome {
        Err(e) => failed(closed, e),
        Ok(_) => {
            let mirrored = after_range_mirrors(closed, sheet, cells, replies.mirrors);
            let cleared = after_range_clearings(mirrored, deferred, sheet, cells, n);
            let staged = after_range_stagings(cleared, deferred, sheet, cells, n);
            let recorded = after_range_deltas(
                staged,
                sheet,
                cells,
                replies.reads,
                replies.afters,
            );
            done(recorded.push(EngineEvent::MarkDataEdited))
        },
    }
}

/// Where the writing of cells leads from the history `h`.
pub open spec fn range_run<E: WorkbookEngine>(
    h: Seq<EngineEvent<E>>,
    logged: bool,
    sheet: Seq<char>,
    cells: Seq<Target<CellData>>,
    replies: WriteRangeReplies,
) -> Run<E> {
    let begun = h.push(EngineEvent::BeginDeferredDirty);
    if logged {
        bracketed(logged_range_run(begun, sheet, cells, replies))
    } else {
        bracketed(plain_range_run(begun, sheet, cells, replies.answers))
    }
}

impl<E: WorkbookEngine> Host<E> {
    fn edit_range_item(
        &mut self,
        deferred: bool,
        cell: CellRef,
        data: &CellData,
        old_value: &Option<LiteralValue>,
        old_formula: &Option<formualizer_parse::ASTNode>,
        Ghost(read): Ghost<CellReplies>,
    ) -> (r: Result<(), IoError>)
        requires
            *old_value == read.old_state.value,
            *old_formula == formula_of(read.old_state.cell),
        ensures
            ran(final(self).history(), r) == range_edit_run(
                old(self).history(),
                deferred,
                cell,
                *data,
                read,
            ),
    {
        let to_graph = data.formula.is_some() && !deferred;
        if let Some(value) = &data.value {
            if to_graph {
                self.edit_set_value(cell, value);
            } else {
                self.edit_set_value_with_old_state(cell, value, old_value, old_formula);
            }
        }
        if let Some(formula) = &data.formula {
            if !deferred {
                match parse_formula(formula.as_str()) {
                    Ok(tree) => {
                        self.edit_set_formula_with_old_state(cell, &tree, old_value, old_formula);
                    },
                    Err(e) => {
                        return Err(e);
                    },
                }
            }
        }
        Ok(())
    }

    fn write_range_logged(
        &mut self,
        sheet: &str,
        cells: &Vec<(u32, u32, &CellData)>,
        Ghost(targets): Ghost<Seq<Target<CellData>>>,
    ) -> (r: (Result<(), IoError>, Ghost<WriteRangeReplies>))
        requires
            lists(cells@, targets),
        ensures
            range_answered(true, targets.len(), r.1@, io_view(r.0)),
            ran(final(self).history(), r.0) == logged_range_run(
                old(self).history(),
                sheet@,
                targets,
                r.1@,
            ),
    {
        let (sheet_id, named) = self.require_sheet(sheet);
        let flags = self.flags();
        let deferred = flags.defer_graph_building;
        let ghost start = self.history();
        let ghost mut reads: Seq<CellReplies> = Seq::empty();
        let mut old_values: Vec<Option<LiteralValue>> = Vec::new();
        let mut old_formulas: Vec<Option<formualizer_parse::ASTNode>> = Vec::new();
        let mut befores: Vec<Option<String>> = Vec::new();
        let mut i: usize = 0;
        while i < cells.len()
            invariant
                i <= cells@.len(),
                lists(cells@, targets),
                reads.len() == i,
                old_values@.len() == i,
                old_formulas@.len() == i,
                befores@.len() == i,
                forall|j: int|
                    0 <= j < i ==> old_values@[j] == (#[trigger] reads[j]).old_state.value,
                forall|j: int|
                    0 <= j < i ==> old_formulas@[j] == formula_of(
                        (#[trigger] reads[j]).old_state.cell,
                    ),
                forall|j: int|
                    0 <= j < i ==> text_view(befores@[j]) == (#[trigger] reads[j]).staged,
                self.history() == after_reads(start, sheet@, targets, reads),
            decreases cells@.len() - i,
        {
            let (row, col) = (cells[i].0, cells[i].1);
            assert(cells@[i as int].0 == row);
            let (value, formula, staged, read) = self.read_cell_state(sheet, row, col);
            old_values.push(value);
            old_formulas.push(formula);
            befores.push(staged);
            proof {
                let grown = reads.push(read@);
                assert(grown.drop_last() =~= reads);
                reads = grown;
            }
            i += 1;
        }
        let ghost mut replies = WriteRangeReplies {
            sheet: named@,
            flags,
            reads,
            mirrors: arbitrary(),
            afters: arbitrary(),
            answers: arbitrary(),
        };
        self.edit_begin();
        let ghost opened = self.history();
        let mut parse_error: Option<IoError> = None;
        let mut i: usize = 0;
        while i < cells.len() && parse_error.is_none()
            invariant
                i <= cells@.len(),
                lists(cells@, targets),
                reads.len() == cells@.len(),
                old_values@.len() == cells@.len(),
                old_formulas@.len() == cells@.len(),
                forall|j: int|
                    0 <= j < reads.len() ==> old_values@[j] == (
                    #[trigger] reads[j]).old_state.value,
                forall|j: int|
                    0 <= j < reads.len() ==> old_formulas@[j] == formula_of(
                        (#[trigger] reads[j]).old_state.cell,
                    ),
                match parse_error {
                    None => done(self.history()) == range_edits_run(
                        opened,
                        deferred,
                        sheet_id,
                        targets,
                        reads,
                        i as int,
                    ),
                    Some(e) => failed(self.history(), e@) == range_edits_run(
                        opened,
                        deferred,
                        sheet_id,
                        targets,
                        reads,
                        i as int,
                    ),
                },
            decreases cells@.len() - i,
        {
            let (row, col, data) = cells[i];
            assert(cells@[i as int].0 == row);
            assert(reads[i as int].old_state.value == old_values@[i as int]);
            let cell = CellRef::from_excel(sheet_id, row, col);
            match self.edit_range_item(
                deferred,
                cell,
                data,
                &old_values[i],
                &old_formulas[i],
                Ghost(reads[i as int]),
            ) {
                Ok(_) => {},
                Err(e) => {
                    parse_error = Some(e);
                },
            }
            i += 1;
        }
        self.edit_end();
        if let Some(e) = parse_error {
            proof {
                lemma_range_edits_end(
                    opened,
                    deferred,
                    sheet_id,
                    targets,
                    reads,
                    i as int,
                    targets.len() as int,
                );
            }
            return (Err(e), Ghost(replies));
        }
        let ghost closed = self.history();
        let ghost mut mirrors: Seq<MirrorReplies> = Seq::empty();
        let mut i: usize = 0;
        while i < cells.len()
            invariant
                i <= cells@.len(),
                lists(cells@, targets),
                mirrors.len() == i,
                self.history() == after_range_mirrors(closed, sheet@, targets, mirrors),
            decreases cells@.len() - i,
        {
            let (row, col, data) = cells[i];
            assert(cells@[i as int].0 == row);
            let ghost mut mirror: MirrorReplies = arbitrary();
            if data.formula.is_none() {
                if let Some(value) = &data.value {
                    let made = self.mirror_value_to_overlay(sheet, row, col, value);
                    proof {
                        mirror = made@;
                    }
                }
            }
            proof {
                let grown = mirrors.push(mirror);
                assert(grown.drop_last() =~= mirrors);
                mirrors = grown;
            }
            i += 1;
        }
        let ghost mirrored = self.history();
        let mut i: usize = 0;
        while i < cells.len()
            invariant
                i <= cells@.len(),
                lists(cells@, targets),
                self.history() == after_range_clearings(
                    mirrored,
                    deferred,
                    sheet@,
                    targets,
                    i as int,
                ),
            decreases cells@.len() - i,
        {
            let (row, col, data) = cells[i];
            assert(cells@[i as int].0 == row);
            if data.formula.is_none() && data.value.is_some() {
                self.clear_staged_formula_text(sheet, row, col);
            }
            if data.formula.is_some() && !deferred {
                self.clear_staged_formula_text(sheet, row, col);
            }
            i += 1;
        }
        let ghost cleared = self.history();
        let mut i: usize = 0;
        while i < cells.len()
            invariant
                i <= cells@.len(),
                lists(cells@, targets),
                self.history() == after_range_stagings(
                    cleared,
                    deferred,
                    sheet@,
                    targets,
                    i as int,
                ),
            decreases cells@.len() - i,
        {
            let (row, col, data) = cells[i];
            assert(cells@[i as int].0 == row);
            if deferred {
                if let Some(formula) = &data.formula {
                    self.stage_formula_text(sheet, row, col, formula.as_str());
                }
            }
            i += 1;
        }
        let ghost staged = self.history();
        let ghost mut afters: Seq<Option<Seq<char>>> = Seq::empty();
        let mut i: usize = 0;
        while i < cells.len()
            invariant
                i <= cells@.len(),
                lists(cells@, targets),
                reads.len() == cells@.len(),
                befores@.len() == cells@.len(),
                forall|j: int|
                    0 <= j < reads.len() ==> text_view(befores@[j]) == (#[trigger] reads[j]).staged,
                afters.len() == i,
                self.history() == after_range_deltas(staged, sheet@, targets, reads, afters),
            decreases cells@.len() - i,
        {
            let (row, col) = (cells[i].0, cells[i].1);
            assert(cells@[i as int].0 == row);
            assert(reads[i as int].staged == text_view(befores@[i as int]));
            let after = self.staged_formula_text(sheet, row, col);
            proof {
                let grown = afters.push(text_view(after));
                assert(grown.drop_last() =~= afters);
                afters = grown;
            }
            if !same_optional_text(&befores[i], &after) {
                let before = befores[i].clone();
                self.record_staged_formula_cell_change(true, sheet, row, col, before, after);
            }
            i += 1;
        }
        self.mark_data_edited();
        proof {
            replies.mirrors = mirrors;
            replies.afters = afters;
        }
        (Ok(()), Ghost(replies))
    }

    fn write_cell_plain(&mut self, sheet: &str, row: u32, col: u32, data: &CellData) -> (r: (
        Result<(), IoError>,
        Ghost<PlainCellReplies>,
    ))
        ensures
            ran(final(self).history(), r.0) == plain_cell_run(
                old(self).history(),
                sheet@,
                row,
                col,
                *data,
                r.1@,
            ),
    {
        let ghost mut replies: PlainCellReplies = arbitrary();
        if let Some(value) = &data.value {
            let reply = self.set_cell_value(sheet, row, col, value);
            proof {
                replies.value_set = reply;
            }
            match reply {
                Ok(_) => {},
                Err(e) => {
                    return (Err(IoError::Engine(e)), Ghost(replies));
                },
            }
        }
        if let Some(formula) = &data.formula {
            let flags = self.flags();
            proof {
                replies.flags = flags;
            }
            if flags.defer_graph_building {
                self.stage_formula_text(sheet, row, col, formula.as_str());
            } else {
                let tree = match parse_formula(formula.as_str()) {
                    Ok(tree) => tree,
                    Err(e) => {
                        return (Err(e), Ghost(replies));
                    },
                };
                let reply = self.set_cell_formula(sheet, row, col, &tree);
                proof {
                    replies.formula_set = reply;
                }
                match reply {
                    Ok(_) => {},
                    Err(e) => {
                        return (Err(IoError::Engine(e)), Ghost(replies));
                    },
                }
                self.clear_staged_formula_text(sheet, row, col);
            }
        } else if data.value.is_some() {
            self.clear_staged_formula_text(sheet, row, col);
        }
        (Ok(()), Ghost(replies))
    }

    fn write_range_plain(
        &mut self,
        sheet: &str,
        cells: &Vec<(u32, u32, &CellData)>,
        Ghost(targets): Ghost<Seq<Target<CellData>>>,
    ) -> (r: (Result<(), IoError>, Ghost<Seq<PlainCellReplies>>))
        requires
            lists(cells@, targets),
        ensures
            covers(r.1@.len(), targets.len(), io_view(r.0)),
            ran(final(self).history(), r.0) == plain_range_run(
                old(self).history(),
                sheet@,
                targets,
                r.1@,
            ),
    {
        let ghost start = self.history();
        let ghost mut answers: Seq<PlainCellReplies> = Seq::empty();
        let mut i: usize = 0;
        while i < cells.len()
            invariant
                i <= cells@.len(),
                lists(cells@, targets),
                answers.len() == i,
                start == old(self).history(),
                done(self.history()) == plain_range_run(start, sheet@, targets, answers),
            decreases cells@.len() - i,
        {
            let (row, col, data) = cells[i];
            assert(cells@[i as int].0 == row);
            let (result, answer) = self.write_cell_plain(sheet, row, col, data);
            proof {
                let grown = answers.push(answer@);
                assert(grown.drop_last() =~= answers);
                answers = grown;
            }
            match result {
                Ok(_) => {},
                Err(e) => {
                    return (Err(e), Ghost(answers));
                },
            }
            i += 1;
        }
        (Ok(()), Ghost(answers))
    }

    /// Writes cells by row and then by column, see [`range_run`].
    pub(crate) fn edit_range(
        &mut self,
        logged: bool,
        sheet: &str,
        cells: &BTreeMap<(u32, u32), CellData>,
    ) -> (r: (Result<(), IoError>, Ghost<(Seq<Target<CellData>>, WriteRangeReplies)>))
        ensures
            is_listing(r.1@.0, cells@),
            range_answered(logged, r.1@.0.len(), r.1@.1, io_view(r.0)),
            ran(final(self).history(), r.0) == range_run(
                old(self).history(),
                logged,
                sheet@,
                r.1@.0,
                r.1@.1,
            ),
    {
        let (listed, order) = list_range(cells);
        let ghost targets = order@;
        self.begin_deferred_dirty();
        if logged {
            let (result, replies) = self.write_range_logged(sheet, &listed, Ghost(targets));
            self.end_deferred_dirty();
            (result, Ghost((targets, replies@)))
        } else {
            let (result, answers) = self.write_range_plain(sheet, &listed, Ghost(targets));
            self.end_deferred_dirty();
            let ghost mut replies: WriteRangeReplies = arbitrary();
            proof {
                replies.answers = answers@;
            }
            (result, Ghost((targets, replies)))
        }
    }
}

} // verus!
