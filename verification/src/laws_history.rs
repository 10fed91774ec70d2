//! Laws on the calls that edits make: what is always among them, and what never.

use crate::batch::{
    after_reads, after_settling, after_value_edits, bracketed, plain_values_run, values_run,
    values_run_inner, CellReplies, SetValuesReplies, Target,
};
use crate::batch_formulas::{
    after_clearings, after_losses, after_staged_reads, after_stagings, formula_edits_run,
    formulas_run, formulas_run_inner, logged_formulas_run, plain_formulas_run, SetFormulasReplies,
    StagingReplies,
};
use crate::batch_range::{
    after_range_clearings, after_range_deltas, after_range_mirrors, after_range_stagings,
    logged_range_run, plain_cell_run, plain_range_run, range_edits_run, range_run, PlainCellReplies,
    WriteRangeReplies,
};
use crate::cell_data::CellData;
use crate::cells::{
    after_old_state, after_sheet, after_value_edit, done, formula_run, value_run, Run,
    SetFormulaReplies, SetValueReplies, SheetReplies,
};
use crate::engine::{EngineEvent, WorkbookEngine};
use crate::error::ExcelError;
use crate::grid::{cells_of, width_of};
use crate::store::{after_capacity, after_mirror, CapacityReplies, MirrorReplies};
use crate::value::LiteralValue;
use vstd::prelude::*;

verus! {

/// Whether a call opens or closes the bracket that holds the spreading of changes
/// back.
pub open spec fn is_bracket<E: WorkbookEngine>(e: EngineEvent<E>) -> bool {
    e is BeginDeferredDirty || e is EndDeferredDirty
}

/// Whether a call tells the engine the functions that formulas find.
pub open spec fn is_telling<E: WorkbookEngine>(e: EngineEvent<E>) -> bool {
    e is Create || e is SetResolver
}

/// Whether a call goes to the change log.
pub open spec fn is_logged<E: WorkbookEngine>(e: EngineEvent<E>) -> bool {
    ||| e is EditBegin
    ||| e is EditSetValue
    ||| e is EditSetValueWithOldState
    ||| e is EditSetFormula
    ||| e is EditSetFormulaWithOldState
    ||| e is EditDefineName
    ||| e is EditUpdateName
    ||| e is EditDeleteName
    ||| e is EditEnd
    ||| e is LogBeginCompound
    ||| e is LogEndCompound
    ||| e is LogStagedChange
}

/// Whether `after` continues `before` without a bracket, without a word on functions and,
/// unless `logged`, without a call that goes to the change log.
pub open spec fn continues<E: WorkbookEngine>(
    before: Seq<EngineEvent<E>>,
    after: Seq<EngineEvent<E>>,
    logged: bool,
) -> bool {
    &&& before.len() <= after.len()
    &&& forall|i: int| 0 <= i < before.len() ==> #[trigger] after[i] == before[i]
    &&& forall|i: int|
        before.len() <= i < after.len() ==> !is_bracket(#[trigger] after[i]) && !is_telling(
            after[i],
        ) && (logged || !is_logged(after[i]))
}

proof fn lemma_capacity<E: WorkbookEngine>(
    h: Seq<EngineEvent<E>>,
    sheet: Seq<char>,
    rows: int,
    cols: int,
    r: CapacityReplies,
    logged: bool,
)
    ensures
        continues(h, after_capacity(h, sheet, rows, cols, r), logged),
{
}

proof fn lemma_mirror<E: WorkbookEngine>(
    h: Seq<EngineEvent<E>>,
    sheet: Seq<char>,
    row: u32,
    col: u32,
    value: LiteralValue,
    r: MirrorReplies,
    logged: bool,
)
    ensures
        continues(h, after_mirror(h, sheet, row, col, value, r), logged),
{
    let asked = h.push(EngineEvent::Flags { reply: r.flags });
    lemma_capacity(
        asked,
        sheet,
        crate::store::store_index(row) + 1,
        crate::store::store_index(col) + 1,
        r.capacity,
        logged,
    );
}

proof fn lemma_reads<E: WorkbookEngine, V>(
    h: Seq<EngineEvent<E>>,
    sheet: Seq<char>,
    cells: Seq<Target<V>>,
    reads: Seq<CellReplies>,
    logged: bool,
)
    ensures
        continues(h, after_reads(h, sheet, cells, reads), logged),
    decreases reads.len(),
{
    if reads.len() > 0 {
        lemma_reads(h, sheet, cells, reads.drop_last(), logged);
    }
}

proof fn lemma_value_edits<E: WorkbookEngine>(
    h: Seq<EngineEvent<E>>,
    sheet_id: u32,
    cells: Seq<Target<LiteralValue>>,
    reads: Seq<CellReplies>,
    n: int,
)
    ensures
        continues(h, after_value_edits(h, sheet_id, cells, reads, n), true),
    decreases n,
{
    if n > 0 {
        lemma_value_edits(h, sheet_id, cells, reads, n - 1);
    }
}

proof fn lemma_settling<E: WorkbookEngine>(
    h: Seq<EngineEvent<E>>,
    sheet: Seq<char>,
    cells: Seq<Target<LiteralValue>>,
    reads: Seq<CellReplies>,
    mirrors: Seq<MirrorReplies>,
)
    ensures
        continues(h, after_settling(h, sheet, cells, reads, mirrors), true),
    decreases mirrors.len(),
{
    if mirrors.len() > 0 {
        let before = after_settling(h, sheet, cells, reads, mirrors.drop_last());
        let (row, col, value) = cells[mirrors.len() - 1];
        lemma_settling(h, sheet, cells, reads, mirrors.drop_last());
        lemma_mirror(before, sheet, row, col, value, mirrors.last(), true);
    }
}

proof fn lemma_plain_values<E: WorkbookEngine>(
    h: Seq<EngineEvent<E>>,
    sheet: Seq<char>,
    cells: Seq<Target<LiteralValue>>,
    sets: Seq<Result<(), ExcelError>>,
)
    ensures
        continues(h, plain_values_run(h, sheet, cells, sets).history, false),
    decreases sets.len(),
{
    if sets.len() > 0 {
        lemma_plain_values(h, sheet, cells, sets.drop_last());
    }
}

proof fn lemma_stagings<E: WorkbookEngine>(
    h: Seq<EngineEvent<E>>,
    logged: bool,
    sheet: Seq<char>,
    cells: Seq<Target<String>>,
    stagings: Seq<StagingReplies>,
)
    ensures
        continues(h, after_stagings(h, logged, sheet, cells, stagings), logged),
    decreases stagings.len(),
{
    if stagings.len() > 0 {
        lemma_stagings(h, logged, sheet, cells, stagings.drop_last());
    }
}

proof fn lemma_staged_reads<E: WorkbookEngine>(
    h: Seq<EngineEvent<E>>,
    sheet: Seq<char>,
    cells: Seq<Target<String>>,
    staged: Seq<Option<Seq<char>>>,
)
    ensures
        continues(h, after_staged_reads(h, sheet, cells, staged), true),
    decreases staged.len(),
{
    if staged.len() > 0 {
        lemma_staged_reads(h, sheet, cells, staged.drop_last());
    }
}

proof fn lemma_formula_edits<E: WorkbookEngine>(
    h: Seq<EngineEvent<E>>,
    sheet_id: u32,
    cells: Seq<Target<String>>,
    n: int,
)
    ensures
        continues(h, formula_edits_run(h, sheet_id, cells, n).history, true),
    decreases n,
{
    if n > 0 {
        lemma_formula_edits(h, sheet_id, cells, n - 1);
    }
}

proof fn lemma_clearings<E: WorkbookEngine>(
    h: Seq<EngineEvent<E>>,
    sheet: Seq<char>,
    cells: Seq<Target<String>>,
    n: int,
)
    ensures
        continues(h, after_clearings(h, sheet, cells, n), true),
    decreases n,
{
    if n > 0 {
        lemma_clearings(h, sheet, cells, n - 1);
    }
}

proof fn lemma_losses<E: WorkbookEngine>(
    h: Seq<EngineEvent<E>>,
    sheet: Seq<char>,
    cells: Seq<Target<String>>,
    staged: Seq<Option<Seq<char>>>,
    n: int,
)
    ensures
        continues(h, after_losses(h, sheet, cells, staged, n), true),
    decreases n,
{
    if n > 0 {
        lemma_losses(h, sheet, cells, staged, n - 1);
    }
}

proof fn lemma_plain_formulas<E: WorkbookEngine>(
    h: Seq<EngineEvent<E>>,
    sheet: Seq<char>,
    cells: Seq<Target<String>>,
    sets: Seq<Result<(), ExcelError>>,
)
    ensures
        continues(h, plain_formulas_run(h, sheet, cells, sets).history, false),
    decreases sets.len(),
{
    if sets.len() > 0 {
        lemma_plain_formulas(h, sheet, cells, sets.drop_last());
    }
}

proof fn lemma_logged_formulas<E: WorkbookEngine>(
    h: Seq<EngineEvent<E>>,
    sheet: Seq<char>,
    cells: Seq<Target<String>>,
    named: SheetReplies,
    staged: Seq<Option<Seq<char>>>,
)
    ensures
        continues(h, logged_formulas_run(h, sheet, cells, named, staged).history, true),
{
    let n = cells.len() as int;
    let known = after_sheet(h, sheet, named);
    let seen = after_staged_reads(known, sheet, cells, staged);
    lemma_staged_reads(known, sheet, cells, staged);
    let opened = seen.push(EngineEvent::EditBegin);
    let id = crate::cells::sheet_of(named);
    lemma_formula_edits(opened, id, cells, n);
    let closed = formula_edits_run(opened, id, cells, n).history.push(EngineEvent::EditEnd);
    lemma_clearings(closed, sheet, cells, n);
    lemma_losses(after_clearings(closed, sheet, cells, n), sheet, cells, staged, n);
}

proof fn lemma_range_edits<E: WorkbookEngine>(
    h: Seq<EngineEvent<E>>,
    deferred: bool,
    sheet_id: u32,
    cells: Seq<Target<CellData>>,
    reads: Seq<CellReplies>,
    n: int,
)
    ensures
        continues(h, range_edits_run(h, deferred, sheet_id, cells, reads, n).history, true),
    decreases n,
{
    if n > 0 {
        lemma_range_edits(h, deferred, sheet_id, cells, reads, n - 1);
    }
}

proof fn lemma_range_mirrors<E: WorkbookEngine>(
    h: Seq<EngineEvent<E>>,
    sheet: Seq<char>,
    cells: Seq<Target<CellData>>,
    mirrors: Seq<MirrorReplies>,
)
    ensures
        continues(h, after_range_mirrors(h, sheet, cells, mirrors), true),
    decreases mirrors.len(),
{
    if mirrors.len() > 0 {
        let before = after_range_mirrors(h, sheet, cells, mirrors.drop_last());
        let (row, col, data) = cells[mirrors.len() - 1];
        lemma_range_mirrors(h, sheet, cells, mirrors.drop_last());
        lemma_mirror(before, sheet, row, col, data.value->0, mirrors.last(), true);
    }
}

proof fn lemma_range_clearings<E: WorkbookEngine>(
    h: Seq<EngineEvent<E>>,
    deferred: bool,
    sheet: Seq<char>,
    cells: Seq<Target<CellData>>,
    n: int,
)
    ensures
        continues(h, after_range_clearings(h, deferred, sheet, cells, n), true),
    decreases n,
{
    if n > 0 {
        lemma_range_clearings(h, deferred, sheet, cells, n - 1);
    }
}

proof fn lemma_range_stagings<E: WorkbookEngine>(
    h: Seq<EngineEvent<E>>,
    deferred: bool,
    sheet: Seq<char>,
    cells: Seq<Target<CellData>>,
    n: int,
)
    ensures
        continues(h, after_range_stagings(h, deferred, sheet, cells, n), true),
    decreases n,
{
    if n > 0 {
        lemma_range_stagings(h, deferred, sheet, cells, n - 1);
    }
}

proof fn lemma_range_deltas<E: WorkbookEngine>(
    h: Seq<EngineEvent<E>>,
    sheet: Seq<char>,
    cells: Seq<Target<CellData>>,
    reads: Seq<CellReplies>,
    afters: Seq<Option<Seq<char>>>,
)
    ensures
        continues(h, after_range_deltas(h, sheet, cells, reads, afters), true),
    decreases afters.len(),
{
    if afters.len() > 0 {
        lemma_range_deltas(h, sheet, cells, reads, afters.drop_last());
    }
}

proof fn lemma_plain_range<E: WorkbookEngine>(
    h: Seq<EngineEvent<E>>,
    sheet: Seq<char>,
    cells: Seq<Target<CellData>>,
    answers: Seq<PlainCellReplies>,
)
    ensures
        continues(h, plain_range_run(h, sheet, cells, answers).history, false),
    decreases answers.len(),
{
    if answers.len() > 0 {
        lemma_plain_range(h, sheet, cells, answers.drop_last());
        let before = plain_range_run(h, sheet, cells, answers.drop_last()).history;
        let (row, col, data) = cells[answers.len() - 1];
        assert(continues(
            before,
            plain_cell_run(before, sheet, row, col, data, answers.last()).history,
            false,
        ));
    }
}

proof fn lemma_logged_range<E: WorkbookEngine>(
    h: Seq<EngineEvent<E>>,
    sheet: Seq<char>,
    cells: Seq<Target<CellData>>,
    replies: WriteRangeReplies,
)
    ensures
        continues(h, logged_range_run(h, sheet, cells, replies).history, true),
{
    let n = cells.len() as int;
    let deferred = replies.flags.defer_graph_building;
    let asked = after_sheet(h, sheet, replies.sheet).push(
        EngineEvent::Flags { reply: replies.flags },
    );
    let seen = after_reads(asked, sheet, cells, replies.reads);
    lemma_reads(asked, sheet, cells, replies.reads, true);
    let opened = seen.push(EngineEvent::EditBegin);
    let id = crate::cells::sheet_of(replies.sheet);
    lemma_range_edits(opened, deferred, id, cells, replies.reads, n);
    let closed = range_edits_run(opened, deferred, id, cells, replies.reads, n).history.push(
        EngineEvent::EditEnd,
    );
    lemma_range_mirrors(closed, sheet, cells, replies.mirrors);
    let mirrored = after_range_mirrors(closed, sheet, cells, replies.mirrors);
    lemma_range_clearings(mirrored, deferred, sheet, cells, n);
    let cleared = after_range_clearings(mirrored, deferred, sheet, cells, n);
    lemma_range_stagings(cleared, deferred, sheet, cells, n);
    let staged = after_range_stagings(cleared, deferred, sheet, cells, n);
    lemma_range_deltas(staged, sheet, cells, replies.reads, replies.afters);
}

proof fn lemma_values_inner<E: WorkbookEngine>(
    h: Seq<EngineEvent<E>>,
    logged: bool,
    sheet: Seq<char>,
    cells: Seq<Target<LiteralValue>>,
    replies: SetValuesReplies,
)
    ensures
        continues(h, values_run_inner(h, logged, sheet, cells, replies).history, logged),
{
    if logged {
        let named = after_sheet(h, sheet, replies.sheet);
        let seen = after_reads(named, sheet, cells, replies.reads);
        lemma_reads(named, sheet, cells, replies.reads, true);
        let opened = seen.push(EngineEvent::EditBegin);
        let id = crate::cells::sheet_of(replies.sheet);
        let n = cells.len() as int;
        lemma_value_edits(opened, id, cells, replies.reads, n);
        let edited = after_value_edits(opened, id, cells, replies.reads, n).push(
            EngineEvent::EditEnd,
        );
        lemma_settling(edited, sheet, cells, replies.reads, replies.mirrors);
    } else {
        lemma_plain_values(h, sheet, cells, replies.sets);
    }
}

proof fn lemma_formulas_inner<E: WorkbookEngine>(
    h: Seq<EngineEvent<E>>,
    logged: bool,
    sheet: Seq<char>,
    cells: Seq<Target<String>>,
    last_row: int,
    last_col: int,
    replies: SetFormulasReplies,
)
    ensures
        continues(
            h,
            formulas_run_inner(h, logged, sheet, cells, last_row, last_col, replies).history,
            logged,
        ),
{
    lemma_capacity(h, sheet, last_row, last_col, replies.capacity, logged);
    let asked = after_capacity(h, sheet, last_row, last_col, replies.capacity).push(
        EngineEvent::Flags { reply: replies.flags },
    );
    lemma_stagings(asked, logged, sheet, cells, replies.stagings);
    if logged {
        lemma_logged_formulas(asked, sheet, cells, replies.sheet, replies.staged);
    } else {
        lemma_plain_formulas(asked, sheet, cells, replies.sets);
    }
}

/// Whether `run` continues `h` by a single bracket: opened first, closed last, and
/// nowhere else; without a word on functions and, unless `logged`, without a call that
/// goes to the change log.
pub open spec fn is_bracketed<E: WorkbookEngine>(
    h: Seq<EngineEvent<E>>,
    run: Run<E>,
    logged: bool,
) -> bool {
    let g = run.history;
    &&& g.len() >= h.len() + 2
    &&& forall|i: int| 0 <= i < h.len() ==> #[trigger] g[i] == h[i]
    &&& g[h.len() as int] is BeginDeferredDirty
    &&& g.last() is EndDeferredDirty
    &&& forall|i: int|
        h.len() < i < g.len() - 1 ==> !is_bracket(#[trigger] g[i]) && !is_telling(g[i]) && (logged
            || !is_logged(g[i]))
}

proof fn lemma_bracketed<E: WorkbookEngine>(h: Seq<EngineEvent<E>>, inner: Run<E>, logged: bool)
    requires
        continues(h.push(EngineEvent::BeginDeferredDirty), inner.history, logged),
    ensures
        is_bracketed(h, bracketed(inner), logged),
{
    let begun = h.push(EngineEvent::BeginDeferredDirty);
    assert(inner.history[h.len() as int] == begun[h.len() as int]);
    assert forall|i: int| 0 <= i < h.len() implies #[trigger] bracketed(inner).history[i]
        == h[i] by {
        assert(inner.history[i] == begun[i]);
    }
}

/// Setting values in a batch spreads changes once: the bracket that holds them back
/// is opened first and closed last, also where a refusal ends the batch. Nothing goes
/// to the change log while that is off.
pub proof fn law_values_are_spread_once<E: WorkbookEngine>(
    h: Seq<EngineEvent<E>>,
    logged: bool,
    sheet: Seq<char>,
    cells: Seq<Target<LiteralValue>>,
    replies: SetValuesReplies,
)
    ensures
        is_bracketed(h, values_run(h, logged, sheet, cells, replies), logged),
{
    let begun = h.push(EngineEvent::BeginDeferredDirty);
    lemma_values_inner(begun, logged, sheet, cells, replies);
    lemma_bracketed(h, values_run_inner(begun, logged, sheet, cells, replies), logged);
}

/// Setting formulas in a batch spreads changes once, also where a formula that does
/// not parse or a refusal ends the batch. Nothing goes to the change log while that is
/// off.
pub proof fn law_formulas_are_spread_once<E: WorkbookEngine>(
    h: Seq<EngineEvent<E>>,
    logged: bool,
    sheet: Seq<char>,
    start_row: u32,
    start_col: u32,
    rows: Seq<Vec<String>>,
    replies: SetFormulasReplies,
)
    ensures
        is_bracketed(
            h,
            formulas_run(h, logged, sheet, start_row, start_col, rows, replies),
            logged,
        ),
{
    let begun = h.push(EngineEvent::BeginDeferredDirty);
    let wide = width_of(rows, rows.len() as int);
    if wide == 0 {
        lemma_bracketed(h, done(begun), logged);
    } else {
        let cells = cells_of(start_row, start_col, rows);
        let last_row = start_row + rows.len() - 1;
        let last_col = start_col + wide - 1;
        lemma_formulas_inner(begun, logged, sheet, cells, last_row, last_col, replies);
        lemma_bracketed(
            h,
            formulas_run_inner(begun, logged, sheet, cells, last_row, last_col, replies),
            logged,
        );
    }
}

/// Writing cells in a batch spreads changes once, also where a failure ends the batch.
/// Nothing goes to the change log while that is off.
pub proof fn law_ranges_are_spread_once<E: WorkbookEngine>(
    h: Seq<EngineEvent<E>>,
    logged: bool,
    sheet: Seq<char>,
    cells: Seq<Target<CellData>>,
    replies: WriteRangeReplies,
)
    ensures
        is_bracketed(h, range_run(h, logged, sheet, cells, replies), logged),
{
    let begun = h.push(EngineEvent::BeginDeferredDirty);
    if logged {
        lemma_logged_range(begun, sheet, cells, replies);
        lemma_bracketed(h, logged_range_run(begun, sheet, cells, replies), logged);
    } else {
        lemma_plain_range(begun, sheet, cells, replies.answers);
        lemma_bracketed(h, plain_range_run(begun, sheet, cells, replies.answers), logged);
    }
}

proof fn lemma_then<E: WorkbookEngine>(
    a: Seq<EngineEvent<E>>,
    b: Seq<EngineEvent<E>>,
    c: Seq<EngineEvent<E>>,
    logged: bool,
)
    requires
        continues(a, b, logged),
        continues(b, c, logged),
    ensures
        continues(a, c, logged),
{
}

/// Setting a single value opens no bracket, and nothing of it goes to the change log
/// while that is off.
pub proof fn law_single_value_is_not_bracketed<E: WorkbookEngine>(
    h: Seq<EngineEvent<E>>,
    logged: bool,
    sheet: Seq<char>,
    row: u32,
    col: u32,
    value: LiteralValue,
    replies: SetValueReplies,
)
    ensures
        continues(h, value_run(h, logged, sheet, row, col, value, replies).history, logged),
{
    lemma_capacity(h, sheet, row as int, col as int, replies.capacity, logged);
    let roomy = after_capacity(h, sheet, row as int, col as int, replies.capacity);
    let end = value_run(h, logged, sheet, row, col, value, replies).history;
    if logged {
        let staged = roomy.push(
            EngineEvent::StagedFormulaText { sheet, row, col, reply: replies.staged },
        );
        let named = after_sheet(staged, sheet, replies.sheet);
        let seen = after_old_state(named, sheet, row, col, replies.old_state);
        let edited = after_value_edit(
            seen.push(EngineEvent::EditBegin),
            crate::engine::cell_at(crate::cells::sheet_of(replies.sheet), row, col),
            value,
            replies.old_state,
        ).push(EngineEvent::EditEnd);
        assert(continues(roomy, edited, logged));
        lemma_then(h, roomy, edited, logged);
        let mirrored = after_mirror(edited, sheet, row, col, value, replies.mirror);
        lemma_mirror(edited, sheet, row, col, value, replies.mirror, logged);
        lemma_then(h, edited, mirrored, logged);
        assert(continues(mirrored, end, logged));
        lemma_then(h, mirrored, end, logged);
    } else {
        assert(continues(roomy, end, logged));
        lemma_then(h, roomy, end, logged);
    }
}

/// Setting a single formula opens no bracket, and nothing of it goes to the change log
/// while that is off.
pub proof fn law_single_formula_is_not_bracketed<E: WorkbookEngine>(
    h: Seq<EngineEvent<E>>,
    logged: bool,
    sheet: Seq<char>,
    row: u32,
    col: u32,
    formula: Seq<char>,
    replies: SetFormulaReplies,
)
    ensures
        continues(h, formula_run(h, logged, sheet, row, col, formula, replies).history, logged),
{
    lemma_capacity(h, sheet, row as int, col as int, replies.capacity, logged);
    let roomy = after_capacity(h, sheet, row as int, col as int, replies.capacity);
    let end = formula_run(h, logged, sheet, row, col, formula, replies).history;
    assert(continues(roomy, end, logged));
    lemma_then(h, roomy, end, logged);
}

} // verus!
