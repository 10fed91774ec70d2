//! Laws on how much the change log holds of staged formula texts: one record for a cell
//! at most, however many texts are staged.

use crate::batch::{
    after_reads, after_settling, after_value_edits, values_answered, values_run, CellReplies,
    SetValuesReplies, Target,
};
use crate::batch_formulas::{
    after_clearings, after_losses, after_staged_reads, after_stagings, formula_edits_run,
    formulas_run, rows_answered, SetFormulasReplies, StagingReplies,
};
use crate::batch_range::{
    after_range_clearings, after_range_deltas, after_range_mirrors, after_range_stagings,
    range_answered, range_edits_run, range_run, WriteRangeReplies,
};
use crate::cell_data::CellData;
use crate::cells::{
    after_old_state, after_sheet, formula_run, sheet_of, value_run, SetFormulaReplies,
    SetValueReplies,
};
use crate::engine::{EngineEvent, WorkbookEngine};
use crate::grid::{cells_of, width_of};
use crate::store::{after_capacity, after_mirror, CapacityReplies, MirrorReplies};
use crate::value::LiteralValue;
use vstd::prelude::*;

verus! {

/// How many changes of staged texts were recorded.
pub open spec fn records<E: WorkbookEngine>(h: Seq<EngineEvent<E>>) -> nat
    decreases h.len(),
{
    if h.len() == 0 {
        0
    } else if h.last() is LogStagedChange {
        records(h.drop_last()) + 1
    } else {
        records(h.drop_last())
    }
}

broadcast proof fn lemma_records_push<E: WorkbookEngine>(
    h: Seq<EngineEvent<E>>,
    e: EngineEvent<E>,
)
    ensures
        #[trigger] records(h.push(e)) == records(h) + (if e is LogStagedChange {
            1int
        } else {
            0
        }),
{
    assert(h.push(e).drop_last() =~= h);
}

proof fn lemma_capacity_records<E: WorkbookEngine>(
    h: Seq<EngineEvent<E>>,
    sheet: Seq<char>,
    rows: int,
    cols: int,
    r: CapacityReplies,
)
    ensures
        records(after_capacity(h, sheet, rows, cols, r)) == records(h),
{
    broadcast use lemma_records_push;

}

proof fn lemma_mirror_records<E: WorkbookEngine>(
    h: Seq<EngineEvent<E>>,
    sheet: Seq<char>,
    row: u32,
    col: u32,
    value: LiteralValue,
    r: MirrorReplies,
)
    ensures
        records(after_mirror(h, sheet, row, col, value, r)) == records(h),
{
    broadcast use lemma_records_push;

    lemma_capacity_records(
        h.push(EngineEvent::Flags { reply: r.flags }),
        sheet,
        crate::store::store_index(row) + 1,
        crate::store::store_index(col) + 1,
        r.capacity,
    );
}

proof fn lemma_reads_records<E: WorkbookEngine, V>(
    h: Seq<EngineEvent<E>>,
    sheet: Seq<char>,
    cells: Seq<Target<V>>,
    reads: Seq<CellReplies>,
)
    ensures
        records(after_reads(h, sheet, cells, reads)) == records(h),
    decreases reads.len(),
{
    broadcast use lemma_records_push;

    if reads.len() > 0 {
        lemma_reads_records(h, sheet, cells, reads.drop_last());
    }
}

proof fn lemma_value_edits_records<E: WorkbookEngine>(
    h: Seq<EngineEvent<E>>,
    sheet_id: u32,
    cells: Seq<Target<LiteralValue>>,
    reads: Seq<CellReplies>,
    n: int,
)
    ensures
        records(after_value_edits(h, sheet_id, cells, reads, n)) == records(h),
    decreases n,
{
    broadcast use lemma_records_push;

    if n > 0 {
        lemma_value_edits_records(h, sheet_id, cells, reads, n - 1);
    }
}

proof fn lemma_settling_records<E: WorkbookEngine>(
    h: Seq<EngineEvent<E>>,
    sheet: Seq<char>,
    cells: Seq<Target<LiteralValue>>,
    reads: Seq<CellReplies>,
    mirrors: Seq<MirrorReplies>,
)
    ensures
        records(after_settling(h, sheet, cells, reads, mirrors)) <= records(h) + mirrors.len(),
    decreases mirrors.len(),
{
    broadcast use lemma_records_push;

    if mirrors.len() > 0 {
        let fewer = mirrors.drop_last();
        lemma_settling_records(h, sheet, cells, reads, fewer);
        let before = after_settling(h, sheet, cells, reads, fewer);
        let (row, col, value) = cells[mirrors.len() - 1];
        lemma_mirror_records(before, sheet, row, col, value, mirrors.last());
    }
}

/// Setting a value records one change of a staged text at most.
pub proof fn law_value_records_once<E: WorkbookEngine>(
    h: Seq<EngineEvent<E>>,
    sheet: Seq<char>,
    row: u32,
    col: u32,
    value: LiteralValue,
    replies: SetValueReplies,
)
    ensures
        records(value_run(h, true, sheet, row, col, value, replies).history) <= records(h) + 1,
{
    broadcast use lemma_records_push;

    lemma_capacity_records(h, sheet, row as int, col as int, replies.capacity);
    let roomy = after_capacity(h, sheet, row as int, col as int, replies.capacity);
    let staged = roomy.push(
        EngineEvent::StagedFormulaText { sheet, row, col, reply: replies.staged },
    );
    let seen = after_old_state(
        after_sheet(staged, sheet, replies.sheet),
        sheet,
        row,
        col,
        replies.old_state,
    );
    let edited = crate::cells::after_value_edit(
        seen.push(EngineEvent::EditBegin),
        crate::engine::cell_at(sheet_of(replies.sheet), row, col),
        value,
        replies.old_state,
    ).push(EngineEvent::EditEnd);
    lemma_mirror_records(edited, sheet, row, col, value, replies.mirror);
}

/// Setting a formula records one change of a staged text at most.
pub proof fn law_formula_records_once<E: WorkbookEngine>(
    h: Seq<EngineEvent<E>>,
    sheet: Seq<char>,
    row: u32,
    col: u32,
    formula: Seq<char>,
    replies: SetFormulaReplies,
)
    ensures
        records(formula_run(h, true, sheet, row, col, formula, replies).history) <= records(h) + 1,
{
    broadcast use lemma_records_push;

    lemma_capacity_records(h, sheet, row as int, col as int, replies.capacity);
}

/// Setting the values of a rectangle records one change of a staged text for each cell
/// at most.
pub proof fn law_values_record_once_each<E: WorkbookEngine>(
    h: Seq<EngineEvent<E>>,
    sheet: Seq<char>,
    cells: Seq<Target<LiteralValue>>,
    replies: SetValuesReplies,
)
    requires
        values_answered(true, cells.len(), replies, Ok(())),
    ensures
        records(values_run(h, true, sheet, cells, replies).history) <= records(h) + cells.len(),
{
    broadcast use lemma_records_push;

    let named = after_sheet(h.push(EngineEvent::BeginDeferredDirty), sheet, replies.sheet);
    lemma_reads_records(named, sheet, cells, replies.reads);
    let opened = after_reads(named, sheet, cells, replies.reads).push(EngineEvent::EditBegin);
    let id = sheet_of(replies.sheet);
    let n = cells.len() as int;
    lemma_value_edits_records(opened, id, cells, replies.reads, n);
    let edited = after_value_edits(opened, id, cells, replies.reads, n).push(EngineEvent::EditEnd);
    lemma_settling_records(edited, sheet, cells, replies.reads, replies.mirrors);
}

proof fn lemma_stagings_records<E: WorkbookEngine>(
    h: Seq<EngineEvent<E>>,
    sheet: Seq<char>,
    cells: Seq<Target<String>>,
    stagings: Seq<StagingReplies>,
)
    ensures
        records(after_stagings(h, true, sheet, cells, stagings)) <= records(h) + stagings.len(),
    decreases stagings.len(),
{
    broadcast use lemma_records_push;

    if stagings.len() > 0 {
        lemma_stagings_records(h, sheet, cells, stagings.drop_last());
    }
}

proof fn lemma_staged_reads_records<E: WorkbookEngine>(
    h: Seq<EngineEvent<E>>,
    sheet: Seq<char>,
    cells: Seq<Target<String>>,
    staged: Seq<Option<Seq<char>>>,
)
    ensures
        records(after_staged_reads(h, sheet, cells, staged)) == records(h),
    decreases staged.len(),
{
    broadcast use lemma_records_push;

    if staged.len() > 0 {
        lemma_staged_reads_records(h, sheet, cells, staged.drop_last());
    }
}

proof fn lemma_formula_edits_records<E: WorkbookEngine>(
    h: Seq<EngineEvent<E>>,
    sheet_id: u32,
    cells: Seq<Target<String>>,
    n: int,
)
    ensures
        records(formula_edits_run(h, sheet_id, cells, n).history) == records(h),
    decreases n,
{
    broadcast use lemma_records_push;

    if n > 0 {
        lemma_formula_edits_records(h, sheet_id, cells, n - 1);
    }
}

proof fn lemma_clearings_records<E: WorkbookEngine>(
    h: Seq<EngineEvent<E>>,
    sheet: Seq<char>,
    cells: Seq<Target<String>>,
    n: int,
)
    ensures
        records(after_clearings(h, sheet, cells, n)) == records(h),
    decreases n,
{
    broadcast use lemma_records_push;

    if n > 0 {
        lemma_clearings_records(h, sheet, cells, n - 1);
    }
}

proof fn lemma_losses_records<E: WorkbookEngine>(
    h: Seq<EngineEvent<E>>,
    sheet: Seq<char>,
    cells: Seq<Target<String>>,
    staged: Seq<Option<Seq<char>>>,
    n: int,
)
    requires
        0 <= n,
    ensures
        records(after_losses(h, sheet, cells, staged, n)) <= records(h) + n,
    decreases n,
{
    broadcast use lemma_records_push;

    if n > 0 {
        lemma_losses_records(h, sheet, cells, staged, n - 1);
    }
}

/// Setting the formulas of a rectangle records one change of a staged text for each cell
/// at most.
pub proof fn law_formulas_record_once_each<E: WorkbookEngine>(
    h: Seq<EngineEvent<E>>,
    sheet: Seq<char>,
    start_row: u32,
    start_col: u32,
    rows: Seq<Vec<String>>,
    replies: SetFormulasReplies,
)
    requires
        rows_answered(
            true,
            start_row,
            start_col,
            rows,
            replies,
            formulas_run(h, true, sheet, start_row, start_col, rows, replies).outcome,
        ),
    ensures
        records(formulas_run(h, true, sheet, start_row, start_col, rows, replies).history)
            <= records(h) + cells_of(start_row, start_col, rows).len(),
{
    broadcast use lemma_records_push;

    let cells = cells_of(start_row, start_col, rows);
    let n = cells.len() as int;
    let begun = h.push(EngineEvent::BeginDeferredDirty);
    let wide = width_of(rows, rows.len() as int);
    if wide > 0 {
        let last_row = start_row + rows.len() - 1;
        let last_col = start_col + wide - 1;
        lemma_capacity_records(begun, sheet, last_row, last_col, replies.capacity);
        let asked = after_capacity(begun, sheet, last_row, last_col, replies.capacity).push(
            EngineEvent::Flags { reply: replies.flags },
        );
        lemma_stagings_records(asked, sheet, cells, replies.stagings);
        let known = after_sheet(asked, sheet, replies.sheet);
        lemma_staged_reads_records(known, sheet, cells, replies.staged);
        let opened = after_staged_reads(known, sheet, cells, replies.staged).push(
            EngineEvent::EditBegin,
        );
        let id = sheet_of(replies.sheet);
        lemma_formula_edits_records(opened, id, cells, n);
        let closed = formula_edits_run(opened, id, cells, n).history.push(EngineEvent::EditEnd);
        lemma_clearings_records(closed, sheet, cells, n);
        let cleared = after_clearings(closed, sheet, cells, n);
        lemma_losses_records(cleared, sheet, cells, replies.staged, n);
    }
}

proof fn lemma_range_edits_records<E: WorkbookEngine>(
    h: Seq<EngineEvent<E>>,
    deferred: bool,
    sheet_id: u32,
    cells: Seq<Target<CellData>>,
    reads: Seq<CellReplies>,
    n: int,
)
    ensures
        records(range_edits_run(h, deferred, sheet_id, cells, reads, n).history) == records(h),
    decreases n,
{
    broadcast use lemma_records_push;

    if n > 0 {
        lemma_range_edits_records(h, deferred, sheet_id, cells, reads, n - 1);
    }
}

proof fn lemma_range_mirrors_records<E: WorkbookEngine>(
    h: Seq<EngineEvent<E>>,
    sheet: Seq<char>,
    cells: Seq<Target<CellData>>,
    mirrors: Seq<MirrorReplies>,
)
    ensures
        records(after_range_mirrors(h, sheet, cells, mirrors)) == records(h),
    decreases mirrors.len(),
{
    if mirrors.len() > 0 {
        let fewer = mirrors.drop_last();
        lemma_range_mirrors_records(h, sheet, cells, fewer);
        let before = after_range_mirrors(h, sheet, cells, fewer);
        let (row, col, data) = cells[mirrors.len() - 1];
        lemma_mirror_records(before, sheet, row, col, data.value->0, mirrors.last());
    }
}

proof fn lemma_range_texts_records<E: WorkbookEngine>(
    h: Seq<EngineEvent<E>>,
    deferred: bool,
    sheet: Seq<char>,
    cells: Seq<Target<CellData>>,
    n: int,
)
    ensures
        records(after_range_clearings(h, deferred, sheet, cells, n)) == records(h),
        records(after_range_stagings(h, deferred, sheet, cells, n)) == records(h),
    decreases n,
{
    broadcast use lemma_records_push;

    if n > 0 {
        lemma_range_texts_records(h, deferred, sheet, cells, n - 1);
    }
}

proof fn lemma_range_deltas_records<E: WorkbookEngine>(
    h: Seq<EngineEvent<E>>,
    sheet: Seq<char>,
    cells: Seq<Target<CellData>>,
    reads: Seq<CellReplies>,
    afters: Seq<Option<Seq<char>>>,
)
    ensures
        records(after_range_deltas(h, sheet, cells, reads, afters)) <= records(h) + afters.len(),
    decreases afters.len(),
{
    broadcast use lemma_records_push;

    if afters.len() > 0 {
        lemma_range_deltas_records(h, sheet, cells, reads, afters.drop_last());
    }
}

/// Writing cells in a batch records one change of a staged text for each cell at most.
pub proof fn law_range_records_once_each<E: WorkbookEngine>(
    h: Seq<EngineEvent<E>>,
    sheet: Seq<char>,
    order: Seq<Target<CellData>>,
    replies: WriteRangeReplies,
)
    requires
        range_answered(
            true,
            order.len(),
            replies,
            range_run(h, true, sheet, order, replies).outcome,
        ),
    ensures
        records(range_run(h, true, sheet, order, replies).history) <= records(h) + order.len(),
{
    broadcast use lemma_records_push;

    let n = order.len() as int;
    let deferred = replies.flags.defer_graph_building;
    let asked = after_sheet(
        h.push(EngineEvent::BeginDeferredDirty),
        sheet,
        replies.sheet,
    ).push(EngineEvent::Flags { reply: replies.flags });
    lemma_reads_records(asked, sheet, order, replies.reads);
    let opened = after_reads(asked, sheet, order, replies.reads).push(EngineEvent::EditBegin);
    let id = sheet_of(replies.sheet);
    lemma_range_edits_records(opened, deferred, id, order, replies.reads, n);
    let closed = range_edits_run(opened, deferred, id, order, replies.reads, n).history.push(
        EngineEvent::EditEnd,
    );
    lemma_range_mirrors_records(closed, sheet, order, replies.mirrors);
    let mirrored = after_range_mirrors(closed, sheet, order, replies.mirrors);
    lemma_range_texts_records(mirrored, deferred, sheet, order, n);
    let cleared = after_range_clearings(mirrored, deferred, sheet, order, n);
    lemma_range_texts_records(cleared, deferred, sheet, order, n);
    let staged = after_range_stagings(cleared, deferred, sheet, order, n);
    lemma_range_deltas_records(staged, sheet, order, replies.reads, replies.afters);
}

} // verus!
