//! Laws on batches: a batch makes the edits that single edits would make.

use crate::batch::{
    after_reads, after_settling, after_value_edits, plain_values_run, values_run, CellReplies,
    SetValuesReplies, Target,
};
use crate::batch_formulas::{
    after_clearings, after_losses, after_staged_reads, after_stagings, formula_edits_run,
    formulas_run, plain_formulas_run, SetFormulasReplies, StagingReplies,
};
use crate::cells::{
    after_delta, after_old_state, after_sheet, after_value_edit, done, formula_run, sheet_of,
    value_run, Run, SetFormulaReplies, SetValueReplies,
};
use crate::engine::{cell_at, EngineEvent, WorkbookEngine};
use crate::error::ExcelError;
use crate::grid::{cells_of, lemma_no_cells, width_of};
use crate::store::{after_capacity, after_mirror, CapacityReplies, MirrorReplies};
use crate::value::LiteralValue;
use vstd::prelude::*;

verus! {

/// The parts of a workbook that edits change.
#[derive(Clone, Copy, PartialEq, Eq, Structural)]
pub enum EditClass {
    /// The dependency graph.
    Graph,
    /// The staged formula texts and the record of their changes.
    Staged,
    /// The staged formula texts alone.
    Texts,
    /// The record of changes of staged formula texts alone.
    Records,
    /// The overlay of the column store.
    Overlay,
}

/// Whether a call changes this part.
pub open spec fn edits_class<E: WorkbookEngine>(e: EngineEvent<E>, class: EditClass) -> bool {
    match class {
        EditClass::Graph => {
            ||| e is SetCellValue
            ||| e is SetCellFormula
            ||| e is EditSetValue
            ||| e is EditSetValueWithOldState
            ||| e is EditSetFormula
            ||| e is EditSetFormulaWithOldState
        },
        EditClass::Staged => {
            ||| e is StageFormulaText
            ||| e is ClearStagedFormulaText
            ||| e is LogStagedChange
        },
        EditClass::Texts => e is StageFormulaText || e is ClearStagedFormulaText,
        EditClass::Records => e is LogStagedChange,
        EditClass::Overlay => e is SetOverlay,
    }
}

/// The calls of a history that change this part, in order.
pub open spec fn edits_of<E: WorkbookEngine>(h: Seq<EngineEvent<E>>, class: EditClass) -> Seq<
    EngineEvent<E>,
>
    decreases h.len(),
{
    if h.len() == 0 {
        Seq::empty()
    } else {
        let before = edits_of(h.drop_last(), class);
        if edits_class(h.last(), class) {
            before.push(h.last())
        } else {
            before
        }
    }
}

broadcast proof fn lemma_edits_push<E: WorkbookEngine>(
    h: Seq<EngineEvent<E>>,
    e: EngineEvent<E>,
    class: EditClass,
)
    ensures
        #[trigger] edits_of(h.push(e), class) == if edits_class(e, class) {
            edits_of(h, class).push(e)
        } else {
            edits_of(h, class)
        },
{
    assert(h.push(e).drop_last() =~= h);
}

proof fn lemma_capacity_edits<E: WorkbookEngine>(
    h: Seq<EngineEvent<E>>,
    sheet: Seq<char>,
    rows: int,
    cols: int,
    r: CapacityReplies,
    class: EditClass,
)
    ensures
        edits_of(after_capacity(h, sheet, rows, cols, r), class) == edits_of(h, class),
{
    broadcast use lemma_edits_push;

}

/// The calls to the overlay that the mirroring of a value makes.
pub open spec fn overlay_edits<E: WorkbookEngine>(
    before: Seq<EngineEvent<E>>,
    sheet: Seq<char>,
    row: u32,
    col: u32,
    value: LiteralValue,
    r: MirrorReplies,
) -> Seq<EngineEvent<E>> {
    if r.flags.arrow_storage_enabled && r.flags.delta_overlay_enabled && r.place is Some
        && r.chunk_there {
        let (chunk, offset) = r.place->0;
        before.push(
            EngineEvent::SetOverlay {
                sheet,
                col0: crate::store::store_index(col),
                chunk,
                offset,
                value: crate::value::overlay_of(value, r.flags.date_system),
            },
        )
    } else {
        before
    }
}

proof fn lemma_mirror_edits<E: WorkbookEngine>(
    h: Seq<EngineEvent<E>>,
    sheet: Seq<char>,
    row: u32,
    col: u32,
    value: LiteralValue,
    r: MirrorReplies,
    class: EditClass,
)
    ensures
        edits_of(after_mirror(h, sheet, row, col, value, r), class) == if class
            == EditClass::Overlay {
            overlay_edits(edits_of(h, class), sheet, row, col, value, r)
        } else {
            edits_of(h, class)
        },
{
    broadcast use lemma_edits_push;

    let asked = h.push(EngineEvent::Flags { reply: r.flags });
    lemma_capacity_edits(
        asked,
        sheet,
        crate::store::store_index(row) + 1,
        crate::store::store_index(col) + 1,
        r.capacity,
        class,
    );
}

/// The calls that the logged setting of a value adds for this part.
pub open spec fn value_edits<E: WorkbookEngine>(
    before: Seq<EngineEvent<E>>,
    class: EditClass,
    sheet: Seq<char>,
    sheet_id: u32,
    target: Target<LiteralValue>,
    read: CellReplies,
    mirror: MirrorReplies,
) -> Seq<EngineEvent<E>> {
    let (row, col, value) = target;
    match class {
        EditClass::Graph => after_value_edit(
            before,
            cell_at(sheet_id, row, col),
            value,
            read.old_state,
        ),
        EditClass::Staged => after_delta(
            before.push(EngineEvent::ClearStagedFormulaText { sheet, row, col }),
            true,
            sheet,
            row,
            col,
            read.staged,
            None,
        ),
        EditClass::Texts => before.push(EngineEvent::ClearStagedFormulaText { sheet, row, col }),
        EditClass::Records => after_delta(before, true, sheet, row, col, read.staged, None),
        EditClass::Overlay => overlay_edits(before, sheet, row, col, value, mirror),
    }
}

/// The calls that the logged setting of the first `n` values adds for this part.
pub open spec fn all_value_edits<E: WorkbookEngine>(
    before: Seq<EngineEvent<E>>,
    class: EditClass,
    sheet: Seq<char>,
    sheet_id: u32,
    cells: Seq<Target<LiteralValue>>,
    reads: Seq<CellReplies>,
    mirrors: Seq<MirrorReplies>,
    n: int,
) -> Seq<EngineEvent<E>>
    decreases n,
{
    if n <= 0 {
        before
    } else {
        value_edits(
            all_value_edits(before, class, sheet, sheet_id, cells, reads, mirrors, n - 1),
            class,
            sheet,
            sheet_id,
            cells[n - 1],
            reads[n - 1],
            mirrors[n - 1],
        )
    }
}

/// Where setting the first values one by one leads; the first refusal ends it.
pub open spec fn single_values_run<E: WorkbookEngine>(
    h: Seq<EngineEvent<E>>,
    logged: bool,
    sheet: Seq<char>,
    cells: Seq<Target<LiteralValue>>,
    replies: Seq<SetValueReplies>,
) -> Run<E>
    decreases replies.len(),
{
    if replies.len() == 0 {
        done(h)
    } else {
        let before = single_values_run(h, logged, sheet, cells, replies.drop_last());
        if before.outcome is Err {
            before
        } else {
            let (row, col, value) = cells[replies.len() - 1];
            value_run(before.history, logged, sheet, row, col, value, replies.last())
        }
    }
}

/// Where setting the first formulas one by one leads; the first failure ends it.
pub open spec fn single_formulas_run<E: WorkbookEngine>(
    h: Seq<EngineEvent<E>>,
    logged: bool,
    sheet: Seq<char>,
    cells: Seq<Target<String>>,
    replies: Seq<SetFormulaReplies>,
) -> Run<E>
    decreases replies.len(),
{
    if replies.len() == 0 {
        done(h)
    } else {
        let before = single_formulas_run(h, logged, sheet, cells, replies.drop_last());
        if before.outcome is Err {
            before
        } else {
            let (row, col, formula) = cells[replies.len() - 1];
            formula_run(before.history, logged, sheet, row, col, formula@, replies.last())
        }
    }
}

proof fn lemma_plain_value_edits<E: WorkbookEngine>(
    g: Seq<EngineEvent<E>>,
    h: Seq<EngineEvent<E>>,
    sheet: Seq<char>,
    cells: Seq<Target<LiteralValue>>,
    sets: Seq<Result<(), ExcelError>>,
    replies: Seq<SetValueReplies>,
    class: EditClass,
)
    requires
        edits_of(g, class) == edits_of(h, class),
        sets.len() == replies.len(),
        forall|i: int| 0 <= i < sets.len() ==> (#[trigger] sets[i]) == replies[i].set,
    ensures
        edits_of(plain_values_run(g, sheet, cells, sets).history, class) == edits_of(
            single_values_run(h, false, sheet, cells, replies).history,
            class,
        ),
        plain_values_run(g, sheet, cells, sets).outcome == single_values_run(
            h,
            false,
            sheet,
            cells,
            replies,
        ).outcome,
    decreases sets.len(),
{
    broadcast use lemma_edits_push;

    if sets.len() > 0 {
        assert forall|i: int| 0 <= i < sets.drop_last().len() implies (
        #[trigger] sets.drop_last()[i]) == replies.drop_last()[i].set by {
            assert(sets[i] == replies[i].set);
        }
        lemma_plain_value_edits(
            g,
            h,
            sheet,
            cells,
            sets.drop_last(),
            replies.drop_last(),
            class,
        );
        let before = single_values_run(h, false, sheet, cells, replies.drop_last());
        let (row, col, _) = cells[sets.len() - 1];
        assert(sets[sets.len() - 1] == replies[sets.len() - 1].set);
        lemma_capacity_edits(
            before.history,
            sheet,
            row as int,
            col as int,
            replies.last().capacity,
            class,
        );
    }
}

/// While the change log is off, a batch of values makes the same edits, in the same
/// order and with the same outcome, as setting them one by one, where the engine gives
/// the same answers.
pub proof fn law_plain_values_equal_single_edits<E: WorkbookEngine>(
    h: Seq<EngineEvent<E>>,
    sheet: Seq<char>,
    cells: Seq<Target<LiteralValue>>,
    batch: SetValuesReplies,
    singles: Seq<SetValueReplies>,
    class: EditClass,
)
    requires
        batch.sets.len() == singles.len(),
        forall|i: int|
            0 <= i < singles.len() ==> batch.sets[i] == (#[trigger] singles[i]).set,
    ensures
        edits_of(values_run(h, false, sheet, cells, batch).history, class) == edits_of(
            single_values_run(h, false, sheet, cells, singles).history,
            class,
        ),
        values_run(h, false, sheet, cells, batch).outcome == single_values_run(
            h,
            false,
            sheet,
            cells,
            singles,
        ).outcome,
{
    broadcast use lemma_edits_push;

    let begun = h.push(EngineEvent::BeginDeferredDirty);
    assert forall|i: int| 0 <= i < batch.sets.len() implies (#[trigger] batch.sets[i])
        == singles[i].set by {
        assert(singles[i].set == batch.sets[i]);
    }
    lemma_plain_value_edits(begun, h, sheet, cells, batch.sets, singles, class);
}

proof fn lemma_reads_edits<E: WorkbookEngine>(
    h: Seq<EngineEvent<E>>,
    sheet: Seq<char>,
    cells: Seq<Target<LiteralValue>>,
    reads: Seq<CellReplies>,
    class: EditClass,
)
    ensures
        edits_of(after_reads(h, sheet, cells, reads), class) == edits_of(h, class),
    decreases reads.len(),
{
    broadcast use lemma_edits_push;

    if reads.len() > 0 {
        lemma_reads_edits(h, sheet, cells, reads.drop_last(), class);
    }
}

proof fn lemma_value_edits_edits<E: WorkbookEngine>(
    h: Seq<EngineEvent<E>>,
    sheet: Seq<char>,
    sheet_id: u32,
    cells: Seq<Target<LiteralValue>>,
    reads: Seq<CellReplies>,
    mirrors: Seq<MirrorReplies>,
    n: int,
    class: EditClass,
)
    ensures
        edits_of(after_value_edits(h, sheet_id, cells, reads, n), class) == if class
            == EditClass::Graph {
            all_value_edits(
                edits_of(h, class),
                class,
                sheet,
                sheet_id,
                cells,
                reads,
                mirrors,
                n,
            )
        } else {
            edits_of(h, class)
        },
    decreases n,
{
    broadcast use lemma_edits_push;

    if n > 0 {
        lemma_value_edits_edits(h, sheet, sheet_id, cells, reads, mirrors, n - 1, class);
    }
}

proof fn lemma_settling_edits<E: WorkbookEngine>(
    h: Seq<EngineEvent<E>>,
    sheet: Seq<char>,
    sheet_id: u32,
    cells: Seq<Target<LiteralValue>>,
    reads: Seq<CellReplies>,
    mirrors: Seq<MirrorReplies>,
    all: Seq<MirrorReplies>,
    class: EditClass,
)
    requires
        mirrors.len() <= all.len(),
        forall|i: int| 0 <= i < mirrors.len() ==> (#[trigger] mirrors[i]) == all[i],
    ensures
        edits_of(after_settling(h, sheet, cells, reads, mirrors), class) == if class
            == EditClass::Graph {
            edits_of(h, class)
        } else {
            all_value_edits(
                edits_of(h, class),
                class,
                sheet,
                sheet_id,
                cells,
                reads,
                all,
                mirrors.len() as int,
            )
        },
    decreases mirrors.len(),
{
    broadcast use lemma_edits_push;

    if mirrors.len() > 0 {
        let n = mirrors.len() - 1;
        let fewer = mirrors.drop_last();
        assert forall|i: int| 0 <= i < fewer.len() implies (#[trigger] fewer[i]) == all[i] by {
            assert(mirrors[i] == all[i]);
        }
        lemma_settling_edits(h, sheet, sheet_id, cells, reads, fewer, all, class);
        assert(mirrors[n] == all[n]);
        let before = after_settling(h, sheet, cells, reads, fewer);
        let (row, col, value) = cells[n];
        lemma_mirror_edits(before, sheet, row, col, value, mirrors.last(), class);
    }
}

proof fn lemma_logged_value_edits<E: WorkbookEngine>(
    h: Seq<EngineEvent<E>>,
    sheet: Seq<char>,
    sheet_id: u32,
    target: Target<LiteralValue>,
    read: CellReplies,
    replies: SetValueReplies,
    class: EditClass,
)
    requires
        replies.staged == read.staged,
        replies.old_state == read.old_state,
        sheet_of(replies.sheet) == sheet_id,
    ensures
        ({
            let (row, col, value) = target;
            edits_of(value_run(h, true, sheet, row, col, value, replies).history, class)
                == value_edits(
                edits_of(h, class),
                class,
                sheet,
                sheet_id,
                target,
                read,
                replies.mirror,
            )
        }),
{
    broadcast use lemma_edits_push;

    let (row, col, value) = target;
    lemma_capacity_edits(h, sheet, row as int, col as int, replies.capacity, class);
    let roomy = after_capacity(h, sheet, row as int, col as int, replies.capacity);
    let staged = roomy.push(
        EngineEvent::StagedFormulaText { sheet, row, col, reply: replies.staged },
    );
    let named = after_sheet(staged, sheet, replies.sheet);
    let seen = after_old_state(named, sheet, row, col, replies.old_state);
    let edited = after_value_edit(
        seen.push(EngineEvent::EditBegin),
        cell_at(sheet_id, row, col),
        value,
        replies.old_state,
    ).push(EngineEvent::EditEnd);
    assert(edits_of(seen, class) == edits_of(h, class));
    lemma_mirror_edits(edited, sheet, row, col, value, replies.mirror, class);
}

/// Whether the single edits got the answers that the batch got.
pub open spec fn same_answers(
    sheet_id: u32,
    reads: Seq<CellReplies>,
    mirrors: Seq<MirrorReplies>,
    singles: Seq<SetValueReplies>,
) -> bool {
    forall|i: int|
        0 <= i < singles.len() ==> {
            &&& (#[trigger] singles[i]).staged == reads[i].staged
            &&& singles[i].old_state == reads[i].old_state
            &&& singles[i].mirror == mirrors[i]
            &&& sheet_of(singles[i].sheet) == sheet_id
        }
}

proof fn lemma_logged_singles<E: WorkbookEngine>(
    h: Seq<EngineEvent<E>>,
    sheet: Seq<char>,
    sheet_id: u32,
    cells: Seq<Target<LiteralValue>>,
    reads: Seq<CellReplies>,
    mirrors: Seq<MirrorReplies>,
    singles: Seq<SetValueReplies>,
    class: EditClass,
)
    requires
        same_answers(sheet_id, reads, mirrors, singles),
    ensures
        single_values_run(h, true, sheet, cells, singles).outcome is Ok,
        edits_of(single_values_run(h, true, sheet, cells, singles).history, class)
            == all_value_edits(
            edits_of(h, class),
            class,
            sheet,
            sheet_id,
            cells,
            reads,
            mirrors,
            singles.len() as int,
        ),
    decreases singles.len(),
{
    if singles.len() > 0 {
        let n = singles.len() - 1;
        let fewer = singles.drop_last();
        assert forall|i: int| 0 <= i < fewer.len() implies {
            &&& (#[trigger] fewer[i]).staged == reads[i].staged
            &&& fewer[i].old_state == reads[i].old_state
            &&& fewer[i].mirror == mirrors[i]
            &&& sheet_of(fewer[i].sheet) == sheet_id
        } by {
            assert(fewer[i] == singles[i]);
        }
        lemma_logged_singles(h, sheet, sheet_id, cells, reads, mirrors, fewer, class);
        assert(singles[n] == singles.last());
        let before = single_values_run(h, true, sheet, cells, fewer);
        lemma_logged_value_edits(
            before.history,
            sheet,
            sheet_id,
            cells[n],
            reads[n],
            singles[n],
            class,
        );
    }
}

/// While the change log is on, a batch of values makes the same edits to the graph, to
/// the staged texts and to the overlay, each in the same order, as setting them one by
/// one, where the engine gives the same answers.
pub proof fn law_logged_values_equal_single_edits<E: WorkbookEngine>(
    h: Seq<EngineEvent<E>>,
    sheet: Seq<char>,
    cells: Seq<Target<LiteralValue>>,
    batch: SetValuesReplies,
    singles: Seq<SetValueReplies>,
    class: EditClass,
)
    requires
        batch.reads.len() == cells.len(),
        batch.mirrors.len() == cells.len(),
        singles.len() == cells.len(),
        same_answers(sheet_of(batch.sheet), batch.reads, batch.mirrors, singles),
    ensures
        edits_of(values_run(h, true, sheet, cells, batch).history, class) == edits_of(
            single_values_run(h, true, sheet, cells, singles).history,
            class,
        ),
        values_run(h, true, sheet, cells, batch).outcome == single_values_run(
            h,
            true,
            sheet,
            cells,
            singles,
        ).outcome,
{
    broadcast use lemma_edits_push;

    let id = sheet_of(batch.sheet);
    let n = cells.len() as int;
    let begun = h.push(EngineEvent::BeginDeferredDirty);
    let named = after_sheet(begun, sheet, batch.sheet);
    let seen = after_reads(named, sheet, cells, batch.reads);
    lemma_reads_edits(named, sheet, cells, batch.reads, class);
    let opened = seen.push(EngineEvent::EditBegin);
    assert(edits_of(opened, class) == edits_of(h, class));
    lemma_value_edits_edits(opened, sheet, id, cells, batch.reads, batch.mirrors, n, class);
    let edited = after_value_edits(opened, id, cells, batch.reads, n).push(EngineEvent::EditEnd);
    lemma_settling_edits(
        edited,
        sheet,
        id,
        cells,
        batch.reads,
        batch.mirrors,
        batch.mirrors,
        class,
    );
    lemma_logged_singles(h, sheet, id, cells, batch.reads, batch.mirrors, singles, class);
}

proof fn lemma_plain_formula_edits<E: WorkbookEngine>(
    g: Seq<EngineEvent<E>>,
    h: Seq<EngineEvent<E>>,
    sheet: Seq<char>,
    cells: Seq<Target<String>>,
    sets: Seq<Result<(), ExcelError>>,
    replies: Seq<SetFormulaReplies>,
    class: EditClass,
)
    requires
        edits_of(g, class) == edits_of(h, class),
        sets.len() == replies.len(),
        forall|i: int|
            0 <= i < sets.len() ==> (#[trigger] sets[i]) == replies[i].set
                && !replies[i].flags.defer_graph_building,
    ensures
        edits_of(plain_formulas_run(g, sheet, cells, sets).history, class) == edits_of(
            single_formulas_run(h, false, sheet, cells, replies).history,
            class,
        ),
        plain_formulas_run(g, sheet, cells, sets).outcome == single_formulas_run(
            h,
            false,
            sheet,
            cells,
            replies,
        ).outcome,
    decreases sets.len(),
{
    broadcast use lemma_edits_push;

    if sets.len() > 0 {
        assert forall|i: int| 0 <= i < sets.drop_last().len() implies (
        #[trigger] sets.drop_last()[i]) == replies.drop_last()[i].set
            && !replies.drop_last()[i].flags.defer_graph_building by {
            assert(sets[i] == replies[i].set);
        }
        lemma_plain_formula_edits(
            g,
            h,
            sheet,
            cells,
            sets.drop_last(),
            replies.drop_last(),
            class,
        );
        let before = single_formulas_run(h, false, sheet, cells, replies.drop_last());
        let (row, col, _) = cells[sets.len() - 1];
        assert(sets[sets.len() - 1] == replies[sets.len() - 1].set);
        lemma_capacity_edits(
            before.history,
            sheet,
            row as int,
            col as int,
            replies.last().capacity,
            class,
        );
    }
}

/// While the change log is off and the graph is built at once, a batch of formulas
/// makes the same edits, in the same order and with the same outcome, as setting them
/// one by one, where the engine gives the same answers.
pub proof fn law_plain_formulas_equal_single_edits<E: WorkbookEngine>(
    h: Seq<EngineEvent<E>>,
    sheet: Seq<char>,
    start_row: u32,
    start_col: u32,
    rows: Seq<Vec<String>>,
    batch: SetFormulasReplies,
    singles: Seq<SetFormulaReplies>,
    class: EditClass,
)
    requires
        !batch.flags.defer_graph_building,
        batch.sets.len() == singles.len() <= cells_of(start_row, start_col, rows).len(),
        forall|i: int|
            0 <= i < singles.len() ==> batch.sets[i] == (#[trigger] singles[i]).set
                && !singles[i].flags.defer_graph_building,
    ensures
        edits_of(
            formulas_run(h, false, sheet, start_row, start_col, rows, batch).history,
            class,
        ) == edits_of(
            single_formulas_run(
                h,
                false,
                sheet,
                cells_of(start_row, start_col, rows),
                singles,
            ).history,
            class,
        ),
        formulas_run(h, false, sheet, start_row, start_col, rows, batch).outcome
            == single_formulas_run(
            h,
            false,
            sheet,
            cells_of(start_row, start_col, rows),
            singles,
        ).outcome,
{
    broadcast use lemma_edits_push;

    let begun = h.push(EngineEvent::BeginDeferredDirty);
    let cells = cells_of(start_row, start_col, rows);
    let last_row = start_row + rows.len() - 1;
    let last_col = start_col + width_of(rows, rows.len() as int) - 1;
    lemma_capacity_edits(begun, sheet, last_row, last_col, batch.capacity, class);
    let asked = after_capacity(begun, sheet, last_row, last_col, batch.capacity).push(
        EngineEvent::Flags { reply: batch.flags },
    );
    assert(edits_of(asked, class) == edits_of(h, class));
    assert forall|i: int| 0 <= i < batch.sets.len() implies (#[trigger] batch.sets[i])
        == singles[i].set && !singles[i].flags.defer_graph_building by {
        assert(singles[i].set == batch.sets[i]);
    }
    lemma_plain_formula_edits(asked, h, sheet, cells, batch.sets, singles, class);
    if width_of(rows, rows.len() as int) == 0 {
        lemma_no_cells(start_row, start_col, rows, rows.len() as int);
    }
}

proof fn lemma_deferred_formula_edits<E: WorkbookEngine>(
    g: Seq<EngineEvent<E>>,
    h: Seq<EngineEvent<E>>,
    logged: bool,
    sheet: Seq<char>,
    cells: Seq<Target<String>>,
    stagings: Seq<StagingReplies>,
    singles: Seq<SetFormulaReplies>,
    class: EditClass,
)
    requires
        edits_of(g, class) == edits_of(h, class),
        stagings.len() == singles.len(),
        same_stagings(logged, stagings, singles),
    ensures
        edits_of(after_stagings(g, logged, sheet, cells, stagings), class) == edits_of(
            single_formulas_run(h, logged, sheet, cells, singles).history,
            class,
        ),
        single_formulas_run(h, logged, sheet, cells, singles).outcome is Ok,
    decreases singles.len(),
{
    broadcast use lemma_edits_push;

    if singles.len() > 0 {
        let fewer = stagings.drop_last();
        let rest = singles.drop_last();
        assert forall|i: int| 0 <= i < rest.len() implies {
            &&& (#[trigger] rest[i]).flags.defer_graph_building
            &&& rest[i].present is None
            &&& logged ==> rest[i].staged == fewer[i].before
            &&& logged ==> rest[i].staged_after == fewer[i].after
        } by {
            assert(rest[i] == singles[i]);
        }
        lemma_deferred_formula_edits(g, h, logged, sheet, cells, fewer, rest, class);
        let before = single_formulas_run(h, logged, sheet, cells, rest);
        let (row, col, _) = cells[singles.len() - 1];
        let last = singles[singles.len() - 1];
        lemma_capacity_edits(
            before.history,
            sheet,
            row as int,
            col as int,
            last.capacity,
            class,
        );
    }
}

/// Whether single formulas are staged as the batch stages them: the building of the graph
/// is deferred, the graph does not hold the cells, and the texts read are the same.
pub open spec fn same_stagings(
    logged: bool,
    stagings: Seq<StagingReplies>,
    singles: Seq<SetFormulaReplies>,
) -> bool {
    forall|i: int|
        0 <= i < singles.len() ==> {
            &&& (#[trigger] singles[i]).flags.defer_graph_building
            &&& singles[i].present is None
            &&& logged ==> singles[i].staged == stagings[i].before
            &&& logged ==> singles[i].staged_after == stagings[i].after
        }
}

/// While the building of the graph is deferred, a batch of formulas for cells that the
/// graph does not hold makes the same edits, in the same order, as setting them one by
/// one, with the change log on or off, where the engine gives the same answers. Neither
/// fails.
pub proof fn law_deferred_formulas_equal_single_edits<E: WorkbookEngine>(
    h: Seq<EngineEvent<E>>,
    logged: bool,
    sheet: Seq<char>,
    start_row: u32,
    start_col: u32,
    rows: Seq<Vec<String>>,
    batch: SetFormulasReplies,
    singles: Seq<SetFormulaReplies>,
    class: EditClass,
)
    requires
        batch.flags.defer_graph_building,
        batch.stagings.len() == singles.len() == cells_of(start_row, start_col, rows).len(),
        same_stagings(logged, batch.stagings, singles),
    ensures
        edits_of(
            formulas_run(h, logged, sheet, start_row, start_col, rows, batch).history,
            class,
        ) == edits_of(
            single_formulas_run(
                h,
                logged,
                sheet,
                cells_of(start_row, start_col, rows),
                singles,
            ).history,
            class,
        ),
        formulas_run(h, logged, sheet, start_row, start_col, rows, batch).outcome is Ok,
        single_formulas_run(
            h,
            logged,
            sheet,
            cells_of(start_row, start_col, rows),
            singles,
        ).outcome is Ok,
{
    broadcast use lemma_edits_push;

    let begun = h.push(EngineEvent::BeginDeferredDirty);
    let cells = cells_of(start_row, start_col, rows);
    let last_row = start_row + rows.len() - 1;
    let last_col = start_col + width_of(rows, rows.len() as int) - 1;
    lemma_capacity_edits(begun, sheet, last_row, last_col, batch.capacity, class);
    let asked = after_capacity(begun, sheet, last_row, last_col, batch.capacity).push(
        EngineEvent::Flags { reply: batch.flags },
    );
    assert(edits_of(asked, class) == edits_of(h, class));
    lemma_deferred_formula_edits(
        asked,
        h,
        logged,
        sheet,
        cells,
        batch.stagings,
        singles,
        class,
    );
    if width_of(rows, rows.len() as int) == 0 {
        lemma_no_cells(start_row, start_col, rows, rows.len() as int);
    }
}

/// The calls that the logged setting of the first `n` formulas in the graph adds for this
/// part. Dropped texts and the record of them are counted apart.
pub open spec fn all_formula_edits<E: WorkbookEngine>(
    before: Seq<EngineEvent<E>>,
    class: EditClass,
    sheet: Seq<char>,
    sheet_id: u32,
    cells: Seq<Target<String>>,
    staged: Seq<Option<Seq<char>>>,
    n: int,
) -> Seq<EngineEvent<E>> {
    match class {
        EditClass::Graph => formula_edits_run(before, sheet_id, cells, n).history,
        EditClass::Texts => after_clearings(before, sheet, cells, n),
        EditClass::Records => after_losses(before, sheet, cells, staged, n),
        EditClass::Staged | EditClass::Overlay => before,
    }
}

proof fn lemma_staged_reads_edits<E: WorkbookEngine>(
    h: Seq<EngineEvent<E>>,
    sheet: Seq<char>,
    cells: Seq<Target<String>>,
    staged: Seq<Option<Seq<char>>>,
    class: EditClass,
)
    ensures
        edits_of(after_staged_reads(h, sheet, cells, staged), class) == edits_of(h, class),
    decreases staged.len(),
{
    broadcast use lemma_edits_push;

    if staged.len() > 0 {
        lemma_staged_reads_edits(h, sheet, cells, staged.drop_last(), class);
    }
}

proof fn lemma_formula_parts_edits<E: WorkbookEngine>(
    h: Seq<EngineEvent<E>>,
    sheet: Seq<char>,
    sheet_id: u32,
    cells: Seq<Target<String>>,
    staged: Seq<Option<Seq<char>>>,
    n: int,
    class: EditClass,
)
    requires
        class != EditClass::Staged,
    ensures
        ({
            let before = edits_of(h, class);
            let all = all_formula_edits(before, class, sheet, sheet_id, cells, staged, n);
            let run = formula_edits_run(h, sheet_id, cells, n);
            &&& edits_of(run.history, class) == if class == EditClass::Graph {
                all
            } else {
                before
            }
            &&& run.outcome == formula_edits_run(before, sheet_id, cells, n).outcome
            &&& edits_of(after_clearings(h, sheet, cells, n), class) == if class
                == EditClass::Texts {
                all
            } else {
                before
            }
            &&& edits_of(after_losses(h, sheet, cells, staged, n), class) == if class
                == EditClass::Records {
                all
            } else {
                before
            }
        }),
    decreases n,
{
    broadcast use lemma_edits_push;

    if n > 0 {
        lemma_formula_parts_edits(h, sheet, sheet_id, cells, staged, n - 1, class);
    }
}

/// Whether single formulas go to the graph as the batch sets them: the graph is built at
/// once, and the texts and the sheet found are the same.
pub open spec fn same_graph_answers(
    sheet_id: u32,
    staged: Seq<Option<Seq<char>>>,
    singles: Seq<SetFormulaReplies>,
) -> bool {
    forall|i: int|
        0 <= i < singles.len() ==> {
            &&& !(#[trigger] singles[i]).flags.defer_graph_building
            &&& singles[i].staged == staged[i]
            &&& sheet_of(singles[i].sheet) == sheet_id
        }
}

proof fn lemma_logged_formula_singles<E: WorkbookEngine>(
    h: Seq<EngineEvent<E>>,
    sheet: Seq<char>,
    sheet_id: u32,
    cells: Seq<Target<String>>,
    staged: Seq<Option<Seq<char>>>,
    singles: Seq<SetFormulaReplies>,
    class: EditClass,
)
    requires
        class != EditClass::Staged,
        same_graph_answers(sheet_id, staged, singles),
    ensures
        ({
            let before = edits_of(h, class);
            let n = singles.len() as int;
            let run = single_formulas_run(h, true, sheet, cells, singles);
            &&& run.outcome == formula_edits_run(before, sheet_id, cells, n).outcome
            &&& class == EditClass::Graph || run.outcome is Ok ==> edits_of(run.history, class)
                == all_formula_edits(before, class, sheet, sheet_id, cells, staged, n)
        }),
    decreases singles.len(),
{
    broadcast use lemma_edits_push;

    if singles.len() > 0 {
        let rest = singles.drop_last();
        assert forall|i: int| 0 <= i < rest.len() implies {
            &&& !(#[trigger] rest[i]).flags.defer_graph_building
            &&& rest[i].staged == staged[i]
            &&& sheet_of(rest[i].sheet) == sheet_id
        } by {
            assert(rest[i] == singles[i]);
        }
        lemma_logged_formula_singles(h, sheet, sheet_id, cells, staged, rest, class);
        let before = single_formulas_run(h, true, sheet, cells, rest);
        let (row, col, _) = cells[singles.len() - 1];
        let last = singles[singles.len() - 1];
        lemma_capacity_edits(
            before.history,
            sheet,
            row as int,
            col as int,
            last.capacity,
            class,
        );
    }
}

/// While the change log is on and the graph is built at once, a batch of formulas makes
/// the same edits to the graph, in the same order and with the same outcome, as setting
/// them one by one, where the engine gives the same answers. Where all parse, it also
/// drops the same staged texts and records the same losses, each in the same order; the
/// batch drops all texts before it records the first loss. Where one does not parse, the
/// batch drops none.
pub proof fn law_logged_formulas_equal_single_edits<E: WorkbookEngine>(
    h: Seq<EngineEvent<E>>,
    sheet: Seq<char>,
    start_row: u32,
    start_col: u32,
    rows: Seq<Vec<String>>,
    batch: SetFormulasReplies,
    singles: Seq<SetFormulaReplies>,
    class: EditClass,
)
    requires
        class != EditClass::Staged,
        !batch.flags.defer_graph_building,
        batch.staged.len() == singles.len() == cells_of(start_row, start_col, rows).len(),
        same_graph_answers(sheet_of(batch.sheet), batch.staged, singles),
    ensures
        ({
            let cells = cells_of(start_row, start_col, rows);
            let all = formulas_run(h, true, sheet, start_row, start_col, rows, batch);
            let one_by_one = single_formulas_run(h, true, sheet, cells, singles);
            &&& all.outcome == one_by_one.outcome
            &&& class == EditClass::Graph || all.outcome is Ok ==> edits_of(all.history, class)
                == edits_of(one_by_one.history, class)
            &&& class != EditClass::Graph && all.outcome is Err ==> edits_of(all.history, class)
                == edits_of(h, class)
        }),
{
    broadcast use lemma_edits_push;

    let begun = h.push(EngineEvent::BeginDeferredDirty);
    let cells = cells_of(start_row, start_col, rows);
    let n = cells.len() as int;
    let id = sheet_of(batch.sheet);
    let last_row = start_row + rows.len() - 1;
    let last_col = start_col + width_of(rows, rows.len() as int) - 1;
    lemma_logged_formula_singles(h, sheet, id, cells, batch.staged, singles, class);
    if width_of(rows, rows.len() as int) == 0 {
        lemma_no_cells(start_row, start_col, rows, rows.len() as int);
    } else {
        lemma_capacity_edits(begun, sheet, last_row, last_col, batch.capacity, class);
        let asked = after_capacity(begun, sheet, last_row, last_col, batch.capacity).push(
            EngineEvent::Flags { reply: batch.flags },
        );
        let named = after_sheet(asked, sheet, batch.sheet);
        lemma_staged_reads_edits(named, sheet, cells, batch.staged, class);
        let opened = after_staged_reads(named, sheet, cells, batch.staged).push(
            EngineEvent::EditBegin,
        );
        assert(edits_of(opened, class) == edits_of(h, class));
        lemma_formula_parts_edits(opened, sheet, id, cells, batch.staged, n, class);
        let closed = formula_edits_run(opened, id, cells, n).history.push(EngineEvent::EditEnd);
        lemma_formula_parts_edits(closed, sheet, id, cells, batch.staged, n, class);
        let cleared = after_clearings(closed, sheet, cells, n);
        lemma_formula_parts_edits(cleared, sheet, id, cells, batch.staged, n, class);
    }
}

} // verus!
