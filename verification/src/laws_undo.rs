//! Laws on undoing logged edits: with what the change log is told of each cell, the cells
//! can be given back the contents that they had.

use crate::batch::{
    after_reads, after_settling, after_value_edits, values_answered, values_run, CellReplies,
    SetValuesReplies, Target,
};
use crate::batch_range::{
    after_range_clearings, after_range_deltas, after_range_mirrors, after_range_stagings,
    range_answered, range_edits_run, range_run, WriteRangeReplies,
};
use crate::cell_data::{is_listing, CellData};
use crate::cells::{
    after_old_state, after_sheet, after_value_edit, formula_run, sheet_of, value_run,
    SetFormulaReplies, SetValueReplies,
};
use crate::engine::{cell_at, formula_of, CellRef, EngineEvent, WorkbookEngine};
use crate::grid::{cells_of, fits, rect_cells, row_cells};
use crate::laws_staged::{
    distinct, law_listed_cells_are_distinct, law_rectangle_cells_are_distinct,
};
use crate::store::{after_capacity, after_mirror, CapacityReplies, MirrorReplies};
use crate::value::LiteralValue;
use vstd::prelude::*;

verus! {

/// What a cell holds: its value and its formula.
pub type Content = (Option<LiteralValue>, Option<formualizer_parse::ASTNode>);

/// What the cells hold.
pub type Contents = spec_fn(CellRef) -> Content;

/// The contents with another one for a cell.
pub open spec fn with_content(contents: Contents, cell: CellRef, content: Content) -> Contents {
    |c: CellRef|
        if c == cell {
            content
        } else {
            contents(c)
        }
}

/// What a logged edit makes of the contents of a sheet, step by step.
pub struct Ledger {
    /// The contents as the edit makes them.
    pub now: Contents,
    /// Whether the engine answered each reading with the content that it held.
    pub told: bool,
    /// Whether each change is logged with the content that it replaces.
    pub exact: bool,
}

/// The ledger after one more call on the sheet `id`.
pub open spec fn next_ledger<E: WorkbookEngine>(
    l: Ledger,
    id: u32,
    e: EngineEvent<E>,
) -> Ledger {
    match e {
        EngineEvent::GetCellValue { sheet, row, col, reply } => Ledger {
            told: l.told && reply == (l.now)(cell_at(id, row, col)).0,
            ..l
        },
        EngineEvent::GetCell { sheet, row, col, reply } => Ledger {
            told: l.told && formula_of(reply) == (l.now)(cell_at(id, row, col)).1,
            ..l
        },
        EngineEvent::EditSetValueWithOldState { cell, value, old_value, old_formula } => Ledger {
            now: with_content(l.now, cell, (Some(value), None)),
            exact: l.exact && (old_value, old_formula) == (l.now)(cell),
            ..l
        },
        EngineEvent::EditSetFormulaWithOldState { cell, tree, old_value, old_formula } => Ledger {
            now: with_content(l.now, cell, (None, Some(tree))),
            exact: l.exact && (old_value, old_formula) == (l.now)(cell),
            ..l
        },
        EngineEvent::EditSetValue { cell, value } => Ledger {
            now: with_content(l.now, cell, (Some(value), None)),
            exact: false,
            ..l
        },
        EngineEvent::EditSetFormula { cell, tree } => Ledger {
            now: with_content(l.now, cell, (None, Some(tree))),
            exact: false,
            ..l
        },
        _ => l,
    }
}

/// The ledger of the calls of `h` behind the first `from`, where the cells hold
/// `contents` before them.
pub open spec fn ledger<E: WorkbookEngine>(
    contents: Contents,
    id: u32,
    h: Seq<EngineEvent<E>>,
    from: int,
) -> Ledger
    decreases h.len(),
{
    if h.len() <= from || h.len() == 0 {
        Ledger { now: contents, told: true, exact: true }
    } else {
        next_ledger(ledger(contents, id, h.drop_last(), from), id, h.last())
    }
}

/// What undoing the changes logged behind the first `from` calls makes of `contents`:
/// the last one is undone first, and each gives back the content it was logged with.
pub open spec fn taken_back<E: WorkbookEngine>(
    contents: Contents,
    h: Seq<EngineEvent<E>>,
    from: int,
) -> Contents
    decreases h.len(),
{
    if h.len() <= from || h.len() == 0 {
        contents
    } else {
        let before = match h.last() {
            EngineEvent::EditSetValueWithOldState { cell, value, old_value, old_formula } =>
                with_content(contents, cell, (old_value, old_formula)),
            EngineEvent::EditSetFormulaWithOldState { cell, tree, old_value, old_formula } =>
                with_content(contents, cell, (old_value, old_formula)),
            _ => contents,
        };
        taken_back(before, h.drop_last(), from)
    }
}

/// Whether the changes logged behind the first `from` calls can be undone: undone from
/// the contents after them, they give the contents before, where the engine told the
/// contents that it held.
pub open spec fn can_be_undone<E: WorkbookEngine>(
    contents: Contents,
    id: u32,
    h: Seq<EngineEvent<E>>,
    from: int,
) -> bool {
    let l = ledger(contents, id, h, from);
    l.told ==> taken_back(l.now, h, from) == contents
}

broadcast proof fn lemma_ledger_push<E: WorkbookEngine>(
    contents: Contents,
    id: u32,
    h: Seq<EngineEvent<E>>,
    e: EngineEvent<E>,
    from: int,
)
    requires
        h.len() >= from,
    ensures
        #[trigger] ledger(contents, id, h.push(e), from) == next_ledger(
            ledger(contents, id, h, from),
            id,
            e,
        ),
{
    assert(h.push(e).drop_last() =~= h);
}

proof fn lemma_content_back(contents: Contents, cell: CellRef, content: Content)
    ensures
        with_content(with_content(contents, cell, content), cell, contents(cell)) == contents,
{
    assert(with_content(with_content(contents, cell, content), cell, contents(cell))
        =~= contents);
}

/// Exact logs can be undone.
proof fn lemma_taken_back<E: WorkbookEngine>(
    contents: Contents,
    id: u32,
    h: Seq<EngineEvent<E>>,
    from: int,
)
    requires
        0 <= from,
        ledger(contents, id, h, from).exact,
    ensures
        taken_back(ledger(contents, id, h, from).now, h, from) == contents,
    decreases h.len(),
{
    if h.len() > from {
        let rest = h.drop_last();
        let l = ledger(contents, id, rest, from);
        assert(l.exact);
        lemma_taken_back(contents, id, rest, from);
        match h.last() {
            EngineEvent::EditSetValueWithOldState { cell, value, old_value, old_formula } => {
                lemma_content_back(l.now, cell, (Some(value), None));
            },
            EngineEvent::EditSetFormulaWithOldState { cell, tree, old_value, old_formula } => {
                lemma_content_back(l.now, cell, (None, Some(tree)));
            },
            _ => {},
        }
    }
}

proof fn lemma_can_be_undone<E: WorkbookEngine>(
    contents: Contents,
    id: u32,
    h: Seq<EngineEvent<E>>,
    from: int,
)
    requires
        0 <= from,
        ledger(contents, id, h, from).told ==> ledger(contents, id, h, from).exact,
    ensures
        can_be_undone(contents, id, h, from),
{
    if ledger(contents, id, h, from).told {
        lemma_taken_back(contents, id, h, from);
    }
}

proof fn lemma_capacity_ledger<E: WorkbookEngine>(
    contents: Contents,
    id: u32,
    h: Seq<EngineEvent<E>>,
    from: int,
    sheet: Seq<char>,
    rows: int,
    cols: int,
    r: CapacityReplies,
)
    requires
        h.len() >= from,
    ensures
        after_capacity(h, sheet, rows, cols, r).len() >= from,
        ledger(contents, id, after_capacity(h, sheet, rows, cols, r), from) == ledger(
            contents,
            id,
            h,
            from,
        ),
{
    broadcast use lemma_ledger_push;

}

proof fn lemma_mirror_ledger<E: WorkbookEngine>(
    contents: Contents,
    id: u32,
    h: Seq<EngineEvent<E>>,
    from: int,
    sheet: Seq<char>,
    row: u32,
    col: u32,
    value: LiteralValue,
    r: MirrorReplies,
)
    requires
        h.len() >= from,
    ensures
        after_mirror(h, sheet, row, col, value, r).len() >= from,
        ledger(contents, id, after_mirror(h, sheet, row, col, value, r), from) == ledger(
            contents,
            id,
            h,
            from,
        ),
{
    broadcast use lemma_ledger_push;

    lemma_capacity_ledger(
        contents,
        id,
        h.push(EngineEvent::Flags { reply: r.flags }),
        from,
        sheet,
        crate::store::store_index(row) + 1,
        crate::store::store_index(col) + 1,
        r.capacity,
    );
}

/// A logged setting of a value can be undone.
pub proof fn law_value_can_be_undone<E: WorkbookEngine>(
    contents: Contents,
    h: Seq<EngineEvent<E>>,
    sheet: Seq<char>,
    row: u32,
    col: u32,
    value: LiteralValue,
    replies: SetValueReplies,
)
    ensures
        can_be_undone(
            contents,
            sheet_of(replies.sheet),
            value_run(h, true, sheet, row, col, value, replies).history,
            h.len() as int,
        ),
{
    broadcast use lemma_ledger_push;

    let from = h.len() as int;
    let id = sheet_of(replies.sheet);
    lemma_capacity_ledger(
        contents,
        id,
        h,
        from,
        sheet,
        row as int,
        col as int,
        replies.capacity,
    );
    let roomy = after_capacity(h, sheet, row as int, col as int, replies.capacity);
    let staged = roomy.push(
        EngineEvent::StagedFormulaText { sheet, row, col, reply: replies.staged },
    );
    let named = after_sheet(staged, sheet, replies.sheet);
    let seen = after_old_state(named, sheet, row, col, replies.old_state);
    let edited = after_value_edit(
        seen.push(EngineEvent::EditBegin),
        cell_at(id, row, col),
        value,
        replies.old_state,
    ).push(EngineEvent::EditEnd);
    lemma_mirror_ledger(contents, id, edited, from, sheet, row, col, value, replies.mirror);
    let end = value_run(h, true, sheet, row, col, value, replies).history;
    assert(ledger(contents, id, end, from) == ledger(contents, id, edited, from));
    lemma_can_be_undone(contents, id, end, from);
}

/// A logged setting of a formula can be undone while the building of the graph is
/// deferred. At other times the log itself finds out what the cell held.
pub proof fn law_deferred_formula_can_be_undone<E: WorkbookEngine>(
    contents: Contents,
    h: Seq<EngineEvent<E>>,
    sheet: Seq<char>,
    row: u32,
    col: u32,
    formula: Seq<char>,
    replies: SetFormulaReplies,
)
    requires
        replies.flags.defer_graph_building,
    ensures
        can_be_undone(
            contents,
            sheet_of(replies.sheet),
            formula_run(h, true, sheet, row, col, formula, replies).history,
            h.len() as int,
        ),
{
    broadcast use lemma_ledger_push;

    let from = h.len() as int;
    let id = sheet_of(replies.sheet);
    lemma_capacity_ledger(
        contents,
        id,
        h,
        from,
        sheet,
        row as int,
        col as int,
        replies.capacity,
    );
    let end = formula_run(h, true, sheet, row, col, formula, replies).history;
    lemma_can_be_undone(contents, id, end, from);
}

/// Whether coordinates count from one.
pub open spec fn one_based<V>(cells: Seq<Target<V>>) -> bool {
    forall|i: int| 0 <= i < cells.len() ==> (#[trigger] cells[i]).0 >= 1 && cells[i].1 >= 1
}

/// Whether the readings told the contents of the cells.
pub open spec fn reads_tell<V>(
    contents: Contents,
    id: u32,
    cells: Seq<Target<V>>,
    reads: Seq<CellReplies>,
) -> bool {
    forall|i: int|
        0 <= i < reads.len() ==> ((#[trigger] reads[i]).old_state.value, formula_of(
            reads[i].old_state.cell,
        )) == contents(cell_at(id, cells[i].0, cells[i].1))
}

proof fn lemma_reads_ledger<E: WorkbookEngine, V>(
    contents: Contents,
    id: u32,
    h: Seq<EngineEvent<E>>,
    from: int,
    sheet: Seq<char>,
    cells: Seq<Target<V>>,
    reads: Seq<CellReplies>,
)
    requires
        h.len() >= from,
    ensures
        ({
            let l = ledger(contents, id, h, from);
            let g = after_reads(h, sheet, cells, reads);
            &&& g.len() >= from
            &&& ledger(contents, id, g, from).now == l.now
            &&& ledger(contents, id, g, from).exact == l.exact
            &&& ledger(contents, id, g, from).told ==> l.told && reads_tell(
                l.now,
                id,
                cells,
                reads,
            )
        }),
    decreases reads.len(),
{
    broadcast use lemma_ledger_push;

    if reads.len() > 0 {
        let fewer = reads.drop_last();
        lemma_reads_ledger(contents, id, h, from, sheet, cells, fewer);
        let l = ledger(contents, id, h, from);
        let g = after_reads(h, sheet, cells, reads);
        if ledger(contents, id, g, from).told {
            assert forall|i: int| 0 <= i < reads.len() implies ((
            #[trigger] reads[i]).old_state.value, formula_of(reads[i].old_state.cell)) == (l.now)(
                cell_at(id, cells[i].0, cells[i].1),
            ) by {
                if i < fewer.len() {
                    assert(fewer[i] == reads[i]);
                }
            }
        }
    }
}

/// Whether the cells from place `n` on hold what they held before.
spec fn rest_untouched<V>(
    now: Contents,
    contents: Contents,
    id: u32,
    cells: Seq<Target<V>>,
    n: int,
) -> bool {
    forall|i: int|
        n <= i < cells.len() ==> now(cell_at(id, (#[trigger] cells[i]).0, cells[i].1)) == contents(
            cell_at(id, cells[i].0, cells[i].1),
        )
}

proof fn lemma_rest_untouched<V>(
    now: Contents,
    contents: Contents,
    id: u32,
    cells: Seq<Target<V>>,
    n: int,
    content: Content,
)
    requires
        0 < n <= cells.len(),
        distinct(cells),
        one_based(cells),
        rest_untouched(now, contents, id, cells, n - 1),
    ensures
        rest_untouched(
            with_content(now, cell_at(id, cells[n - 1].0, cells[n - 1].1), content),
            contents,
            id,
            cells,
            n,
        ),
        rest_untouched(now, contents, id, cells, n),
{
    let edited = cell_at(id, cells[n - 1].0, cells[n - 1].1);
    assert forall|i: int| n <= i < cells.len() implies with_content(now, edited, content)(
        cell_at(id, (#[trigger] cells[i]).0, cells[i].1),
    ) == contents(cell_at(id, cells[i].0, cells[i].1)) by {
        assert(cells[n - 1].0 != cells[i].0 || cells[n - 1].1 != cells[i].1);
        assert(cells[n - 1].0 >= 1 && cells[n - 1].1 >= 1);
        assert(cell_at(id, cells[i].0, cells[i].1) != edited);
    }
}

proof fn lemma_value_edits_ledger<E: WorkbookEngine>(
    contents: Contents,
    id: u32,
    h: Seq<EngineEvent<E>>,
    from: int,
    cells: Seq<Target<LiteralValue>>,
    reads: Seq<CellReplies>,
    n: int,
)
    requires
        h.len() >= from,
        0 <= n <= cells.len(),
        reads.len() == cells.len(),
        distinct(cells),
        one_based(cells),
        ledger(contents, id, h, from).now == contents,
        reads_tell(contents, id, cells, reads),
    ensures
        ({
            let l = ledger(contents, id, h, from);
            let g = after_value_edits(h, id, cells, reads, n);
            let k = ledger(contents, id, g, from);
            &&& g.len() >= from
            &&& k.told == l.told
            &&& k.exact == l.exact
            &&& rest_untouched(k.now, contents, id, cells, n)
        }),
    decreases n,
{
    broadcast use lemma_ledger_push;

    if n > 0 {
        lemma_value_edits_ledger(contents, id, h, from, cells, reads, n - 1);
        let before = after_value_edits(h, id, cells, reads, n - 1);
        let now = ledger(contents, id, before, from).now;
        let (row, col, value) = cells[n - 1];
        assert(now(cell_at(id, cells[n - 1].0, cells[n - 1].1)) == contents(
            cell_at(id, row, col),
        ));
        assert(reads[n - 1].old_state.value == contents(cell_at(id, row, col)).0);
        lemma_rest_untouched(now, contents, id, cells, n, (Some(value), None));
    }
}

proof fn lemma_value_edits_told<E: WorkbookEngine>(
    contents: Contents,
    id: u32,
    h: Seq<EngineEvent<E>>,
    from: int,
    cells: Seq<Target<LiteralValue>>,
    reads: Seq<CellReplies>,
    n: int,
)
    requires
        h.len() >= from,
    ensures
        after_value_edits(h, id, cells, reads, n).len() >= from,
        ledger(contents, id, after_value_edits(h, id, cells, reads, n), from).told == ledger(
            contents,
            id,
            h,
            from,
        ).told,
    decreases n,
{
    broadcast use lemma_ledger_push;

    if n > 0 {
        lemma_value_edits_told(contents, id, h, from, cells, reads, n - 1);
    }
}

proof fn lemma_settling_ledger<E: WorkbookEngine>(
    contents: Contents,
    id: u32,
    h: Seq<EngineEvent<E>>,
    from: int,
    sheet: Seq<char>,
    cells: Seq<Target<LiteralValue>>,
    reads: Seq<CellReplies>,
    mirrors: Seq<MirrorReplies>,
)
    requires
        h.len() >= from,
    ensures
        after_settling(h, sheet, cells, reads, mirrors).len() >= from,
        ledger(contents, id, after_settling(h, sheet, cells, reads, mirrors), from) == ledger(
            contents,
            id,
            h,
            from,
        ),
    decreases mirrors.len(),
{
    broadcast use lemma_ledger_push;

    if mirrors.len() > 0 {
        let fewer = mirrors.drop_last();
        lemma_settling_ledger(contents, id, h, from, sheet, cells, reads, fewer);
        let before = after_settling(h, sheet, cells, reads, fewer);
        let (row, col, value) = cells[mirrors.len() - 1];
        lemma_mirror_ledger(contents, id, before, from, sheet, row, col, value, mirrors.last());
    }
}

proof fn lemma_rect_one_based<V>(row: u32, col: u32, rows: Seq<Vec<V>>, n: int)
    requires
        fits(row, col, rows),
        0 <= n <= rows.len(),
        row >= 1,
        col >= 1,
    ensures
        one_based(rect_cells(row, col, rows, n)),
    decreases n,
{
    if n > 0 {
        lemma_rect_one_based(row, col, rows, n - 1);
        let before = rect_cells(row, col, rows, n - 1);
        let values = rows[n - 1]@;
        let last = row_cells((row + n - 1) as u32, col, values, values.len() as int);
        let all = rect_cells(row, col, rows, n);
        assert(all == before + last);
        assert forall|i: int| 0 <= i < all.len() implies (#[trigger] all[i]).0 >= 1 && all[i].1
            >= 1 by {
            if i < before.len() {
                assert(all[i] == before[i]);
            } else {
                assert(all[i] == last[i - before.len()]);
            }
        }
    }
}

/// A logged batch of values can be undone: all the cells get back what they held before
/// the batch.
pub proof fn law_values_can_be_undone<E: WorkbookEngine>(
    contents: Contents,
    h: Seq<EngineEvent<E>>,
    sheet: Seq<char>,
    start_row: u32,
    start_col: u32,
    rows: Seq<Vec<LiteralValue>>,
    replies: SetValuesReplies,
)
    requires
        fits(start_row, start_col, rows),
        start_row >= 1,
        start_col >= 1,
        values_answered(true, cells_of(start_row, start_col, rows).len(), replies, Ok(())),
    ensures
        can_be_undone(
            contents,
            sheet_of(replies.sheet),
            values_run(
                h,
                true,
                sheet,
                cells_of(start_row, start_col, rows),
                replies,
            ).history,
            h.len() as int,
        ),
{
    broadcast use lemma_ledger_push;

    law_rectangle_cells_are_distinct(start_row, start_col, rows);
    lemma_rect_one_based(start_row, start_col, rows, rows.len() as int);
    let cells = cells_of(start_row, start_col, rows);
    let from = h.len() as int;
    let id = sheet_of(replies.sheet);
    let n = cells.len() as int;
    let named = after_sheet(h.push(EngineEvent::BeginDeferredDirty), sheet, replies.sheet);
    lemma_reads_ledger(contents, id, named, from, sheet, cells, replies.reads);
    let seen = after_reads(named, sheet, cells, replies.reads);
    let opened = seen.push(EngineEvent::EditBegin);
    let edited = after_value_edits(opened, id, cells, replies.reads, n);
    if ledger(contents, id, seen, from).told {
        lemma_value_edits_ledger(contents, id, opened, from, cells, replies.reads, n);
    } else {
        lemma_value_edits_told(contents, id, opened, from, cells, replies.reads, n);
    }
    let closed = edited.push(EngineEvent::EditEnd);
    lemma_settling_ledger(
        contents,
        id,
        closed,
        from,
        sheet,
        cells,
        replies.reads,
        replies.mirrors,
    );
    let end = values_run(h, true, sheet, cells, replies).history;
    lemma_can_be_undone(contents, id, end, from);
}

/// Whether no cell is to have both a value and a formula that goes to the graph.
pub open spec fn one_edit_each(cells: Seq<Target<CellData>>, deferred: bool) -> bool {
    forall|i: int|
        0 <= i < cells.len() && !deferred ==> (#[trigger] cells[i]).2.value is None
            || cells[i].2.formula is None
}

proof fn lemma_range_edits_ledger<E: WorkbookEngine>(
    contents: Contents,
    id: u32,
    h: Seq<EngineEvent<E>>,
    from: int,
    deferred: bool,
    cells: Seq<Target<CellData>>,
    reads: Seq<CellReplies>,
    n: int,
)
    requires
        h.len() >= from,
        0 <= n <= cells.len(),
        reads.len() == cells.len(),
        distinct(cells),
        one_based(cells),
        one_edit_each(cells, deferred),
        ledger(contents, id, h, from).now == contents,
        reads_tell(contents, id, cells, reads),
    ensures
        ({
            let l = ledger(contents, id, h, from);
            let g = range_edits_run(h, deferred, id, cells, reads, n).history;
            let k = ledger(contents, id, g, from);
            &&& g.len() >= from
            &&& k.told == l.told
            &&& k.exact == l.exact
            &&& rest_untouched(k.now, contents, id, cells, n)
        }),
    decreases n,
{
    broadcast use lemma_ledger_push;

    if n > 0 {
        lemma_range_edits_ledger(contents, id, h, from, deferred, cells, reads, n - 1);
        let run = range_edits_run(h, deferred, id, cells, reads, n - 1);
        let before = run.history;
        let now = ledger(contents, id, before, from).now;
        let (row, col, data) = cells[n - 1];
        assert(now(cell_at(id, cells[n - 1].0, cells[n - 1].1)) == contents(
            cell_at(id, row, col),
        ));
        assert((reads[n - 1].old_state.value, formula_of(reads[n - 1].old_state.cell)) == contents(
            cell_at(id, row, col),
        ));
        assert(deferred || cells[n - 1].2.value is None || cells[n - 1].2.formula is None);
        let after = range_edits_run(h, deferred, id, cells, reads, n).history;
        let changed = ledger(contents, id, after, from).now;
        if run.outcome is Ok && data.value is Some {
            let value = data.value->0;
            lemma_rest_untouched(now, contents, id, cells, n, (Some(value), None));
            assert(changed == with_content(now, cell_at(id, row, col), (Some(value), None)));
        } else if run.outcome is Ok && data.formula is Some && !deferred {
            match crate::formula::parsed_formula((data.formula->0)@) {
                Err(_) => {
                    lemma_rest_untouched(now, contents, id, cells, n, (None, None));
                },
                Ok(tree) => {
                    lemma_rest_untouched(now, contents, id, cells, n, (None, Some(tree)));
                    assert(changed == with_content(
                        now,
                        cell_at(id, row, col),
                        (None, Some(tree)),
                    ));
                },
            }
        } else {
            lemma_rest_untouched(now, contents, id, cells, n, (None, None));
            assert(changed == now);
        }
    }
}

proof fn lemma_range_edits_told<E: WorkbookEngine>(
    contents: Contents,
    id: u32,
    h: Seq<EngineEvent<E>>,
    from: int,
    deferred: bool,
    cells: Seq<Target<CellData>>,
    reads: Seq<CellReplies>,
    n: int,
)
    requires
        h.len() >= from,
    ensures
        range_edits_run(h, deferred, id, cells, reads, n).history.len() >= from,
        ledger(
            contents,
            id,
            range_edits_run(h, deferred, id, cells, reads, n).history,
            from,
        ).told == ledger(contents, id, h, from).told,
    decreases n,
{
    broadcast use lemma_ledger_push;

    if n > 0 {
        lemma_range_edits_told(contents, id, h, from, deferred, cells, reads, n - 1);
    }
}

proof fn lemma_range_mirrors_ledger<E: WorkbookEngine>(
    contents: Contents,
    id: u32,
    h: Seq<EngineEvent<E>>,
    from: int,
    sheet: Seq<char>,
    cells: Seq<Target<CellData>>,
    mirrors: Seq<MirrorReplies>,
)
    requires
        h.len() >= from,
    ensures
        after_range_mirrors(h, sheet, cells, mirrors).len() >= from,
        ledger(contents, id, after_range_mirrors(h, sheet, cells, mirrors), from) == ledger(
            contents,
            id,
            h,
            from,
        ),
    decreases mirrors.len(),
{
    if mirrors.len() > 0 {
        let fewer = mirrors.drop_last();
        lemma_range_mirrors_ledger(contents, id, h, from, sheet, cells, fewer);
        let before = after_range_mirrors(h, sheet, cells, fewer);
        let (row, col, data) = cells[mirrors.len() - 1];
        lemma_mirror_ledger(
            contents,
            id,
            before,
            from,
            sheet,
            row,
            col,
            data.value->0,
            mirrors.last(),
        );
    }
}

proof fn lemma_range_texts_ledger<E: WorkbookEngine>(
    contents: Contents,
    id: u32,
    h: Seq<EngineEvent<E>>,
    from: int,
    deferred: bool,
    sheet: Seq<char>,
    cells: Seq<Target<CellData>>,
    n: int,
)
    requires
        h.len() >= from,
    ensures
        after_range_clearings(h, deferred, sheet, cells, n).len() >= from,
        ledger(contents, id, after_range_clearings(h, deferred, sheet, cells, n), from) == ledger(
            contents,
            id,
            h,
            from,
        ),
        after_range_stagings(h, deferred, sheet, cells, n).len() >= from,
        ledger(contents, id, after_range_stagings(h, deferred, sheet, cells, n), from) == ledger(
            contents,
            id,
            h,
            from,
        ),
    decreases n,
{
    broadcast use lemma_ledger_push;

    if n > 0 {
        lemma_range_texts_ledger(contents, id, h, from, deferred, sheet, cells, n - 1);
    }
}

proof fn lemma_range_deltas_ledger<E: WorkbookEngine>(
    contents: Contents,
    id: u32,
    h: Seq<EngineEvent<E>>,
    from: int,
    sheet: Seq<char>,
    cells: Seq<Target<CellData>>,
    reads: Seq<CellReplies>,
    afters: Seq<Option<Seq<char>>>,
)
    requires
        h.len() >= from,
    ensures
        after_range_deltas(h, sheet, cells, reads, afters).len() >= from,
        ledger(contents, id, after_range_deltas(h, sheet, cells, reads, afters), from) == ledger(
            contents,
            id,
            h,
            from,
        ),
    decreases afters.len(),
{
    broadcast use lemma_ledger_push;

    if afters.len() > 0 {
        lemma_range_deltas_ledger(
            contents,
            id,
            h,
            from,
            sheet,
            cells,
            reads,
            afters.drop_last(),
        );
    }
}

/// A logged batch of cells can be undone, also where a formula that does not parse ends
/// it. A cell that gets both a value and a formula in the graph is left out: what it
/// held goes with the second edit only.
pub proof fn law_range_can_be_undone<E: WorkbookEngine>(
    contents: Contents,
    h: Seq<EngineEvent<E>>,
    sheet: Seq<char>,
    cells: Map<(u32, u32), CellData>,
    order: Seq<Target<CellData>>,
    replies: WriteRangeReplies,
)
    requires
        is_listing(order, cells),
        one_based(order),
        one_edit_each(order, replies.flags.defer_graph_building),
        range_answered(
            true,
            order.len(),
            replies,
            range_run(h, true, sheet, order, replies).outcome,
        ),
    ensures
        can_be_undone(
            contents,
            sheet_of(replies.sheet),
            range_run(h, true, sheet, order, replies).history,
            h.len() as int,
        ),
{
    broadcast use lemma_ledger_push;

    law_listed_cells_are_distinct(order, cells);
    let from = h.len() as int;
    let n = order.len() as int;
    let id = sheet_of(replies.sheet);
    let deferred = replies.flags.defer_graph_building;
    let asked = after_sheet(
        h.push(EngineEvent::BeginDeferredDirty),
        sheet,
        replies.sheet,
    ).push(EngineEvent::Flags { reply: replies.flags });
    lemma_reads_ledger(contents, id, asked, from, sheet, order, replies.reads);
    let seen = after_reads(asked, sheet, order, replies.reads);
    let opened = seen.push(EngineEvent::EditBegin);
    let edits = range_edits_run(opened, deferred, id, order, replies.reads, n);
    if ledger(contents, id, seen, from).told {
        lemma_range_edits_ledger(
            contents,
            id,
            opened,
            from,
            deferred,
            order,
            replies.reads,
            n,
        );
    } else {
        lemma_range_edits_told(contents, id, opened, from, deferred, order, replies.reads, n);
    }
    let closed = edits.history.push(EngineEvent::EditEnd);
    let end = range_run(h, true, sheet, order, replies).history;
    lemma_range_mirrors_ledger(contents, id, closed, from, sheet, order, replies.mirrors);
    let mirrored = after_range_mirrors(closed, sheet, order, replies.mirrors);
    lemma_range_texts_ledger(contents, id, mirrored, from, deferred, sheet, order, n);
    let cleared = after_range_clearings(mirrored, deferred, sheet, order, n);
    lemma_range_texts_ledger(contents, id, cleared, from, deferred, sheet, order, n);
    let staged = after_range_stagings(cleared, deferred, sheet, order, n);
    lemma_range_deltas_ledger(
        contents,
        id,
        staged,
        from,
        sheet,
        order,
        replies.reads,
        replies.afters,
    );
    lemma_can_be_undone(contents, id, end, from);
}

} // verus!
