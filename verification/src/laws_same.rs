//! Laws on batches: where both succeed, a batch leaves the same cells and staged texts as
//! single edits of its cells, over an engine that keeps what it is given.

use crate::batch::{
    after_reads, after_settling, after_value_edits, plain_values_run, values_answered, values_run,
    CellReplies, SetValuesReplies, Target,
};
use crate::batch_formulas::{
    after_clearings, after_losses, after_staged_reads, after_stagings, formula_edits_run,
    formulas_run, plain_formulas_run, rows_answered, SetFormulasReplies, StagingReplies,
};
use crate::batch_range::{
    after_range_clearings, after_range_deltas, after_range_mirrors, after_range_stagings,
    plain_range_run, range_answered, range_edits_run, range_run, value_only, PlainCellReplies,
    WriteRangeReplies,
};
use crate::book::{
    book, lemma_book_push, lemma_capacity_book, lemma_mirror_book, same_cells, Book,
};
use crate::cell_data::{is_listing, CellData};
use crate::cells::{
    after_delta, after_logged_formula, after_old_state, after_sheet, formula_run,
    sheet_of, value_run, SetFormulaReplies, SetValueReplies,
};
use crate::engine::{cell_at, formula_of, CellRef, EngineEvent, WorkbookEngine};
use crate::error::ExcelError;
use crate::formula::parsed_formula;
use crate::grid::{cells_of, lemma_no_cells, width_of};
use crate::laws_batch::{single_formulas_run, single_values_run};
use crate::laws_cells::law_value_is_kept;
use crate::laws_history::{
    law_single_formula_is_not_bracketed, law_single_value_is_not_bracketed,
};
use crate::laws_staged::{
    distinct, law_listed_cells_are_distinct, place_of, with_text, without, Place, Texts,
};
use crate::laws_undo::{with_content, Content, Contents};
use crate::store::{after_capacity, MirrorReplies};
use crate::value::LiteralValue;
use crate::writer::{cell_write_run, cell_writes_run, CellWriteReplies};
use vstd::prelude::*;

verus! {

/// The contents with the values of the first `n` cells.
pub open spec fn with_values(
    contents: Contents,
    id: u32,
    cells: Seq<Target<LiteralValue>>,
    n: int,
) -> Contents
    decreases n,
{
    if n <= 0 {
        contents
    } else {
        let (row, col, value) = cells[n - 1];
        with_content(
            with_values(contents, id, cells, n - 1),
            cell_at(id, row, col),
            (Some(value), None),
        )
    }
}

/// The contents with the formulas of the first `n` cells.
pub open spec fn with_formulas(
    contents: Contents,
    id: u32,
    cells: Seq<Target<String>>,
    n: int,
) -> Contents
    decreases n,
{
    if n <= 0 {
        contents
    } else {
        let (row, col, formula) = cells[n - 1];
        with_content(
            with_formulas(contents, id, cells, n - 1),
            cell_at(id, row, col),
            (None, Some(parsed_formula(formula@)->Ok_0)),
        )
    }
}

/// The texts with those of the first `n` cells.
pub open spec fn with_texts(
    texts: Texts,
    sheet: Seq<char>,
    cells: Seq<Target<String>>,
    n: int,
) -> Texts
    decreases n,
{
    if n <= 0 {
        texts
    } else {
        with_text(
            with_texts(texts, sheet, cells, n - 1),
            place_of(sheet, cells[n - 1]),
            Some(cells[n - 1].2@),
        )
    }
}

/// Whether the book `k` holds these contents and texts, and the names of `b`.
pub open spec fn leaves(k: Book, b: Book, contents: Contents, texts: Texts) -> bool {
    k.contents == contents && k.texts == texts && k.names == b.names
}

proof fn lemma_reads_book<E: WorkbookEngine, V>(
    b: Book,
    id: u32,
    h: Seq<EngineEvent<E>>,
    from: int,
    sheet: Seq<char>,
    cells: Seq<Target<V>>,
    reads: Seq<CellReplies>,
)
    requires
        h.len() >= from,
    ensures
        after_reads(h, sheet, cells, reads).len() >= from,
        book(b, id, after_reads(h, sheet, cells, reads), from) == book(b, id, h, from),
    decreases reads.len(),
{
    broadcast use lemma_book_push;

    if reads.len() > 0 {
        lemma_reads_book(b, id, h, from, sheet, cells, reads.drop_last());
    }
}

proof fn lemma_value_edits_book<E: WorkbookEngine>(
    b: Book,
    id: u32,
    h: Seq<EngineEvent<E>>,
    from: int,
    cells: Seq<Target<LiteralValue>>,
    reads: Seq<CellReplies>,
    n: int,
)
    requires
        h.len() >= from,
    ensures
        ({
            let g = after_value_edits(h, id, cells, reads, n);
            let before = book(b, id, h, from);
            &&& g.len() >= from
            &&& leaves(
                book(b, id, g, from),
                before,
                with_values(before.contents, id, cells, n),
                before.texts,
            )
        }),
    decreases n,
{
    broadcast use lemma_book_push;

    if n > 0 {
        lemma_value_edits_book(b, id, h, from, cells, reads, n - 1);
    }
}

proof fn lemma_settling_book<E: WorkbookEngine>(
    b: Book,
    id: u32,
    h: Seq<EngineEvent<E>>,
    from: int,
    sheet: Seq<char>,
    cells: Seq<Target<LiteralValue>>,
    reads: Seq<CellReplies>,
    mirrors: Seq<MirrorReplies>,
)
    requires
        h.len() >= from,
    ensures
        ({
            let g = after_settling(h, sheet, cells, reads, mirrors);
            let before = book(b, id, h, from);
            &&& g.len() >= from
            &&& leaves(
                book(b, id, g, from),
                before,
                before.contents,
                without(before.texts, sheet, cells, mirrors.len() as int),
            )
        }),
    decreases mirrors.len(),
{
    broadcast use lemma_book_push;

    if mirrors.len() > 0 {
        let fewer = mirrors.drop_last();
        lemma_settling_book(b, id, h, from, sheet, cells, reads, fewer);
        let before = after_settling(h, sheet, cells, reads, fewer);
        let (row, col, value) = cells[mirrors.len() - 1];
        lemma_mirror_book(b, id, before, from, sheet, row, col, value, mirrors.last());
    }
}

proof fn lemma_plain_values_book<E: WorkbookEngine>(
    b: Book,
    id: u32,
    h: Seq<EngineEvent<E>>,
    from: int,
    sheet: Seq<char>,
    cells: Seq<Target<LiteralValue>>,
    sets: Seq<Result<(), ExcelError>>,
)
    requires
        h.len() >= from,
        plain_values_run(h, sheet, cells, sets).outcome is Ok,
    ensures
        ({
            let g = plain_values_run(h, sheet, cells, sets).history;
            let before = book(b, id, h, from);
            let n = sets.len() as int;
            &&& g.len() >= from
            &&& leaves(
                book(b, id, g, from),
                before,
                with_values(before.contents, id, cells, n),
                without(before.texts, sheet, cells, n),
            )
        }),
    decreases sets.len(),
{
    broadcast use lemma_book_push;

    if sets.len() > 0 {
        lemma_plain_values_book(b, id, h, from, sheet, cells, sets.drop_last());
    }
}

/// What a successful batch of values leaves: the values in their cells, without staged
/// texts, and every other cell as it was.
pub proof fn law_values_are_kept<E: WorkbookEngine>(
    b: Book,
    id: u32,
    h: Seq<EngineEvent<E>>,
    logged: bool,
    sheet: Seq<char>,
    cells: Seq<Target<LiteralValue>>,
    replies: SetValuesReplies,
)
    requires
        logged ==> id == sheet_of(replies.sheet),
        values_run(h, logged, sheet, cells, replies).outcome is Ok,
        values_answered(logged, cells.len(), replies, Ok(())),
    ensures
        leaves(
            book(
                b,
                id,
                values_run(h, logged, sheet, cells, replies).history,
                h.len() as int,
            ),
            b,
            with_values(b.contents, id, cells, cells.len() as int),
            without(b.texts, sheet, cells, cells.len() as int),
        ),
{
    broadcast use lemma_book_push;

    let from = h.len() as int;
    let n = cells.len() as int;
    let begun = h.push(EngineEvent::BeginDeferredDirty);
    if logged {
        let named = after_sheet(begun, sheet, replies.sheet);
        lemma_reads_book(b, id, named, from, sheet, cells, replies.reads);
        let opened = after_reads(named, sheet, cells, replies.reads).push(EngineEvent::EditBegin);
        lemma_value_edits_book(b, id, opened, from, cells, replies.reads, n);
        let edited = after_value_edits(opened, id, cells, replies.reads, n).push(
            EngineEvent::EditEnd,
        );
        lemma_settling_book(b, id, edited, from, sheet, cells, replies.reads, replies.mirrors);
    } else {
        lemma_plain_values_book(b, id, begun, from, sheet, cells, replies.sets);
    }
}

/// Whether logged edits of values were made on the sheet `id`.
pub open spec fn values_on(singles: Seq<SetValueReplies>, id: u32) -> bool {
    forall|i: int| 0 <= i < singles.len() ==> sheet_of((#[trigger] singles[i]).sheet) == id
}

proof fn lemma_book_from<E: WorkbookEngine>(
    b: Book,
    id: u32,
    h: Seq<EngineEvent<E>>,
    g: Seq<EngineEvent<E>>,
    from: int,
)
    requires
        0 <= from <= h.len() <= g.len(),
        forall|i: int| 0 <= i < h.len() ==> #[trigger] g[i] == h[i],
    ensures
        book(b, id, g, from) == book(book(b, id, h, from), id, g, h.len() as int),
    decreases g.len(),
{
    if g.len() > h.len() {
        let rest = g.drop_last();
        assert forall|i: int| 0 <= i < h.len() implies #[trigger] rest[i] == h[i] by {
            assert(g[i] == h[i]);
        }
        lemma_book_from(b, id, h, rest, from);
    } else {
        assert(g =~= h);
    }
}

proof fn lemma_single_values_book<E: WorkbookEngine>(
    b: Book,
    id: u32,
    h: Seq<EngineEvent<E>>,
    logged: bool,
    sheet: Seq<char>,
    cells: Seq<Target<LiteralValue>>,
    singles: Seq<SetValueReplies>,
)
    requires
        logged ==> values_on(singles, id),
        single_values_run(h, logged, sheet, cells, singles).outcome is Ok,
    ensures
        ({
            let g = single_values_run(h, logged, sheet, cells, singles).history;
            let n = singles.len() as int;
            &&& g.len() >= h.len()
            &&& leaves(
                book(b, id, g, h.len() as int),
                b,
                with_values(b.contents, id, cells, n),
                without(b.texts, sheet, cells, n),
            )
        }),
    decreases singles.len(),
{
    if singles.len() > 0 {
        let fewer = singles.drop_last();
        assert forall|i: int| 0 <= i < fewer.len() && logged implies sheet_of(
            (#[trigger] fewer[i]).sheet,
        ) == id by {
            assert(fewer[i] == singles[i]);
        }
        lemma_single_values_book(b, id, h, logged, sheet, cells, fewer);
        let before = single_values_run(h, logged, sheet, cells, fewer).history;
        let (row, col, value) = cells[singles.len() - 1];
        assert(singles[singles.len() - 1] == singles.last());
        let k = book(b, id, before, h.len() as int);
        law_value_is_kept(k, id, before, logged, sheet, row, col, value, singles.last());
        let end = single_values_run(h, logged, sheet, cells, singles).history;
        lemma_value_extends(before, logged, sheet, row, col, value, singles.last());
        lemma_book_from(b, id, before, end, h.len() as int);
    }
}

proof fn lemma_value_extends<E: WorkbookEngine>(
    h: Seq<EngineEvent<E>>,
    logged: bool,
    sheet: Seq<char>,
    row: u32,
    col: u32,
    value: LiteralValue,
    replies: SetValueReplies,
)
    ensures
        ({
            let g = value_run(h, logged, sheet, row, col, value, replies).history;
            &&& g.len() >= h.len()
            &&& forall|i: int| 0 <= i < h.len() ==> #[trigger] g[i] == h[i]
        }),
{
    law_single_value_is_not_bracketed(h, logged, sheet, row, col, value, replies);
}

proof fn lemma_formula_extends<E: WorkbookEngine>(
    h: Seq<EngineEvent<E>>,
    logged: bool,
    sheet: Seq<char>,
    row: u32,
    col: u32,
    formula: Seq<char>,
    replies: SetFormulaReplies,
)
    ensures
        ({
            let g = formula_run(h, logged, sheet, row, col, formula, replies).history;
            &&& g.len() >= h.len()
            &&& forall|i: int| 0 <= i < h.len() ==> #[trigger] g[i] == h[i]
        }),
{
    law_single_formula_is_not_bracketed(h, logged, sheet, row, col, formula, replies);
}

/// A batch of values leaves the same cells and staged texts as setting them one by one,
/// with the change log on or off.
pub proof fn law_values_leave_the_same_cells<E: WorkbookEngine>(
    b: Book,
    id: u32,
    h: Seq<EngineEvent<E>>,
    logged: bool,
    sheet: Seq<char>,
    cells: Seq<Target<LiteralValue>>,
    batch: SetValuesReplies,
    singles: Seq<SetValueReplies>,
)
    requires
        logged ==> id == sheet_of(batch.sheet) && values_on(singles, id),
        values_run(h, logged, sheet, cells, batch).outcome is Ok,
        values_answered(logged, cells.len(), batch, Ok(())),
        single_values_run(h, logged, sheet, cells, singles).outcome is Ok,
        singles.len() == cells.len(),
    ensures
        same_cells(
            book(b, id, values_run(h, logged, sheet, cells, batch).history, h.len() as int),
            book(
                b,
                id,
                single_values_run(h, logged, sheet, cells, singles).history,
                h.len() as int,
            ),
        ),
{
    law_values_are_kept(b, id, h, logged, sheet, cells, batch);
    lemma_single_values_book(b, id, h, logged, sheet, cells, singles);
}

proof fn lemma_logged_formula_book<E: WorkbookEngine>(
    b: Book,
    id: u32,
    h: Seq<EngineEvent<E>>,
    from: int,
    sheet: Seq<char>,
    row: u32,
    col: u32,
    formula: Seq<char>,
    replies: SetFormulaReplies,
)
    requires
        h.len() >= from,
        id == sheet_of(replies.sheet),
        parsed_formula(formula) is Ok,
    ensures
        ({
            let tree = parsed_formula(formula)->Ok_0;
            let cell = cell_at(id, row, col);
            let named = after_sheet(h, sheet, replies.sheet);
            let edited = if replies.flags.defer_graph_building {
                after_old_state(named, sheet, row, col, replies.old_state).push(
                    EngineEvent::EditBegin,
                ).push(
                    EngineEvent::EditSetFormulaWithOldState {
                        cell,
                        tree,
                        old_value: replies.old_state.value,
                        old_formula: formula_of(replies.old_state.cell),
                    },
                )
            } else {
                named.push(EngineEvent::EditBegin).push(
                    EngineEvent::EditSetFormula { cell, tree },
                )
            };
            let end = after_logged_formula(
                edited.push(EngineEvent::EditEnd),
                sheet,
                row,
                col,
                replies.staged,
            );
            let before = book(b, id, h, from);
            leaves(
                book(b, id, end, from),
                before,
                with_content(before.contents, cell, (None, Some(tree))),
                with_text(before.texts, (sheet, row, col), None),
            )
        }),
{
    broadcast use lemma_book_push;

}

proof fn lemma_staged_formula_book<E: WorkbookEngine>(
    b: Book,
    id: u32,
    h: Seq<EngineEvent<E>>,
    from: int,
    logged: bool,
    sheet: Seq<char>,
    row: u32,
    col: u32,
    formula: Seq<char>,
    replies: SetFormulaReplies,
)
    requires
        h.len() >= from,
    ensures
        ({
            let kept = h.push(EngineEvent::StageFormulaText { sheet, row, col, formula });
            let reread = kept.push(
                EngineEvent::StagedFormulaText { sheet, row, col, reply: replies.staged_after },
            );
            let end = if logged {
                after_delta(reread, true, sheet, row, col, replies.staged, replies.staged_after)
            } else {
                kept
            };
            let before = book(b, id, h, from);
            leaves(
                book(b, id, end, from),
                before,
                before.contents,
                with_text(before.texts, (sheet, row, col), Some(formula)),
            )
        }),
{
    broadcast use lemma_book_push;

}

/// What a successful setting of a formula leaves: the formula in its cell and no staged
/// text, or, where it is staged, the text alone.
pub proof fn law_formula_is_kept<E: WorkbookEngine>(
    b: Book,
    id: u32,
    h: Seq<EngineEvent<E>>,
    logged: bool,
    sheet: Seq<char>,
    row: u32,
    col: u32,
    formula: Seq<char>,
    replies: SetFormulaReplies,
)
    requires
        logged ==> id == sheet_of(replies.sheet),
        formula_run(h, logged, sheet, row, col, formula, replies).outcome is Ok,
    ensures
        ({
            let end = formula_run(h, logged, sheet, row, col, formula, replies).history;
            let k = book(b, id, end, h.len() as int);
            if replies.flags.defer_graph_building && replies.present is None {
                leaves(k, b, b.contents, with_text(b.texts, (sheet, row, col), Some(formula)))
            } else {
                &&& parsed_formula(formula) is Ok
                &&& leaves(
                    k,
                    b,
                    with_content(
                        b.contents,
                        cell_at(id, row, col),
                        (None, Some(parsed_formula(formula)->Ok_0)),
                    ),
                    with_text(b.texts, (sheet, row, col), None),
                )
            }
        }),
{
    let from = h.len() as int;
    lemma_capacity_book(b, id, h, from, sheet, row as int, col as int, replies.capacity);
    let roomy = after_capacity(h, sheet, row as int, col as int, replies.capacity);
    let staged = if logged {
        roomy.push(EngineEvent::StagedFormulaText { sheet, row, col, reply: replies.staged })
    } else {
        roomy
    };
    let asked = staged.push(EngineEvent::Flags { reply: replies.flags });
    let deferred = replies.flags.defer_graph_building;
    let looked = if deferred {
        asked.push(EngineEvent::GetCell { sheet, row, col, reply: replies.present })
    } else {
        asked
    };
    assert(book(b, id, looked, from) == book(b, id, roomy, from)) by {
        broadcast use lemma_book_push;

    }
    if deferred && replies.present is None {
        lemma_staged_formula_book(b, id, looked, from, logged, sheet, row, col, formula, replies);
    } else if logged {
        lemma_logged_formula_book(b, id, looked, from, sheet, row, col, formula, replies);
    } else {
        broadcast use lemma_book_push;

    }
}

proof fn lemma_stagings_book<E: WorkbookEngine>(
    b: Book,
    id: u32,
    h: Seq<EngineEvent<E>>,
    from: int,
    logged: bool,
    sheet: Seq<char>,
    cells: Seq<Target<String>>,
    stagings: Seq<StagingReplies>,
)
    requires
        h.len() >= from,
    ensures
        ({
            let g = after_stagings(h, logged, sheet, cells, stagings);
            let before = book(b, id, h, from);
            &&& g.len() >= from
            &&& leaves(
                book(b, id, g, from),
                before,
                before.contents,
                with_texts(before.texts, sheet, cells, stagings.len() as int),
            )
        }),
    decreases stagings.len(),
{
    broadcast use lemma_book_push;

    if stagings.len() > 0 {
        lemma_stagings_book(b, id, h, from, logged, sheet, cells, stagings.drop_last());
    }
}

proof fn lemma_staged_reads_book<E: WorkbookEngine>(
    b: Book,
    id: u32,
    h: Seq<EngineEvent<E>>,
    from: int,
    sheet: Seq<char>,
    cells: Seq<Target<String>>,
    staged: Seq<Option<Seq<char>>>,
)
    requires
        h.len() >= from,
    ensures
        after_staged_reads(h, sheet, cells, staged).len() >= from,
        book(b, id, after_staged_reads(h, sheet, cells, staged), from) == book(b, id, h, from),
    decreases staged.len(),
{
    broadcast use lemma_book_push;

    if staged.len() > 0 {
        lemma_staged_reads_book(b, id, h, from, sheet, cells, staged.drop_last());
    }
}

proof fn lemma_formula_edits_book<E: WorkbookEngine>(
    b: Book,
    id: u32,
    h: Seq<EngineEvent<E>>,
    from: int,
    cells: Seq<Target<String>>,
    n: int,
)
    requires
        h.len() >= from,
        formula_edits_run(h, id, cells, n).outcome is Ok,
    ensures
        ({
            let g = formula_edits_run(h, id, cells, n).history;
            let before = book(b, id, h, from);
            &&& g.len() >= from
            &&& leaves(
                book(b, id, g, from),
                before,
                with_formulas(before.contents, id, cells, n),
                before.texts,
            )
        }),
    decreases n,
{
    broadcast use lemma_book_push;

    if n > 0 {
        lemma_formula_edits_book(b, id, h, from, cells, n - 1);
    }
}

proof fn lemma_clearings_book<E: WorkbookEngine>(
    b: Book,
    id: u32,
    h: Seq<EngineEvent<E>>,
    from: int,
    sheet: Seq<char>,
    cells: Seq<Target<String>>,
    staged: Seq<Option<Seq<char>>>,
    n: int,
)
    requires
        h.len() >= from,
    ensures
        after_clearings(h, sheet, cells, n).len() >= from,
        leaves(
            book(b, id, after_clearings(h, sheet, cells, n), from),
            book(b, id, h, from),
            book(b, id, h, from).contents,
            without(book(b, id, h, from).texts, sheet, cells, n),
        ),
        after_losses(h, sheet, cells, staged, n).len() >= from,
        book(b, id, after_losses(h, sheet, cells, staged, n), from) == book(b, id, h, from),
    decreases n,
{
    broadcast use lemma_book_push;

    if n > 0 {
        lemma_clearings_book(b, id, h, from, sheet, cells, staged, n - 1);
    }
}

proof fn lemma_plain_formulas_book<E: WorkbookEngine>(
    b: Book,
    id: u32,
    h: Seq<EngineEvent<E>>,
    from: int,
    sheet: Seq<char>,
    cells: Seq<Target<String>>,
    sets: Seq<Result<(), ExcelError>>,
)
    requires
        h.len() >= from,
        plain_formulas_run(h, sheet, cells, sets).outcome is Ok,
    ensures
        ({
            let g = plain_formulas_run(h, sheet, cells, sets).history;
            let before = book(b, id, h, from);
            let n = sets.len() as int;
            &&& g.len() >= from
            &&& leaves(
                book(b, id, g, from),
                before,
                with_formulas(before.contents, id, cells, n),
                without(before.texts, sheet, cells, n),
            )
        }),
    decreases sets.len(),
{
    broadcast use lemma_book_push;

    if sets.len() > 0 {
        lemma_plain_formulas_book(b, id, h, from, sheet, cells, sets.drop_last());
    }
}

proof fn lemma_wide_formulas_book<E: WorkbookEngine>(
    b: Book,
    id: u32,
    h: Seq<EngineEvent<E>>,
    logged: bool,
    sheet: Seq<char>,
    start_row: u32,
    start_col: u32,
    rows: Seq<Vec<String>>,
    replies: SetFormulasReplies,
)
    requires
        width_of(rows, rows.len() as int) > 0,
        logged ==> id == sheet_of(replies.sheet),
        formulas_run(h, logged, sheet, start_row, start_col, rows, replies).outcome is Ok,
        rows_answered(logged, start_row, start_col, rows, replies, Ok(())),
    ensures
        ({
            let end = formulas_run(h, logged, sheet, start_row, start_col, rows, replies).history;
            let k = book(b, id, end, h.len() as int);
            let cells = cells_of(start_row, start_col, rows);
            let n = cells.len() as int;
            if replies.flags.defer_graph_building {
                leaves(k, b, b.contents, with_texts(b.texts, sheet, cells, n))
            } else {
                leaves(
                    k,
                    b,
                    with_formulas(b.contents, id, cells, n),
                    without(b.texts, sheet, cells, n),
                )
            }
        }),
{
    broadcast use lemma_book_push;

    let from = h.len() as int;
    let cells = cells_of(start_row, start_col, rows);
    let n = cells.len() as int;
    let begun = h.push(EngineEvent::BeginDeferredDirty);
    let last_row = start_row + rows.len() - 1;
    let last_col = start_col + width_of(rows, rows.len() as int) - 1;
    lemma_capacity_book(b, id, begun, from, sheet, last_row, last_col, replies.capacity);
    let asked = after_capacity(begun, sheet, last_row, last_col, replies.capacity).push(
        EngineEvent::Flags { reply: replies.flags },
    );
    if replies.flags.defer_graph_building {
        lemma_stagings_book(b, id, asked, from, logged, sheet, cells, replies.stagings);
    } else if logged {
        let known = after_sheet(asked, sheet, replies.sheet);
        lemma_staged_reads_book(b, id, known, from, sheet, cells, replies.staged);
        let opened = after_staged_reads(known, sheet, cells, replies.staged).push(
            EngineEvent::EditBegin,
        );
        lemma_formula_edits_book(b, id, opened, from, cells, n);
        let closed = formula_edits_run(opened, id, cells, n).history.push(EngineEvent::EditEnd);
        lemma_clearings_book(b, id, closed, from, sheet, cells, replies.staged, n);
        let cleared = after_clearings(closed, sheet, cells, n);
        lemma_clearings_book(b, id, cleared, from, sheet, cells, replies.staged, n);
    } else {
        lemma_plain_formulas_book(b, id, asked, from, sheet, cells, replies.sets);
    }
}

/// What a successful batch of formulas leaves: the formulas in their cells, without staged
/// texts, or, while the building of the graph is deferred, the texts alone.
pub proof fn law_formulas_are_kept<E: WorkbookEngine>(
    b: Book,
    id: u32,
    h: Seq<EngineEvent<E>>,
    logged: bool,
    sheet: Seq<char>,
    start_row: u32,
    start_col: u32,
    rows: Seq<Vec<String>>,
    replies: SetFormulasReplies,
)
    requires
        logged ==> id == sheet_of(replies.sheet),
        formulas_run(h, logged, sheet, start_row, start_col, rows, replies).outcome is Ok,
        rows_answered(logged, start_row, start_col, rows, replies, Ok(())),
    ensures
        ({
            let end = formulas_run(h, logged, sheet, start_row, start_col, rows, replies).history;
            let k = book(b, id, end, h.len() as int);
            let cells = cells_of(start_row, start_col, rows);
            let n = cells.len() as int;
            if replies.flags.defer_graph_building {
                leaves(k, b, b.contents, with_texts(b.texts, sheet, cells, n))
            } else {
                leaves(
                    k,
                    b,
                    with_formulas(b.contents, id, cells, n),
                    without(b.texts, sheet, cells, n),
                )
            }
        }),
{
    if width_of(rows, rows.len() as int) == 0 {
        broadcast use lemma_book_push;

        lemma_no_cells(start_row, start_col, rows, rows.len() as int);
    } else {
        lemma_wide_formulas_book(b, id, h, logged, sheet, start_row, start_col, rows, replies);
    }
}

/// Whether single edits of formulas met the engine as a batch did: the building of the
/// graph deferred or not, then for cells that the graph does not hold, and, where they
/// are logged, on the sheet `id`.
pub open spec fn formulas_alike(
    singles: Seq<SetFormulaReplies>,
    deferred: bool,
    logged: bool,
    id: u32,
) -> bool {
    forall|i: int|
        0 <= i < singles.len() ==> {
            &&& (#[trigger] singles[i]).flags.defer_graph_building == deferred
            &&& deferred ==> singles[i].present is None
            &&& logged ==> sheet_of(singles[i].sheet) == id
        }
}

proof fn lemma_single_formulas_book<E: WorkbookEngine>(
    b: Book,
    id: u32,
    h: Seq<EngineEvent<E>>,
    logged: bool,
    deferred: bool,
    sheet: Seq<char>,
    cells: Seq<Target<String>>,
    singles: Seq<SetFormulaReplies>,
)
    requires
        formulas_alike(singles, deferred, logged, id),
        single_formulas_run(h, logged, sheet, cells, singles).outcome is Ok,
    ensures
        ({
            let g = single_formulas_run(h, logged, sheet, cells, singles).history;
            let n = singles.len() as int;
            let k = book(b, id, g, h.len() as int);
            &&& g.len() >= h.len()
            &&& if deferred {
                leaves(k, b, b.contents, with_texts(b.texts, sheet, cells, n))
            } else {
                leaves(
                    k,
                    b,
                    with_formulas(b.contents, id, cells, n),
                    without(b.texts, sheet, cells, n),
                )
            }
        }),
    decreases singles.len(),
{
    if singles.len() > 0 {
        let fewer = singles.drop_last();
        assert forall|i: int| 0 <= i < fewer.len() implies {
            &&& (#[trigger] fewer[i]).flags.defer_graph_building == deferred
            &&& deferred ==> fewer[i].present is None
            &&& logged ==> sheet_of(fewer[i].sheet) == id
        } by {
            assert(fewer[i] == singles[i]);
        }
        lemma_single_formulas_book(b, id, h, logged, deferred, sheet, cells, fewer);
        let before = single_formulas_run(h, logged, sheet, cells, fewer).history;
        let (row, col, formula) = cells[singles.len() - 1];
        assert(singles[singles.len() - 1] == singles.last());
        let k = book(b, id, before, h.len() as int);
        law_formula_is_kept(k, id, before, logged, sheet, row, col, formula@, singles.last());
        let end = single_formulas_run(h, logged, sheet, cells, singles).history;
        lemma_formula_extends(before, logged, sheet, row, col, formula@, singles.last());
        lemma_book_from(b, id, before, end, h.len() as int);
    }
}

/// A batch of formulas leaves the same cells and staged texts as setting them one by one,
/// with the change log on or off. While the building of the graph is deferred, that holds
/// of cells that the graph does not hold: a single formula for one that it holds is set
/// in the graph, and not staged.
pub proof fn law_formulas_leave_the_same_cells<E: WorkbookEngine>(
    b: Book,
    id: u32,
    h: Seq<EngineEvent<E>>,
    logged: bool,
    sheet: Seq<char>,
    start_row: u32,
    start_col: u32,
    rows: Seq<Vec<String>>,
    batch: SetFormulasReplies,
    singles: Seq<SetFormulaReplies>,
)
    requires
        logged ==> id == sheet_of(batch.sheet),
        formulas_alike(singles, batch.flags.defer_graph_building, logged, id),
        formulas_run(h, logged, sheet, start_row, start_col, rows, batch).outcome is Ok,
        rows_answered(logged, start_row, start_col, rows, batch, Ok(())),
        singles.len() == cells_of(start_row, start_col, rows).len(),
        single_formulas_run(
            h,
            logged,
            sheet,
            cells_of(start_row, start_col, rows),
            singles,
        ).outcome is Ok,
    ensures
        same_cells(
            book(
                b,
                id,
                formulas_run(h, logged, sheet, start_row, start_col, rows, batch).history,
                h.len() as int,
            ),
            book(
                b,
                id,
                single_formulas_run(
                    h,
                    logged,
                    sheet,
                    cells_of(start_row, start_col, rows),
                    singles,
                ).history,
                h.len() as int,
            ),
        ),
{
    law_formulas_are_kept(b, id, h, logged, sheet, start_row, start_col, rows, batch);
    lemma_single_formulas_book(
        b,
        id,
        h,
        logged,
        batch.flags.defer_graph_building,
        sheet,
        cells_of(start_row, start_col, rows),
        singles,
    );
}

/// The contents with what the first `n` cells get: a formula that goes to the graph, else
/// a value.
pub open spec fn with_cells(
    contents: Contents,
    id: u32,
    deferred: bool,
    cells: Seq<Target<CellData>>,
    n: int,
) -> Contents
    decreases n,
{
    if n <= 0 {
        contents
    } else {
        let before = with_cells(contents, id, deferred, cells, n - 1);
        let (row, col, data) = cells[n - 1];
        if data.formula is Some && !deferred {
            with_content(
                before,
                cell_at(id, row, col),
                (None, Some(parsed_formula((data.formula->0)@)->Ok_0)),
            )
        } else if data.value is Some {
            with_content(before, cell_at(id, row, col), (Some(data.value->0), None))
        } else {
            before
        }
    }
}

/// The texts with what the first `n` cells get: a formula that is deferred, else none
/// where the cell gets anything.
pub open spec fn with_cell_texts(
    texts: Texts,
    sheet: Seq<char>,
    deferred: bool,
    cells: Seq<Target<CellData>>,
    n: int,
) -> Texts
    decreases n,
{
    if n <= 0 {
        texts
    } else {
        let before = with_cell_texts(texts, sheet, deferred, cells, n - 1);
        let data = cells[n - 1].2;
        let place = place_of(sheet, cells[n - 1]);
        if data.formula is Some && deferred {
            with_text(before, place, Some((data.formula->0)@))
        } else if data.formula is Some || data.value is Some {
            with_text(before, place, None)
        } else {
            before
        }
    }
}

proof fn lemma_content_twice(
    contents: Contents,
    cell: CellRef,
    a: Content,
    c: Content,
)
    ensures
        with_content(with_content(contents, cell, a), cell, c) == with_content(contents, cell, c),
{
    assert(with_content(with_content(contents, cell, a), cell, c) =~= with_content(
        contents,
        cell,
        c,
    ));
}

proof fn lemma_text_twice(
    texts: Texts,
    place: Place,
    a: Option<Seq<char>>,
    c: Option<Seq<char>>,
)
    ensures
        with_text(with_text(texts, place, a), place, c) == with_text(texts, place, c),
{
    assert(with_text(with_text(texts, place, a), place, c) =~= with_text(texts, place, c));
}

proof fn lemma_range_edits_book<E: WorkbookEngine>(
    b: Book,
    id: u32,
    h: Seq<EngineEvent<E>>,
    from: int,
    deferred: bool,
    cells: Seq<Target<CellData>>,
    reads: Seq<CellReplies>,
    n: int,
)
    requires
        h.len() >= from,
        range_edits_run(h, deferred, id, cells, reads, n).outcome is Ok,
    ensures
        ({
            let g = range_edits_run(h, deferred, id, cells, reads, n).history;
            let before = book(b, id, h, from);
            &&& g.len() >= from
            &&& leaves(
                book(b, id, g, from),
                before,
                with_cells(before.contents, id, deferred, cells, n),
                before.texts,
            )
        }),
    decreases n,
{
    broadcast use lemma_book_push;

    if n > 0 {
        lemma_range_edits_book(b, id, h, from, deferred, cells, reads, n - 1);
        let run = range_edits_run(h, deferred, id, cells, reads, n - 1);
        let (row, col, data) = cells[n - 1];
        if data.formula is Some && !deferred && data.value is Some {
            lemma_content_twice(
                book(b, id, run.history, from).contents,
                cell_at(id, row, col),
                (Some(data.value->0), None),
                (None, Some(parsed_formula((data.formula->0)@)->Ok_0)),
            );
        }
    }
}

proof fn lemma_range_mirrors_book<E: WorkbookEngine>(
    b: Book,
    id: u32,
    h: Seq<EngineEvent<E>>,
    from: int,
    sheet: Seq<char>,
    cells: Seq<Target<CellData>>,
    mirrors: Seq<MirrorReplies>,
)
    requires
        h.len() >= from,
    ensures
        after_range_mirrors(h, sheet, cells, mirrors).len() >= from,
        same_cells(
            book(b, id, after_range_mirrors(h, sheet, cells, mirrors), from),
            book(b, id, h, from),
        ),
    decreases mirrors.len(),
{
    if mirrors.len() > 0 {
        let fewer = mirrors.drop_last();
        lemma_range_mirrors_book(b, id, h, from, sheet, cells, fewer);
        let before = after_range_mirrors(h, sheet, cells, fewer);
        let (row, col, data) = cells[mirrors.len() - 1];
        lemma_mirror_book(b, id, before, from, sheet, row, col, data.value->0, mirrors.last());
    }
}

/// The texts after those of the first `n` cells were dropped as a batch drops them.
spec fn cleared(
    texts: Texts,
    sheet: Seq<char>,
    deferred: bool,
    cells: Seq<Target<CellData>>,
    n: int,
) -> Texts
    decreases n,
{
    if n <= 0 {
        texts
    } else {
        let before = cleared(texts, sheet, deferred, cells, n - 1);
        let data = cells[n - 1].2;
        if value_only(data) || (data.formula is Some && !deferred) {
            with_text(before, place_of(sheet, cells[n - 1]), None)
        } else {
            before
        }
    }
}

/// The texts after those of the first `n` cells were staged as a batch stages them.
spec fn staged(
    texts: Texts,
    sheet: Seq<char>,
    deferred: bool,
    cells: Seq<Target<CellData>>,
    n: int,
) -> Texts
    decreases n,
{
    if n <= 0 {
        texts
    } else {
        let before = staged(texts, sheet, deferred, cells, n - 1);
        let data = cells[n - 1].2;
        if data.formula is Some && deferred {
            with_text(before, place_of(sheet, cells[n - 1]), Some((data.formula->0)@))
        } else {
            before
        }
    }
}

proof fn lemma_range_texts_book<E: WorkbookEngine>(
    b: Book,
    id: u32,
    h: Seq<EngineEvent<E>>,
    from: int,
    deferred: bool,
    sheet: Seq<char>,
    cells: Seq<Target<CellData>>,
    n: int,
)
    requires
        h.len() >= from,
    ensures
        ({
            let before = book(b, id, h, from);
            let c = after_range_clearings(h, deferred, sheet, cells, n);
            let s = after_range_stagings(h, deferred, sheet, cells, n);
            &&& c.len() >= from
            &&& s.len() >= from
            &&& leaves(
                book(b, id, c, from),
                before,
                before.contents,
                cleared(before.texts, sheet, deferred, cells, n),
            )
            &&& leaves(
                book(b, id, s, from),
                before,
                before.contents,
                staged(before.texts, sheet, deferred, cells, n),
            )
        }),
    decreases n,
{
    broadcast use lemma_book_push;

    if n > 0 {
        lemma_range_texts_book(b, id, h, from, deferred, sheet, cells, n - 1);
    }
}

proof fn lemma_outside<V>(sheet: Seq<char>, cells: Seq<Target<V>>, n: int, i: int)
    requires
        distinct(cells),
        0 <= i < cells.len(),
        0 <= n < cells.len(),
        i != n,
    ensures
        place_of(sheet, cells[n]) != place_of(sheet, cells[i]),
{
    if i < n {
        assert(cells[i].0 != cells[n].0 || cells[i].1 != cells[n].1);
    } else {
        assert(cells[n].0 != cells[i].0 || cells[n].1 != cells[i].1);
    }
}

/// Staging texts and dropping the text of another cell can be done in either order.
proof fn lemma_staged_without(
    texts: Texts,
    sheet: Seq<char>,
    deferred: bool,
    cells: Seq<Target<CellData>>,
    n: int,
    i: int,
)
    requires
        distinct(cells),
        0 <= n <= i < cells.len(),
    ensures
        staged(with_text(texts, place_of(sheet, cells[i]), None), sheet, deferred, cells, n)
            == with_text(
            staged(texts, sheet, deferred, cells, n),
            place_of(sheet, cells[i]),
            None,
        ),
    decreases n,
{
    if n > 0 {
        lemma_staged_without(texts, sheet, deferred, cells, n - 1, i);
        lemma_outside(sheet, cells, n - 1, i);
        let before = staged(texts, sheet, deferred, cells, n - 1);
        let place = place_of(sheet, cells[n - 1]);
        let other = place_of(sheet, cells[i]);
        let data = cells[n - 1].2;
        if data.formula is Some && deferred {
            let text = Some((data.formula->0)@);
            assert(with_text(with_text(before, other, None), place, text) =~= with_text(
                with_text(before, place, text),
                other,
                None,
            ));
        }
    }
}

/// Dropping and then staging, as a batch does, gives each cell its text.
proof fn lemma_texts_in_batch(
    texts: Texts,
    sheet: Seq<char>,
    deferred: bool,
    cells: Seq<Target<CellData>>,
    n: int,
)
    requires
        distinct(cells),
        0 <= n <= cells.len(),
    ensures
        staged(
            cleared(texts, sheet, deferred, cells, n),
            sheet,
            deferred,
            cells,
            n,
        ) == with_cell_texts(texts, sheet, deferred, cells, n),
    decreases n,
{
    if n > 0 {
        lemma_texts_in_batch(texts, sheet, deferred, cells, n - 1);
        let before = cleared(texts, sheet, deferred, cells, n - 1);
        let data = cells[n - 1].2;
        if value_only(data) || (data.formula is Some && !deferred) {
            lemma_staged_without(before, sheet, deferred, cells, n - 1, n - 1);
        }
    }
}

proof fn lemma_range_deltas_book<E: WorkbookEngine>(
    b: Book,
    id: u32,
    h: Seq<EngineEvent<E>>,
    from: int,
    sheet: Seq<char>,
    cells: Seq<Target<CellData>>,
    reads: Seq<CellReplies>,
    afters: Seq<Option<Seq<char>>>,
)
    requires
        h.len() >= from,
    ensures
        after_range_deltas(h, sheet, cells, reads, afters).len() >= from,
        book(b, id, after_range_deltas(h, sheet, cells, reads, afters), from) == book(
            b,
            id,
            h,
            from,
        ),
    decreases afters.len(),
{
    broadcast use lemma_book_push;

    if afters.len() > 0 {
        lemma_range_deltas_book(b, id, h, from, sheet, cells, reads, afters.drop_last());
    }
}

/// Whether the building of the graph was deferred, or not, for each cell of an unlogged
/// batch.
pub open spec fn answers_alike(answers: Seq<PlainCellReplies>, deferred: bool) -> bool {
    forall|i: int|
        0 <= i < answers.len() ==> (#[trigger] answers[i]).flags.defer_graph_building == deferred
}

proof fn lemma_plain_range_book<E: WorkbookEngine>(
    b: Book,
    id: u32,
    h: Seq<EngineEvent<E>>,
    from: int,
    deferred: bool,
    sheet: Seq<char>,
    cells: Seq<Target<CellData>>,
    answers: Seq<PlainCellReplies>,
)
    requires
        h.len() >= from,
        answers_alike(answers, deferred),
        plain_range_run(h, sheet, cells, answers).outcome is Ok,
    ensures
        ({
            let g = plain_range_run(h, sheet, cells, answers).history;
            let before = book(b, id, h, from);
            let n = answers.len() as int;
            &&& g.len() >= from
            &&& leaves(
                book(b, id, g, from),
                before,
                with_cells(before.contents, id, deferred, cells, n),
                with_cell_texts(before.texts, sheet, deferred, cells, n),
            )
        }),
    decreases answers.len(),
{
    broadcast use lemma_book_push;

    if answers.len() > 0 {
        let fewer = answers.drop_last();
        assert forall|i: int| 0 <= i < fewer.len() implies (
        #[trigger] fewer[i]).flags.defer_graph_building == deferred by {
            assert(fewer[i] == answers[i]);
        }
        lemma_plain_range_book(b, id, h, from, deferred, sheet, cells, fewer);
        assert(answers[answers.len() - 1].flags.defer_graph_building == deferred);
        let run = plain_range_run(h, sheet, cells, fewer);
        let (row, col, data) = cells[answers.len() - 1];
        if data.formula is Some && !deferred && data.value is Some {
            lemma_content_twice(
                book(b, id, run.history, from).contents,
                cell_at(id, row, col),
                (Some(data.value->0), None),
                (None, Some(parsed_formula((data.formula->0)@)->Ok_0)),
            );
        }
    }
}

/// What a successful batch of cells leaves: in each cell its formula, or its value where
/// it has no formula or that is deferred; staged texts of deferred formulas, and none for
/// the other cells of the batch.
pub proof fn law_range_is_kept<E: WorkbookEngine>(
    b: Book,
    id: u32,
    h: Seq<EngineEvent<E>>,
    logged: bool,
    deferred: bool,
    sheet: Seq<char>,
    order: Seq<Target<CellData>>,
    cells: Map<(u32, u32), CellData>,
    replies: WriteRangeReplies,
)
    requires
        is_listing(order, cells),
        logged ==> id == sheet_of(replies.sheet) && replies.flags.defer_graph_building == deferred,
        !logged ==> answers_alike(replies.answers, deferred),
        range_run(h, logged, sheet, order, replies).outcome is Ok,
        range_answered(logged, order.len(), replies, Ok(())),
    ensures
        leaves(
            book(b, id, range_run(h, logged, sheet, order, replies).history, h.len() as int),
            b,
            with_cells(b.contents, id, deferred, order, order.len() as int),
            with_cell_texts(b.texts, sheet, deferred, order, order.len() as int),
        ),
{
    broadcast use lemma_book_push;

    law_listed_cells_are_distinct(order, cells);
    let from = h.len() as int;
    let n = order.len() as int;
    let begun = h.push(EngineEvent::BeginDeferredDirty);
    if logged {
        let asked = after_sheet(begun, sheet, replies.sheet).push(
            EngineEvent::Flags { reply: replies.flags },
        );
        lemma_reads_book(b, id, asked, from, sheet, order, replies.reads);
        let opened = after_reads(asked, sheet, order, replies.reads).push(EngineEvent::EditBegin);
        lemma_range_edits_book(b, id, opened, from, deferred, order, replies.reads, n);
        let closed = range_edits_run(opened, deferred, id, order, replies.reads, n).history.push(
            EngineEvent::EditEnd,
        );
        lemma_range_mirrors_book(b, id, closed, from, sheet, order, replies.mirrors);
        let mirrored = after_range_mirrors(closed, sheet, order, replies.mirrors);
        lemma_range_texts_book(b, id, mirrored, from, deferred, sheet, order, n);
        let cleared_h = after_range_clearings(mirrored, deferred, sheet, order, n);
        lemma_range_texts_book(b, id, cleared_h, from, deferred, sheet, order, n);
        let staged_h = after_range_stagings(cleared_h, deferred, sheet, order, n);
        lemma_range_deltas_book(
            b,
            id,
            staged_h,
            from,
            sheet,
            order,
            replies.reads,
            replies.afters,
        );
        lemma_texts_in_batch(b.texts, sheet, deferred, order, n);
    } else {
        lemma_plain_range_book(b, id, begun, from, deferred, sheet, order, replies.answers);
    }
}

/// Whether single writings of cells met the engine as a batch did: the building of the
/// graph deferred or not; where it is, the graph holds no cell when it gets its formula;
/// and, where they are logged, on the sheet `id`.
pub open spec fn writes_alike(
    cells: Seq<Target<CellData>>,
    singles: Seq<CellWriteReplies>,
    deferred: bool,
    logged: bool,
    id: u32,
) -> bool {
    forall|i: int|
        0 <= i < singles.len() ==> {
            &&& (#[trigger] singles[i]).formula.flags.defer_graph_building == deferred
            &&& deferred && cells[i].2.formula is Some ==> singles[i].formula.present is None
            &&& logged ==> sheet_of(singles[i].value.sheet) == id && sheet_of(
                singles[i].formula.sheet,
            ) == id
        }
}

proof fn lemma_write_book<E: WorkbookEngine>(
    b: Book,
    id: u32,
    h: Seq<EngineEvent<E>>,
    logged: bool,
    deferred: bool,
    sheet: Seq<char>,
    cells: Seq<Target<CellData>>,
    n: int,
    contents: Contents,
    texts: Texts,
    replies: CellWriteReplies,
)
    requires
        0 < n <= cells.len(),
        replies.formula.flags.defer_graph_building == deferred,
        deferred && cells[n - 1].2.formula is Some ==> replies.formula.present is None,
        logged ==> sheet_of(replies.value.sheet) == id && sheet_of(replies.formula.sheet) == id,
        b.contents == with_cells(contents, id, deferred, cells, n - 1),
        b.texts == with_cell_texts(texts, sheet, deferred, cells, n - 1),
        cell_write_run(
            h,
            logged,
            sheet,
            cells[n - 1].0,
            cells[n - 1].1,
            cells[n - 1].2,
            replies,
        ).outcome is Ok,
    ensures
        ({
            let g = cell_write_run(
                h,
                logged,
                sheet,
                cells[n - 1].0,
                cells[n - 1].1,
                cells[n - 1].2,
                replies,
            ).history;
            &&& g.len() >= h.len()
            &&& forall|i: int| 0 <= i < h.len() ==> #[trigger] g[i] == h[i]
            &&& leaves(
                book(b, id, g, h.len() as int),
                b,
                with_cells(contents, id, deferred, cells, n),
                with_cell_texts(texts, sheet, deferred, cells, n),
            )
        }),
{
    let (row, col, data) = cells[n - 1];
    let from = h.len() as int;
    let valued = match data.value {
        None => h,
        Some(value) => value_run(
            h,
            logged,
            sheet,
            row,
            col,
            value,
            replies.value,
        ).history,
    };
    if data.value is Some {
        let value = data.value->0;
        law_value_is_kept(b, id, h, logged, sheet, row, col, value, replies.value);
        lemma_value_extends(h, logged, sheet, row, col, value, replies.value);
    }
    if data.formula is Some {
        let formula = (data.formula->0)@;
        let k = book(b, id, valued, from);
        law_formula_is_kept(k, id, valued, logged, sheet, row, col, formula, replies.formula);
        lemma_formula_extends(valued, logged, sheet, row, col, formula, replies.formula);
        let end = formula_run(
            valued,
            logged,
            sheet,
            row,
            col,
            formula,
            replies.formula,
        ).history;
        lemma_book_from(b, id, valued, end, from);
        if data.value is Some {
            lemma_content_twice(
                b.contents,
                cell_at(id, row, col),
                (Some(data.value->0), None),
                (None, Some(parsed_formula(formula)->Ok_0)),
            );
            lemma_text_twice(b.texts, (sheet, row, col), None, None);
            lemma_text_twice(b.texts, (sheet, row, col), None, Some(formula));
        }
    }
}

proof fn lemma_writes_book<E: WorkbookEngine>(
    b: Book,
    id: u32,
    h: Seq<EngineEvent<E>>,
    logged: bool,
    deferred: bool,
    sheet: Seq<char>,
    cells: Seq<Target<CellData>>,
    singles: Seq<CellWriteReplies>,
)
    requires
        singles.len() <= cells.len(),
        writes_alike(cells, singles, deferred, logged, id),
        cell_writes_run(h, logged, sheet, cells, singles).outcome is Ok,
    ensures
        ({
            let g = cell_writes_run(h, logged, sheet, cells, singles).history;
            let n = singles.len() as int;
            &&& g.len() >= h.len()
            &&& leaves(
                book(b, id, g, h.len() as int),
                b,
                with_cells(b.contents, id, deferred, cells, n),
                with_cell_texts(b.texts, sheet, deferred, cells, n),
            )
        }),
    decreases singles.len(),
{
    if singles.len() > 0 {
        let fewer = singles.drop_last();
        assert forall|i: int| 0 <= i < fewer.len() implies {
            &&& (#[trigger] fewer[i]).formula.flags.defer_graph_building == deferred
            &&& deferred && cells[i].2.formula is Some ==> fewer[i].formula.present is None
            &&& logged ==> sheet_of(fewer[i].value.sheet) == id && sheet_of(
                fewer[i].formula.sheet,
            ) == id
        } by {
            assert(fewer[i] == singles[i]);
        }
        lemma_writes_book(b, id, h, logged, deferred, sheet, cells, fewer);
        let n = singles.len() as int;
        assert(singles[n - 1] == singles.last());
        let before = cell_writes_run(h, logged, sheet, cells, fewer).history;
        let k = book(b, id, before, h.len() as int);
        lemma_write_book(
            k,
            id,
            before,
            logged,
            deferred,
            sheet,
            cells,
            n,
            b.contents,
            b.texts,
            singles.last(),
        );
        let end = cell_writes_run(h, logged, sheet, cells, singles).history;
        lemma_book_from(b, id, before, end, h.len() as int);
    }
}

/// A batch of cells leaves the same cells and staged texts as writing them one by one,
/// with the change log on or off. While the building of the graph is deferred, that holds
/// where the graph holds no cell when it gets its formula: for one that it holds, as after
/// a value was written to it, a single formula is set in the graph, and the batch stages
/// it.
pub proof fn law_range_leaves_the_same_cells<E: WorkbookEngine>(
    b: Book,
    id: u32,
    h: Seq<EngineEvent<E>>,
    logged: bool,
    deferred: bool,
    sheet: Seq<char>,
    order: Seq<Target<CellData>>,
    cells: Map<(u32, u32), CellData>,
    batch: WriteRangeReplies,
    singles: Seq<CellWriteReplies>,
)
    requires
        is_listing(order, cells),
        logged ==> id == sheet_of(batch.sheet) && batch.flags.defer_graph_building == deferred,
        !logged ==> answers_alike(batch.answers, deferred),
        range_run(h, logged, sheet, order, batch).outcome is Ok,
        range_answered(logged, order.len(), batch, Ok(())),
        singles.len() == order.len(),
        writes_alike(order, singles, deferred, logged, id),
        cell_writes_run(h, logged, sheet, order, singles).outcome is Ok,
    ensures
        same_cells(
            book(b, id, range_run(h, logged, sheet, order, batch).history, h.len() as int),
            book(
                b,
                id,
                cell_writes_run(h, logged, sheet, order, singles).history,
                h.len() as int,
            ),
        ),
{
    law_range_is_kept(b, id, h, logged, deferred, sheet, order, cells, batch);
    lemma_writes_book(b, id, h, logged, deferred, sheet, order, singles);
}

} // verus!
