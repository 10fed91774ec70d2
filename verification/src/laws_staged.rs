//! Laws on staged formula texts: what the change log records of them is what becomes
//! of them, and can be undone.

use crate::batch::{
    after_reads, after_settling, after_value_edits, values_answered, values_run, CellReplies,
    SetValuesReplies, Target,
};
use crate::batch_formulas::{
    after_clearings, after_losses, after_staged_reads, after_stagings, formula_edits_run,
    formulas_run, logged_formulas_run, rows_answered, SetFormulasReplies, StagingReplies,
};
use crate::batch_range::{
    after_range_clearings, after_range_deltas, after_range_mirrors, after_range_stagings,
    range_answered, range_edits_run, range_run, value_only, WriteRangeReplies,
};
use crate::cell_data::{cell_before, is_listing, CellData};
use crate::cells::{
    after_delta, after_old_state, after_sheet, after_value_edit, formula_run, sheet_of, value_run,
    SetFormulaReplies, SetValueReplies, SheetReplies,
};
use crate::engine::{cell_at, EngineEvent, WorkbookEngine};
use crate::grid::{cells_of, fits, rect_cells, row_cells, width_of};
use crate::store::{after_capacity, after_mirror, CapacityReplies, MirrorReplies};
use crate::value::LiteralValue;
use vstd::prelude::*;

verus! {

/// A cell by the name of its sheet and its coordinates.
pub type Place = (Seq<char>, u32, u32);

/// The formula texts staged for cells.
pub type Texts = Map<Place, Seq<char>>;

/// The text of a cell.
pub open spec fn text_at(texts: Texts, place: Place) -> Option<Seq<char>> {
    if texts.dom().contains(place) {
        Some(texts[place])
    } else {
        None
    }
}

/// The texts with another one, or none, for a cell.
pub open spec fn with_text(texts: Texts, place: Place, text: Option<Seq<char>>) -> Texts {
    match text {
        Some(t) => texts.insert(place, t),
        None => texts.remove(place),
    }
}

/// What an edit makes of staged texts, step by step.
pub struct Track {
    /// The texts as the engine holds them.
    pub staged: Texts,
    /// The texts as the recorded changes give them.
    pub recorded: Texts,
    /// Whether the engine answered each reading with the text that it held.
    pub faithful: bool,
    /// Whether each recorded change starts from the text recorded before.
    pub exact: bool,
}

/// The track after one more call.
pub open spec fn next_track<E: WorkbookEngine>(t: Track, e: EngineEvent<E>) -> Track {
    match e {
        EngineEvent::StagedFormulaText { sheet, row, col, reply } => Track {
            faithful: t.faithful && reply == text_at(t.staged, (sheet, row, col)),
            ..t
        },
        EngineEvent::StageFormulaText { sheet, row, col, formula } => Track {
            staged: with_text(t.staged, (sheet, row, col), Some(formula)),
            ..t
        },
        EngineEvent::ClearStagedFormulaText { sheet, row, col } => Track {
            staged: with_text(t.staged, (sheet, row, col), None),
            ..t
        },
        EngineEvent::LogStagedChange { sheet, row, col, before, after } => Track {
            recorded: with_text(t.recorded, (sheet, row, col), after),
            exact: t.exact && before == text_at(t.recorded, (sheet, row, col)),
            ..t
        },
        _ => t,
    }
}

/// The track of the calls of `h` behind the first `from`, where `texts` are staged
/// before them.
pub open spec fn track<E: WorkbookEngine>(texts: Texts, h: Seq<EngineEvent<E>>, from: int) -> Track
    decreases h.len(),
{
    if h.len() <= from || h.len() == 0 {
        Track { staged: texts, recorded: texts, faithful: true, exact: true }
    } else {
        next_track(track(texts, h.drop_last(), from), h.last())
    }
}

/// What undoing the changes recorded behind the first `from` calls makes of `texts`:
/// the last one is undone first.
pub open spec fn undone<E: WorkbookEngine>(texts: Texts, h: Seq<EngineEvent<E>>, from: int) -> Texts
    decreases h.len(),
{
    if h.len() <= from || h.len() == 0 {
        texts
    } else {
        let before = match h.last() {
            EngineEvent::LogStagedChange { sheet, row, col, before, after } => with_text(
                texts,
                (sheet, row, col),
                before,
            ),
            _ => texts,
        };
        undone(before, h.drop_last(), from)
    }
}

/// Whether the calls behind the first `from` recorded what became of the texts: redone
/// from the texts before, the record gives the texts after, and undone from the texts
/// after, it gives the texts before.
pub open spec fn recorded_truly<E: WorkbookEngine>(
    texts: Texts,
    h: Seq<EngineEvent<E>>,
    from: int,
) -> bool {
    let t = track(texts, h, from);
    t.faithful ==> t.recorded == t.staged && undone(t.staged, h, from) == texts
}

broadcast proof fn lemma_track_push<E: WorkbookEngine>(
    texts: Texts,
    h: Seq<EngineEvent<E>>,
    e: EngineEvent<E>,
    from: int,
)
    requires
        h.len() >= from,
    ensures
        #[trigger] track(texts, h.push(e), from) == next_track(track(texts, h, from), e),
{
    assert(h.push(e).drop_last() =~= h);
}

proof fn lemma_with_text_back(texts: Texts, place: Place, text: Option<Seq<char>>)
    ensures
        with_text(with_text(texts, place, text), place, text_at(texts, place)) == texts,
{
    assert(with_text(with_text(texts, place, text), place, text_at(texts, place)) =~= texts);
}

proof fn lemma_with_text_same(texts: Texts, place: Place)
    ensures
        with_text(texts, place, text_at(texts, place)) == texts,
{
    assert(with_text(texts, place, text_at(texts, place)) =~= texts);
}

/// Exact records can be undone.
proof fn lemma_undone<E: WorkbookEngine>(texts: Texts, h: Seq<EngineEvent<E>>, from: int)
    requires
        0 <= from,
        track(texts, h, from).exact,
    ensures
        undone(track(texts, h, from).recorded, h, from) == texts,
    decreases h.len(),
{
    if h.len() > from {
        let rest = h.drop_last();
        let t = track(texts, rest, from);
        assert(t.exact);
        lemma_undone(texts, rest, from);
        match h.last() {
            EngineEvent::LogStagedChange { sheet, row, col, before, after } => {
                lemma_with_text_back(t.recorded, (sheet, row, col), after);
            },
            _ => {},
        }
    }
}

proof fn lemma_truly<E: WorkbookEngine>(texts: Texts, h: Seq<EngineEvent<E>>, from: int)
    requires
        0 <= from,
        track(texts, h, from).faithful ==> track(texts, h, from).exact && track(
            texts,
            h,
            from,
        ).recorded == track(texts, h, from).staged,
    ensures
        recorded_truly(texts, h, from),
{
    if track(texts, h, from).faithful {
        lemma_undone(texts, h, from);
    }
}

proof fn lemma_capacity_track<E: WorkbookEngine>(
    texts: Texts,
    h: Seq<EngineEvent<E>>,
    from: int,
    sheet: Seq<char>,
    rows: int,
    cols: int,
    r: CapacityReplies,
)
    requires
        h.len() >= from,
    ensures
        after_capacity(h, sheet, rows, cols, r).len() >= from,
        track(texts, after_capacity(h, sheet, rows, cols, r), from) == track(texts, h, from),
{
    broadcast use lemma_track_push;

}

proof fn lemma_mirror_track<E: WorkbookEngine>(
    texts: Texts,
    h: Seq<EngineEvent<E>>,
    from: int,
    sheet: Seq<char>,
    row: u32,
    col: u32,
    value: LiteralValue,
    r: MirrorReplies,
)
    requires
        h.len() >= from,
    ensures
        after_mirror(h, sheet, row, col, value, r).len() >= from,
        track(texts, after_mirror(h, sheet, row, col, value, r), from) == track(texts, h, from),
{
    broadcast use lemma_track_push;

    let asked = h.push(EngineEvent::Flags { reply: r.flags });
    lemma_capacity_track(
        texts,
        asked,
        from,
        sheet,
        crate::store::store_index(row) + 1,
        crate::store::store_index(col) + 1,
        r.capacity,
    );
}

/// The track after a change of a text that was read before was recorded.
proof fn lemma_delta_track<E: WorkbookEngine>(
    texts: Texts,
    h: Seq<EngineEvent<E>>,
    from: int,
    sheet: Seq<char>,
    row: u32,
    col: u32,
    before: Option<Seq<char>>,
    after: Option<Seq<char>>,
)
    requires
        h.len() >= from,
        before == text_at(track(texts, h, from).recorded, (sheet, row, col)),
    ensures
        ({
            let t = track(texts, h, from);
            let g = after_delta(h, true, sheet, row, col, before, after);
            &&& g.len() >= h.len()
            &&& track(texts, g, from) == (Track {
                recorded: with_text(t.recorded, (sheet, row, col), after),
                ..t
            })
        }),
{
    broadcast use lemma_track_push;

    lemma_with_text_same(track(texts, h, from).recorded, (sheet, row, col));
}

/// Setting a value records truly what becomes of the text staged for the cell.
pub proof fn law_value_is_recorded_truly<E: WorkbookEngine>(
    texts: Texts,
    h: Seq<EngineEvent<E>>,
    sheet: Seq<char>,
    row: u32,
    col: u32,
    value: LiteralValue,
    replies: SetValueReplies,
)
    ensures
        recorded_truly(
            texts,
            value_run(h, true, sheet, row, col, value, replies).history,
            h.len() as int,
        ),
        track(
            texts,
            value_run(h, true, sheet, row, col, value, replies).history,
            h.len() as int,
        ).staged == with_text(texts, (sheet, row, col), None),
{
    broadcast use lemma_track_push;

    let from = h.len() as int;
    lemma_capacity_track(texts, h, from, sheet, row as int, col as int, replies.capacity);
    let roomy = after_capacity(h, sheet, row as int, col as int, replies.capacity);
    let staged = roomy.push(
        EngineEvent::StagedFormulaText { sheet, row, col, reply: replies.staged },
    );
    let named = after_sheet(staged, sheet, replies.sheet);
    let seen = after_old_state(named, sheet, row, col, replies.old_state);
    let edited = after_value_edit(
        seen.push(EngineEvent::EditBegin),
        cell_at(sheet_of(replies.sheet), row, col),
        value,
        replies.old_state,
    ).push(EngineEvent::EditEnd);
    assert(track(texts, edited, from) == track(texts, staged, from));
    lemma_mirror_track(texts, edited, from, sheet, row, col, value, replies.mirror);
    let mirrored = after_mirror(edited, sheet, row, col, value, replies.mirror);
    let cleared = mirrored.push(EngineEvent::ClearStagedFormulaText { sheet, row, col });
    if track(texts, cleared, from).faithful {
        lemma_delta_track(texts, cleared, from, sheet, row, col, replies.staged, None);
    }
    let end = value_run(h, true, sheet, row, col, value, replies).history;
    lemma_truly(texts, end, from);
}

/// Setting a formula records truly what becomes of the text staged for the cell.
pub proof fn law_formula_is_recorded_truly<E: WorkbookEngine>(
    texts: Texts,
    h: Seq<EngineEvent<E>>,
    sheet: Seq<char>,
    row: u32,
    col: u32,
    formula: Seq<char>,
    replies: SetFormulaReplies,
)
    ensures
        recorded_truly(
            texts,
            formula_run(h, true, sheet, row, col, formula, replies).history,
            h.len() as int,
        ),
{
    broadcast use lemma_track_push;

    let from = h.len() as int;
    let place = (sheet, row, col);
    lemma_capacity_track(texts, h, from, sheet, row as int, col as int, replies.capacity);
    let roomy = after_capacity(h, sheet, row as int, col as int, replies.capacity);
    let staged = roomy.push(
        EngineEvent::StagedFormulaText { sheet, row, col, reply: replies.staged },
    );
    let asked = staged.push(EngineEvent::Flags { reply: replies.flags });
    let deferred = replies.flags.defer_graph_building;
    let looked = if deferred {
        asked.push(EngineEvent::GetCell { sheet, row, col, reply: replies.present })
    } else {
        asked
    };
    assert(track(texts, looked, from) == track(texts, staged, from));
    let end = formula_run(h, true, sheet, row, col, formula, replies).history;
    if deferred && replies.present is None {
        let kept = looked.push(EngineEvent::StageFormulaText { sheet, row, col, formula });
        let reread = kept.push(
            EngineEvent::StagedFormulaText { sheet, row, col, reply: replies.staged_after },
        );
        if track(texts, reread, from).faithful {
            lemma_delta_track(
                texts,
                reread,
                from,
                sheet,
                row,
                col,
                replies.staged,
                replies.staged_after,
            );
        }
    } else {
        match crate::formula::parsed_formula(formula) {
            Err(e) => {},
            Ok(tree) => {
                let named = after_sheet(looked, sheet, replies.sheet);
                let cell = cell_at(sheet_of(replies.sheet), row, col);
                let edited = if deferred {
                    after_old_state(named, sheet, row, col, replies.old_state).push(
                        EngineEvent::EditBegin,
                    ).push(
                        EngineEvent::EditSetFormulaWithOldState {
                            cell,
                            tree,
                            old_value: replies.old_state.value,
                            old_formula: crate::engine::formula_of(replies.old_state.cell),
                        },
                    )
                } else {
                    named.push(EngineEvent::EditBegin).push(
                        EngineEvent::EditSetFormula { cell, tree },
                    )
                };
                let closed = edited.push(EngineEvent::EditEnd);
                assert(track(texts, closed, from) == track(texts, staged, from));
                let cleared = closed.push(EngineEvent::ClearStagedFormulaText { sheet, row, col });
                if track(texts, cleared, from).faithful {
                    lemma_delta_track(
                        texts,
                        cleared,
                        from,
                        sheet,
                        row,
                        col,
                        replies.staged,
                        None,
                    );
                }
            },
        }
    }
    lemma_truly(texts, end, from);
}

/// The place of a target.
pub open spec fn place_of<V>(sheet: Seq<char>, target: Target<V>) -> Place {
    (sheet, target.0, target.1)
}

/// Whether no cell occurs twice.
pub open spec fn distinct<V>(cells: Seq<Target<V>>) -> bool {
    forall|i: int, j: int|
        0 <= i < j < cells.len() ==> (#[trigger] cells[i]).0 != (#[trigger] cells[j]).0 || cells[i].1
            != cells[j].1
}

/// The texts without those of the first `n` cells.
pub open spec fn without<V>(texts: Texts, sheet: Seq<char>, cells: Seq<Target<V>>, n: int) -> Texts
    decreases n,
{
    if n <= 0 {
        texts
    } else {
        with_text(without(texts, sheet, cells, n - 1), place_of(sheet, cells[n - 1]), None)
    }
}

proof fn lemma_without<V>(
    texts: Texts,
    sheet: Seq<char>,
    cells: Seq<Target<V>>,
    n: int,
    place: Place,
)
    requires
        0 <= n <= cells.len(),
        forall|j: int| 0 <= j < n ==> place_of(sheet, #[trigger] cells[j]) != place,
    ensures
        text_at(without(texts, sheet, cells, n), place) == text_at(texts, place),
    decreases n,
{
    if n > 0 {
        lemma_without(texts, sheet, cells, n - 1, place);
        assert(place_of(sheet, cells[n - 1]) != place);
    }
}

proof fn lemma_next_untouched<V>(
    texts: Texts,
    sheet: Seq<char>,
    cells: Seq<Target<V>>,
    n: int,
)
    requires
        distinct(cells),
        0 <= n < cells.len(),
    ensures
        text_at(without(texts, sheet, cells, n), place_of(sheet, cells[n])) == text_at(
            texts,
            place_of(sheet, cells[n]),
        ),
{
    assert forall|j: int| 0 <= j < n implies place_of(sheet, #[trigger] cells[j]) != place_of(
        sheet,
        cells[n],
    ) by {
        assert(cells[j].0 != cells[n].0 || cells[j].1 != cells[n].1);
    }
    lemma_without(texts, sheet, cells, n, place_of(sheet, cells[n]));
}

/// Whether the readings gave the texts that are staged.
pub open spec fn reads_true<V>(
    texts: Texts,
    sheet: Seq<char>,
    cells: Seq<Target<V>>,
    reads: Seq<CellReplies>,
) -> bool {
    forall|i: int|
        0 <= i < reads.len() ==> (#[trigger] reads[i]).staged == text_at(
            texts,
            place_of(sheet, cells[i]),
        )
}

proof fn lemma_reads_track<E: WorkbookEngine, V>(
    texts: Texts,
    h: Seq<EngineEvent<E>>,
    from: int,
    sheet: Seq<char>,
    cells: Seq<Target<V>>,
    reads: Seq<CellReplies>,
)
    requires
        h.len() >= from,
    ensures
        ({
            let t = track(texts, h, from);
            let g = after_reads(h, sheet, cells, reads);
            &&& g.len() >= from
            &&& track(texts, g, from).staged == t.staged
            &&& track(texts, g, from).recorded == t.recorded
            &&& track(texts, g, from).exact == t.exact
            &&& track(texts, g, from).faithful ==> t.faithful && reads_true(
                t.staged,
                sheet,
                cells,
                reads,
            )
        }),
    decreases reads.len(),
{
    broadcast use lemma_track_push;

    if reads.len() > 0 {
        let fewer = reads.drop_last();
        lemma_reads_track(texts, h, from, sheet, cells, fewer);
        let g = after_reads(h, sheet, cells, reads);
        if track(texts, g, from).faithful {
            assert forall|i: int| 0 <= i < reads.len() implies (#[trigger] reads[i]).staged
                == text_at(track(texts, h, from).staged, place_of(sheet, cells[i])) by {
                if i < fewer.len() {
                    assert(fewer[i] == reads[i]);
                }
            }
        }
    }
}

proof fn lemma_value_edits_track<E: WorkbookEngine>(
    texts: Texts,
    h: Seq<EngineEvent<E>>,
    from: int,
    sheet_id: u32,
    cells: Seq<Target<LiteralValue>>,
    reads: Seq<CellReplies>,
    n: int,
)
    requires
        h.len() >= from,
    ensures
        after_value_edits(h, sheet_id, cells, reads, n).len() >= from,
        track(texts, after_value_edits(h, sheet_id, cells, reads, n), from) == track(
            texts,
            h,
            from,
        ),
    decreases n,
{
    broadcast use lemma_track_push;

    if n > 0 {
        lemma_value_edits_track(texts, h, from, sheet_id, cells, reads, n - 1);
    }
}

proof fn lemma_settling_track<E: WorkbookEngine>(
    texts: Texts,
    h: Seq<EngineEvent<E>>,
    from: int,
    sheet: Seq<char>,
    cells: Seq<Target<LiteralValue>>,
    reads: Seq<CellReplies>,
    mirrors: Seq<MirrorReplies>,
)
    requires
        h.len() >= from,
        distinct(cells),
        mirrors.len() <= cells.len(),
        reads.len() == cells.len(),
        ({
            let t = track(texts, h, from);
            &&& t.staged == texts
            &&& t.recorded == texts
            &&& t.exact
            &&& reads_true(texts, sheet, cells, reads)
        }),
    ensures
        ({
            let g = after_settling(h, sheet, cells, reads, mirrors);
            let t = track(texts, g, from);
            &&& g.len() >= from
            &&& t.staged == without(texts, sheet, cells, mirrors.len() as int)
            &&& t.recorded == t.staged
            &&& t.exact
        }),
    decreases mirrors.len(),
{
    broadcast use lemma_track_push;

    if mirrors.len() > 0 {
        let n = mirrors.len() - 1;
        let fewer = mirrors.drop_last();
        lemma_settling_track(texts, h, from, sheet, cells, reads, fewer);
        let before = after_settling(h, sheet, cells, reads, fewer);
        let (row, col, value) = cells[n];
        lemma_mirror_track(texts, before, from, sheet, row, col, value, mirrors.last());
        let cleared = after_mirror(before, sheet, row, col, value, mirrors.last()).push(
            EngineEvent::ClearStagedFormulaText { sheet, row, col },
        );
        lemma_next_untouched(texts, sheet, cells, n);
        assert(reads[n].staged == text_at(texts, place_of(sheet, cells[n])));
        lemma_delta_track(texts, cleared, from, sheet, row, col, reads[n].staged, None);
    }
}

proof fn lemma_rect_places<V>(row: u32, col: u32, rows: Seq<Vec<V>>, n: int)
    requires
        fits(row, col, rows),
        0 <= n <= rows.len(),
    ensures
        forall|i: int|
            0 <= i < rect_cells(row, col, rows, n).len() ==> row <= (#[trigger] rect_cells(
                row,
                col,
                rows,
                n,
            )[i]).0 < row + n,
        distinct(rect_cells(row, col, rows, n)),
    decreases n,
{
    if n > 0 {
        lemma_rect_places(row, col, rows, n - 1);
        let before = rect_cells(row, col, rows, n - 1);
        let r = (row + n - 1) as u32;
        let values = rows[n - 1]@;
        let last = row_cells(r, col, values, values.len() as int);
        let all = rect_cells(row, col, rows, n);
        assert(all == before + last);
        assert(col + values.len() <= 0x1_0000_0000);
        assert forall|i: int| 0 <= i < all.len() implies row <= (#[trigger] all[i]).0 < row + n by {
            if i < before.len() {
                assert(all[i] == before[i]);
            } else {
                assert(all[i] == last[i - before.len()]);
            }
        }
        assert forall|i: int, j: int| 0 <= i < j < all.len() implies (#[trigger] all[i]).0
            != (#[trigger] all[j]).0 || all[i].1 != all[j].1 by {
            if j < before.len() {
                assert(all[i] == before[i] && all[j] == before[j]);
            } else {
                assert(all[j] == last[j - before.len()]);
                if i < before.len() {
                    assert(all[i] == before[i]);
                } else {
                    assert(all[i] == last[i - before.len()]);
                }
            }
        }
    }
}

/// No cell occurs twice in a rectangle.
pub proof fn law_rectangle_cells_are_distinct<V>(row: u32, col: u32, rows: Seq<Vec<V>>)
    requires
        fits(row, col, rows),
    ensures
        distinct(cells_of(row, col, rows)),
{
    lemma_rect_places(row, col, rows, rows.len() as int);
}

/// Setting the values of a rectangle records truly what becomes of the texts staged for
/// its cells: they are dropped.
pub proof fn law_values_are_recorded_truly<E: WorkbookEngine>(
    texts: Texts,
    h: Seq<EngineEvent<E>>,
    sheet: Seq<char>,
    start_row: u32,
    start_col: u32,
    rows: Seq<Vec<LiteralValue>>,
    replies: SetValuesReplies,
)
    requires
        fits(start_row, start_col, rows),
        values_answered(true, cells_of(start_row, start_col, rows).len(), replies, Ok(())),
    ensures
        recorded_truly(
            texts,
            values_run(
                h,
                true,
                sheet,
                cells_of(start_row, start_col, rows),
                replies,
            ).history,
            h.len() as int,
        ),
{
    broadcast use lemma_track_push;

    law_rectangle_cells_are_distinct(start_row, start_col, rows);
    let cells = cells_of(start_row, start_col, rows);
    let from = h.len() as int;
    let id = sheet_of(replies.sheet);
    let n = cells.len() as int;
    let begun = h.push(EngineEvent::BeginDeferredDirty);
    let named = after_sheet(begun, sheet, replies.sheet);
    assert(track(texts, named, from) == track(texts, h, from));
    let seen = after_reads(named, sheet, cells, replies.reads);
    lemma_reads_track(texts, named, from, sheet, cells, replies.reads);
    let opened = seen.push(EngineEvent::EditBegin);
    lemma_value_edits_track(texts, opened, from, id, cells, replies.reads, n);
    let edited = after_value_edits(opened, id, cells, replies.reads, n).push(EngineEvent::EditEnd);
    let settled = after_settling(edited, sheet, cells, replies.reads, replies.mirrors);
    let end = values_run(h, true, sheet, cells, replies).history;
    if track(texts, seen, from).faithful {
        lemma_settling_track(texts, edited, from, sheet, cells, replies.reads, replies.mirrors);
    } else {
        lemma_settling_unfaithful(
            texts,
            edited,
            from,
            sheet,
            cells,
            replies.reads,
            replies.mirrors,
        );
    }
    lemma_truly(texts, end, from);
}

proof fn lemma_settling_unfaithful<E: WorkbookEngine>(
    texts: Texts,
    h: Seq<EngineEvent<E>>,
    from: int,
    sheet: Seq<char>,
    cells: Seq<Target<LiteralValue>>,
    reads: Seq<CellReplies>,
    mirrors: Seq<MirrorReplies>,
)
    requires
        h.len() >= from,
    ensures
        after_settling(h, sheet, cells, reads, mirrors).len() >= from,
        track(texts, after_settling(h, sheet, cells, reads, mirrors), from).faithful == track(
            texts,
            h,
            from,
        ).faithful,
    decreases mirrors.len(),
{
    broadcast use lemma_track_push;

    if mirrors.len() > 0 {
        let n = mirrors.len() - 1;
        let fewer = mirrors.drop_last();
        lemma_settling_unfaithful(texts, h, from, sheet, cells, reads, fewer);
        let before = after_settling(h, sheet, cells, reads, fewer);
        let (row, col, value) = cells[n];
        lemma_mirror_track(texts, before, from, sheet, row, col, value, mirrors.last());
    }
}

proof fn lemma_stagings_track<E: WorkbookEngine>(
    texts: Texts,
    h: Seq<EngineEvent<E>>,
    from: int,
    sheet: Seq<char>,
    cells: Seq<Target<String>>,
    stagings: Seq<StagingReplies>,
)
    requires
        h.len() >= from,
        track(texts, h, from).recorded == track(texts, h, from).staged,
        track(texts, h, from).exact,
    ensures
        ({
            let g = after_stagings(h, true, sheet, cells, stagings);
            let t = track(texts, g, from);
            &&& g.len() >= from
            &&& t.faithful ==> t.recorded == t.staged && t.exact
        }),
    decreases stagings.len(),
{
    broadcast use lemma_track_push;

    if stagings.len() > 0 {
        let fewer = stagings.drop_last();
        lemma_stagings_track(texts, h, from, sheet, cells, fewer);
        let before = after_stagings(h, true, sheet, cells, fewer);
        let (row, col, formula) = cells[stagings.len() - 1];
        let r = stagings.last();
        let staged = before.push(
            EngineEvent::StagedFormulaText { sheet, row, col, reply: r.before },
        ).push(EngineEvent::StageFormulaText { sheet, row, col, formula: formula@ }).push(
            EngineEvent::StagedFormulaText { sheet, row, col, reply: r.after },
        );
        if track(texts, staged, from).faithful {
            lemma_delta_track(texts, staged, from, sheet, row, col, r.before, r.after);
        }
    }
}

/// Whether the readings gave the texts that are staged.
pub open spec fn staged_true(
    texts: Texts,
    sheet: Seq<char>,
    cells: Seq<Target<String>>,
    staged: Seq<Option<Seq<char>>>,
) -> bool {
    forall|i: int|
        0 <= i < staged.len() ==> (#[trigger] staged[i]) == text_at(
            texts,
            place_of(sheet, cells[i]),
        )
}

proof fn lemma_staged_reads_track<E: WorkbookEngine>(
    texts: Texts,
    h: Seq<EngineEvent<E>>,
    from: int,
    sheet: Seq<char>,
    cells: Seq<Target<String>>,
    staged: Seq<Option<Seq<char>>>,
)
    requires
        h.len() >= from,
    ensures
        ({
            let t = track(texts, h, from);
            let g = after_staged_reads(h, sheet, cells, staged);
            &&& g.len() >= from
            &&& track(texts, g, from).staged == t.staged
            &&& track(texts, g, from).recorded == t.recorded
            &&& track(texts, g, from).exact == t.exact
            &&& track(texts, g, from).faithful ==> t.faithful && staged_true(
                t.staged,
                sheet,
                cells,
                staged,
            )
        }),
    decreases staged.len(),
{
    broadcast use lemma_track_push;

    if staged.len() > 0 {
        let fewer = staged.drop_last();
        lemma_staged_reads_track(texts, h, from, sheet, cells, fewer);
        let g = after_staged_reads(h, sheet, cells, staged);
        if track(texts, g, from).faithful {
            assert forall|i: int| 0 <= i < staged.len() implies (#[trigger] staged[i]) == text_at(
                track(texts, h, from).staged,
                place_of(sheet, cells[i]),
            ) by {
                if i < fewer.len() {
                    assert(fewer[i] == staged[i]);
                }
            }
        }
    }
}

proof fn lemma_formula_edits_track<E: WorkbookEngine>(
    texts: Texts,
    h: Seq<EngineEvent<E>>,
    from: int,
    sheet_id: u32,
    cells: Seq<Target<String>>,
    n: int,
)
    requires
        h.len() >= from,
    ensures
        formula_edits_run(h, sheet_id, cells, n).history.len() >= from,
        track(texts, formula_edits_run(h, sheet_id, cells, n).history, from) == track(
            texts,
            h,
            from,
        ),
    decreases n,
{
    broadcast use lemma_track_push;

    if n > 0 {
        lemma_formula_edits_track(texts, h, from, sheet_id, cells, n - 1);
    }
}

proof fn lemma_clearings_track<E: WorkbookEngine>(
    texts: Texts,
    h: Seq<EngineEvent<E>>,
    from: int,
    sheet: Seq<char>,
    cells: Seq<Target<String>>,
    n: int,
)
    requires
        h.len() >= from,
    ensures
        ({
            let t = track(texts, h, from);
            let g = after_clearings(h, sheet, cells, n);
            &&& g.len() >= from
            &&& track(texts, g, from) == (Track {
                staged: without(t.staged, sheet, cells, n),
                ..t
            })
        }),
    decreases n,
{
    broadcast use lemma_track_push;

    if n > 0 {
        lemma_clearings_track(texts, h, from, sheet, cells, n - 1);
    }
}

proof fn lemma_losses_track<E: WorkbookEngine>(
    texts: Texts,
    h: Seq<EngineEvent<E>>,
    from: int,
    sheet: Seq<char>,
    cells: Seq<Target<String>>,
    staged: Seq<Option<Seq<char>>>,
    n: int,
)
    requires
        h.len() >= from,
        distinct(cells),
        0 <= n <= cells.len(),
        staged.len() == cells.len(),
        staged_true(track(texts, h, from).recorded, sheet, cells, staged),
    ensures
        ({
            let t = track(texts, h, from);
            let g = after_losses(h, sheet, cells, staged, n);
            &&& g.len() >= from
            &&& track(texts, g, from) == (Track {
                recorded: without(t.recorded, sheet, cells, n),
                ..t
            })
        }),
    decreases n,
{
    if n > 0 {
        lemma_losses_track(texts, h, from, sheet, cells, staged, n - 1);
        let t = track(texts, h, from);
        let before = after_losses(h, sheet, cells, staged, n - 1);
        let (row, col, _) = cells[n - 1];
        lemma_next_untouched(t.recorded, sheet, cells, n - 1);
        assert(staged[n - 1] == text_at(t.recorded, place_of(sheet, cells[n - 1])));
        lemma_delta_track(texts, before, from, sheet, row, col, staged[n - 1], None);
    }
}

proof fn lemma_losses_faithful<E: WorkbookEngine>(
    texts: Texts,
    h: Seq<EngineEvent<E>>,
    from: int,
    sheet: Seq<char>,
    cells: Seq<Target<String>>,
    staged: Seq<Option<Seq<char>>>,
    n: int,
)
    requires
        h.len() >= from,
    ensures
        after_losses(h, sheet, cells, staged, n).len() >= from,
        track(texts, after_losses(h, sheet, cells, staged, n), from).faithful == track(
            texts,
            h,
            from,
        ).faithful,
    decreases n,
{
    broadcast use lemma_track_push;

    if n > 0 {
        lemma_losses_faithful(texts, h, from, sheet, cells, staged, n - 1);
    }
}

proof fn lemma_logged_formulas_track<E: WorkbookEngine>(
    texts: Texts,
    h: Seq<EngineEvent<E>>,
    from: int,
    sheet: Seq<char>,
    cells: Seq<Target<String>>,
    named: SheetReplies,
    staged: Seq<Option<Seq<char>>>,
)
    requires
        h.len() >= from,
        distinct(cells),
        staged.len() == cells.len(),
        track(texts, h, from).recorded == track(texts, h, from).staged,
        track(texts, h, from).exact,
    ensures
        ({
            let g = logged_formulas_run(h, sheet, cells, named, staged).history;
            let t = track(texts, g, from);
            &&& g.len() >= from
            &&& t.faithful ==> t.recorded == t.staged && t.exact
        }),
{
    broadcast use lemma_track_push;

    let n = cells.len() as int;
    let known = after_sheet(h, sheet, named);
    assert(track(texts, known, from) == track(texts, h, from));
    lemma_staged_reads_track(texts, known, from, sheet, cells, staged);
    let seen = after_staged_reads(known, sheet, cells, staged);
    let opened = seen.push(EngineEvent::EditBegin);
    let id = sheet_of(named);
    lemma_formula_edits_track(texts, opened, from, id, cells, n);
    let closed = formula_edits_run(opened, id, cells, n).history.push(EngineEvent::EditEnd);
    assert(track(texts, closed, from) == track(texts, seen, from));
    lemma_clearings_track(texts, closed, from, sheet, cells, n);
    let cleared = after_clearings(closed, sheet, cells, n);
    if track(texts, seen, from).faithful {
        lemma_losses_track(texts, cleared, from, sheet, cells, staged, n);
    } else {
        lemma_losses_faithful(texts, cleared, from, sheet, cells, staged, n);
    }
}

/// Setting the formulas of a rectangle records truly what becomes of the texts staged
/// for its cells, also where a formula that does not parse ends the batch.
pub proof fn law_formulas_are_recorded_truly<E: WorkbookEngine>(
    texts: Texts,
    h: Seq<EngineEvent<E>>,
    sheet: Seq<char>,
    start_row: u32,
    start_col: u32,
    rows: Seq<Vec<String>>,
    replies: SetFormulasReplies,
)
    requires
        width_of(rows, rows.len() as int) > 0 ==> fits(start_row, start_col, rows),
        rows_answered(
            true,
            start_row,
            start_col,
            rows,
            replies,
            formulas_run(h, true, sheet, start_row, start_col, rows, replies).outcome,
        ),
    ensures
        recorded_truly(
            texts,
            formulas_run(h, true, sheet, start_row, start_col, rows, replies).history,
            h.len() as int,
        ),
{
    broadcast use lemma_track_push;

    let cells = cells_of(start_row, start_col, rows);
    let from = h.len() as int;
    let begun = h.push(EngineEvent::BeginDeferredDirty);
    let wide = width_of(rows, rows.len() as int);
    let end = formulas_run(h, true, sheet, start_row, start_col, rows, replies).history;
    if wide > 0 {
        law_rectangle_cells_are_distinct(start_row, start_col, rows);
        let last_row = start_row + rows.len() - 1;
        let last_col = start_col + wide - 1;
        lemma_capacity_track(texts, begun, from, sheet, last_row, last_col, replies.capacity);
        let asked = after_capacity(begun, sheet, last_row, last_col, replies.capacity).push(
            EngineEvent::Flags { reply: replies.flags },
        );
        assert(track(texts, asked, from) == track(texts, h, from));
        if replies.flags.defer_graph_building {
            lemma_stagings_track(texts, asked, from, sheet, cells, replies.stagings);
        } else {
            lemma_logged_formulas_track(
                texts,
                asked,
                from,
                sheet,
                cells,
                replies.sheet,
                replies.staged,
            );
        }
    }
    lemma_truly(texts, end, from);
}

proof fn lemma_range_edits_track<E: WorkbookEngine>(
    texts: Texts,
    h: Seq<EngineEvent<E>>,
    from: int,
    deferred: bool,
    sheet_id: u32,
    cells: Seq<Target<CellData>>,
    reads: Seq<CellReplies>,
    n: int,
)
    requires
        h.len() >= from,
    ensures
        range_edits_run(h, deferred, sheet_id, cells, reads, n).history.len() >= from,
        track(texts, range_edits_run(h, deferred, sheet_id, cells, reads, n).history, from)
            == track(texts, h, from),
    decreases n,
{
    broadcast use lemma_track_push;

    if n > 0 {
        lemma_range_edits_track(texts, h, from, deferred, sheet_id, cells, reads, n - 1);
    }
}

proof fn lemma_range_mirrors_track<E: WorkbookEngine>(
    texts: Texts,
    h: Seq<EngineEvent<E>>,
    from: int,
    sheet: Seq<char>,
    cells: Seq<Target<CellData>>,
    mirrors: Seq<MirrorReplies>,
)
    requires
        h.len() >= from,
    ensures
        after_range_mirrors(h, sheet, cells, mirrors).len() >= from,
        track(texts, after_range_mirrors(h, sheet, cells, mirrors), from) == track(texts, h, from),
    decreases mirrors.len(),
{
    if mirrors.len() > 0 {
        let fewer = mirrors.drop_last();
        lemma_range_mirrors_track(texts, h, from, sheet, cells, fewer);
        let before = after_range_mirrors(h, sheet, cells, fewer);
        let (row, col, data) = cells[mirrors.len() - 1];
        lemma_mirror_track(texts, before, from, sheet, row, col, data.value->0, mirrors.last());
    }
}

/// Whether two texts agree but for the first `n` cells.
spec fn agree_outside<V>(
    a: Texts,
    b: Texts,
    sheet: Seq<char>,
    cells: Seq<Target<V>>,
    n: int,
) -> bool {
    forall|place: Place|
        (forall|j: int| 0 <= j < n ==> place_of(sheet, #[trigger] cells[j]) != place) ==> text_at(
            a,
            place,
        ) == #[trigger] text_at(b, place)
}

proof fn lemma_range_clearings_track<E: WorkbookEngine>(
    texts: Texts,
    h: Seq<EngineEvent<E>>,
    from: int,
    deferred: bool,
    sheet: Seq<char>,
    cells: Seq<Target<CellData>>,
    n: int,
)
    requires
        h.len() >= from,
        0 <= n <= cells.len(),
    ensures
        ({
            let t = track(texts, h, from);
            let g = after_range_clearings(h, deferred, sheet, cells, n);
            let u = track(texts, g, from);
            &&& g.len() >= from
            &&& u == (Track { staged: u.staged, ..t })
            &&& agree_outside(u.staged, t.staged, sheet, cells, n)
        }),
    decreases n,
{
    broadcast use lemma_track_push;

    if n > 0 {
        lemma_range_clearings_track(texts, h, from, deferred, sheet, cells, n - 1);
        let before = after_range_clearings(h, deferred, sheet, cells, n - 1);
        let after = after_range_clearings(h, deferred, sheet, cells, n);
        let (row, col, data) = cells[n - 1];
        if value_only(data) || (data.formula is Some && !deferred) {
            assert(after == before.push(
                EngineEvent::ClearStagedFormulaText { sheet, row, col },
            ));
            assert(track(texts, after, from).staged == with_text(
                track(texts, before, from).staged,
                place_of(sheet, cells[n - 1]),
                None,
            ));
        }
        lemma_agree_step::<E, CellData>(
            texts,
            h,
            from,
            before,
            after,
            sheet,
            cells,
            n,
        );
    }
}

proof fn lemma_agree_step<E: WorkbookEngine, V>(
    texts: Texts,
    h: Seq<EngineEvent<E>>,
    from: int,
    before: Seq<EngineEvent<E>>,
    after: Seq<EngineEvent<E>>,
    sheet: Seq<char>,
    cells: Seq<Target<V>>,
    n: int,
)
    requires
        0 < n <= cells.len(),
        agree_outside(
            track(texts, before, from).staged,
            track(texts, h, from).staged,
            sheet,
            cells,
            n - 1,
        ),
        ({
            let a = track(texts, after, from).staged;
            let b = track(texts, before, from).staged;
            a == b || exists|text: Option<Seq<char>>|
                a == #[trigger] with_text(b, place_of(sheet, cells[n - 1]), text)
        }),
    ensures
        agree_outside(
            track(texts, after, from).staged,
            track(texts, h, from).staged,
            sheet,
            cells,
            n,
        ),
{
    let a = track(texts, after, from).staged;
    let b = track(texts, before, from).staged;
    let c = track(texts, h, from).staged;
    assert forall|place: Place|
        (forall|j: int| 0 <= j < n ==> place_of(sheet, #[trigger] cells[j]) != place) implies text_at(
        a,
        place,
    ) == #[trigger] text_at(c, place) by {
        assert(place_of(sheet, cells[n - 1]) != place);
        assert(forall|j: int| 0 <= j < n - 1 ==> place_of(sheet, #[trigger] cells[j]) != place);
        assert(text_at(b, place) == text_at(c, place));
    }
}

proof fn lemma_range_stagings_track<E: WorkbookEngine>(
    texts: Texts,
    h: Seq<EngineEvent<E>>,
    from: int,
    deferred: bool,
    sheet: Seq<char>,
    cells: Seq<Target<CellData>>,
    n: int,
)
    requires
        h.len() >= from,
        0 <= n <= cells.len(),
    ensures
        ({
            let t = track(texts, h, from);
            let g = after_range_stagings(h, deferred, sheet, cells, n);
            let u = track(texts, g, from);
            &&& g.len() >= from
            &&& u == (Track { staged: u.staged, ..t })
            &&& agree_outside(u.staged, t.staged, sheet, cells, n)
        }),
    decreases n,
{
    broadcast use lemma_track_push;

    if n > 0 {
        lemma_range_stagings_track(texts, h, from, deferred, sheet, cells, n - 1);
        let before = after_range_stagings(h, deferred, sheet, cells, n - 1);
        let after = after_range_stagings(h, deferred, sheet, cells, n);
        let (row, col, data) = cells[n - 1];
        if data.formula is Some && deferred {
            assert(after == before.push(
                EngineEvent::StageFormulaText { sheet, row, col, formula: (data.formula->0)@ },
            ));
            assert(track(texts, after, from).staged == with_text(
                track(texts, before, from).staged,
                place_of(sheet, cells[n - 1]),
                Some((data.formula->0)@),
            ));
        }
        lemma_agree_step::<E, CellData>(
            texts,
            h,
            from,
            before,
            after,
            sheet,
            cells,
            n,
        );
    }
}

/// The texts `a` with those of `b` for the first `n` cells.
spec fn merged<V>(
    a: Texts,
    b: Texts,
    sheet: Seq<char>,
    cells: Seq<Target<V>>,
    n: int,
) -> Texts
    decreases n,
{
    if n <= 0 {
        a
    } else {
        let place = place_of(sheet, cells[n - 1]);
        with_text(merged(a, b, sheet, cells, n - 1), place, text_at(b, place))
    }
}

proof fn lemma_merged_outside<V>(
    a: Texts,
    b: Texts,
    sheet: Seq<char>,
    cells: Seq<Target<V>>,
    n: int,
    place: Place,
)
    requires
        0 <= n <= cells.len(),
        forall|j: int| 0 <= j < n ==> place_of(sheet, #[trigger] cells[j]) != place,
    ensures
        text_at(merged(a, b, sheet, cells, n), place) == text_at(a, place),
    decreases n,
{
    if n > 0 {
        lemma_merged_outside(a, b, sheet, cells, n - 1, place);
        assert(place_of(sheet, cells[n - 1]) != place);
    }
}

proof fn lemma_merged_inside<V>(
    a: Texts,
    b: Texts,
    sheet: Seq<char>,
    cells: Seq<Target<V>>,
    n: int,
    k: int,
)
    requires
        0 <= k < n <= cells.len(),
    ensures
        text_at(merged(a, b, sheet, cells, n), place_of(sheet, cells[k])) == text_at(
            b,
            place_of(sheet, cells[k]),
        ),
    decreases n,
{
    if place_of(sheet, cells[n - 1]) != place_of(sheet, cells[k]) {
        lemma_merged_inside(a, b, sheet, cells, n - 1, k);
    }
}

proof fn lemma_merged_all<V>(a: Texts, b: Texts, sheet: Seq<char>, cells: Seq<Target<V>>)
    requires
        agree_outside(b, a, sheet, cells, cells.len() as int),
    ensures
        merged(a, b, sheet, cells, cells.len() as int) == b,
{
    let n = cells.len() as int;
    let m = merged(a, b, sheet, cells, n);
    assert forall|place: Place| #[trigger] text_at(m, place) == text_at(b, place) by {
        if forall|j: int| 0 <= j < n ==> place_of(sheet, #[trigger] cells[j]) != place {
            lemma_merged_outside(a, b, sheet, cells, n, place);
        } else {
            let k = choose|k: int| 0 <= k < n && place_of(sheet, #[trigger] cells[k]) == place;
            lemma_merged_inside(a, b, sheet, cells, n, k);
        }
    }
    assert forall|place: Place| m.dom().contains(place) == b.dom().contains(place) by {
        assert(text_at(m, place) == text_at(b, place));
    }
    assert forall|place: Place| m.dom().contains(place) implies m[place] == b[place] by {
        assert(text_at(m, place) == text_at(b, place));
    }
    assert(m =~= b);
}

proof fn lemma_range_deltas_track<E: WorkbookEngine>(
    texts: Texts,
    h: Seq<EngineEvent<E>>,
    from: int,
    sheet: Seq<char>,
    cells: Seq<Target<CellData>>,
    reads: Seq<CellReplies>,
    afters: Seq<Option<Seq<char>>>,
)
    requires
        h.len() >= from,
        distinct(cells),
        afters.len() <= cells.len(),
        reads.len() == cells.len(),
        reads_true(track(texts, h, from).recorded, sheet, cells, reads),
    ensures
        ({
            let t = track(texts, h, from);
            let g = after_range_deltas(h, sheet, cells, reads, afters);
            let u = track(texts, g, from);
            &&& g.len() >= from
            &&& u.staged == t.staged
            &&& u.faithful ==> u.recorded == merged(
                t.recorded,
                t.staged,
                sheet,
                cells,
                afters.len() as int,
            ) && u.exact == t.exact
        }),
    decreases afters.len(),
{
    broadcast use lemma_track_push;

    if afters.len() > 0 {
        let n = afters.len() - 1;
        let fewer = afters.drop_last();
        lemma_range_deltas_track(texts, h, from, sheet, cells, reads, fewer);
        let t = track(texts, h, from);
        let (row, col, _) = cells[n];
        let place = place_of(sheet, cells[n]);
        let before = after_range_deltas(h, sheet, cells, reads, fewer);
        let reread = before.push(
            EngineEvent::StagedFormulaText { sheet, row, col, reply: afters.last() },
        );
        if track(texts, reread, from).faithful {
            assert forall|j: int| 0 <= j < n implies place_of(sheet, #[trigger] cells[j])
                != place by {
                assert(cells[j].0 != cells[n].0 || cells[j].1 != cells[n].1);
            }
            lemma_merged_outside(t.recorded, t.staged, sheet, cells, n, place);
            assert(reads[n].staged == text_at(t.recorded, place));
            lemma_delta_track(
                texts,
                reread,
                from,
                sheet,
                row,
                col,
                reads[n].staged,
                afters.last(),
            );
        }
    }
}

proof fn lemma_range_deltas_faithful<E: WorkbookEngine>(
    texts: Texts,
    h: Seq<EngineEvent<E>>,
    from: int,
    sheet: Seq<char>,
    cells: Seq<Target<CellData>>,
    reads: Seq<CellReplies>,
    afters: Seq<Option<Seq<char>>>,
)
    requires
        h.len() >= from,
    ensures
        after_range_deltas(h, sheet, cells, reads, afters).len() >= from,
        track(texts, after_range_deltas(h, sheet, cells, reads, afters), from).faithful ==> track(
            texts,
            h,
            from,
        ).faithful,
    decreases afters.len(),
{
    broadcast use lemma_track_push;

    if afters.len() > 0 {
        lemma_range_deltas_faithful(texts, h, from, sheet, cells, reads, afters.drop_last());
    }
}

/// The cells of a listing are distinct.
pub proof fn law_listed_cells_are_distinct(
    order: Seq<Target<CellData>>,
    cells: Map<(u32, u32), CellData>,
)
    requires
        is_listing(order, cells),
    ensures
        distinct(order),
{
    assert forall|i: int, j: int| 0 <= i < j < order.len() implies (#[trigger] order[i]).0 != (
    #[trigger] order[j]).0 || order[i].1 != order[j].1 by {
        assert(cell_before((order[i].0, order[i].1), (order[j].0, order[j].1)));
    }
}

/// Writing cells in a batch records truly what becomes of the texts staged for them,
/// also where a formula that does not parse ends the batch.
pub proof fn law_range_is_recorded_truly<E: WorkbookEngine>(
    texts: Texts,
    h: Seq<EngineEvent<E>>,
    sheet: Seq<char>,
    cells: Map<(u32, u32), CellData>,
    order: Seq<Target<CellData>>,
    replies: WriteRangeReplies,
)
    requires
        is_listing(order, cells),
        range_answered(
            true,
            order.len(),
            replies,
            range_run(h, true, sheet, order, replies).outcome,
        ),
    ensures
        recorded_truly(
            texts,
            range_run(h, true, sheet, order, replies).history,
            h.len() as int,
        ),
{
    broadcast use lemma_track_push;

    law_listed_cells_are_distinct(order, cells);
    let from = h.len() as int;
    let n = order.len() as int;
    let deferred = replies.flags.defer_graph_building;
    let begun = h.push(EngineEvent::BeginDeferredDirty);
    let asked = after_sheet(begun, sheet, replies.sheet).push(
        EngineEvent::Flags { reply: replies.flags },
    );
    assert(track(texts, asked, from) == track(texts, h, from));
    lemma_reads_track(texts, asked, from, sheet, order, replies.reads);
    let seen = after_reads(asked, sheet, order, replies.reads);
    let opened = seen.push(EngineEvent::EditBegin);
    let id = sheet_of(replies.sheet);
    lemma_range_edits_track(texts, opened, from, deferred, id, order, replies.reads, n);
    let edits = range_edits_run(opened, deferred, id, order, replies.reads, n);
    let closed = edits.history.push(EngineEvent::EditEnd);
    assert(track(texts, closed, from) == track(texts, seen, from));
    let end = range_run(h, true, sheet, order, replies).history;
    if edits.outcome is Ok {
        lemma_range_mirrors_track(texts, closed, from, sheet, order, replies.mirrors);
        let mirrored = after_range_mirrors(closed, sheet, order, replies.mirrors);
        lemma_range_clearings_track(texts, mirrored, from, deferred, sheet, order, n);
        let cleared = after_range_clearings(mirrored, deferred, sheet, order, n);
        lemma_range_stagings_track(texts, cleared, from, deferred, sheet, order, n);
        let staged = after_range_stagings(cleared, deferred, sheet, order, n);
        let recorded = after_range_deltas(staged, sheet, order, replies.reads, replies.afters);
        if track(texts, seen, from).faithful {
            let s = track(texts, staged, from).staged;
            let c = track(texts, cleared, from).staged;
            assert forall|place: Place|
                (forall|j: int| 0 <= j < n ==> place_of(sheet, #[trigger] order[j])
                    != place) implies text_at(s, place) == #[trigger] text_at(texts, place) by {
                assert(text_at(s, place) == text_at(c, place));
            }
            lemma_range_deltas_track(
                texts,
                staged,
                from,
                sheet,
                order,
                replies.reads,
                replies.afters,
            );
            lemma_merged_all(texts, s, sheet, order);
        } else {
            lemma_range_deltas_faithful(
                texts,
                staged,
                from,
                sheet,
                order,
                replies.reads,
                replies.afters,
            );
        }
    }
    lemma_truly(texts, end, from);
}

} // verus!
