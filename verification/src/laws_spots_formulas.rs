//! Laws on what a setting of many formulas leaves at any one place of a sheet.

use crate::batch::Target;
use crate::batch_formulas::{
    after_clearings, after_losses, after_staged_reads, after_stagings, formula_edits_run,
    formulas_run, plain_formulas_run, rows_answered, SetFormulasReplies, StagingReplies,
};
use crate::cells::{after_sheet, sheet_of};
use crate::engine::{EngineEvent, WorkbookEngine};
use crate::error::{io_view, ExcelError, IoError};
use crate::formula::parsed_text;
use crate::grid::{cells_of, fits, width_of};
use crate::laws_action::signed;
use crate::laws_grid::{law_signed_formulas_are_parsed, law_width_is_that_of_the_longest_row};
use crate::laws_spot::{
    has_room, holds, laid_over, lemma_capacity, lemma_overlay_push, lemma_room_push,
    lemma_spot_push, marks_of, overlay, room, sheet_after, spot, truthful, Place, Sheet, Spot,
};
use crate::laws_spots::{
    from_one, hit, in_rows, lemma_one_more, lemma_rows_hit, lemma_sheet_asked, only_asked,
};
use crate::store::after_capacity;
use crate::workbook::Workbook;
use vstd::prelude::*;

verus! {

/// Whether the store and what is laid over it were left alone from `g` to `end`.
pub open spec fn store_left_alone<E: WorkbookEngine>(
    s: Sheet,
    k: Place,
    g: Seq<EngineEvent<E>>,
    end: Seq<EngineEvent<E>>,
    from: int,
) -> bool {
    &&& end.len() >= g.len()
    &&& room(s.room, k.sheet, end, from) == room(s.room, k.sheet, g, from)
    &&& overlay(s.overlay, k, end, from).value == overlay(s.overlay, k, g, from).value
    &&& overlay(s.overlay, k, end, from).sound == overlay(s.overlay, k, g, from).sound
    &&& overlay(s.overlay, k, end, from).truth ==> overlay(s.overlay, k, g, from).truth
}

proof fn lemma_stagings<E: WorkbookEngine>(
    s: Sheet,
    k: Place,
    g: Seq<EngineEvent<E>>,
    from: int,
    logged: bool,
    cells: Seq<Target<String>>,
    stagings: Seq<StagingReplies>,
)
    requires
        0 <= from <= g.len(),
        stagings.len() <= cells.len(),
    ensures
        ({
            let end = after_stagings(g, logged, k.sheet, cells, stagings);
            let before = spot(s.spot, k, g, from);
            let after = spot(s.spot, k, end, from);
            &&& store_left_alone(s, k, g, end, from)
            &&& after.truth ==> before.truth
            &&& after == (Spot {
                truth: after.truth,
                text: match hit(cells, stagings.len() as int, k) {
                    Some(formula) => Some(formula@),
                    None => before.text,
                },
                ..before
            })
        }),
    decreases stagings.len(),
{
    broadcast use lemma_spot_push;
    broadcast use lemma_room_push;
    broadcast use lemma_overlay_push;

    if stagings.len() > 0 {
        lemma_stagings(s, k, g, from, logged, cells, stagings.drop_last());
    }
}

proof fn lemma_staged_reads<E: WorkbookEngine>(
    s: Sheet,
    k: Place,
    g: Seq<EngineEvent<E>>,
    from: int,
    cells: Seq<Target<String>>,
    staged: Seq<Option<Seq<char>>>,
)
    requires
        0 <= from <= g.len(),
    ensures
        store_left_alone(s, k, g, after_staged_reads(g, k.sheet, cells, staged), from),
        only_asked(
            spot(s.spot, k, g, from),
            spot(s.spot, k, after_staged_reads(g, k.sheet, cells, staged), from),
        ),
    decreases staged.len(),
{
    broadcast use lemma_spot_push;
    broadcast use lemma_room_push;
    broadcast use lemma_overlay_push;

    if staged.len() > 0 {
        lemma_staged_reads(s, k, g, from, cells, staged.drop_last());
    }
}

proof fn lemma_formula_edits<E: WorkbookEngine>(
    s: Sheet,
    k: Place,
    g: Seq<EngineEvent<E>>,
    from: int,
    id: u32,
    cells: Seq<Target<String>>,
    n: int,
)
    requires
        0 <= from <= g.len(),
        0 <= n <= cells.len(),
        from_one(cells),
        k.row >= 1,
        k.col >= 1,
        spot(s.spot, k, g, from).open,
        formula_edits_run(g, id, cells, n).outcome is Ok,
    ensures
        ({
            let end = formula_edits_run(g, id, cells, n).history;
            let before = spot(s.spot, k, g, from);
            let after = spot(s.spot, k, end, from);
            &&& store_left_alone(s, k, g, end, from)
            &&& after.truth == before.truth
            &&& after.open
            &&& hit(cells, n, k) is Some ==> parsed_text(signed((hit(cells, n, k)->0)@)) is Ok
            &&& id == k.id ==> after == match hit(cells, n, k) {
                Some(formula) => Spot {
                    value: None,
                    tree: Some(parsed_text(signed(formula@))->Ok_0),
                    held: true,
                    ..before
                },
                None => before,
            }
        }),
    decreases n,
{
    broadcast use lemma_spot_push;
    broadcast use lemma_room_push;
    broadcast use lemma_overlay_push;

    if n > 0 {
        lemma_formula_edits(s, k, g, from, id, cells, n - 1);
        assert(cells[n - 1].0 >= 1 && cells[n - 1].1 >= 1);
        law_signed_formulas_are_parsed(cells[n - 1].2@);
    }
}

proof fn lemma_clearings<E: WorkbookEngine>(
    s: Sheet,
    k: Place,
    g: Seq<EngineEvent<E>>,
    from: int,
    cells: Seq<Target<String>>,
    n: int,
)
    requires
        0 <= from <= g.len(),
        0 <= n <= cells.len(),
    ensures
        ({
            let end = after_clearings(g, k.sheet, cells, n);
            let before = spot(s.spot, k, g, from);
            &&& store_left_alone(s, k, g, end, from)
            &&& spot(s.spot, k, end, from) == (Spot {
                text: if hit(cells, n, k) is Some {
                    None
                } else {
                    before.text
                },
                ..before
            })
        }),
    decreases n,
{
    broadcast use lemma_spot_push;
    broadcast use lemma_room_push;
    broadcast use lemma_overlay_push;

    if n > 0 {
        lemma_clearings(s, k, g, from, cells, n - 1);
    }
}

proof fn lemma_losses<E: WorkbookEngine>(
    s: Sheet,
    k: Place,
    g: Seq<EngineEvent<E>>,
    from: int,
    cells: Seq<Target<String>>,
    staged: Seq<Option<Seq<char>>>,
    n: int,
)
    requires
        0 <= from <= g.len(),
    ensures
        store_left_alone(s, k, g, after_losses(g, k.sheet, cells, staged, n), from),
        spot(s.spot, k, after_losses(g, k.sheet, cells, staged, n), from) == spot(
            s.spot,
            k,
            g,
            from,
        ),
    decreases n,
{
    broadcast use lemma_spot_push;
    broadcast use lemma_room_push;
    broadcast use lemma_overlay_push;

    if n > 0 {
        lemma_losses(s, k, g, from, cells, staged, n - 1);
    }
}

proof fn lemma_plain_formulas<E: WorkbookEngine>(
    s: Sheet,
    k: Place,
    g: Seq<EngineEvent<E>>,
    from: int,
    cells: Seq<Target<String>>,
    sets: Seq<Result<(), ExcelError>>,
)
    requires
        0 <= from <= g.len(),
        sets.len() <= cells.len(),
        plain_formulas_run(g, k.sheet, cells, sets).outcome is Ok,
    ensures
        ({
            let end = plain_formulas_run(g, k.sheet, cells, sets).history;
            let n = sets.len() as int;
            let before = spot(s.spot, k, g, from);
            &&& store_left_alone(s, k, g, end, from)
            &&& hit(cells, n, k) is Some ==> parsed_text(signed((hit(cells, n, k)->0)@)) is Ok
            &&& spot(s.spot, k, end, from) == match hit(cells, n, k) {
                Some(formula) => Spot {
                    value: None,
                    tree: Some(parsed_text(signed(formula@))->Ok_0),
                    held: true,
                    text: None,
                    ..before
                },
                None => before,
            }
        }),
    decreases sets.len(),
{
    broadcast use lemma_spot_push;
    broadcast use lemma_room_push;
    broadcast use lemma_overlay_push;

    if sets.len() > 0 {
        lemma_plain_formulas(s, k, g, from, cells, sets.drop_last());
        law_signed_formulas_are_parsed(cells[sets.len() - 1].2@);
    }
}

/// Whether `e` is what a setting of formulas leaves of `s`, where `formula` is the one for
/// the place.
pub open spec fn formulas_left(
    s: Sheet,
    e: Sheet,
    k: Place,
    logged: bool,
    formula: Option<String>,
) -> bool {
    let deferred = k.flags.defer_graph_building;
    &&& s.spot.sound ==> e.spot.sound
    &&& laid_over(k, s.overlay, e.overlay, None)
    &&& e.spot.marks == s.spot.marks + marks_of(logged && !deferred)
    &&& formula is None ==> holds(e.spot, s.spot.value, s.spot.tree, s.spot.text)
    &&& formula is Some && deferred ==> holds(
        e.spot,
        s.spot.value,
        s.spot.tree,
        Some((formula->0)@),
    )
    &&& formula is Some && !deferred ==> parsed_text(signed((formula->0)@)) is Ok && holds(
        e.spot,
        None,
        Some(parsed_text(signed((formula->0)@))->Ok_0),
        None,
    )
}

proof fn lemma_formulas_left<E: WorkbookEngine>(
    s: Sheet,
    k: Place,
    h: Seq<EngineEvent<E>>,
    logged: bool,
    row: u32,
    col: u32,
    rows: Seq<Vec<String>>,
    replies: SetFormulasReplies,
)
    requires
        fits(row, col, rows),
        row >= 1,
        col >= 1,
        k.row >= 1,
        k.col >= 1,
        width_of(rows, rows.len() as int) > 0,
        formulas_run(h, logged, k.sheet, row, col, rows, replies).outcome is Ok,
        rows_answered(logged, row, col, rows, replies, Ok(())),
    ensures
        ({
            let run = formulas_run(h, logged, k.sheet, row, col, rows, replies);
            let e = sheet_after(s, k, run.history, h.len() as int);
            truthful(e) ==> formulas_left(s, e, k, logged, in_rows(rows, row, col, k)) && has_room(
                s.room,
                e.room,
                row + rows.len() - 1,
                col + width_of(rows, rows.len() as int) - 1,
            )
        }),
{
    let from = h.len() as int;
    let cells = cells_of(row, col, rows);
    let n = cells.len() as int;
    let wide = width_of(rows, rows.len() as int);
    let (last_row, last_col) = (row + rows.len() - 1, col + wide - 1);
    lemma_rows_hit(row, col, rows, k);
    law_width_is_that_of_the_longest_row(rows);
    let widest = choose|i: int| 0 <= i < rows.len() && (#[trigger] rows[i])@.len() == wide;
    assert(col + rows[widest]@.len() <= 0x1_0000_0000);
    let begun = h.push(EngineEvent::BeginDeferredDirty);
    lemma_one_more(s, k, h, from, EngineEvent::BeginDeferredDirty);
    lemma_capacity(
        s.spot,
        s.room,
        s.overlay,
        k,
        begun,
        from,
        last_row,
        last_col,
        replies.capacity,
    );
    let roomy = after_capacity(begun, k.sheet, last_row, last_col, replies.capacity);
    let flags: EngineEvent<E> = EngineEvent::Flags { reply: replies.flags };
    lemma_one_more(s, k, roomy, from, flags);
    let asked = roomy.push(flags);
    if replies.flags.defer_graph_building {
        lemma_stagings(s, k, asked, from, logged, cells, replies.stagings);
        let staged = after_stagings(asked, logged, k.sheet, cells, replies.stagings);
        lemma_one_more(s, k, staged, from, EngineEvent::EndDeferredDirty);
    } else if logged {
        lemma_sheet_asked(s, k, asked, from, replies.sheet);
        let named = after_sheet(asked, k.sheet, replies.sheet);
        lemma_staged_reads(s, k, named, from, cells, replies.staged);
        let seen = after_staged_reads(named, k.sheet, cells, replies.staged);
        lemma_one_more(s, k, seen, from, EngineEvent::EditBegin);
        let opened = seen.push(EngineEvent::EditBegin);
        let id = sheet_of(replies.sheet);
        lemma_formula_edits(s, k, opened, from, id, cells, n);
        let edits = formula_edits_run(opened, id, cells, n).history;
        lemma_one_more(s, k, edits, from, EngineEvent::EditEnd);
        let closed = edits.push(EngineEvent::EditEnd);
        lemma_clearings(s, k, closed, from, cells, n);
        let cleared = after_clearings(closed, k.sheet, cells, n);
        lemma_losses(s, k, cleared, from, cells, replies.staged, n);
        let recorded = after_losses(cleared, k.sheet, cells, replies.staged, n);
        lemma_one_more(s, k, recorded, from, EngineEvent::MarkDataEdited);
        let marked = recorded.push(EngineEvent::MarkDataEdited);
        lemma_one_more(s, k, marked, from, EngineEvent::EndDeferredDirty);
    } else {
        lemma_plain_formulas(s, k, asked, from, cells, replies.sets);
        let set = plain_formulas_run(asked, k.sheet, cells, replies.sets).history;
        lemma_one_more(s, k, set, from, EngineEvent::EndDeferredDirty);
    }
}

/// What a successful setting of the formulas of a rectangle leaves at any place of the
/// sheet. In the cell that lies as far from the first one as a formula does in the rows:
/// its tree in the graph and no staged text; or, while graph building is deferred, its text
/// as it was given among the staged ones and the rest as it was. The sheet is in the store
/// and has room for every row and for the longest one. All other places are as they were,
/// and nothing is laid over the store.
pub proof fn law_set_formulas_leaves_the_formulas<E: WorkbookEngine>(
    sheet: &str,
    start_row: u32,
    start_col: u32,
    rows: &[Vec<String>],
    s: Sheet,
    k: Place,
    longest: int,
)
    requires
        fits(start_row, start_col, rows@),
        start_row >= 1,
        start_col >= 1,
        k.sheet == sheet@,
        k.row >= 1,
        k.col >= 1,
        0 <= longest < rows@.len(),
        rows@[longest]@.len() > 0,
        forall|i: int|
            0 <= i < rows@.len() ==> (#[trigger] rows@[i])@.len() <= rows@[longest]@.len(),
    ensures
        forall|wb: &mut Workbook<E>| #[trigger]
            call_ensures(
                Workbook::<E>::set_formulas,
                (wb, sheet, start_row, start_col, rows),
                Ok(()),
            ) ==> {
                let e = sheet_after(
                    s,
                    k,
                    (*final(wb)).history(),
                    (*wb).history().len() as int,
                );
                truthful(e) ==> formulas_left(
                    s,
                    e,
                    k,
                    (*wb).logged(),
                    in_rows(rows@, start_row, start_col, k),
                ) && has_room(
                    s.room,
                    e.room,
                    start_row + rows@.len() - 1,
                    start_col + rows@[longest]@.len() - 1,
                )
            },
{
    assert forall|wb: &mut Workbook<E>| #[trigger]
        call_ensures(
            Workbook::<E>::set_formulas,
            (wb, sheet, start_row, start_col, rows),
            Ok(()),
        ) implies {
        let e = sheet_after(s, k, (*final(wb)).history(), (*wb).history().len() as int);
        truthful(e) ==> formulas_left(
            s,
            e,
            k,
            (*wb).logged(),
            in_rows(rows@, start_row, start_col, k),
        ) && has_room(
            s.room,
            e.room,
            start_row + rows@.len() - 1,
            start_col + rows@[longest]@.len() - 1,
        )
    } by {
        let h = (*wb).history();
        let r: Result<(), IoError> = Ok(());
        let replies = choose|replies: SetFormulasReplies|
            crate::cells::ran((*final(wb)).history(), r) == #[trigger] formulas_run(
                h,
                (*wb).logged(),
                sheet@,
                start_row,
                start_col,
                rows@,
                replies,
            ) && rows_answered(
                (*wb).logged(),
                start_row,
                start_col,
                rows@,
                replies,
                io_view(r),
            );
        law_width_is_that_of_the_longest_row(rows@);
        lemma_formulas_left(s, k, h, (*wb).logged(), start_row, start_col, rows@, replies);
    }
}

/// A setting of formulas without a cell does nothing but to open and close the bracket that
/// holds the spreading of changes back, and succeeds.
pub proof fn law_no_formulas_change_nothing<E: WorkbookEngine>(
    sheet: &str,
    start_row: u32,
    start_col: u32,
    rows: &[Vec<String>],
    r: Result<(), IoError>,
)
    requires
        forall|i: int| 0 <= i < rows@.len() ==> (#[trigger] rows@[i])@.len() == 0,
    ensures
        forall|wb: &mut Workbook<E>| #[trigger]
            call_ensures(
                Workbook::<E>::set_formulas,
                (wb, sheet, start_row, start_col, rows),
                r,
            ) ==> r is Ok && (*final(wb)).history() == (*wb).history().push(
                EngineEvent::BeginDeferredDirty,
            ).push(EngineEvent::EndDeferredDirty),
{
    law_width_is_that_of_the_longest_row(rows@);
}

} // verus!
