//! Laws on what a writing of many cells leaves at any one place of a sheet.

use crate::batch::{after_reads, CellReplies, Target};
use crate::batch_range::{
    after_range_clearings, after_range_deltas, after_range_mirrors, after_range_stagings,
    plain_range_run, range_answered, range_edits_run, range_run, PlainCellReplies,
    WriteRangeReplies,
};
use crate::cell_data::{cell_before, is_listing, CellData};
use crate::cells::{after_sheet, sheet_of};
use crate::engine::{EngineEvent, WorkbookEngine};
use crate::error::{io_view, IoError};
use crate::formula::parsed_text;
use crate::laws_action::signed;
use crate::laws_grid::law_signed_formulas_are_parsed;
use crate::laws_spot::{
    holds, laid_over, lemma_mirror, lemma_overlay_push, lemma_room_push, lemma_spot_push,
    marks_of, overlay, overlays, room, sheet_after, spot, truthful, Place, Sheet, Spot,
};
use crate::laws_spots::{
    apart, from_one, hit, lemma_hit, lemma_no_hit, lemma_one_more, lemma_reads_asked,
    lemma_sheet_asked, only_asked,
};
use crate::laws_spots_formulas::store_left_alone;
use crate::store::MirrorReplies;
use crate::value::LiteralValue;
use crate::workbook::Workbook;
use std::collections::BTreeMap;
use vstd::prelude::*;

verus! {

/// The spot `z` with what `data` gives the graph.
pub open spec fn graph_given(z: Spot, deferred: bool, data: CellData) -> Spot {
    if data.formula is Some && !deferred {
        Spot {
            value: None,
            tree: Some(parsed_text(signed((data.formula->0)@))->Ok_0),
            held: true,
            ..z
        }
    } else if data.value is Some {
        Spot { value: data.value, tree: None, held: true, ..z }
    } else {
        z
    }
}

/// The text that is staged where `data` was given and `text` was staged.
pub open spec fn text_given(
    text: Option<Seq<char>>,
    deferred: bool,
    data: CellData,
) -> Option<Seq<char>> {
    match data.formula {
        Some(formula) => if deferred {
            Some(formula@)
        } else {
            None
        },
        None => if data.value is Some {
            None
        } else {
            text
        },
    }
}

/// The value that `data` lays over the store: the one of a cell without a formula.
pub open spec fn laid_given(data: Option<CellData>) -> Option<LiteralValue> {
    match data {
        Some(d) => if d.formula is None {
            d.value
        } else {
            None
        },
        None => None,
    }
}

proof fn lemma_first_hit(cells: Seq<Target<CellData>>, n: int, k: Place)
    requires
        apart(cells),
        0 < n <= cells.len(),
        cells[n - 1].0 == k.row,
        cells[n - 1].1 == k.col,
    ensures
        hit(cells, n - 1, k) is None,
{
    assert forall|i: int| 0 <= i < n - 1 implies (#[trigger] cells[i]).0 != k.row || cells[i].1
        != k.col by {
        assert(cells[i].0 != cells[n - 1].0 || cells[i].1 != cells[n - 1].1);
    }
    lemma_no_hit(cells, n - 1, k);
}

proof fn lemma_range_edits<E: WorkbookEngine>(
    s: Sheet,
    k: Place,
    g: Seq<EngineEvent<E>>,
    from: int,
    deferred: bool,
    id: u32,
    cells: Seq<Target<CellData>>,
    reads: Seq<CellReplies>,
    n: int,
)
    requires
        0 <= from <= g.len(),
        0 <= n <= cells.len(),
        from_one(cells),
        apart(cells),
        k.row >= 1,
        k.col >= 1,
        spot(s.spot, k, g, from).open,
        range_edits_run(g, deferred, id, cells, reads, n).outcome is Ok,
    ensures
        ({
            let end = range_edits_run(g, deferred, id, cells, reads, n).history;
            let before = spot(s.spot, k, g, from);
            let after = spot(s.spot, k, end, from);
            let data = hit(cells, n, k);
            &&& store_left_alone(s, k, g, end, from)
            &&& after.truth == before.truth
            &&& after.open
            &&& data is Some && (data->0).formula is Some && !deferred ==> parsed_text(
                signed(((data->0).formula->0)@),
            ) is Ok
            &&& id == k.id ==> after == match data {
                Some(d) => graph_given(before, deferred, d),
                None => before,
            }
        }),
    decreases n,
{
    broadcast use lemma_spot_push;
    broadcast use lemma_room_push;
    broadcast use lemma_overlay_push;

    if n > 0 {
        lemma_range_edits(s, k, g, from, deferred, id, cells, reads, n - 1);
        assert(cells[n - 1].0 >= 1 && cells[n - 1].1 >= 1);
        let data = cells[n - 1].2;
        if data.formula is Some {
            law_signed_formulas_are_parsed((data.formula->0)@);
        }
        if cells[n - 1].0 == k.row && cells[n - 1].1 == k.col {
            lemma_first_hit(cells, n, k);
        }
    }
}

proof fn lemma_range_mirrors<E: WorkbookEngine>(
    s: Sheet,
    k: Place,
    g: Seq<EngineEvent<E>>,
    from: int,
    cells: Seq<Target<CellData>>,
    mirrors: Seq<MirrorReplies>,
)
    requires
        0 <= from <= g.len(),
        mirrors.len() <= cells.len(),
        from_one(cells),
        apart(cells),
    ensures
        ({
            let end = after_range_mirrors(g, k.sheet, cells, mirrors);
            let data = hit(cells, mirrors.len() as int, k);
            let before = spot(s.spot, k, g, from);
            let after = spot(s.spot, k, end, from);
            let old_room = room(s.room, k.sheet, g, from);
            let new_room = room(s.room, k.sheet, end, from);
            let old_laid = overlay(s.overlay, k, g, from);
            let new_laid = overlay(s.overlay, k, end, from);
            &&& end.len() >= g.len()
            &&& only_asked(before, after)
            &&& after.truth && new_room.truth ==> old_room.truth && (old_room.sound
                ==> new_room.sound) && (old_room.stored ==> new_room.stored && new_room.rows
                >= old_room.rows && new_room.columns >= old_room.columns)
            &&& after.truth && new_room.truth && overlays(k) && laid_given(data) is Some
                ==> new_room.stored && new_room.rows >= k.row && new_room.columns >= k.col
            &&& after.truth && !overlays(k) ==> new_room == old_room
            &&& new_laid.truth ==> old_laid.truth && laid_over(
                k,
                old_laid,
                new_laid,
                if overlays(k) {
                    laid_given(data)
                } else {
                    None
                },
            )
        }),
    decreases mirrors.len(),
{
    if mirrors.len() > 0 {
        let n = mirrors.len() - 1;
        let (row, col, data) = cells[n];
        lemma_range_mirrors(s, k, g, from, cells, mirrors.drop_last());
        let before = after_range_mirrors(g, k.sheet, cells, mirrors.drop_last());
        if row == k.row && col == k.col {
            lemma_first_hit(cells, n + 1, k);
        }
        if data.value is Some && data.formula is None {
            lemma_mirror(
                s.spot,
                s.room,
                s.overlay,
                k,
                before,
                from,
                row,
                col,
                data.value->0,
                mirrors.last(),
            );
        }
    }
}

proof fn lemma_range_texts<E: WorkbookEngine>(
    s: Sheet,
    k: Place,
    g: Seq<EngineEvent<E>>,
    from: int,
    deferred: bool,
    cells: Seq<Target<CellData>>,
    n: int,
)
    requires
        0 <= from <= g.len(),
        0 <= n <= cells.len(),
        apart(cells),
    ensures
        ({
            let end = after_range_clearings(g, deferred, k.sheet, cells, n);
            let before = spot(s.spot, k, g, from);
            let data = hit(cells, n, k);
            &&& store_left_alone(s, k, g, end, from)
            &&& spot(s.spot, k, end, from) == (Spot {
                text: if data is Some && !((data->0).formula is Some && deferred) {
                    text_given(before.text, deferred, data->0)
                } else {
                    before.text
                },
                ..before
            })
        }),
        ({
            let end = after_range_stagings(g, deferred, k.sheet, cells, n);
            let before = spot(s.spot, k, g, from);
            let data = hit(cells, n, k);
            &&& store_left_alone(s, k, g, end, from)
            &&& spot(s.spot, k, end, from) == (Spot {
                text: if data is Some && (data->0).formula is Some && deferred {
                    text_given(before.text, deferred, data->0)
                } else {
                    before.text
                },
                ..before
            })
        }),
    decreases n,
{
    broadcast use lemma_spot_push;
    broadcast use lemma_room_push;
    broadcast use lemma_overlay_push;

    if n > 0 {
        lemma_range_texts(s, k, g, from, deferred, cells, n - 1);
        if cells[n - 1].0 == k.row && cells[n - 1].1 == k.col {
            lemma_first_hit(cells, n, k);
        }
    }
}

proof fn lemma_range_deltas<E: WorkbookEngine>(
    s: Sheet,
    k: Place,
    g: Seq<EngineEvent<E>>,
    from: int,
    cells: Seq<Target<CellData>>,
    reads: Seq<CellReplies>,
    afters: Seq<Option<Seq<char>>>,
)
    requires
        0 <= from <= g.len(),
    ensures
        store_left_alone(s, k, g, after_range_deltas(g, k.sheet, cells, reads, afters), from),
        only_asked(
            spot(s.spot, k, g, from),
            spot(s.spot, k, after_range_deltas(g, k.sheet, cells, reads, afters), from),
        ),
    decreases afters.len(),
{
    broadcast use lemma_spot_push;
    broadcast use lemma_room_push;
    broadcast use lemma_overlay_push;

    if afters.len() > 0 {
        lemma_range_deltas(s, k, g, from, cells, reads, afters.drop_last());
    }
}

#[verifier::rlimit(40)]
proof fn lemma_plain_range<E: WorkbookEngine>(
    s: Sheet,
    k: Place,
    g: Seq<EngineEvent<E>>,
    from: int,
    cells: Seq<Target<CellData>>,
    answers: Seq<PlainCellReplies>,
)
    requires
        0 <= from <= g.len(),
        answers.len() <= cells.len(),
        apart(cells),
        plain_range_run(g, k.sheet, cells, answers).outcome is Ok,
    ensures
        ({
            let end = plain_range_run(g, k.sheet, cells, answers).history;
            let deferred = k.flags.defer_graph_building;
            let data = hit(cells, answers.len() as int, k);
            let before = spot(s.spot, k, g, from);
            let after = spot(s.spot, k, end, from);
            &&& store_left_alone(s, k, g, end, from)
            &&& after.truth ==> {
                &&& before.truth
                &&& data is Some && (data->0).formula is Some && !deferred ==> parsed_text(
                    signed(((data->0).formula->0)@),
                ) is Ok
                &&& after == match data {
                    Some(d) => Spot {
                        text: text_given(before.text, deferred, d),
                        ..graph_given(before, deferred, d)
                    },
                    None => before,
                }
            }
        }),
    decreases answers.len(),
{
    broadcast use lemma_spot_push;
    broadcast use lemma_room_push;
    broadcast use lemma_overlay_push;

    if answers.len() > 0 {
        let n = answers.len() as int;
        lemma_plain_range(s, k, g, from, cells, answers.drop_last());
        let data = cells[n - 1].2;
        if data.formula is Some {
            law_signed_formulas_are_parsed((data.formula->0)@);
        }
        if cells[n - 1].0 == k.row && cells[n - 1].1 == k.col {
            lemma_first_hit(cells, n, k);
        }
    }
}

/// Whether `e` is what a writing of cells leaves of `s`, where `data` is for the place.
pub open spec fn cells_left(
    s: Sheet,
    e: Sheet,
    k: Place,
    logged: bool,
    data: Option<CellData>,
) -> bool {
    let deferred = k.flags.defer_graph_building;
    &&& e.spot.marks == s.spot.marks + marks_of(logged)
    &&& s.spot.sound ==> e.spot.sound
    &&& s.room.sound ==> e.room.sound
    &&& match data {
        None => holds(e.spot, s.spot.value, s.spot.tree, s.spot.text),
        Some(d) => match d.formula {
            Some(formula) => if deferred {
                &&& e.spot.text == Some(formula@)
                &&& d.value is Some ==> e.spot.value == d.value && e.spot.tree is None
                &&& d.value is None ==> e.spot.value == s.spot.value && e.spot.tree == s.spot.tree
            } else {
                &&& parsed_text(signed(formula@)) is Ok
                &&& holds(e.spot, None, Some(parsed_text(signed(formula@))->Ok_0), None)
            },
            None => if d.value is Some {
                holds(e.spot, d.value, None, None)
            } else {
                holds(e.spot, s.spot.value, s.spot.tree, s.spot.text)
            },
        },
    }
    &&& laid_over(
        k,
        s.overlay,
        e.overlay,
        if logged && overlays(k) && data is Some && (data->0).formula is None {
            (data->0).value
        } else {
            None
        },
    )
    &&& logged && overlays(k) && data is Some && (data->0).formula is None && (data->0).value
        is Some ==> e.room.stored && e.room.rows >= k.row && e.room.columns >= k.col
    &&& !(logged && overlays(k)) ==> e.room.stored == s.room.stored && e.room.rows == s.room.rows
        && e.room.columns == s.room.columns
}

proof fn lemma_cells_left<E: WorkbookEngine>(
    s: Sheet,
    k: Place,
    h: Seq<EngineEvent<E>>,
    logged: bool,
    cells: Seq<Target<CellData>>,
    replies: WriteRangeReplies,
)
    requires
        from_one(cells),
        apart(cells),
        k.row >= 1,
        k.col >= 1,
        range_run(h, logged, k.sheet, cells, replies).outcome is Ok,
        range_answered(logged, cells.len(), replies, Ok(())),
    ensures
        ({
            let run = range_run(h, logged, k.sheet, cells, replies);
            let e = sheet_after(s, k, run.history, h.len() as int);
            truthful(e) ==> cells_left(s, e, k, logged, hit(cells, cells.len() as int, k))
        }),
{
    let from = h.len() as int;
    let n = cells.len() as int;
    let begun = h.push(EngineEvent::BeginDeferredDirty);
    lemma_one_more(s, k, h, from, EngineEvent::BeginDeferredDirty);
    if logged {
        let deferred = replies.flags.defer_graph_building;
        lemma_sheet_asked(s, k, begun, from, replies.sheet);
        let named = after_sheet(begun, k.sheet, replies.sheet);
        let flags: EngineEvent<E> = EngineEvent::Flags { reply: replies.flags };
        lemma_one_more(s, k, named, from, flags);
        let asked = named.push(flags);
        lemma_reads_asked(s, k, asked, from, cells, replies.reads);
        let seen = after_reads(asked, k.sheet, cells, replies.reads);
        lemma_one_more(s, k, seen, from, EngineEvent::EditBegin);
        let opened = seen.push(EngineEvent::EditBegin);
        let id = sheet_of(replies.sheet);
        lemma_range_edits(s, k, opened, from, deferred, id, cells, replies.reads, n);
        let edits = range_edits_run(opened, deferred, id, cells, replies.reads, n).history;
        lemma_one_more(s, k, edits, from, EngineEvent::EditEnd);
        let closed = edits.push(EngineEvent::EditEnd);
        lemma_range_mirrors(s, k, closed, from, cells, replies.mirrors);
        let mirrored = after_range_mirrors(closed, k.sheet, cells, replies.mirrors);
        lemma_range_texts(s, k, mirrored, from, deferred, cells, n);
        let cleared = after_range_clearings(mirrored, deferred, k.sheet, cells, n);
        lemma_range_texts(s, k, cleared, from, deferred, cells, n);
        let staged = after_range_stagings(cleared, deferred, k.sheet, cells, n);
        lemma_range_deltas(s, k, staged, from, cells, replies.reads, replies.afters);
        let recorded = after_range_deltas(staged, k.sheet, cells, replies.reads, replies.afters);
        lemma_one_more(s, k, recorded, from, EngineEvent::MarkDataEdited);
        let marked = recorded.push(EngineEvent::MarkDataEdited);
        lemma_one_more(s, k, marked, from, EngineEvent::EndDeferredDirty);
    } else {
        lemma_plain_range(s, k, begun, from, cells, replies.answers);
        let set = plain_range_run(begun, k.sheet, cells, replies.answers).history;
        lemma_one_more(s, k, set, from, EngineEvent::EndDeferredDirty);
    }
}

/// What a successful writing of cells leaves at any place of the sheet. In a listed cell:
/// the tree of its formula in the graph and no staged text; while graph building is
/// deferred, the text of its formula among the staged ones and its value, where it has one,
/// in the graph; without a formula, its value in the graph and no staged text. A listed
/// cell with neither, and every cell that is not listed, is as it was. While the change log
/// is on, the data is marked as edited once and the values of cells without a formula are
/// laid over the store, where values are laid over it.
pub proof fn law_write_range_leaves_the_cells<E: WorkbookEngine>(
    sheet: &str,
    start: (u32, u32),
    cells: BTreeMap<(u32, u32), CellData>,
    s: Sheet,
    k: Place,
)
    requires
        k.sheet == sheet@,
        k.row >= 1,
        k.col >= 1,
        forall|p: (u32, u32)| #[trigger] cells@.contains_key(p) ==> p.0 >= 1 && p.1 >= 1,
    ensures
        forall|wb: &mut Workbook<E>| #[trigger]
            call_ensures(Workbook::<E>::write_range, (wb, sheet, start, cells), Ok(())) ==> {
                let e = sheet_after(
                    s,
                    k,
                    (*final(wb)).history(),
                    (*wb).history().len() as int,
                );
                truthful(e) ==> cells_left(
                    s,
                    e,
                    k,
                    (*wb).logged(),
                    if cells@.contains_key((k.row, k.col)) {
                        Some(cells@[(k.row, k.col)])
                    } else {
                        None
                    },
                )
            },
{
    assert forall|wb: &mut Workbook<E>| #[trigger]
        call_ensures(Workbook::<E>::write_range, (wb, sheet, start, cells), Ok(())) implies {
        let e = sheet_after(s, k, (*final(wb)).history(), (*wb).history().len() as int);
        truthful(e) ==> cells_left(
            s,
            e,
            k,
            (*wb).logged(),
            if cells@.contains_key((k.row, k.col)) {
                Some(cells@[(k.row, k.col)])
            } else {
                None
            },
        )
    } by {
        let h = (*wb).history();
        let r: Result<(), IoError> = Ok(());
        let (order, replies) = choose|order: Seq<Target<CellData>>, replies: WriteRangeReplies|
            is_listing(order, cells@) && crate::cells::ran((*final(wb)).history(), r)
                == #[trigger] range_run(h, (*wb).logged(), sheet@, order, replies)
                && range_answered((*wb).logged(), order.len(), replies, io_view(r));
        assert forall|i: int, j: int| 0 <= i < j < order.len() implies (#[trigger] order[i]).0
            != (#[trigger] order[j]).0 || order[i].1 != order[j].1 by {
            assert(cell_before((order[i].0, order[i].1), (order[j].0, order[j].1)));
        }
        assert forall|i: int| 0 <= i < order.len() implies (#[trigger] order[i]).0 >= 1
            && order[i].1 >= 1 by {
            assert(cells@.contains_key((order[i].0, order[i].1)));
        }
        let n = order.len() as int;
        if cells@.contains_key((k.row, k.col)) {
            let i = choose|i: int|
                0 <= i < order.len() && (#[trigger] order[i]).0 == k.row && order[i].1 == k.col;
            lemma_hit(order, n, k, i);
            assert(order[i].2 == cells@[(k.row, k.col)]);
        } else {
            assert forall|i: int| 0 <= i < n implies (#[trigger] order[i]).0 != k.row
                || order[i].1 != k.col by {
                assert(cells@.contains_key((order[i].0, order[i].1)));
            }
            lemma_no_hit(order, n, k);
        }
        lemma_cells_left(s, k, h, (*wb).logged(), order, replies);
    }
}

} // verus!
