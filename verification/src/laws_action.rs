//! Laws on the edits of an action: what they leave in the cells of a sheet.

use crate::action::{
    tx_cell_run, tx_range_run, tx_values_run, TxCellReplies, WorkbookAction,
};
use crate::batch::{covers, Target};
use crate::cell_data::{cell_before, is_listing, CellData};
use crate::engine::{EngineEvent, WorkbookEngine};
use crate::error::{io_view, EditorError, IoError};
use crate::formula::parsed_text;
use crate::grid::{cells_of, fits};
use crate::laws_grid::{law_rectangle_holds_its_cells, law_signed_formulas_are_parsed};
use crate::laws_undo::Content;
use crate::laws_workbook::one_call;
use crate::value::LiteralValue;
use crate::workbook::{after_begin, committed, Workbook};
use std::collections::BTreeMap;
use vstd::prelude::*;

verus! {

/// What the cells of a sheet hold, by row and column counted from one.
pub type SheetCells = spec_fn((u32, u32)) -> Content;

/// The cells with another content at `place`.
pub open spec fn with_cell(f: SheetCells, place: (u32, u32), content: Content) -> SheetCells {
    |p: (u32, u32)|
        if p == place {
            content
        } else {
            f(p)
        }
}

/// What the accepted edits of a transaction, behind the first `from` calls of `h`, make of
/// the cells `f` of the sheet `sheet`.
pub open spec fn edited<E: WorkbookEngine>(
    f: SheetCells,
    sheet: Seq<char>,
    h: Seq<EngineEvent<E>>,
    from: int,
) -> SheetCells
    decreases h.len(),
{
    if h.len() <= from || h.len() == 0 {
        f
    } else {
        let before = edited(f, sheet, h.drop_last(), from);
        match h.last() {
            EngineEvent::TxSetValue { sheet: s, row, col, value, reply } => if s == sheet
                && reply is Ok {
                with_cell(before, (row, col), (Some(value), None))
            } else {
                before
            },
            EngineEvent::TxSetFormula { sheet: s, row, col, tree, reply } => if s == sheet
                && reply is Ok {
                with_cell(before, (row, col), (None, Some(tree)))
            } else {
                before
            },
            _ => before,
        }
    }
}

/// The answer to an edit of a cell in a transaction.
pub open spec fn edit_reply<E: WorkbookEngine>(e: EngineEvent<E>) -> Option<
    Result<(), EditorError>,
> {
    match e {
        EngineEvent::TxSetValue { sheet, row, col, value, reply } => Some(reply),
        EngineEvent::TxSetFormula { sheet, row, col, tree, reply } => Some(reply),
        _ => None,
    }
}

/// Whether `g` goes on from `h` with edits of cells in a transaction and nothing else, each
/// accepted but for the last, where `refused` says why that was not.
pub open spec fn edits_on<E: WorkbookEngine>(
    h: Seq<EngineEvent<E>>,
    g: Seq<EngineEvent<E>>,
    refused: Option<EditorError>,
) -> bool {
    &&& h.len() <= g.len()
    &&& forall|i: int| 0 <= i < h.len() ==> #[trigger] g[i] == h[i]
    &&& forall|i: int|
        h.len() <= i < g.len() ==> edit_reply(#[trigger] g[i]) == Some(
            if i == g.len() - 1 && refused is Some {
                Err::<(), EditorError>(refused->0)
            } else {
                Ok(())
            },
        )
    &&& refused is Some ==> g.len() > h.len()
}

broadcast proof fn lemma_edited_push<E: WorkbookEngine>(
    f: SheetCells,
    sheet: Seq<char>,
    h: Seq<EngineEvent<E>>,
    e: EngineEvent<E>,
    from: int,
)
    requires
        0 <= from <= h.len(),
    ensures
        #[trigger] edited(f, sheet, h.push(e), from) == match e {
            EngineEvent::TxSetValue { sheet: s, row, col, value, reply } => if s == sheet
                && reply is Ok {
                with_cell(edited(f, sheet, h, from), (row, col), (Some(value), None))
            } else {
                edited(f, sheet, h, from)
            },
            EngineEvent::TxSetFormula { sheet: s, row, col, tree, reply } => if s == sheet
                && reply is Ok {
                with_cell(edited(f, sheet, h, from), (row, col), (None, Some(tree)))
            } else {
                edited(f, sheet, h, from)
            },
            _ => edited(f, sheet, h, from),
        },
{
    assert(h.push(e).drop_last() =~= h);
}

/// What a cell holds after it was given `data`: its formula, else its value, else what it
/// held.
pub open spec fn given(data: CellData, before: Content) -> Content {
    match data.formula {
        Some(formula) => (None, Some(parsed_text(signed(formula@))->Ok_0)),
        None => match data.value {
            Some(value) => (Some(value), None),
            None => before,
        },
    }
}

/// The text with a sign in front, where it has none.
pub open spec fn signed(text: Seq<char>) -> Seq<char> {
    if text.len() > 0 && text[0] == '=' {
        text
    } else {
        seq!['='] + text
    }
}

proof fn lemma_range_edited<E: WorkbookEngine>(
    f: SheetCells,
    s: Seq<char>,
    h: Seq<EngineEvent<E>>,
    sheet: Seq<char>,
    order: Seq<Target<CellData>>,
    replies: Seq<TxCellReplies>,
    p: (u32, u32),
)
    requires
        replies.len() <= order.len(),
        forall|i: int, j: int|
            0 <= i < j < order.len() ==> (#[trigger] order[i]).0 != (#[trigger] order[j]).0
                || order[i].1 != order[j].1,
        tx_range_run(h, sheet, order, replies).outcome is Ok,
    ensures
        edits_on(h, tx_range_run(h, sheet, order, replies).history, None),
        s != sheet ==> edited(
            f,
            s,
            tx_range_run(h, sheet, order, replies).history,
            h.len() as int,
        )(p) == f(p),
        forall|i: int|
            0 <= i < replies.len() && (#[trigger] order[i]).0 == p.0 && order[i].1 == p.1 && s
                == sheet ==> edited(
                f,
                s,
                tx_range_run(h, sheet, order, replies).history,
                h.len() as int,
            )(p) == given(order[i].2, f(p)),
        (forall|i: int|
            0 <= i < replies.len() ==> (#[trigger] order[i]).0 != p.0 || order[i].1 != p.1)
            ==> edited(f, s, tx_range_run(h, sheet, order, replies).history, h.len() as int)(p)
            == f(p),
        forall|i: int|
            0 <= i < replies.len() && (#[trigger] order[i]).2.formula is Some ==> parsed_text(
                signed((order[i].2.formula->0)@),
            ) is Ok,
    decreases replies.len(),
{
    broadcast use lemma_edited_push;

    if replies.len() > 0 {
        let rest = replies.drop_last();
        let n = replies.len() - 1;
        lemma_range_edited(f, s, h, sheet, order, rest, p);
        let before = tx_range_run(h, sheet, order, rest);
        let (row, col, data) = order[n];
        let r = replies.last();
        if data.formula is Some {
            law_signed_formulas_are_parsed((data.formula->0)@);
        }
        let from = h.len() as int;
        let end = tx_cell_run(before.history, sheet, row, col, data, r);
        assert(tx_range_run(h, sheet, order, replies) == end);
        let valued = if data.value is Some {
            before.history.push(
                EngineEvent::TxSetValue { sheet, row, col, value: data.value->0, reply: r.value },
            )
        } else {
            before.history
        };
        let tree = parsed_text(signed((data.formula->0)@))->Ok_0;
        assert(end.history == if data.formula is Some {
            valued.push(EngineEvent::TxSetFormula { sheet, row, col, tree, reply: r.formula })
        } else {
            valued
        });
        if p == (row, col) {
            assert forall|i: int| 0 <= i < n implies (#[trigger] order[i]).0 != p.0 || order[i].1
                != p.1 by {
                assert(order[i].0 != order[n].0 || order[i].1 != order[n].1);
            }
            assert(edited(f, s, before.history, from)(p) == f(p));
        }
        assert forall|i: int|
            0 <= i < replies.len() && (#[trigger] order[i]).0 == p.0 && order[i].1 == p.1 && s
                == sheet implies edited(f, s, end.history, from)(p) == given(order[i].2, f(p)) by {
            if i < n {
                assert(order[i].0 != order[n].0 || order[i].1 != order[n].1);
                assert(p != (row, col));
            }
        }
    }
}

/// Cells that an action wrote are in the sheet: each listed cell with a formula holds the
/// tree of its formula, each other one with a value that value. A listed cell with neither,
/// every cell that is not listed, and every cell of another sheet is as it was. The engine
/// is asked for nothing else.
pub proof fn law_action_writes_its_cells<'a, E: WorkbookEngine>(
    sheet: &str,
    start: (u32, u32),
    cells: BTreeMap<(u32, u32), CellData>,
    f: SheetCells,
    p: (u32, u32),
    other: Seq<char>,
)
    requires
        other != sheet@,
    ensures
        forall|a: &mut WorkbookAction<'a, E>| #[trigger]
            call_ensures(
                WorkbookAction::<'a, E>::write_range,
                (a, sheet, start, cells),
                Ok(()),
            ) ==> {
                let h = (*a).history();
                let end = (*final(a)).history();
                &&& edits_on(h, end, None)
                &&& edited(f, sheet@, end, h.len() as int)(p) == if cells@.contains_key(p) {
                    given(cells@[p], f(p))
                } else {
                    f(p)
                }
                &&& edited(f, other, end, h.len() as int)(p) == f(p)
                &&& cells@.contains_key(p) && cells@[p].formula is Some ==> parsed_text(
                    signed((cells@[p].formula->0)@),
                ) is Ok
            },
{
    assert forall|a: &mut WorkbookAction<'a, E>| #[trigger]
        call_ensures(
            WorkbookAction::<'a, E>::write_range,
            (a, sheet, start, cells),
            Ok(()),
        ) implies {
        let h = (*a).history();
        let end = (*final(a)).history();
        &&& edits_on(h, end, None)
        &&& edited(f, sheet@, end, h.len() as int)(p) == if cells@.contains_key(p) {
            given(cells@[p], f(p))
        } else {
            f(p)
        }
        &&& edited(f, other, end, h.len() as int)(p) == f(p)
        &&& cells@.contains_key(p) && cells@[p].formula is Some ==> parsed_text(
            signed((cells@[p].formula->0)@),
        ) is Ok
    } by {
        let h = (*a).history();
        let end = (*final(a)).history();
        let r: Result<(), IoError> = Ok(());
        let (order, replies) = choose|order: Seq<Target<CellData>>, replies: Seq<TxCellReplies>|
            is_listing(order, cells@) && crate::cells::ran(end, r) == #[trigger] tx_range_run(
                h,
                sheet@,
                order,
                replies,
            ) && covers(replies.len(), order.len(), io_view(r));
        assert forall|i: int, j: int| 0 <= i < j < order.len() implies (#[trigger] order[i]).0
            != (#[trigger] order[j]).0 || order[i].1 != order[j].1 by {
            assert(cell_before((order[i].0, order[i].1), (order[j].0, order[j].1)));
        }
        lemma_range_edited(f, sheet@, h, sheet@, order, replies, p);
        lemma_range_edited(f, other, h, sheet@, order, replies, p);
        if cells@.contains_key(p) {
            let i = choose|i: int|
                0 <= i < order.len() && (#[trigger] order[i]).0 == p.0 && order[i].1 == p.1;
            assert(order[i].2 == cells@[p]);
        } else {
            assert forall|i: int| 0 <= i < order.len() implies (#[trigger] order[i]).0 != p.0
                || order[i].1 != p.1 by {
                assert(cells@.contains_key((order[i].0, order[i].1)));
            }
        }
    }
}

/// What a refused edit is answered: the spreadsheet error behind it, else what the editor
/// says.
pub open spec fn tells_refusal(refusal: EditorError, error: IoError) -> bool {
    match refusal.excel {
        Some(excel) => error is Engine && error->Engine_0@ == excel@,
        None => error is Backend && error->backend@ == "editor"@ && error->message@
            == refusal.text@,
    }
}

/// What a formula that does not parse is answered: what the parser says.
pub open spec fn tells_no_parse(formula: Seq<char>, error: IoError) -> bool {
    &&& parsed_text(signed(formula)) is Err
    &&& error is Backend
    &&& error->backend@ == "parser"@
    &&& error->message@ == parsed_text(signed(formula))->Err_0
}

proof fn lemma_range_stops<E: WorkbookEngine>(
    h: Seq<EngineEvent<E>>,
    sheet: Seq<char>,
    order: Seq<Target<CellData>>,
    replies: Seq<TxCellReplies>,
    error: IoError,
) -> (why: (Option<EditorError>, Option<int>))
    requires
        replies.len() <= order.len(),
        tx_range_run(h, sheet, order, replies).outcome is Ok || tx_range_run(
            h,
            sheet,
            order,
            replies,
        ).outcome == io_view(Err::<(), IoError>(error)),
    ensures
        edits_on(h, tx_range_run(h, sheet, order, replies).history, why.0),
        tx_range_run(h, sheet, order, replies).outcome is Ok ==> why == (
            None::<EditorError>,
            None::<int>,
        ),
        tx_range_run(h, sheet, order, replies).outcome is Err ==> match why.0 {
            Some(refusal) => tells_refusal(refusal, error),
            None => why.1 is Some && 0 <= why.1->0 < order.len() && order[why.1->0].2.formula
                is Some && tells_no_parse((order[why.1->0].2.formula->0)@, error),
        },
    decreases replies.len(),
{
    if replies.len() == 0 {
        (None, None)
    } else {
        let rest = replies.drop_last();
        let n = replies.len() - 1;
        let before = tx_range_run(h, sheet, order, rest);
        let why = lemma_range_stops(h, sheet, order, rest, error);
        if before.outcome is Err {
            why
        } else {
            let (row, col, data) = order[n];
            let r = replies.last();
            if data.formula is Some {
                law_signed_formulas_are_parsed((data.formula->0)@);
            }
            if data.value is Some && r.value is Err {
                (Some(r.value->Err_0), None)
            } else if data.formula is Some {
                if parsed_text(signed((data.formula->0)@)) is Err {
                    (None, Some(n))
                } else if r.formula is Err {
                    (Some(r.formula->Err_0), None)
                } else {
                    (None, None)
                }
            } else {
                (None, None)
            }
        }
    }
}

/// A writing of cells in an action that fails stops where it fails: at an edit that the
/// engine refuses, which is then the last, or at a listed formula that does not parse. Each
/// edit before it was accepted. The failure is answered as it came.
pub proof fn law_action_writing_stops_at_a_failure<'a, E: WorkbookEngine>(
    sheet: &str,
    start: (u32, u32),
    cells: BTreeMap<(u32, u32), CellData>,
    error: IoError,
)
    ensures
        forall|a: &mut WorkbookAction<'a, E>| #[trigger]
            call_ensures(
                WorkbookAction::<'a, E>::write_range,
                (a, sheet, start, cells),
                Err(error),
            ) ==> stopped((*a).history(), (*final(a)).history(), cells@, error),
{
    assert forall|a: &mut WorkbookAction<'a, E>| #[trigger]
        call_ensures(
            WorkbookAction::<'a, E>::write_range,
            (a, sheet, start, cells),
            Err(error),
        ) implies stopped((*a).history(), (*final(a)).history(), cells@, error) by {
        let h = (*a).history();
        let end = (*final(a)).history();
        let r: Result<(), IoError> = Err(error);
        let (order, replies) = choose|order: Seq<Target<CellData>>, replies: Seq<TxCellReplies>|
            is_listing(order, cells@) && crate::cells::ran(end, r) == #[trigger] tx_range_run(
                h,
                sheet@,
                order,
                replies,
            ) && covers(replies.len(), order.len(), io_view(r));
        let (refused, at) = lemma_range_stops(h, sheet@, order, replies, error);
        if refused is None {
            let target = order[at->0];
            assert(cells@.contains_key((target.0, target.1)));
            assert(tells_no_parse((cells@[(target.0, target.1)].formula->0)@, error));
        }
        assert(edits_on(h, end, refused));
    }
}

/// Whether a writing of `cells` that led from `h` to `g` stopped with `error`.
pub open spec fn stopped<E: WorkbookEngine>(
    h: Seq<EngineEvent<E>>,
    g: Seq<EngineEvent<E>>,
    cells: Map<(u32, u32), CellData>,
    error: IoError,
) -> bool {
    ||| exists|refusal: EditorError| #[trigger]
        edits_on(h, g, Some(refusal)) && tells_refusal(refusal, error)
    ||| edits_on(h, g, None) && exists|p: (u32, u32)| #[trigger]
        cells.contains_key(p) && cells[p].formula is Some && tells_no_parse(
            (cells[p].formula->0)@,
            error,
        )
}

proof fn lemma_values_edited<E: WorkbookEngine>(
    f: SheetCells,
    s: Seq<char>,
    h: Seq<EngineEvent<E>>,
    sheet: Seq<char>,
    cells: Seq<Target<LiteralValue>>,
    replies: Seq<Result<(), EditorError>>,
    p: (u32, u32),
)
    requires
        replies.len() <= cells.len(),
        forall|i: int, j: int|
            0 <= i < j < cells.len() ==> (#[trigger] cells[i]).0 != (#[trigger] cells[j]).0
                || cells[i].1 != cells[j].1,
        tx_values_run(h, sheet, cells, replies).outcome is Ok,
    ensures
        edits_on(h, tx_values_run(h, sheet, cells, replies).history, None),
        s != sheet ==> edited(
            f,
            s,
            tx_values_run(h, sheet, cells, replies).history,
            h.len() as int,
        )(p) == f(p),
        forall|i: int|
            0 <= i < replies.len() && (#[trigger] cells[i]).0 == p.0 && cells[i].1 == p.1 && s
                == sheet ==> edited(
                f,
                s,
                tx_values_run(h, sheet, cells, replies).history,
                h.len() as int,
            )(p) == (Some(cells[i].2), None::<formualizer_parse::ASTNode>),
        (forall|i: int|
            0 <= i < replies.len() ==> (#[trigger] cells[i]).0 != p.0 || cells[i].1 != p.1)
            ==> edited(f, s, tx_values_run(h, sheet, cells, replies).history, h.len() as int)(p)
            == f(p),
    decreases replies.len(),
{
    broadcast use lemma_edited_push;

    if replies.len() > 0 {
        let rest = replies.drop_last();
        let n = replies.len() - 1;
        lemma_values_edited(f, s, h, sheet, cells, rest, p);
        let before = tx_values_run(h, sheet, cells, rest);
        let (row, col, value) = cells[n];
        let end = before.history.push(
            EngineEvent::TxSetValue { sheet, row, col, value, reply: replies.last() },
        );
        assert(tx_values_run(h, sheet, cells, replies).history == end);
        assert forall|i: int|
            0 <= i < replies.len() && (#[trigger] cells[i]).0 == p.0 && cells[i].1 == p.1 && s
                == sheet implies edited(f, s, end, h.len() as int)(p) == (
            Some(cells[i].2),
            None::<formualizer_parse::ASTNode>,
        ) by {
            if i < n {
                assert(cells[i].0 != cells[n].0 || cells[i].1 != cells[n].1);
            }
        }
    }
}

/// The values of a rectangle that an action set are in the sheet, each in the cell that
/// lies as far from the first one as the value does in the rectangle. Every other cell, and
/// every cell of another sheet, is as it was. The engine is asked for nothing else.
pub proof fn law_action_sets_its_values<'a, E: WorkbookEngine>(
    sheet: &str,
    start_row: u32,
    start_col: u32,
    rows: &[Vec<LiteralValue>],
    f: SheetCells,
    p: (u32, u32),
    other: Seq<char>,
)
    requires
        fits(start_row, start_col, rows@),
        other != sheet@,
    ensures
        forall|a: &mut WorkbookAction<'a, E>| #[trigger]
            call_ensures(
                WorkbookAction::<'a, E>::set_values,
                (a, sheet, start_row, start_col, rows),
                Ok(()),
            ) ==> {
                let h = (*a).history();
                let end = (*final(a)).history();
                let i = p.0 - start_row;
                let j = p.1 - start_col;
                &&& edits_on(h, end, None)
                &&& edited(f, sheet@, end, h.len() as int)(p) == if 0 <= i < rows@.len() && 0 <= j
                    < rows@[i]@.len() {
                    (Some(rows@[i]@[j]), None::<formualizer_parse::ASTNode>)
                } else {
                    f(p)
                }
                &&& edited(f, other, end, h.len() as int)(p) == f(p)
            },
{
    assert forall|a: &mut WorkbookAction<'a, E>| #[trigger]
        call_ensures(
            WorkbookAction::<'a, E>::set_values,
            (a, sheet, start_row, start_col, rows),
            Ok(()),
        ) implies {
        let h = (*a).history();
        let end = (*final(a)).history();
        let i = p.0 - start_row;
        let j = p.1 - start_col;
        &&& edits_on(h, end, None)
        &&& edited(f, sheet@, end, h.len() as int)(p) == if 0 <= i < rows@.len() && 0 <= j
            < rows@[i]@.len() {
            (Some(rows@[i]@[j]), None::<formualizer_parse::ASTNode>)
        } else {
            f(p)
        }
        &&& edited(f, other, end, h.len() as int)(p) == f(p)
    } by {
        let h = (*a).history();
        let end = (*final(a)).history();
        let r: Result<(), IoError> = Ok(());
        let cells = cells_of(start_row, start_col, rows@);
        let replies = choose|replies: Seq<Result<(), EditorError>>|
            crate::cells::ran(end, r) == #[trigger] tx_values_run(h, sheet@, cells, replies)
                && covers(replies.len(), cells.len(), io_view(r));
        law_rectangle_holds_its_cells(start_row, start_col, rows@);
        lemma_values_edited(f, sheet@, h, sheet@, cells, replies, p);
        lemma_values_edited(f, other, h, sheet@, cells, replies, p);
        let i = p.0 - start_row;
        let j = p.1 - start_col;
        if 0 <= i < rows@.len() && 0 <= j < rows@[i]@.len() {
            let v = rows@[i]@[j];
            assert(cells.contains(((start_row + i) as u32, (start_col + j) as u32, v)));
            let k = choose|k: int| 0 <= k < cells.len() && cells[k] == (p.0, p.1, v);
            assert(cells[k].2 == v);
        } else {
            assert forall|k: int| 0 <= k < cells.len() implies (#[trigger] cells[k]).0 != p.0
                || cells[k].1 != p.1 by {
                assert(cells.contains(cells[k]));
            }
        }
    }
}

/// Whether an action with the answer `made`, which started at `a` and ended at `b`, ended in
/// the history `g` with the result `r`. What it made is committed and handed on where that
/// is accepted, and a journal of it kept for undoing where there is no change log; where the
/// action failed, it is aborted, and its failure handed on.
pub open spec fn ends_so<E: WorkbookEngine, T>(
    b: Seq<EngineEvent<E>>,
    made: Result<T, IoError>,
    logged: bool,
    g: Seq<EngineEvent<E>>,
    r: Result<T, IoError>,
) -> bool {
    let n = b.len() as int;
    &&& g.len() > n
    &&& forall|i: int| 0 <= i < n ==> #[trigger] g[i] == b[i]
    &&& match made {
        Err(e) => {
            &&& r == Err::<T, IoError>(e)
            &&& g.len() == n + 1
            &&& g[n] is ActionAbort
        },
        Ok(value) => {
            &&& g[n] is ActionCommit
            &&& match g[n]->ActionCommit_reply {
                Err(refusal) => g.len() == n + 1 && r is Err && tells_refusal(
                    refusal,
                    r->Err_0,
                ),
                Ok(_) => r is Ok && r->Ok_0 == value && if logged {
                    g.len() == n + 1
                } else {
                    g.len() == n + 2 && g[n + 1] is PushActionJournal
                },
            }
        },
    }
}

/// An action is begun under its name and as the change log is switched, made by its own
/// code, and then kept or rolled back as a whole: kept where the code succeeds and the
/// engine commits, rolled back where the code fails. An action that cannot be begun is
/// refused, and its code not run.
pub proof fn law_actions_are_kept_or_rolled_back<
    'a,
    E: WorkbookEngine,
    T,
    F: FnOnce(&mut WorkbookAction<'_, E>) -> Result<T, IoError>,
>(name: &str, f: F, r: Result<T, IoError>)
    ensures
        forall|wb: &mut Workbook<E>| #[trigger]
            call_ensures(Workbook::<E>::action::<T, F>, (wb, name, f), r) ==> {
                let h = (*wb).history();
                let g = (*final(wb)).history();
                exists|begun: Result<(), EditorError>|
                    #![trigger opened(h, (*wb).logged(), name@, begun)]
                    match begun {
                        Err(refusal) => g == opened(h, (*wb).logged(), name@, begun) && r is Err
                            && tells_refusal(refusal, r->Err_0),
                        Ok(_) => exists|a: &mut WorkbookAction<'_, E>, made: Result<T, IoError>|
                            #[trigger] call_ensures(f, (a,), made) && (*a).history() == opened(
                                h,
                                (*wb).logged(),
                                name@,
                                begun,
                            ) && ends_so((*final(a)).history(), made, (*wb).logged(), g, r),
                    }
            },
{
    assert forall|wb: &mut Workbook<E>| #[trigger]
        call_ensures(Workbook::<E>::action::<T, F>, (wb, name, f), r) implies {
        let h = (*wb).history();
        let g = (*final(wb)).history();
        exists|begun: Result<(), EditorError>|
            #![trigger opened(h, (*wb).logged(), name@, begun)]
            match begun {
                Err(refusal) => g == opened(h, (*wb).logged(), name@, begun) && r is Err
                    && tells_refusal(refusal, r->Err_0),
                Ok(_) => exists|a: &mut WorkbookAction<'_, E>, made: Result<T, IoError>|
                    #[trigger] call_ensures(f, (a,), made) && (*a).history() == opened(
                        h,
                        (*wb).logged(),
                        name@,
                        begun,
                    ) && ends_so((*final(a)).history(), made, (*wb).logged(), g, r),
            }
    } by {
        let h = (*wb).history();
        let g = (*final(wb)).history();
        let logged = (*wb).logged();
        let begun = choose|begun: Result<(), EditorError>|
            #![trigger after_begin(h, logged, name@, begun)]
            (begun is Err ==> io_view(r) == Err::<T, crate::error::IoErrorView>(
                crate::error::editor_error(begun->Err_0),
            ) && g == after_begin(h, logged, name@, begun)) && (begun is Ok ==> exists|
                a: &mut WorkbookAction<'_, E>,
                made: Result<T, IoError>,
            | #[trigger]
                call_ensures(f, (a,), made) && a.history() == after_begin(
                    h,
                    logged,
                    name@,
                    begun,
                ) && (made is Err ==> r == Err::<T, IoError>(made->Err_0) && g
                    == final(a).history().push(
                    EngineEvent::ActionAbort { reason: "Workbook::action aborted"@ },
                )) && (made is Ok ==> exists|reply: Result<(), EditorError>|
                    (g, io_view(r)) == #[trigger] committed(
                        final(a).history(),
                        logged,
                        made->Ok_0,
                        reply,
                    )));
        if begun is Ok {
            let (a, made) = choose|a: &mut WorkbookAction<'_, E>, made: Result<T, IoError>|
                #[trigger] call_ensures(f, (a,), made) && a.history() == after_begin(
                    h,
                    logged,
                    name@,
                    begun,
                ) && (made is Err ==> r == Err::<T, IoError>(made->Err_0) && g
                    == final(a).history().push(
                    EngineEvent::ActionAbort { reason: "Workbook::action aborted"@ },
                )) && (made is Ok ==> exists|reply: Result<(), EditorError>|
                    (g, io_view(r)) == #[trigger] committed(
                        final(a).history(),
                        logged,
                        made->Ok_0,
                        reply,
                    ));
            assert(ends_so((*final(a)).history(), made, logged, g, r));
        }
        assert(opened(h, logged, name@, begun) == after_begin(h, logged, name@, begun));
    }
}

/// The history `h` with the beginning of an action.
pub open spec fn opened<E: WorkbookEngine>(
    h: Seq<EngineEvent<E>>,
    logged: bool,
    name: Seq<char>,
    reply: Result<(), EditorError>,
) -> Seq<EngineEvent<E>> {
    h.push(EngineEvent::ActionBegin { logged, name, reply })
}

/// An action hides and shows rows, and sets single cells, by one edit of the transaction
/// each, and hands its answer on.
pub proof fn law_action_edits_are_those_of_the_transaction<'a, E: WorkbookEngine>(
    sheet: &str,
    row: u32,
    col: u32,
    end_row: u32,
    hidden: bool,
    value: LiteralValue,
    r: Result<(), IoError>,
)
    ensures
        forall|a: &mut WorkbookAction<'a, E>| #[trigger]
            call_ensures(WorkbookAction::<'a, E>::set_value, (a, sheet, row, col, value), r) ==> {
                let g = (*final(a)).history();
                &&& one_call((*a).history(), g)
                &&& g.last() is TxSetValue
                &&& g.last()->TxSetValue_sheet == sheet@
                &&& g.last()->TxSetValue_row == row
                &&& g.last()->TxSetValue_col == col
                &&& g.last()->TxSetValue_value == value
                &&& answered_so(g.last()->TxSetValue_reply, r)
            },
        forall|a: &mut WorkbookAction<'a, E>| #[trigger]
            call_ensures(WorkbookAction::<'a, E>::set_row_hidden, (a, sheet, row, hidden), r) ==> {
                let g = (*final(a)).history();
                &&& one_call((*a).history(), g)
                &&& g.last() is TxSetRowHidden
                &&& g.last()->TxSetRowHidden_sheet == sheet@
                &&& g.last()->TxSetRowHidden_row == row
                &&& g.last()->TxSetRowHidden_hidden == hidden
                &&& answered_so(g.last()->TxSetRowHidden_reply, r)
            },
        forall|a: &mut WorkbookAction<'a, E>| #[trigger]
            call_ensures(
                WorkbookAction::<'a, E>::set_rows_hidden,
                (a, sheet, row, end_row, hidden),
                r,
            ) ==> {
                let g = (*final(a)).history();
                &&& one_call((*a).history(), g)
                &&& g.last() is TxSetRowsHidden
                &&& g.last()->TxSetRowsHidden_sheet == sheet@
                &&& g.last()->TxSetRowsHidden_start_row == row
                &&& g.last()->TxSetRowsHidden_end_row == end_row
                &&& g.last()->TxSetRowsHidden_hidden == hidden
                &&& answered_so(g.last()->TxSetRowsHidden_reply, r)
            },
{
}

/// Whether `r` hands on the answer to an edit of a transaction.
pub open spec fn answered_so(reply: Result<(), EditorError>, r: Result<(), IoError>) -> bool {
    match reply {
        Ok(_) => r is Ok,
        Err(refusal) => r is Err && tells_refusal(refusal, r->Err_0),
    }
}

/// An action sets a formula by one edit of the transaction with its tree, and hands the
/// answer on; a formula that does not parse does not reach the engine.
pub proof fn law_action_formulas_are_parsed<'a, E: WorkbookEngine>(
    sheet: &str,
    row: u32,
    col: u32,
    formula: &str,
    r: Result<(), IoError>,
)
    ensures
        forall|a: &mut WorkbookAction<'a, E>| #[trigger]
            call_ensures(
                WorkbookAction::<'a, E>::set_formula,
                (a, sheet, row, col, formula),
                r,
            ) ==> {
                let g = (*final(a)).history();
                match parsed_text(signed(formula@)) {
                    Ok(tree) => {
                        &&& one_call((*a).history(), g)
                        &&& g.last() is TxSetFormula
                        &&& g.last()->TxSetFormula_sheet == sheet@
                        &&& g.last()->TxSetFormula_row == row
                        &&& g.last()->TxSetFormula_col == col
                        &&& g.last()->TxSetFormula_tree == tree
                        &&& answered_so(g.last()->TxSetFormula_reply, r)
                    },
                    Err(_) => g == (*a).history() && r is Err && tells_no_parse(
                        formula@,
                        r->Err_0,
                    ),
                }
            },
{
    law_signed_formulas_are_parsed(formula@);
}

} // verus!
