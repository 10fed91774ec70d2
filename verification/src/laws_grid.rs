//! Laws on small things that the others rest on: places of cells, formula texts, and what
//! becomes of a refusal.

use crate::cells::after_delta;
use crate::engine::{CellRef, EngineEvent, WorkbookEngine};
use crate::error::{EditorError, ExcelError, IoError};
use crate::formula::{parse_formula, parsed_formula, parsed_text, sign_formula, with_sign};
use crate::grid::{cells_of, fits, rect_cells, row_cells, width_of};
use crate::laws_action::{signed, tells_no_parse, tells_refusal};
use vstd::prelude::*;

verus! {

proof fn lemma_rect<V>(row: u32, col: u32, rows: Seq<Vec<V>>, n: int)
    requires
        fits(row, col, rows),
        0 <= n <= rows.len(),
    ensures
        forall|i: int, j: int|
            0 <= i < n && 0 <= j < rows[i]@.len() ==> rect_cells(row, col, rows, n).contains(
                ((row + i) as u32, (col + j) as u32, #[trigger] rows[i]@[j]),
            ),
        forall|k: int|
            #![trigger rect_cells(row, col, rows, n)[k]]
            0 <= k < rect_cells(row, col, rows, n).len() ==> {
                let c = rect_cells(row, col, rows, n)[k];
                &&& row <= c.0 < row + n
                &&& col <= c.1 < col + rows[c.0 - row]@.len()
                &&& c.2 == rows[c.0 - row]@[c.1 - col]
            },
        forall|k: int, l: int|
            0 <= k < l < rect_cells(row, col, rows, n).len() ==> (#[trigger] rect_cells(
                row,
                col,
                rows,
                n,
            )[k]).0 < (#[trigger] rect_cells(row, col, rows, n)[l]).0 || (rect_cells(
                row,
                col,
                rows,
                n,
            )[k].0 == rect_cells(row, col, rows, n)[l].0 && rect_cells(row, col, rows, n)[k].1
                < rect_cells(row, col, rows, n)[l].1),
    decreases n,
{
    if n > 0 {
        lemma_rect(row, col, rows, n - 1);
        let before = rect_cells(row, col, rows, n - 1);
        let last = row_cells((row + n - 1) as u32, col, rows[n - 1]@, rows[n - 1]@.len() as int);
        let all = rect_cells(row, col, rows, n);
        assert(all == before + last);
        assert forall|i: int, j: int| 0 <= i < n && 0 <= j < rows[i]@.len() implies all.contains(
            ((row + i) as u32, (col + j) as u32, #[trigger] rows[i]@[j]),
        ) by {
            let want = ((row + i) as u32, (col + j) as u32, rows[i]@[j]);
            if i < n - 1 {
                assert(before.contains(want));
                let k = choose|k: int| 0 <= k < before.len() && before[k] == want;
                assert(all[k] == want);
            } else {
                assert(all[before.len() + j] == last[j]);
            }
        }
        assert forall|k: int|
            #![trigger all[k]]
            0 <= k < all.len() implies {
            let c = all[k];
            &&& row <= c.0 < row + n
            &&& col <= c.1 < col + rows[c.0 - row]@.len()
            &&& c.2 == rows[c.0 - row]@[c.1 - col]
        } by {
            if k < before.len() {
                assert(all[k] == before[k]);
            } else {
                assert(all[k] == last[k - before.len()]);
                assert(rows[n - 1]@.len() + col <= 0x1_0000_0000);
            }
        }
        assert forall|k: int, l: int| 0 <= k < l < all.len() implies (#[trigger] all[k]).0 < (
        #[trigger] all[l]).0 || (all[k].0 == all[l].0 && all[k].1 < all[l].1) by {
            if l < before.len() {
                assert(all[k] == before[k] && all[l] == before[l]);
            } else {
                assert(all[l] == last[l - before.len()]);
                assert(rows[n - 1]@.len() + col <= 0x1_0000_0000);
                if k < before.len() {
                    assert(all[k] == before[k]);
                } else {
                    assert(all[k] == last[k - before.len()]);
                }
            }
        }
    }
}

/// A rectangle holds each of its values in the cell that lies as far from the first one as
/// the value does in the rows, and no other cell; it is gone through row by row.
pub proof fn law_rectangle_holds_its_cells<V>(row: u32, col: u32, rows: Seq<Vec<V>>)
    requires
        fits(row, col, rows),
    ensures
        forall|i: int, j: int|
            0 <= i < rows.len() && 0 <= j < rows[i]@.len() ==> cells_of(row, col, rows).contains(
                ((row + i) as u32, (col + j) as u32, #[trigger] rows[i]@[j]),
            ),
        forall|c: (u32, u32, V)| #[trigger]
            cells_of(row, col, rows).contains(c) ==> row <= c.0 < row + rows.len() && col <= c.1
                < col + rows[c.0 - row]@.len() && c.2 == rows[c.0 - row]@[c.1 - col],
        forall|k: int, l: int|
            0 <= k < l < cells_of(row, col, rows).len() ==> (#[trigger] cells_of(
                row,
                col,
                rows,
            )[k]).0 < (#[trigger] cells_of(row, col, rows)[l]).0 || (cells_of(row, col, rows)[k].0
                == cells_of(row, col, rows)[l].0 && cells_of(row, col, rows)[k].1 < cells_of(
                row,
                col,
                rows,
            )[l].1),
{
    lemma_rect(row, col, rows, rows.len() as int);
}

/// The width of rows is that of the longest one.
pub proof fn law_width_is_that_of_the_longest_row<V>(rows: Seq<Vec<V>>)
    ensures
        forall|i: int|
            0 <= i < rows.len() ==> (#[trigger] rows[i])@.len() <= width_of(
                rows,
                rows.len() as int,
            ),
        width_of(rows, rows.len() as int) > 0 ==> exists|i: int|
            0 <= i < rows.len() && (#[trigger] rows[i])@.len() == width_of(
                rows,
                rows.len() as int,
            ),
{
    lemma_width(rows, rows.len() as int);
}

proof fn lemma_width<V>(rows: Seq<Vec<V>>, n: int)
    requires
        0 <= n <= rows.len(),
    ensures
        forall|i: int| 0 <= i < n ==> (#[trigger] rows[i])@.len() <= width_of(rows, n),
        width_of(rows, n) > 0 ==> exists|i: int|
            0 <= i < n && (#[trigger] rows[i])@.len() == width_of(rows, n),
    decreases n,
{
    if n > 0 {
        lemma_width(rows, n - 1);
        assert(rows[n - 1]@.len() <= width_of(rows, n));
    }
}

/// A formula is parsed with its sign in front, whether it was given with it or not; what
/// the parser says of one that has no tree is handed on under the parser's name.
pub proof fn law_signed_formulas_are_parsed(formula: Seq<char>)
    ensures
        parsed_text(signed(formula)) is Ok ==> parsed_formula(formula) is Ok && parsed_formula(
            formula,
        )->Ok_0 == parsed_text(signed(formula))->Ok_0,
        parsed_text(signed(formula)) is Err ==> forall|e: IoError|
            parsed_formula(formula)->Err_0 == #[trigger] e@ ==> tells_no_parse(formula, e),
        parsed_text(signed(formula)) is Err ==> parsed_formula(formula) is Err,
{
    reveal_strlit("=");
    assert("="@ =~= seq!['=']);
    assert(with_sign(formula) == signed(formula));
}

/// A cell that counts from one is the graph's cell that counts from zero, of the same sheet;
/// a coordinate of zero stays.
pub proof fn law_cells_of_the_graph_count_from_zero(id: u32, row: u32, col: u32, cell: CellRef)
    requires
        call_ensures(CellRef::from_excel, (id, row, col), cell),
    ensures
        cell.sheet_id == id,
        row >= 1 ==> cell.row + 1 == row,
        col >= 1 ==> cell.col + 1 == col,
        row == 0 ==> cell.row == 0,
        col == 0 ==> cell.col == 0,
{
}

/// A formula gets a sign in front where it has none; nothing else of it changes.
pub proof fn law_formulas_get_one_sign(formula: &str, r: String)
    requires
        call_ensures(sign_formula, (formula,), r),
    ensures
        r@ == signed(formula@),
{
    reveal_strlit("=");
    assert("="@ =~= seq!['=']);
}

/// A formula that is parsed comes to the tree of its signed text, or to what the parser says
/// of that text.
pub proof fn law_formulas_come_to_their_trees(
    formula: &str,
    r: Result<formualizer_parse::ASTNode, IoError>,
)
    requires
        call_ensures(parse_formula, (formula,), r),
    ensures
        parsed_text(signed(formula@)) is Ok ==> r is Ok && r->Ok_0 == parsed_text(
            signed(formula@),
        )->Ok_0,
        parsed_text(signed(formula@)) is Err ==> r is Err && tells_no_parse(formula@, r->Err_0),
{
    law_signed_formulas_are_parsed(formula@);
}

/// What is made of an answer: a value stays; an error of the engine stays one; a refusal of
/// an edit is the spreadsheet error behind it, else what the editor says; and where it is to
/// count as one of the editor, always what the editor says.
pub proof fn law_refusals_are_handed_on<T>(
    of_engine: Result<T, ExcelError>,
    of_editor: Result<T, EditorError>,
    engine: Result<T, IoError>,
    editor: Result<T, IoError>,
    backend: Result<T, IoError>,
)
    requires
        call_ensures(IoError::engine_result::<T>, (of_engine,), engine),
        call_ensures(IoError::editor_result::<T>, (of_editor,), editor),
        call_ensures(IoError::editor_backend_result::<T>, (of_editor,), backend),
    ensures
        of_engine is Ok ==> engine == Ok::<T, IoError>(of_engine->Ok_0),
        of_engine is Err ==> engine is Err && engine->Err_0 is Engine && engine->Err_0->Engine_0@
            == of_engine->Err_0@,
        of_editor is Ok ==> editor == Ok::<T, IoError>(of_editor->Ok_0),
        of_editor is Err ==> editor is Err && tells_refusal(of_editor->Err_0, editor->Err_0),
        of_editor is Ok ==> backend == Ok::<T, IoError>(of_editor->Ok_0),
        of_editor is Err ==> backend is Err && backend->Err_0 is Backend
            && backend->Err_0->backend@ == "editor"@ && backend->Err_0->message@
            == of_editor->Err_0.text@,
{
}

/// A change of a staged text is recorded, as it was and as it is, while the change log is on
/// and where the text did change; else nothing is recorded.
pub proof fn law_text_changes_are_recorded<E: WorkbookEngine>(
    h: Seq<EngineEvent<E>>,
    logged: bool,
    sheet: Seq<char>,
    row: u32,
    col: u32,
    before: Option<Seq<char>>,
    after: Option<Seq<char>>,
)
    ensures
        !logged || before == after ==> after_delta(h, logged, sheet, row, col, before, after) == h,
        logged && before != after ==> after_delta(h, logged, sheet, row, col, before, after)
            == h.push(EngineEvent::LogStagedChange { sheet, row, col, before, after }),
{
}

} // verus!
