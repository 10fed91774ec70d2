//! Laws on reading: what is read of a workbook is what its engine holds, cell for cell.

use crate::address::RangeAddress;
use crate::config::EvalConfig;
use crate::engine::{CalcSettings, CellState, WorkbookEngine};
use crate::error::IoError;
use crate::formula::printed_tree;
use crate::reads::{
    bounds_of, cell_shows, range_is, row_shows, store_has, view_cell_is, view_row_is, view_rows_are,
    view_size_is,
};
use crate::value::LiteralValue;
use crate::workbook::Workbook;
use vstd::prelude::*;

verus! {

/// What a sheet holds: the value, the staged formula text and the formula tree of each
/// cell, by row and column counted from one.
pub struct SheetModel {
    pub values: spec_fn((u32, u32)) -> Option<LiteralValue>,
    pub texts: spec_fn((u32, u32)) -> Option<Seq<char>>,
    pub trees: spec_fn((u32, u32)) -> Option<formualizer_parse::ASTNode>,
}

/// Whether `engine` answers for the cells of the sheet `sheet` with what `m` holds.
pub open spec fn answers_for<E: WorkbookEngine>(
    engine: E,
    sheet: Seq<char>,
    m: SheetModel,
) -> bool {
    &&& forall|name: &str, row: u32, col: u32, r: Option<LiteralValue>|
        name@ == sheet && #[trigger] call_ensures(
            E::get_cell_value,
            (&engine, name, row, col),
            r,
        ) ==> r == (m.values)((row, col))
    &&& forall|name: &str, row: u32, col: u32, r: Option<String>|
        name@ == sheet && #[trigger] call_ensures(
            E::staged_formula_text,
            (&engine, name, row, col),
            r,
        ) ==> match r {
            Some(text) => (m.texts)((row, col)) == Some(text@),
            None => (m.texts)((row, col)) is None,
        }
    &&& forall|name: &str, row: u32, col: u32, r: Option<CellState>|
        name@ == sheet && #[trigger] call_ensures(E::get_cell, (&engine, name, row, col), r)
            ==> match r {
            Some(state) => (m.trees)((row, col)) == state.formula,
            None => (m.trees)((row, col)) is None,
        }
}

/// The value that a cell shows, nothing counting as empty.
pub open spec fn shown(value: Option<LiteralValue>) -> LiteralValue {
    match value {
        Some(v) => v,
        None => LiteralValue::Empty,
    }
}

/// Whether the store of `engine` shows what `m` holds: of the rectangle whose first row and
/// column are `r` and `c`, counted from zero, the cell in row `r + i + 1` and column
/// `c + j + 1` at the place `(i, j)`, and no place beyond the rectangle.
pub open spec fn stores<E: WorkbookEngine>(engine: E, sheet: Seq<char>, m: SheetModel) -> bool {
    &&& forall|
        name: &str,
        r: usize,
        c: usize,
        last_r: usize,
        last_c: usize,
        i: usize,
        j: usize,
        v: LiteralValue,
    |
        name@ == sheet && #[trigger] call_ensures(
            E::store_range_cell,
            (&engine, name, r, c, last_r, last_c, i, j),
            v,
        ) ==> v == shown((m.values)(((r + i + 1) as u32, (c + j + 1) as u32)))
    &&& forall|
        name: &str,
        r: usize,
        c: usize,
        last_r: usize,
        last_c: usize,
        size: (usize, usize),
    |
        name@ == sheet && #[trigger] call_ensures(
            E::store_range_dims,
            (&engine, name, r, c, last_r, last_c),
            size,
        ) ==> size.0 <= last_r - r + 1 && size.1 <= last_c - c + 1
}

/// Whether the store of `engine` shows every rectangle whole.
pub open spec fn shows_whole<E: WorkbookEngine>(engine: E, sheet: Seq<char>) -> bool {
    forall|
        name: &str,
        r: usize,
        c: usize,
        last_r: usize,
        last_c: usize,
        size: (usize, usize),
    |
        name@ == sheet && #[trigger] call_ensures(
            E::store_range_dims,
            (&engine, name, r, c, last_r, last_c),
            size,
        ) ==> size.0 == last_r - r + 1 && size.1 == last_c - c + 1
}

/// Reading a range gives, in row `i` and column `j` of the result, what the cell holds that
/// lies `i` rows below and `j` columns beside the first one of the range, whether or not
/// the store holds the sheet. Where it does not, or shows the range whole, all cells of the
/// range are given.
pub proof fn law_range_holds_its_cells<E: WorkbookEngine>(
    wb: Workbook<E>,
    address: RangeAddress,
    m: SheetModel,
    rows: Vec<Vec<LiteralValue>>,
)
    requires
        1 <= address.start_row <= address.end_row,
        1 <= address.start_col <= address.end_col,
        answers_for(wb.host().engine(), address.sheet@, m),
        stores(wb.host().engine(), address.sheet@, m),
        call_ensures(Workbook::<E>::read_range, (&wb, &address), rows),
    ensures
        rows@.len() <= address.end_row - address.start_row + 1,
        forall|i: int|
            0 <= i < rows@.len() ==> (#[trigger] rows@[i])@.len() <= address.end_col
                - address.start_col + 1,
        forall|i: int, j: int|
            0 <= i < rows@.len() && 0 <= j < rows@[i]@.len() ==> #[trigger] rows@[i]@[j] == shown(
                (m.values)(((address.start_row + i) as u32, (address.start_col + j) as u32)),
            ),
        shows_whole(wb.host().engine(), address.sheet@) ==> rows@.len() == address.end_row
            - address.start_row + 1 && forall|i: int|
            0 <= i < rows@.len() ==> (#[trigger] rows@[i])@.len() == address.end_col
                - address.start_col + 1,
{
    let engine = wb.host().engine();
    let sheet = address.sheet@;
    let stored = choose|stored: bool| #[trigger]
        store_has(engine, sheet, stored) && range_is(
            engine,
            address,
            stored,
            rows@,
        );
    if stored {
        let b = bounds_of(address);
        let size = choose|size: (usize, usize)| #[trigger]
            view_size_is(engine, sheet, b, size) && rows@.len() == size.0
                && view_rows_are(engine, sheet, b, size.1 as nat, rows@);
        assert forall|i: int, j: int|
            0 <= i < rows@.len() && 0 <= j < rows@[i]@.len() implies #[trigger] rows@[i]@[j]
            == shown(
            (m.values)(((address.start_row + i) as u32, (address.start_col + j) as u32)),
        ) by {
            assert(view_row_is(engine, sheet, b, i, rows@[i]@));
            assert(view_cell_is(engine, sheet, b, i, j, rows@[i]@[j]));
            assert(b.start_row + i as usize + 1 == address.start_row + i);
            assert(b.start_col + j as usize + 1 == address.start_col + j);
        }
    } else {
        assert forall|i: int, j: int|
            0 <= i < rows@.len() && 0 <= j < rows@[i]@.len() implies #[trigger] rows@[i]@[j]
            == shown(
            (m.values)(((address.start_row + i) as u32, (address.start_col + j) as u32)),
        ) by {
            assert(row_shows(
                engine,
                sheet,
                (address.start_row + i) as u32,
                address.start_col,
                rows@[i]@,
            ));
            assert(cell_shows(
                engine,
                sheet,
                (address.start_row + i) as u32,
                (address.start_col + j) as u32,
                rows@[i]@[j],
            ));
        }
    }
}

/// A range of a sheet that the store holds is read from the store, whatever the graph
/// holds; any other is read cell by cell from the graph, whatever the store shows, and then
/// all its cells are given.
pub proof fn law_range_comes_from_store_or_graph<E: WorkbookEngine>(
    wb: Workbook<E>,
    address: RangeAddress,
    m: SheetModel,
    rows: Vec<Vec<LiteralValue>>,
    present: bool,
)
    requires
        1 <= address.start_row <= address.end_row,
        1 <= address.start_col <= address.end_col,
        forall|n: &str, a: bool|
            n@ == address.sheet@ && #[trigger] call_ensures(
                E::has_store_sheet,
                (&wb.host().engine(), n),
                a,
            ) ==> a == present,
        present ==> stores(wb.host().engine(), address.sheet@, m),
        !present ==> answers_for(wb.host().engine(), address.sheet@, m),
        call_ensures(Workbook::<E>::read_range, (&wb, &address), rows),
    ensures
        rows@.len() <= address.end_row - address.start_row + 1,
        forall|i: int|
            0 <= i < rows@.len() ==> (#[trigger] rows@[i])@.len() <= address.end_col
                - address.start_col + 1,
        forall|i: int, j: int|
            0 <= i < rows@.len() && 0 <= j < rows@[i]@.len() ==> #[trigger] rows@[i]@[j] == shown(
                (m.values)(((address.start_row + i) as u32, (address.start_col + j) as u32)),
            ),
        !present || shows_whole(wb.host().engine(), address.sheet@) ==> rows@.len()
            == address.end_row - address.start_row + 1 && forall|i: int|
            0 <= i < rows@.len() ==> (#[trigger] rows@[i])@.len() == address.end_col
                - address.start_col + 1,
{
    let engine = wb.host().engine();
    let sheet = address.sheet@;
    let stored = choose|stored: bool| #[trigger]
        store_has(engine, sheet, stored) && range_is(
            engine,
            address,
            stored,
            rows@,
        );
    if stored {
        let b = bounds_of(address);
        let size = choose|size: (usize, usize)| #[trigger]
            view_size_is(engine, sheet, b, size) && rows@.len() == size.0
                && view_rows_are(engine, sheet, b, size.1 as nat, rows@);
        assert forall|i: int, j: int|
            0 <= i < rows@.len() && 0 <= j < rows@[i]@.len() implies #[trigger] rows@[i]@[j]
            == shown(
            (m.values)(((address.start_row + i) as u32, (address.start_col + j) as u32)),
        ) by {
            assert(view_row_is(engine, sheet, b, i, rows@[i]@));
            assert(view_cell_is(engine, sheet, b, i, j, rows@[i]@[j]));
            assert(b.start_row + i as usize + 1 == address.start_row + i);
            assert(b.start_col + j as usize + 1 == address.start_col + j);
        }
    } else {
        assert forall|i: int, j: int|
            0 <= i < rows@.len() && 0 <= j < rows@[i]@.len() implies #[trigger] rows@[i]@[j]
            == shown(
            (m.values)(((address.start_row + i) as u32, (address.start_col + j) as u32)),
        ) by {
            assert(row_shows(
                engine,
                sheet,
                (address.start_row + i) as u32,
                address.start_col,
                rows@[i]@,
            ));
            assert(cell_shows(
                engine,
                sheet,
                (address.start_row + i) as u32,
                (address.start_col + j) as u32,
                rows@[i]@[j],
            ));
        }
    }
}

/// Reading a range gives for each cell what reading the cell gives, nothing counting as
/// empty.
pub proof fn law_range_agrees_with_its_cells<E: WorkbookEngine>(
    wb: Workbook<E>,
    address: RangeAddress,
    m: SheetModel,
    rows: Vec<Vec<LiteralValue>>,
    name: &str,
    i: int,
    j: int,
    value: Option<LiteralValue>,
)
    requires
        1 <= address.start_row <= address.end_row,
        1 <= address.start_col <= address.end_col,
        answers_for(wb.host().engine(), address.sheet@, m),
        stores(wb.host().engine(), address.sheet@, m),
        call_ensures(Workbook::<E>::read_range, (&wb, &address), rows),
        name@ == address.sheet@,
        0 <= i < rows@.len(),
        0 <= j < rows@[i]@.len(),
        call_ensures(
            Workbook::<E>::get_value,
            (&wb, name, (address.start_row + i) as u32, (address.start_col + j) as u32),
            value,
        ),
    ensures
        value is Some ==> rows@[i]@[j] == value->0,
        value is None ==> rows@[i]@[j] is Empty,
{
    law_range_holds_its_cells(wb, address, m, rows);
    assert(call_ensures(
        E::get_cell_value,
        (
            &wb.host().engine(),
            name,
            (address.start_row + i) as u32,
            (address.start_col + j) as u32,
        ),
        value,
    ));
    assert(rows@[i]@[j] == shown(
        (m.values)(((address.start_row + i) as u32, (address.start_col + j) as u32)),
    ));
}

/// Reading a cell gives its value; and its formula: the text staged for it as it stands,
/// else the canonical text of the tree that the graph holds, else nothing.
pub proof fn law_cell_is_read_as_it_is<E: WorkbookEngine>(
    wb: Workbook<E>,
    sheet: &str,
    row: u32,
    col: u32,
    m: SheetModel,
    value: Option<LiteralValue>,
    formula: Option<String>,
)
    requires
        answers_for(wb.host().engine(), sheet@, m),
        call_ensures(Workbook::<E>::get_value, (&wb, sheet, row, col), value),
        call_ensures(Workbook::<E>::get_formula, (&wb, sheet, row, col), formula),
    ensures
        value == (m.values)((row, col)),
        (m.texts)((row, col)) is Some ==> formula is Some && formula->0@ == (m.texts)(
            (row, col),
        )->0,
        (m.texts)((row, col)) is None && (m.trees)((row, col)) is Some ==> formula is Some
            && formula->0@ == printed_tree((m.trees)((row, col))->0),
        (m.texts)((row, col)) is None && (m.trees)((row, col)) is None ==> formula is None,
{
}

/// The size of a sheet is that of the store, where the store holds it.
pub proof fn law_dimensions_are_those_of_the_store<E: WorkbookEngine>(
    wb: Workbook<E>,
    name: &str,
    present: bool,
    rows: u32,
    columns: usize,
    r: Option<(u32, u32)>,
)
    requires
        forall|n: &str, a: bool|
            n@ == name@ && #[trigger] call_ensures(
                E::has_store_sheet,
                (&wb.host().engine(), n),
                a,
            ) ==> a == present,
        forall|n: &str, a: u32|
            n@ == name@ && #[trigger] call_ensures(E::store_rows, (&wb.host().engine(), n), a)
                ==> a == rows,
        forall|n: &str, a: usize|
            n@ == name@ && #[trigger] call_ensures(E::store_columns, (&wb.host().engine(), n), a)
                ==> a == columns,
        call_ensures(Workbook::<E>::sheet_dimensions, (&wb, name), r),
    ensures
        r is Some <==> present,
        r is Some ==> (r->0).0 == rows,
        r is Some && columns <= u32::MAX ==> (r->0).1 == columns,
{
}

/// What else is read of a workbook is what its engine answers; an unknown sheet has no
/// hidden rows to tell of.
pub proof fn law_other_reads_are_those_of_the_engine<E: WorkbookEngine>(
    wb: Workbook<E>,
    sheet: &str,
    row: u32,
    col: u32,
    names: Vec<String>,
    known: bool,
    hidden: Result<bool, IoError>,
    dependents: Vec<(String, u32, u32)>,
    dependencies: Vec<(String, u32, u32)>,
    transitive: Vec<(String, u32, u32)>,
    staged: bool,
    config: &EvalConfig<E::Settings>,
    calc: Option<&CalcSettings<E::Iteration>>,
)
    requires
        call_ensures(Workbook::<E>::sheet_names, (&wb,), names),
        call_ensures(Workbook::<E>::has_sheet, (&wb, sheet), known),
        call_ensures(Workbook::<E>::is_row_hidden, (&wb, sheet, row), hidden),
        call_ensures(Workbook::<E>::get_dependents, (&wb, sheet, row, col), dependents),
        call_ensures(Workbook::<E>::get_dependencies, (&wb, sheet, row, col), dependencies),
        call_ensures(Workbook::<E>::get_transitive_dependents, (&wb, sheet, row, col), transitive),
        call_ensures(Workbook::<E>::has_staged_formulas, (&wb,), staged),
        call_ensures(Workbook::<E>::eval_config, (&wb,), config),
        call_ensures(Workbook::<E>::loaded_calc_settings, (&wb,), calc),
    ensures
        call_ensures(E::sheet_names, (&wb.host().engine(),), names),
        known ==> exists|id: u32| #[trigger]
            call_ensures(E::sheet_id, (&wb.host().engine(), sheet), Some(id)),
        !known ==> call_ensures(E::sheet_id, (&wb.host().engine(), sheet), None),
        hidden is Ok ==> call_ensures(
            E::is_row_hidden,
            (&wb.host().engine(), sheet, row),
            Some(hidden->Ok_0),
        ),
        hidden is Err ==> call_ensures(E::is_row_hidden, (&wb.host().engine(), sheet, row), None)
            && hidden->Err_0@ is Backend,
        call_ensures(E::get_dependents, (&wb.host().engine(), sheet, row, col), dependents),
        call_ensures(E::get_dependencies, (&wb.host().engine(), sheet, row, col), dependencies),
        call_ensures(
            E::get_transitive_dependents,
            (&wb.host().engine(), sheet, row, col),
            transitive,
        ),
        call_ensures(E::has_staged_formulas, (&wb.host().engine(),), staged),
        call_ensures(E::config, (&wb.host().engine(),), config),
        calc is Some <==> wb.calc() is Some,
        calc is Some ==> *(calc->0) == wb.calc()->0,
{
    let id = choose|id: Option<u32>| #[trigger]
        call_ensures(E::sheet_id, (&wb.host().engine(), sheet), id) && known == (id is Some);
    if known {
        assert(call_ensures(E::sheet_id, (&wb.host().engine(), sheet), Some(id->0)));
    }
}

} // verus!
