//! Reading cells, sheets and ranges without changing anything.

use crate::address::RangeAddress;
use crate::engine::{formula_of, CellState, WorkbookEngine};
use crate::formula::{canonical_formula, printed_tree};
use crate::text::text_view;
use crate::value::{value_or_empty, LiteralValue};
use vstd::prelude::*;

verus! {

/// Whether `engine` gave `r` as the value of a cell.
pub open spec fn value_is<E: WorkbookEngine>(
    engine: E,
    sheet: Seq<char>,
    row: u32,
    col: u32,
    r: Option<LiteralValue>,
) -> bool {
    exists|name: &str| name@ == sheet && #[trigger] call_ensures(
        E::get_cell_value,
        (&engine, name, row, col),
        r,
    )
}

/// Whether `engine` gave `r` as what the graph holds of a cell.
pub open spec fn state_is<E: WorkbookEngine>(
    engine: E,
    sheet: Seq<char>,
    row: u32,
    col: u32,
    r: Option<CellState>,
) -> bool {
    exists|name: &str| name@ == sheet && #[trigger] call_ensures(
        E::get_cell,
        (&engine, name, row, col),
        r,
    )
}

/// Whether `engine` gave `r` as the formula text staged for a cell.
pub open spec fn staged_is<E: WorkbookEngine>(
    engine: E,
    sheet: Seq<char>,
    row: u32,
    col: u32,
    r: Option<String>,
) -> bool {
    exists|name: &str| name@ == sheet && #[trigger] call_ensures(
        E::staged_formula_text,
        (&engine, name, row, col),
        r,
    )
}

/// The canonical text of a formula that the graph holds.
pub open spec fn graph_formula(state: Option<CellState>) -> Option<Seq<char>> {
    match formula_of(state) {
        Some(tree) => Some(printed_tree(tree)),
        None => None,
    }
}

/// Whether `r` is the canonical text of what the graph holds of a cell.
pub open spec fn graph_formula_is<E: WorkbookEngine>(
    engine: E,
    sheet: Seq<char>,
    row: u32,
    col: u32,
    r: Option<Seq<char>>,
) -> bool {
    exists|state: Option<CellState>| #[trigger]
        state_is(engine, sheet, row, col, state) && r == graph_formula(state)
}

/// Whether `r` is the formula of a cell, given the text staged for it: that text as
/// it is, else the canonical text of what the graph holds.
pub open spec fn shown_formula<E: WorkbookEngine>(
    engine: E,
    sheet: Seq<char>,
    row: u32,
    col: u32,
    staged: Option<Seq<char>>,
    r: Option<Seq<char>>,
) -> bool {
    if staged is Some {
        r == staged
    } else {
        graph_formula_is(engine, sheet, row, col, r)
    }
}

/// Whether `r` is the formula of a cell.
pub open spec fn formula_is<E: WorkbookEngine>(
    engine: E,
    sheet: Seq<char>,
    row: u32,
    col: u32,
    r: Option<Seq<char>>,
) -> bool {
    exists|staged: Option<String>| #[trigger]
        staged_is(engine, sheet, row, col, staged) && shown_formula(
            engine,
            sheet,
            row,
            col,
            text_view(staged),
            r,
        )
}

/// Whether `engine` answered `r` when asked for the sheet in the store.
pub open spec fn store_has<E: WorkbookEngine>(engine: E, sheet: Seq<char>, r: bool) -> bool {
    exists|name: &str| name@ == sheet && #[trigger] call_ensures(
        E::has_store_sheet,
        (&engine, name),
        r,
    )
}

/// Whether `engine` gave `r` as the number of rows in the store.
pub open spec fn store_rows_are<E: WorkbookEngine>(engine: E, sheet: Seq<char>, r: u32) -> bool {
    exists|name: &str| name@ == sheet && #[trigger] call_ensures(
        E::store_rows,
        (&engine, name),
        r,
    )
}

/// Whether `engine` gave `r` as the number of columns in the store.
pub open spec fn store_columns_are<E: WorkbookEngine>(
    engine: E,
    sheet: Seq<char>,
    r: usize,
) -> bool {
    exists|name: &str| name@ == sheet && #[trigger] call_ensures(
        E::store_columns,
        (&engine, name),
        r,
    )
}

/// Whether `r` are the rows and columns of a sheet, as far as the store holds it.
pub open spec fn dimensions_are<E: WorkbookEngine>(
    engine: E,
    sheet: Seq<char>,
    r: Option<(u32, u32)>,
) -> bool {
    match r {
        None => store_has(engine, sheet, false),
        Some((rows, columns)) => store_has(engine, sheet, true) && store_rows_are(
            engine,
            sheet,
            rows,
        ) && columns_fit(engine, sheet, columns),
    }
}

/// Whether `columns` is the number of columns in the store, cut to its width.
pub open spec fn columns_fit<E: WorkbookEngine>(
    engine: E,
    sheet: Seq<char>,
    columns: u32,
) -> bool {
    exists|count: usize| #[trigger]
        store_columns_are(engine, sheet, count) && columns == (count as u32)
}

/// The formula of a cell, see [`formula_is`].
pub(crate) fn read_formula<E: WorkbookEngine>(engine: &E, sheet: &str, row: u32, col: u32) -> (r:
    Option<String>)
    ensures
        formula_is(*engine, sheet@, row, col, text_view(r)),
{
    let staged = engine.staged_formula_text(sheet, row, col);
    assert(staged_is(*engine, sheet@, row, col, staged));
    match staged {
        Some(text) => Some(text),
        None => {
            let state = engine.get_cell(sheet, row, col);
            assert(state_is(*engine, sheet@, row, col, state));
            let r = match state {
                Some(held) => match held.formula {
                    Some(tree) => Some(canonical_formula(&tree)),
                    None => None,
                },
                None => None,
            };
            assert(graph_formula_is(*engine, sheet@, row, col, text_view(r)));
            r
        },
    }
}

/// The rows and columns of a sheet, see [`dimensions_are`].
pub(crate) fn read_dimensions<E: WorkbookEngine>(engine: &E, sheet: &str) -> (r: Option<(u32, u32)>)
    ensures
        dimensions_are(*engine, sheet@, r),
{
    let present = engine.has_store_sheet(sheet);
    assert(store_has(*engine, sheet@, present));
    if !present {
        return None;
    }
    let rows = engine.store_rows(sheet);
    let columns = engine.store_columns(sheet);
    assert(store_columns_are(*engine, sheet@, columns));
    Some((rows, #[verifier::truncate] (columns as u32)))
}

/// The bounds of a rectangle as indices of the store.
pub struct StoreBounds {
    pub start_row: usize,
    pub start_col: usize,
    pub end_row: usize,
    pub end_col: usize,
}

/// The bounds of an address, counted from zero.
pub open spec fn bounds_of(address: RangeAddress) -> StoreBounds {
    StoreBounds {
        start_row: crate::store::store_index(address.start_row),
        start_col: crate::store::store_index(address.start_col),
        end_row: crate::store::store_index(address.end_row),
        end_col: crate::store::store_index(address.end_col),
    }
}

/// Whether `engine` gave `r` as the size of what the store holds of a rectangle.
pub open spec fn view_size_is<E: WorkbookEngine>(
    engine: E,
    sheet: Seq<char>,
    b: StoreBounds,
    r: (usize, usize),
) -> bool {
    exists|name: &str| name@ == sheet && #[trigger] call_ensures(
        E::store_range_dims,
        (&engine, name, b.start_row, b.start_col, b.end_row, b.end_col),
        r,
    )
}

/// Whether `engine` gave `r` as one value of what the store holds of a rectangle.
pub open spec fn view_cell_is<E: WorkbookEngine>(
    engine: E,
    sheet: Seq<char>,
    b: StoreBounds,
    row: int,
    col: int,
    r: LiteralValue,
) -> bool {
    exists|name: &str| name@ == sheet && #[trigger] call_ensures(
        E::store_range_cell,
        (
            &engine,
            name,
            b.start_row,
            b.start_col,
            b.end_row,
            b.end_col,
            row as usize,
            col as usize,
        ),
        r,
    )
}

/// Whether `values` are the first values of row `row` of what the store holds.
pub open spec fn view_row_is<E: WorkbookEngine>(
    engine: E,
    sheet: Seq<char>,
    b: StoreBounds,
    row: int,
    values: Seq<LiteralValue>,
) -> bool {
    forall|j: int|
        0 <= j < values.len() ==> view_cell_is(engine, sheet, b, row, j, #[trigger] values[j])
}

/// Whether `rows` are the first rows, `width` wide, of what the store holds.
pub open spec fn view_rows_are<E: WorkbookEngine>(
    engine: E,
    sheet: Seq<char>,
    b: StoreBounds,
    width: nat,
    rows: Seq<Vec<LiteralValue>>,
) -> bool {
    forall|i: int|
        0 <= i < rows.len() ==> (#[trigger] rows[i])@.len() == width && view_row_is(
            engine,
            sheet,
            b,
            i,
            rows[i]@,
        )
}

/// Whether `rows` are all that the store holds of a rectangle.
pub open spec fn view_is<E: WorkbookEngine>(
    engine: E,
    sheet: Seq<char>,
    b: StoreBounds,
    rows: Seq<Vec<LiteralValue>>,
) -> bool {
    exists|size: (usize, usize)| #[trigger]
        view_size_is(engine, sheet, b, size) && rows.len() == size.0 && view_rows_are(
            engine,
            sheet,
            b,
            size.1 as nat,
            rows,
        )
}

/// Whether a cell shows `value`, an absent value counting as empty.
pub open spec fn cell_shows<E: WorkbookEngine>(
    engine: E,
    sheet: Seq<char>,
    row: u32,
    col: u32,
    value: LiteralValue,
) -> bool {
    exists|held: Option<LiteralValue>| #[trigger]
        value_is(engine, sheet, row, col, held) && value == value_or_empty(held)
}

/// Whether the cells of a row, from column `col` on, show `values`.
pub open spec fn row_shows<E: WorkbookEngine>(
    engine: E,
    sheet: Seq<char>,
    row: u32,
    col: u32,
    values: Seq<LiteralValue>,
) -> bool {
    forall|j: int|
        0 <= j < values.len() ==> cell_shows(
            engine,
            sheet,
            row,
            (col + j) as u32,
            #[trigger] values[j],
        )
}

/// Whether the first rows of a rectangle show `rows`.
pub open spec fn rows_show<E: WorkbookEngine>(
    engine: E,
    address: RangeAddress,
    rows: Seq<Vec<LiteralValue>>,
) -> bool {
    forall|i: int|
        0 <= i < rows.len() ==> (#[trigger] rows[i])@.len() == address.end_col - address.start_col
            + 1 && row_shows(
            engine,
            address.sheet@,
            (address.start_row + i) as u32,
            address.start_col,
            rows[i]@,
        )
}

/// Whether `rows` are the values of a range: what the store holds of it, or cell by
/// cell where the store does not hold the sheet.
pub open spec fn range_is<E: WorkbookEngine>(
    engine: E,
    address: RangeAddress,
    stored: bool,
    rows: Seq<Vec<LiteralValue>>,
) -> bool {
    if stored {
        view_is(engine, address.sheet@, bounds_of(address), rows)
    } else {
        rows.len() == address.end_row - address.start_row + 1 && rows_show(engine, address, rows)
    }
}

fn index_of(n: u32) -> (r: usize)
    ensures
        r == crate::store::store_index(n),
{
    if n == 0 {
        0
    } else {
        (n - 1) as usize
    }
}

fn read_stored_range<E: WorkbookEngine>(engine: &E, address: &RangeAddress) -> (rows: Vec<
    Vec<LiteralValue>,
>)
    ensures
        view_is(*engine, address.sheet@, bounds_of(*address), rows@),
{
    let start_row = index_of(address.start_row);
    let start_col = index_of(address.start_col);
    let end_row = index_of(address.end_row);
    let end_col = index_of(address.end_col);
    let ghost b = bounds_of(*address);
    let (height, width) = engine.store_range_dims(
        &address.sheet,
        start_row,
        start_col,
        end_row,
        end_col,
    );
    assert(view_size_is(*engine, address.sheet@, b, (height, width)));
    let mut rows: Vec<Vec<LiteralValue>> = Vec::new();
    let mut i: usize = 0;
    while i < height
        invariant
            i <= height,
            b == bounds_of(*address),
            b == (StoreBounds { start_row, start_col, end_row, end_col }),
            rows@.len() == i,
            view_rows_are(*engine, address.sheet@, b, width as nat, rows@),
        decreases height - i,
    {
        let mut row: Vec<LiteralValue> = Vec::new();
        let mut j: usize = 0;
        while j < width
            invariant
                j <= width,
                b == (StoreBounds { start_row, start_col, end_row, end_col }),
                row@.len() == j,
                view_row_is(*engine, address.sheet@, b, i as int, row@),
            decreases width - j,
        {
            let value = engine.store_range_cell(
                &address.sheet,
                start_row,
                start_col,
                end_row,
                end_col,
                i,
                j,
            );
            assert(view_cell_is(*engine, address.sheet@, b, i as int, j as int, value));
            let ghost before = row@;
            row.push(value);
            assert(forall|k: int| 0 <= k < before.len() ==> #[trigger] row@[k] == before[k]);
            j += 1;
        }
        let ghost before = rows@;
        rows.push(row);
        assert(forall|k: int| 0 <= k < before.len() ==> #[trigger] rows@[k] == before[k]);
        i += 1;
    }
    rows
}

fn read_shown_range<E: WorkbookEngine>(engine: &E, address: &RangeAddress) -> (rows: Vec<
    Vec<LiteralValue>,
>)
    requires
        address.measurable(),
    ensures
        rows@.len() == address.end_row - address.start_row + 1,
        rows_show(*engine, *address, rows@),
{
    let height = address.height();
    let width = address.width();
    let mut rows: Vec<Vec<LiteralValue>> = Vec::new();
    let mut i: u32 = 0;
    while i < height
        invariant
            i <= height,
            address.measurable(),
            height == address.end_row - address.start_row + 1,
            width == address.end_col - address.start_col + 1,
            rows@.len() == i,
            rows_show(*engine, *address, rows@),
        decreases height - i,
    {
        let mut row: Vec<LiteralValue> = Vec::new();
        let mut j: u32 = 0;
        while j < width
            invariant
                i < height,
                j <= width,
                address.measurable(),
                height == address.end_row - address.start_row + 1,
                width == address.end_col - address.start_col + 1,
                row@.len() == j,
                row_shows(
                    *engine,
                    address.sheet@,
                    (address.start_row + i) as u32,
                    address.start_col,
                    row@,
                ),
            decreases width - j,
        {
            let r = address.start_row + i;
            let c = address.start_col + j;
            let held = engine.get_cell_value(&address.sheet, r, c);
            assert(value_is(*engine, address.sheet@, r, c, held));
            let value = match held {
                Some(v) => v,
                None => LiteralValue::Empty,
            };
            assert(cell_shows(*engine, address.sheet@, r, c, value));
            let ghost before = row@;
            row.push(value);
            assert(forall|k: int| 0 <= k < before.len() ==> #[trigger] row@[k] == before[k]);
            j += 1;
        }
        let ghost before = rows@;
        rows.push(row);
        assert(forall|k: int| 0 <= k < before.len() ==> #[trigger] rows@[k] == before[k]);
        i += 1;
    }
    rows
}

/// The values of a range, see [`range_is`].
pub(crate) fn read_values<E: WorkbookEngine>(engine: &E, address: &RangeAddress) -> (rows: Vec<
    Vec<LiteralValue>,
>)
    requires
        address.measurable(),
    ensures
        exists|stored: bool| #[trigger]
            store_has(*engine, address.sheet@, stored) && range_is(
                *engine,
                *address,
                stored,
                rows@,
            ),
{
    let stored = engine.has_store_sheet(&address.sheet);
    assert(store_has(*engine, address.sheet@, stored));
    if stored {
        read_stored_range(engine, address)
    } else {
        read_shown_range(engine, address)
    }
}

} // verus!
