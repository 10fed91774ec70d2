//! Rectangles of cells, given row by row.

use vstd::prelude::*;

verus! {

/// The first `n` cells of a row that starts at `col`.
pub open spec fn row_cells<V>(row: u32, col: u32, values: Seq<V>, n: int) -> Seq<(u32, u32, V)> {
    Seq::new(n as nat, |i: int| (row, (col + i) as u32, values[i]))
}

/// The cells of the first `n` rows of a rectangle whose first cell is at `row` and
/// `col`, row by row.
pub open spec fn rect_cells<V>(row: u32, col: u32, rows: Seq<Vec<V>>, n: int) -> Seq<(u32, u32, V)>
    decreases n,
{
    if n <= 0 {
        Seq::empty()
    } else {
        rect_cells(row, col, rows, n - 1) + row_cells(
            (row + n - 1) as u32,
            col,
            rows[n - 1]@,
            rows[n - 1]@.len() as int,
        )
    }
}

/// The cells of a rectangle, row by row.
pub open spec fn cells_of<V>(row: u32, col: u32, rows: Seq<Vec<V>>) -> Seq<(u32, u32, V)> {
    rect_cells(row, col, rows, rows.len() as int)
}

/// Whether every cell of the rectangle has coordinates.
pub open spec fn fits<V>(row: u32, col: u32, rows: Seq<Vec<V>>) -> bool {
    &&& row + rows.len() <= 0x1_0000_0000
    &&& forall|i: int|
        0 <= i < rows.len() ==> col + (#[trigger] rows[i])@.len() <= 0x1_0000_0000
}

/// The number of cells in the longest of the first `n` rows.
pub open spec fn width_of<V>(rows: Seq<Vec<V>>, n: int) -> nat
    decreases n,
{
    if n <= 0 {
        0
    } else {
        let before = width_of(rows, n - 1);
        let last = rows[n - 1]@.len();
        if last > before {
            last
        } else {
            before
        }
    }
}

/// Whether `listed` are the cells `cells`.
pub open spec fn lists<V>(listed: Seq<(u32, u32, &V)>, cells: Seq<(u32, u32, V)>) -> bool {
    &&& listed.len() == cells.len()
    &&& forall|i: int|
        0 <= i < cells.len() ==> (#[trigger] listed[i]).0 == cells[i].0 && listed[i].1 == cells[i].1
            && *listed[i].2 == cells[i].2
}

/// The cells of a rectangle, row by row.
pub fn list_cells<'a, V>(row: u32, col: u32, rows: &'a [Vec<V>]) -> (r: Vec<(u32, u32, &'a V)>)
    requires
        fits(row, col, rows@),
    ensures
        lists(r@, cells_of(row, col, rows@)),
{
    let mut listed: Vec<(u32, u32, &'a V)> = Vec::new();
    let mut i: usize = 0;
    while i < rows.len()
        invariant
            i <= rows@.len(),
            fits(row, col, rows@),
            lists(listed@, rect_cells(row, col, rows@, i as int)),
        decreases rows@.len() - i,
    {
        let r: u32 = (row as u64 + i as u64) as u32;
        let values = &rows[i];
        let ghost before = rect_cells(row, col, rows@, i as int);
        let mut j: usize = 0;
        while j < values.len()
            invariant
                i < rows@.len(),
                fits(row, col, rows@),
                *values == rows@[i as int],
                r == (row + i) as u32,
                j <= values@.len(),
                lists(listed@, before + row_cells(r, col, values@, j as int)),
            decreases values@.len() - j,
        {
            let c: u32 = (col as u64 + j as u64) as u32;
            let ghost grown = before + row_cells(r, col, values@, j + 1);
            listed.push((r, c, &values[j]));
            assert(grown =~= (before + row_cells(r, col, values@, j as int)).push(
                (r, c, values@[j as int]),
            ));
            j += 1;
        }
        i += 1;
    }
    listed
}

/// The number of cells in the longest row.
pub fn width<V>(rows: &[Vec<V>]) -> (r: usize)
    ensures
        r == width_of(rows@, rows@.len() as int),
{
    let mut widest: usize = 0;
    let mut i: usize = 0;
    while i < rows.len()
        invariant
            i <= rows@.len(),
            widest == width_of(rows@, i as int),
        decreases rows@.len() - i,
    {
        if rows[i].len() > widest {
            widest = rows[i].len();
        }
        i += 1;
    }
    widest
}

/// The width is that of some row.
pub proof fn lemma_width_reached<V>(rows: Seq<Vec<V>>, n: int) -> (i: int)
    requires
        0 <= n <= rows.len(),
        width_of(rows, n) > 0,
    ensures
        0 <= i < n,
        rows[i]@.len() == width_of(rows, n),
    decreases n,
{
    if rows[n - 1]@.len() == width_of(rows, n) {
        n - 1
    } else {
        lemma_width_reached(rows, n - 1)
    }
}

/// Rows without a cell have no cells.
pub proof fn lemma_no_cells<V>(row: u32, col: u32, rows: Seq<Vec<V>>, n: int)
    requires
        width_of(rows, n) == 0,
    ensures
        rect_cells(row, col, rows, n).len() == 0,
    decreases n,
{
    if n > 0 {
        lemma_no_cells(row, col, rows, n - 1);
    }
}

} // verus!
