//! Laws on writing a workbook out: the file gets the sheets of the workbook, and of each
//! sheet the cells that hold something, each once and as it is read.

use crate::engine::{CalcSettings, WorkbookEngine};
use crate::error::IoError;
use crate::export::{
    after_creations, after_first_name, after_row, after_rows, after_sheets, cell_true, export_true,
    exported, row_true, rows_true, saved, settled, sheet_whole, workbook_run, CellExport,
    ExportReplies, FileEvent, FileHost, FileRun, SheetExport, SpreadsheetFile,
};
use crate::formula::printed_tree;
use crate::laws_reads::{answers_for, SheetModel};
use crate::value::LiteralValue;
use crate::workbook::Workbook;
use vstd::prelude::*;

verus! {

/// What was written of a cell: its value, its formula and its style.
pub type Written = (Option<LiteralValue>, Option<Seq<char>>, Option<u32>);

/// What the calls of `g` wrote to a cell of a file, in order.
pub open spec fn written(g: Seq<FileEvent>, sheet: Seq<char>, row: int, col: int) -> Seq<Written>
    decreases g.len(),
{
    if g.len() == 0 {
        Seq::empty()
    } else {
        let before = written(g.drop_last(), sheet, row, col);
        match g.last() {
            FileEvent::WriteCell { sheet: s, row: r, col: c, value, formula, style, reply } => if s
                == sheet && r == row && c == col {
                before.push((value, formula, style))
            } else {
                before
            },
            _ => before,
        }
    }
}

/// The sheets of a file and whether each cell so far was written to one of them.
pub struct FileModel {
    pub sheets: Seq<Seq<char>>,
    pub sound: bool,
}

/// The file after the calls of `g` behind the first `from`.
pub open spec fn file_after(f: FileModel, g: Seq<FileEvent>, from: int) -> FileModel
    decreases g.len(),
{
    if g.len() <= from || g.len() == 0 {
        f
    } else {
        let before = file_after(f, g.drop_last(), from);
        match g.last() {
            FileEvent::RenameSheet { old_name, new_name, reply } => FileModel {
                sheets: before.sheets.map_values(
                    |s: Seq<char>|
                        if s == old_name {
                            new_name
                        } else {
                            s
                        },
                ),
                ..before
            },
            FileEvent::CreateSheet { name, reply } => FileModel {
                sheets: before.sheets.push(name),
                ..before
            },
            FileEvent::WriteCell { sheet, row, col, value, formula, style, reply } => FileModel {
                sound: before.sound && before.sheets.contains(sheet),
                ..before
            },
            _ => before,
        }
    }
}

broadcast proof fn lemma_written_push(
    g: Seq<FileEvent>,
    e: FileEvent,
    sheet: Seq<char>,
    row: int,
    col: int,
)
    ensures
        #[trigger] written(g.push(e), sheet, row, col) == match e {
            FileEvent::WriteCell { sheet: s, row: r, col: c, value, formula, style, reply } => if s
                == sheet && r == row && c == col {
                written(g, sheet, row, col).push((value, formula, style))
            } else {
                written(g, sheet, row, col)
            },
            _ => written(g, sheet, row, col),
        },
{
    assert(g.push(e).drop_last() =~= g);
}

/// What a cell that shows `value` and `formula` adds to a file: one writing without a
/// style, or nothing where the cell holds nothing.
pub open spec fn entry(value: Option<LiteralValue>, formula: Option<Seq<char>>) -> Seq<Written> {
    if value is None && formula is None {
        Seq::empty()
    } else {
        seq![(value, formula, None)]
    }
}

proof fn lemma_row_written(
    run: FileRun,
    sheet: Seq<char>,
    row: u32,
    cells: Seq<CellExport>,
    s: Seq<char>,
    r: int,
    c: int,
)
    requires
        cells.len() <= u32::MAX,
        after_row(run, sheet, row, cells).refusal is None,
    ensures
        run.refusal is None,
        written(after_row(run, sheet, row, cells).history, s, r, c) == if s == sheet && r == row
            && 1 <= c <= cells.len() {
            written(run.history, s, r, c) + entry(cells[c - 1].value, cells[c - 1].formula)
        } else {
            written(run.history, s, r, c)
        },
    decreases cells.len(),
{
    broadcast use lemma_written_push;

    if cells.len() > 0 {
        lemma_row_written(run, sheet, row, cells.drop_last(), s, r, c);
        let before = written(run.history, s, r, c);
        let last = cells.last();
        if s == sheet && r == row && c == cells.len() {
            assert(before + entry(last.value, last.formula) =~= if last.value is None
                && last.formula is None {
                before
            } else {
                before.push((last.value, last.formula, None))
            });
        }
    }
}

proof fn lemma_rows_written(
    run: FileRun,
    sheet: Seq<char>,
    rows: Seq<Seq<CellExport>>,
    s: Seq<char>,
    r: int,
    c: int,
)
    requires
        rows.len() <= u32::MAX,
        forall|j: int| 0 <= j < rows.len() ==> (#[trigger] rows[j]).len() <= u32::MAX,
        after_rows(run, sheet, rows).refusal is None,
    ensures
        run.refusal is None,
        written(after_rows(run, sheet, rows).history, s, r, c) == if s == sheet && 1 <= r
            <= rows.len() && 1 <= c <= rows[r - 1].len() {
            written(run.history, s, r, c) + entry(
                rows[r - 1][c - 1].value,
                rows[r - 1][c - 1].formula,
            )
        } else {
            written(run.history, s, r, c)
        },
    decreases rows.len(),
{
    if rows.len() > 0 {
        let rest = rows.drop_last();
        let n = rows.len() - 1;
        assert(rows[n].len() <= u32::MAX);
        assert forall|j: int| 0 <= j < rest.len() implies (#[trigger] rest[j]).len()
            <= u32::MAX by {
            assert(rows[j].len() <= u32::MAX);
        }
        let before = after_rows(run, sheet, rest);
        lemma_row_written(before, sheet, rows.len() as u32, rows.last(), s, r, c);
        lemma_rows_written(run, sheet, rest, s, r, c);
    }
}

/// Whether no two of the names are the same.
pub open spec fn all_different(names: Seq<String>) -> bool {
    forall|i: int, j: int|
        0 <= i < j < names.len() ==> (#[trigger] names[i])@ != (#[trigger] names[j])@
}

proof fn lemma_sheets_written(
    run: FileRun,
    names: Seq<String>,
    sheets: Seq<SheetExport>,
    k: int,
    s: Seq<char>,
    r: int,
    c: int,
)
    requires
        sheets.len() <= names.len(),
        all_different(names),
        forall|i: int| 0 <= i < sheets.len() ==> sheet_whole(#[trigger] sheets[i]),
        after_sheets(run, names, sheets).refusal is None,
        0 <= k < names.len() ==> s == names[k]@,
        !(0 <= k < names.len()) ==> forall|i: int|
            0 <= i < names.len() ==> (#[trigger] names[i])@ != s,
    ensures
        run.refusal is None,
        written(after_sheets(run, names, sheets).history, s, r, c) == if 0 <= k < sheets.len()
            && 1 <= r <= sheets[k].rows.len() && 1 <= c <= sheets[k].rows[r - 1].len() {
            written(run.history, s, r, c) + entry(
                sheets[k].rows[r - 1][c - 1].value,
                sheets[k].rows[r - 1][c - 1].formula,
            )
        } else {
            written(run.history, s, r, c)
        },
    decreases sheets.len(),
{
    if sheets.len() > 0 {
        let rest = sheets.drop_last();
        let n = sheets.len() - 1;
        assert(sheet_whole(sheets[n]));
        assert forall|i: int| 0 <= i < rest.len() implies sheet_whole(#[trigger] rest[i]) by {
            assert(sheet_whole(sheets[i]));
        }
        let before = after_sheets(run, names, rest);
        let rows = sheets.last().rows;
        assert forall|j: int| 0 <= j < rows.len() implies (#[trigger] rows[j]).len()
            <= u32::MAX by {
            assert(sheets[n].rows[j].len() <= u32::MAX);
        }
        lemma_rows_written(before, names[n]@, rows, s, r, c);
        lemma_sheets_written(run, names, rest, k, s, r, c);
        if 0 <= k < names.len() && k != n {
            if k < n {
                assert(names[k]@ != names[n]@);
            } else {
                assert(names[n]@ != names[k]@);
            }
        }
    }
}

proof fn lemma_creations_written(
    run: FileRun,
    names: Seq<String>,
    replies: Seq<Result<(), Seq<char>>>,
    s: Seq<char>,
    r: int,
    c: int,
)
    ensures
        written(after_creations(run, names, replies).history, s, r, c) == written(
            run.history,
            s,
            r,
            c,
        ),
    decreases replies.len(),
{
    broadcast use lemma_written_push;

    if replies.len() > 0 {
        lemma_creations_written(run, names, replies.drop_last(), s, r, c);
    }
}

/// The formula that a cell of the sheet `m` shows.
pub open spec fn shown_formula(m: SheetModel, row: u32, col: u32) -> Option<Seq<char>> {
    match (m.texts)((row, col)) {
        Some(text) => Some(text),
        None => match (m.trees)((row, col)) {
            Some(tree) => Some(printed_tree(tree)),
            None => None,
        },
    }
}

/// Whether `engine` holds the sheets `names`, each as `models` says and of the size that
/// `sizes` says.
pub open spec fn holds_sheets<E: WorkbookEngine>(
    engine: E,
    names: Seq<Seq<char>>,
    models: spec_fn(Seq<char>) -> SheetModel,
    sizes: spec_fn(Seq<char>) -> Option<(u32, u32)>,
) -> bool {
    &&& forall|r: Vec<String>| #[trigger]
        call_ensures(E::sheet_names, (&engine,), r) ==> r@.len() == names.len() && forall|i: int|
            0 <= i < names.len() ==> (#[trigger] r@[i])@ == names[i]
    &&& forall|i: int, j: int|
        0 <= i < j < names.len() ==> #[trigger] names[i] != #[trigger] names[j]
    &&& forall|i: int|
        0 <= i < names.len() ==> answers_for(engine, #[trigger] names[i], models(names[i]))
    &&& forall|name: &str, r: bool| #[trigger]
        call_ensures(E::has_store_sheet, (&engine, name), r) ==> r == (sizes(name@) is Some)
    &&& forall|name: &str, r: u32| #[trigger]
        call_ensures(E::store_rows, (&engine, name), r) && sizes(name@) is Some ==> r == (sizes(
            name@,
        )->0).0
    &&& forall|name: &str, r: usize| #[trigger]
        call_ensures(E::store_columns, (&engine, name), r) && sizes(name@) is Some ==> r
            == (sizes(name@)->0).1
}

proof fn lemma_run_written<E: WorkbookEngine>(
    engine: E,
    start: Seq<FileEvent>,
    names: Seq<String>,
    replies: ExportReplies,
    texts: Seq<Seq<char>>,
    models: spec_fn(Seq<char>) -> SheetModel,
    sizes: spec_fn(Seq<char>) -> Option<(u32, u32)>,
    k: int,
    row: u32,
    col: u32,
)
    requires
        holds_sheets(engine, texts, models, sizes),
        names.len() == texts.len(),
        forall|i: int| 0 <= i < texts.len() ==> (#[trigger] names[i])@ == texts[i],
        workbook_run(start, names, replies).refusal is None,
        export_true(engine, names, replies, None),
        0 <= k < texts.len(),
    ensures
        written(workbook_run(start, names, replies).history, texts[k], row as int, col as int)
            == written(start, texts[k], row as int, col as int) + if sizes(texts[k]) is Some && 1
            <= row <= (sizes(texts[k])->0).0 && 1 <= col <= (sizes(texts[k])->0).1 {
            entry(
                (models(texts[k]).values)((row, col)),
                shown_formula(models(texts[k]), row, col),
            )
        } else {
            Seq::empty()
        },
{
    broadcast use lemma_written_push;

    let s = texts[k];
    let begin = FileRun { history: start, refusal: None };
    let named = after_first_name(begin, names[0]@, replies.renamed);
    let made = after_creations(named, names, replies.created);
    lemma_creations_written(named, names, replies.created, s, row as int, col as int);
    assert(all_different(names)) by {
        assert forall|i: int, j: int| 0 <= i < j < names.len() implies (#[trigger] names[i])@ != (
        #[trigger] names[j])@ by {
            assert(texts[i] != texts[j]);
        }
    }
    let sheets = replies.sheets;
    lemma_sheets_written(made, names, sheets, k, s, row as int, col as int);
    assert(written(made.history, s, row as int, col as int) == written(
        start,
        s,
        row as int,
        col as int,
    ));
    let sheet = sheets[k];
    assert(sheet_whole(sheet));
    assert(names[k]@ == s);
    assert(rows_true(engine, s, sheet.rows));
    assert(crate::reads::dimensions_are(engine, s, sheet.size));
    assert(answers_for(engine, texts[k], models(texts[k])));
    assert(sheet.size == sizes(s)) by {
        match sheet.size {
            None => {
                assert(crate::reads::store_has(engine, s, false));
            },
            Some((height, width)) => {
                assert(crate::reads::store_has(engine, s, true));
                assert(crate::reads::store_rows_are(engine, s, height));
                assert(crate::reads::columns_fit(engine, s, width));
                let count = choose|count: usize| #[trigger]
                    crate::reads::store_columns_are(engine, s, count) && width == (count as u32);
                assert(count == (sizes(s)->0).1);
            },
        }
    }
    if sheet.size is Some && 1 <= row <= (sheet.size->0).0 && 1 <= col <= (sheet.size->0).1 {
        let cell = sheet.rows[row - 1][col - 1];
        assert(sheet.rows[row - 1].len() == (sheet.size->0).1);
        assert(row_true(engine, s, row as int, sheet.rows[row - 1]));
        assert(cell_true(engine, s, row as int, col as int, cell));
        assert(cell.value == (models(s).values)((row, col)));
        assert(cell.formula == shown_formula(models(s), row, col));
    } else {
        let before = written(start, s, row as int, col as int);
        assert(before + Seq::<Written>::empty() =~= before);
        if sheet.size is Some && 1 <= row <= sheet.rows.len() {
            assert(sheet.rows[row - 1].len() == (sheet.size->0).1);
        }
    }
}

/// A workbook that was written out is in the file cell by cell: every cell of a sheet that
/// has a value or a formula was written exactly once, with that value and that formula and
/// without a style; no other cell of its sheets was.
pub proof fn law_export_writes_each_cell_once<E: WorkbookEngine, X: SpreadsheetFile<E::Iteration>>(
    wb: Workbook<E>,
    names: Seq<Seq<char>>,
    models: spec_fn(Seq<char>) -> SheetModel,
    sizes: spec_fn(Seq<char>) -> Option<(u32, u32)>,
    bytes: Vec<u8>,
    k: int,
    row: u32,
    col: u32,
)
    requires
        holds_sheets(wb.host().engine(), names, models, sizes),
        0 <= k < names.len(),
    ensures
        forall|f: &mut FileHost<X>| #[trigger]
            call_ensures(Workbook::<E>::to_xlsx_bytes::<X>, (&wb, f), Ok(bytes)) ==> written(
                (*final(f)).history(),
                names[k],
                row as int,
                col as int,
            ) == written((*f).history(), names[k], row as int, col as int) + if sizes(names[k])
                is Some && 1 <= row <= (sizes(names[k])->0).0 && 1 <= col <= (sizes(names[k])->0).1
                && ((models(names[k]).values)((row, col)) is Some || shown_formula(
                models(names[k]),
                row,
                col,
            ) is Some) {
                seq![
                    (
                        (models(names[k]).values)((row, col)),
                        shown_formula(models(names[k]), row, col),
                        None::<u32>,
                    ),
                ]
            } else {
                Seq::<Written>::empty()
            },
{
    broadcast use lemma_written_push;

    assert forall|f: &mut FileHost<X>| #[trigger]
        call_ensures(Workbook::<E>::to_xlsx_bytes::<X>, (&wb, f), Ok(bytes)) implies written(
        (*final(f)).history(),
        names[k],
        row as int,
        col as int,
    ) == written((*f).history(), names[k], row as int, col as int) + if sizes(names[k]) is Some
        && 1 <= row <= (sizes(names[k])->0).0 && 1 <= col <= (sizes(names[k])->0).1 && ((models(
        names[k],
    ).values)((row, col)) is Some || shown_formula(models(names[k]), row, col) is Some) {
        seq![
            (
                (models(names[k]).values)((row, col)),
                shown_formula(models(names[k]), row, col),
                None::<u32>,
            ),
        ]
    } else {
        Seq::<Written>::empty()
    } by {
        let start = (*f).history();
        let (list, replies) = choose|list: Vec<String>, replies: ExportReplies|
            call_ensures(E::sheet_names, (&wb.host().engine(),), list) && export_true(
                wb.host().engine(),
                list@,
                replies,
                workbook_run(start, list@, replies).refusal,
            ) && exported(
                wb.host().engine(),
                wb.calc(),
                #[trigger] workbook_run(start, list@, replies),
                *final(f),
                Ok(bytes),
            );
        lemma_run_written(
            wb.host().engine(),
            start,
            list@,
            replies,
            names,
            models,
            sizes,
            k,
            row,
            col,
        );
    }
}

broadcast proof fn lemma_file_push(f: FileModel, g: Seq<FileEvent>, e: FileEvent, from: int)
    requires
        0 <= from <= g.len(),
    ensures
        #[trigger] file_after(f, g.push(e), from) == match e {
            FileEvent::RenameSheet { old_name, new_name, reply } => FileModel {
                sheets: file_after(f, g, from).sheets.map_values(
                    |s: Seq<char>|
                        if s == old_name {
                            new_name
                        } else {
                            s
                        },
                ),
                ..file_after(f, g, from)
            },
            FileEvent::CreateSheet { name, reply } => FileModel {
                sheets: file_after(f, g, from).sheets.push(name),
                ..file_after(f, g, from)
            },
            FileEvent::WriteCell { sheet, row, col, value, formula, style, reply } => FileModel {
                sound: file_after(f, g, from).sound && file_after(f, g, from).sheets.contains(
                    sheet,
                ),
                ..file_after(f, g, from)
            },
            _ => file_after(f, g, from),
        },
{
    assert(g.push(e).drop_last() =~= g);
}

proof fn lemma_creations_file(
    f: FileModel,
    from: int,
    run: FileRun,
    names: Seq<String>,
    replies: Seq<Result<(), Seq<char>>>,
)
    requires
        0 <= from <= run.history.len(),
        run.refusal is None,
        replies.len() < names.len(),
        after_creations(run, names, replies).refusal is None,
        file_after(f, run.history, from).sheets == seq![names[0]@],
    ensures
        after_creations(run, names, replies).history.len() >= from,
        ({
            let made = file_after(f, after_creations(run, names, replies).history, from);
            &&& made.sound == file_after(f, run.history, from).sound
            &&& made.sheets.len() == replies.len() + 1
            &&& forall|i: int|
                0 <= i <= replies.len() ==> #[trigger] made.sheets[i] == names[i]@
        }),
    decreases replies.len(),
{
    broadcast use lemma_file_push;

    if replies.len() > 0 {
        lemma_creations_file(f, from, run, names, replies.drop_last());
    }
}

proof fn lemma_row_file(
    f: FileModel,
    from: int,
    run: FileRun,
    sheet: Seq<char>,
    row: u32,
    cells: Seq<CellExport>,
)
    requires
        0 <= from <= run.history.len(),
        file_after(f, run.history, from).sheets.contains(sheet),
    ensures
        after_row(run, sheet, row, cells).history.len() >= run.history.len(),
        file_after(f, after_row(run, sheet, row, cells).history, from) == file_after(
            f,
            run.history,
            from,
        ),
    decreases cells.len(),
{
    broadcast use lemma_file_push;

    if cells.len() > 0 {
        lemma_row_file(f, from, run, sheet, row, cells.drop_last());
    }
}

proof fn lemma_rows_file(
    f: FileModel,
    from: int,
    run: FileRun,
    sheet: Seq<char>,
    rows: Seq<Seq<CellExport>>,
)
    requires
        0 <= from <= run.history.len(),
        file_after(f, run.history, from).sheets.contains(sheet),
    ensures
        after_rows(run, sheet, rows).history.len() >= run.history.len(),
        file_after(f, after_rows(run, sheet, rows).history, from) == file_after(
            f,
            run.history,
            from,
        ),
    decreases rows.len(),
{
    if rows.len() > 0 {
        lemma_rows_file(f, from, run, sheet, rows.drop_last());
        let before = after_rows(run, sheet, rows.drop_last());
        lemma_row_file(f, from, before, sheet, rows.len() as u32, rows.last());
    }
}

proof fn lemma_sheets_file(
    f: FileModel,
    from: int,
    run: FileRun,
    names: Seq<String>,
    sheets: Seq<SheetExport>,
)
    requires
        0 <= from <= run.history.len(),
        sheets.len() <= names.len(),
        forall|i: int|
            0 <= i < names.len() ==> file_after(f, run.history, from).sheets.contains(
                (#[trigger] names[i])@,
            ),
    ensures
        after_sheets(run, names, sheets).history.len() >= run.history.len(),
        file_after(f, after_sheets(run, names, sheets).history, from) == file_after(
            f,
            run.history,
            from,
        ),
    decreases sheets.len(),
{
    if sheets.len() > 0 {
        lemma_sheets_file(f, from, run, names, sheets.drop_last());
        let before = after_sheets(run, names, sheets.drop_last());
        let n = sheets.len() - 1;
        assert(file_after(f, run.history, from).sheets.contains(names[n]@));
        lemma_rows_file(f, from, before, names[n]@, sheets.last().rows);
    }
}

proof fn lemma_run_file(
    start: Seq<FileEvent>,
    names: Seq<String>,
    replies: ExportReplies,
)
    requires
        workbook_run(start, names, replies).refusal is None,
        names.len() > 0,
        replies.created.len() == names.len() - 1,
        replies.sheets.len() == names.len(),
    ensures
        ({
            let f = FileModel { sheets: seq!["Sheet1"@], sound: true };
            let end = file_after(
                f,
                workbook_run(start, names, replies).history,
                start.len() as int,
            );
            &&& workbook_run(start, names, replies).history.len() >= start.len()
            &&& end.sound
            &&& end.sheets.len() == names.len()
            &&& forall|i: int| 0 <= i < names.len() ==> #[trigger] end.sheets[i] == names[i]@
        }),
{
    broadcast use lemma_file_push;

    let f = FileModel { sheets: seq!["Sheet1"@], sound: true };
    let from = start.len() as int;
    let begin = FileRun { history: start, refusal: None };
    assert(file_after(f, start, from) == f);
    let named = after_first_name(begin, names[0]@, replies.renamed);
    assert(file_after(f, named.history, from).sheets =~= seq![names[0]@]);
    lemma_creations_file(f, from, named, names, replies.created);
    let made = after_creations(named, names, replies.created);
    let there = file_after(f, made.history, from).sheets;
    assert forall|i: int| 0 <= i < names.len() implies there.contains((#[trigger] names[i])@) by {
        assert(there[i] == names[i]@);
    }
    lemma_sheets_file(f, from, made, names, replies.sheets);
}

/// A workbook that was written out into a new file, which has the one sheet `Sheet1`, gives
/// the file its sheets, in their order and no other; each cell is written to a sheet that is
/// there. The file is saved last, and its bytes are given with the calculation settings
/// restated: the cycles in force, and the mode and the flag that the workbook was loaded
/// with.
pub proof fn law_export_makes_the_sheets<E: WorkbookEngine, X: SpreadsheetFile<E::Iteration>>(
    wb: Workbook<E>,
    names: Seq<Seq<char>>,
    models: spec_fn(Seq<char>) -> SheetModel,
    sizes: spec_fn(Seq<char>) -> Option<(u32, u32)>,
    bytes: Vec<u8>,
)
    requires
        holds_sheets(wb.host().engine(), names, models, sizes),
        names.len() > 0,
    ensures
        forall|f: &mut FileHost<X>| #[trigger]
            call_ensures(Workbook::<E>::to_xlsx_bytes::<X>, (&wb, f), Ok(bytes)) ==> {
                let empty = FileModel { sheets: seq!["Sheet1"@], sound: true };
                let from = (*f).history().len() as int;
                let end = file_after(empty, (*final(f)).history(), from);
                &&& end.sheets == names
                &&& end.sound
                &&& (*final(f)).history().len() > from
                &&& (*final(f)).history().last() is Save
                &&& (*final(f)).history().last()->Save_reply is Ok
                &&& exists|stored: Vec<u8>, settings: CalcSettings<E::Iteration>|
                    stored@ == (*final(f)).history().last()->Save_reply->Ok_0 && #[trigger]
                        call_ensures(
                        <X as SpreadsheetFile<E::Iteration>>::rewrite_calc_settings,
                        (&(*final(f)).file(), &stored, &settings),
                        Ok(bytes),
                    ) && settings_are(wb, settings)
            },
{
    broadcast use lemma_file_push;

    assert forall|f: &mut FileHost<X>| #[trigger]
        call_ensures(Workbook::<E>::to_xlsx_bytes::<X>, (&wb, f), Ok(bytes)) implies {
        let empty = FileModel { sheets: seq!["Sheet1"@], sound: true };
        let from = (*f).history().len() as int;
        let end = file_after(empty, (*final(f)).history(), from);
        &&& end.sheets == names
        &&& end.sound
        &&& (*final(f)).history().len() > from
        &&& (*final(f)).history().last() is Save
        &&& (*final(f)).history().last()->Save_reply is Ok
        &&& exists|stored: Vec<u8>, settings: CalcSettings<E::Iteration>|
            stored@ == (*final(f)).history().last()->Save_reply->Ok_0 && #[trigger] call_ensures(
                <X as SpreadsheetFile<E::Iteration>>::rewrite_calc_settings,
                (&(*final(f)).file(), &stored, &settings),
                Ok(bytes),
            ) && settings_are(wb, settings)
    } by {
        let start = (*f).history();
        let engine = wb.host().engine();
        let (list, replies) = choose|list: Vec<String>, replies: ExportReplies|
            call_ensures(E::sheet_names, (&engine,), list) && export_true(
                engine,
                list@,
                replies,
                workbook_run(start, list@, replies).refusal,
            ) && exported(
                engine,
                wb.calc(),
                #[trigger] workbook_run(start, list@, replies),
                *final(f),
                Ok(bytes),
            );
        let run = workbook_run(start, list@, replies);
        lemma_run_file(start, list@, replies);
        let reply = choose|reply: Result<Vec<u8>, String>| #[trigger]
            saved(engine, wb.calc(), run.history, *final(f), reply, Ok(bytes));
        let stored = reply->Ok_0;
        let empty = FileModel { sheets: seq!["Sheet1"@], sound: true };
        let end = file_after(empty, (*final(f)).history(), start.len() as int);
        assert(end.sheets =~= names) by {
            assert forall|i: int| 0 <= i < names.len() implies end.sheets[i] == names[i] by {
                assert(end.sheets[i] == list@[i]@);
            }
        }
        assert(settled(engine, (*final(f)).file(), wb.calc(), stored, Ok(bytes)));
        let cycle = choose|cycle: CalcSettings<E::Iteration>| #[trigger]
            call_ensures(E::cycle_settings, (&engine,), cycle) && crate::export::restated(
                (*final(f)).file(),
                stored,
                crate::export::merged_settings(cycle, wb.calc()),
                Ok(bytes),
            );
        let settings = crate::export::merged_settings(cycle, wb.calc());
        assert(settings_are(wb, settings));
        let rewritten = choose|rewritten: Result<Vec<u8>, String>| #[trigger]
            call_ensures(
                <X as SpreadsheetFile<E::Iteration>>::rewrite_calc_settings,
                (&(*final(f)).file(), &stored, &settings),
                rewritten,
            ) && match (rewritten, Ok::<Vec<u8>, IoError>(bytes)) {
                (Ok(rewritten), Ok(out)) => out == rewritten,
                _ => false,
            };
        assert(call_ensures(
            <X as SpreadsheetFile<E::Iteration>>::rewrite_calc_settings,
            (&(*final(f)).file(), &stored, &settings),
            Ok(bytes),
        ));
    }
}

/// Whether `settings` are what a file of the workbook states: the cycles in force, and the
/// mode and the flag that the workbook was loaded with, where it was loaded with any.
pub open spec fn settings_are<E: WorkbookEngine>(
    wb: Workbook<E>,
    settings: CalcSettings<E::Iteration>,
) -> bool {
    exists|cycle: CalcSettings<E::Iteration>| #[trigger]
        call_ensures(E::cycle_settings, (&wb.host().engine(),), cycle) && {
            &&& settings.iteration == cycle.iteration
            &&& settings.calc_mode == if wb.calc() is Some {
                (wb.calc()->0).calc_mode
            } else {
                cycle.calc_mode
            }
            &&& settings.full_calc_on_load == if wb.calc() is Some {
                (wb.calc()->0).full_calc_on_load
            } else {
                cycle.full_calc_on_load
            }
        }
}

} // verus!
