//! Writing a workbook out as a spreadsheet file.

use crate::cell_data::CellData;
use crate::engine::{CalcSettings, WorkbookEngine};
use crate::error::{backend_error, IoError, IoErrorView};
use crate::reads::{dimensions_are, formula_is, read_dimensions, read_formula, value_is};
use crate::text::{same_text, text_view};
use crate::value::LiteralValue;
use vstd::prelude::*;

verus! {

/// A spreadsheet file being written. A new one has a single sheet, `Sheet1`.
///
/// Nothing is promised of what a method does or answers.
pub trait SpreadsheetFile<I> {
    /// Renames a sheet.
    fn rename_sheet(&mut self, old_name: &str, new_name: &str) -> Result<(), String>;

    /// Adds a sheet behind the others.
    fn create_sheet(&mut self, name: &str) -> Result<(), String>;

    /// Writes a cell.
    fn write_cell(&mut self, sheet: &str, row: u32, col: u32, data: &CellData) -> Result<
        (),
        String,
    >;

    /// The bytes of the file.
    fn save_to_bytes(&mut self) -> Result<Vec<u8>, String>;

    /// The bytes of a file with other calculation settings.
    fn rewrite_calc_settings(&self, bytes: &Vec<u8>, settings: &CalcSettings<I>) -> Result<
        Vec<u8>,
        String,
    >;
}

/// A call of a method of a file, with its answer.
pub enum FileEvent {
    RenameSheet { old_name: Seq<char>, new_name: Seq<char>, reply: Result<(), Seq<char>> },
    CreateSheet { name: Seq<char>, reply: Result<(), Seq<char>> },
    WriteCell {
        sheet: Seq<char>,
        row: u32,
        col: u32,
        value: Option<LiteralValue>,
        formula: Option<Seq<char>>,
        style: Option<u32>,
        reply: Result<(), Seq<char>>,
    },
    Save { reply: Result<Seq<u8>, Seq<char>> },
}

/// An answer with the text of its refusal.
pub open spec fn file_reply(r: Result<(), String>) -> Result<(), Seq<char>> {
    match r {
        Ok(_) => Ok(()),
        Err(text) => Err(text@),
    }
}

/// Bytes, or the text of a refusal.
pub open spec fn file_bytes(r: Result<Vec<u8>, String>) -> Result<Seq<u8>, Seq<char>> {
    match r {
        Ok(bytes) => Ok(bytes@),
        Err(text) => Err(text@),
    }
}

/// A file and the record of the calls made to it.
pub struct FileHost<X> {
    file: X,
    history: Ghost<Seq<FileEvent>>,
}

impl<X> FileHost<X> {
    /// The file as it stands.
    pub closed spec fn file(&self) -> X {
        self.file
    }

    /// The calls made so far, in order.
    pub closed spec fn history(&self) -> Seq<FileEvent> {
        self.history@
    }

    /// A file to which no call was made.
    pub fn new(file: X) -> (h: FileHost<X>)
        ensures
            h.file() == file,
            h.history() == Seq::<FileEvent>::empty(),
    {
        FileHost { file, history: Ghost(Seq::empty()) }
    }

    fn rename_sheet<I>(&mut self, old_name: &str, new_name: &str) -> (r: Result<(), String>) where
        X: SpreadsheetFile<I>,

        ensures
            final(self).history() == old(self).history().push(
                FileEvent::RenameSheet {
                    old_name: old_name@,
                    new_name: new_name@,
                    reply: file_reply(r),
                },
            ),
            exists|m: &mut X|
                *m == old(self).file() && *final(m) == final(self).file()
                    && #[trigger] call_ensures(
                    <X as SpreadsheetFile<I>>::rename_sheet,
                    (m, old_name, new_name),
                    r,
                ),
    {
        let r = self.file.rename_sheet(old_name, new_name);
        proof {
            self.history@ = self.history@.push(
                FileEvent::RenameSheet {
                    old_name: old_name@,
                    new_name: new_name@,
                    reply: file_reply(r),
                },
            );
        }
        r
    }

    fn create_sheet<I>(&mut self, name: &str) -> (r: Result<(), String>) where
        X: SpreadsheetFile<I>,

        ensures
            final(self).history() == old(self).history().push(
                FileEvent::CreateSheet { name: name@, reply: file_reply(r) },
            ),
            exists|m: &mut X|
                *m == old(self).file() && *final(m) == final(self).file()
                    && #[trigger] call_ensures(
                    <X as SpreadsheetFile<I>>::create_sheet,
                    (m, name),
                    r,
                ),
    {
        let r = self.file.create_sheet(name);
        proof {
            self.history@ = self.history@.push(
                FileEvent::CreateSheet { name: name@, reply: file_reply(r) },
            );
        }
        r
    }

    fn write_cell<I>(&mut self, sheet: &str, row: u32, col: u32, data: &CellData) -> (r: Result<
        (),
        String,
    >) where X: SpreadsheetFile<I>,
        ensures
            final(self).history() == old(self).history().push(
                FileEvent::WriteCell {
                    sheet: sheet@,
                    row,
                    col,
                    value: data.value,
                    formula: text_view(data.formula),
                    style: data.style,
                    reply: file_reply(r),
                },
            ),
            exists|m: &mut X|
                *m == old(self).file() && *final(m) == final(self).file()
                    && #[trigger] call_ensures(
                    <X as SpreadsheetFile<I>>::write_cell,
                    (m, sheet, row, col, data),
                    r,
                ),
    {
        let r = self.file.write_cell(sheet, row, col, data);
        proof {
            self.history@ = self.history@.push(
                FileEvent::WriteCell {
                    sheet: sheet@,
                    row,
                    col,
                    value: data.value,
                    formula: text_view(data.formula),
                    style: data.style,
                    reply: file_reply(r),
                },
            );
        }
        r
    }

    fn save_to_bytes<I>(&mut self) -> (r: Result<Vec<u8>, String>) where X: SpreadsheetFile<I>,
        ensures
            final(self).history() == old(self).history().push(
                FileEvent::Save { reply: file_bytes(r) },
            ),
            exists|m: &mut X|
                *m == old(self).file() && *final(m) == final(self).file()
                    && #[trigger] call_ensures(
                    <X as SpreadsheetFile<I>>::save_to_bytes,
                    (m,),
                    r,
                ),
    {
        let r = self.file.save_to_bytes();
        proof {
            self.history@ = self.history@.push(FileEvent::Save { reply: file_bytes(r) });
        }
        r
    }

    fn peek(&self) -> (x: &X)
        ensures
            *x == self.file(),
    {
        &self.file
    }
}

/// How far the writing of a file has come: its history, and the refusal that ended
/// it.
pub struct FileRun {
    pub history: Seq<FileEvent>,
    pub refusal: Option<Seq<char>>,
}

/// The run that goes on with one more call.
pub open spec fn called(
    run: FileRun,
    event: FileEvent,
    reply: Result<(), Seq<char>>,
) -> FileRun {
    FileRun {
        history: run.history.push(event),
        refusal: match reply {
            Ok(_) => None,
            Err(text) => Some(text),
        },
    }
}

/// What is written of a cell, and the answer.
pub struct CellExport {
    pub value: Option<LiteralValue>,
    pub formula: Option<Seq<char>>,
    pub reply: Result<(), Seq<char>>,
}

/// The run after one cell: it is written without a style. A cell without value and
/// formula is left out.
pub open spec fn after_cell(
    run: FileRun,
    sheet: Seq<char>,
    row: u32,
    col: u32,
    cell: CellExport,
) -> FileRun {
    if run.refusal is Some || (cell.value is None && cell.formula is None) {
        run
    } else {
        called(
            run,
            FileEvent::WriteCell {
                sheet,
                row,
                col,
                value: cell.value,
                formula: cell.formula,
                style: None,
                reply: cell.reply,
            },
            cell.reply,
        )
    }
}

/// The run after the first cells of a row.
pub open spec fn after_row(
    run: FileRun,
    sheet: Seq<char>,
    row: u32,
    cells: Seq<CellExport>,
) -> FileRun
    decreases cells.len(),
{
    if cells.len() == 0 {
        run
    } else {
        after_cell(
            after_row(run, sheet, row, cells.drop_last()),
            sheet,
            row,
            cells.len() as u32,
            cells.last(),
        )
    }
}

/// The run after the first rows of a sheet.
pub open spec fn after_rows(run: FileRun, sheet: Seq<char>, rows: Seq<Seq<CellExport>>) -> FileRun
    decreases rows.len(),
{
    if rows.len() == 0 {
        run
    } else {
        after_row(
            after_rows(run, sheet, rows.drop_last()),
            sheet,
            rows.len() as u32,
            rows.last(),
        )
    }
}

/// What is written of a sheet: its size, and its cells row by row.
pub struct SheetExport {
    pub size: Option<(u32, u32)>,
    pub rows: Seq<Seq<CellExport>>,
}

/// The run after the first sheets.
pub open spec fn after_sheets(
    run: FileRun,
    names: Seq<String>,
    sheets: Seq<SheetExport>,
) -> FileRun
    decreases sheets.len(),
{
    if sheets.len() == 0 {
        run
    } else {
        after_rows(
            after_sheets(run, names, sheets.drop_last()),
            names[sheets.len() - 1]@,
            sheets.last().rows,
        )
    }
}

/// The run after sheets were added for the names behind the first.
pub open spec fn after_creations(
    run: FileRun,
    names: Seq<String>,
    replies: Seq<Result<(), Seq<char>>>,
) -> FileRun
    decreases replies.len(),
{
    if replies.len() == 0 {
        run
    } else {
        let before = after_creations(run, names, replies.drop_last());
        if before.refusal is Some {
            before
        } else {
            let name = names[replies.len() as int]@;
            called(
                before,
                FileEvent::CreateSheet { name, reply: replies.last() },
                replies.last(),
            )
        }
    }
}

/// The run after the first sheet got its name.
pub open spec fn after_first_name(
    run: FileRun,
    first: Seq<char>,
    reply: Result<(), Seq<char>>,
) -> FileRun {
    if first == "Sheet1"@ {
        run
    } else {
        called(
            run,
            FileEvent::RenameSheet { old_name: "Sheet1"@, new_name: first, reply },
            reply,
        )
    }
}

/// What passes while the sheets of a workbook are written.
pub struct ExportReplies {
    pub renamed: Result<(), Seq<char>>,
    pub created: Seq<Result<(), Seq<char>>>,
    pub sheets: Seq<SheetExport>,
}

/// The run of a whole workbook: the sheets are made first, in order, and then
/// filled.
pub open spec fn workbook_run(
    history: Seq<FileEvent>,
    names: Seq<String>,
    replies: ExportReplies,
) -> FileRun {
    let start = FileRun { history, refusal: None };
    if names.len() == 0 {
        start
    } else {
        let named = after_first_name(start, names[0]@, replies.renamed);
        if named.refusal is Some {
            named
        } else {
            let made = after_creations(named, names, replies.created);
            if made.refusal is Some {
                made
            } else {
                after_sheets(made, names, replies.sheets)
            }
        }
    }
}

/// Whether what is written of a cell is what `engine` holds of it.
pub open spec fn cell_true<E: WorkbookEngine>(
    engine: E,
    sheet: Seq<char>,
    row: int,
    col: int,
    cell: CellExport,
) -> bool {
    value_is(engine, sheet, row as u32, col as u32, cell.value) && formula_is(
        engine,
        sheet,
        row as u32,
        col as u32,
        cell.formula,
    )
}

/// Whether what is written of a row is what `engine` holds of it.
pub open spec fn row_true<E: WorkbookEngine>(
    engine: E,
    sheet: Seq<char>,
    row: int,
    cells: Seq<CellExport>,
) -> bool {
    forall|k: int|
        0 <= k < cells.len() ==> cell_true(engine, sheet, row, k + 1, #[trigger] cells[k])
}

/// Whether what is written of rows is what `engine` holds of them.
pub open spec fn rows_true<E: WorkbookEngine>(
    engine: E,
    sheet: Seq<char>,
    rows: Seq<Seq<CellExport>>,
) -> bool {
    forall|j: int|
        0 <= j < rows.len() ==> row_true(engine, sheet, j + 1, #[trigger] rows[j])
}

/// Whether the rows written of a sheet are all it has.
pub open spec fn sheet_whole(sheet: SheetExport) -> bool {
    match sheet.size {
        None => sheet.rows.len() == 0,
        Some((height, width)) => sheet.rows.len() == height && forall|j: int|
            0 <= j < sheet.rows.len() ==> (#[trigger] sheet.rows[j]).len() == width,
    }
}

/// Whether what is written of sheets is what `engine` holds of them.
pub open spec fn sheets_true<E: WorkbookEngine>(
    engine: E,
    names: Seq<String>,
    sheets: Seq<SheetExport>,
) -> bool {
    &&& sheets.len() <= names.len()
    &&& forall|i: int|
        0 <= i < sheets.len() ==> dimensions_are(
            engine,
            names[i]@,
            (#[trigger] sheets[i]).size,
        ) && rows_true(engine, names[i]@, sheets[i].rows)
}

/// Whether every sheet is written whole.
pub open spec fn sheets_whole(names: Seq<String>, sheets: Seq<SheetExport>) -> bool {
    sheets.len() == names.len() && forall|i: int|
        0 <= i < sheets.len() ==> sheet_whole(#[trigger] sheets[i])
}

/// Whether `replies` go with the workbook of `engine`: what is written is what it
/// holds, and all of it unless a refusal ends the writing.
pub open spec fn export_true<E: WorkbookEngine>(
    engine: E,
    names: Seq<String>,
    replies: ExportReplies,
    refusal: Option<Seq<char>>,
) -> bool {
    &&& sheets_true(engine, names, replies.sheets)
    &&& names.len() > 0 ==> replies.created.len() < names.len()
    &&& refusal is None && names.len() > 0 ==> replies.created.len() == names.len() - 1
        && sheets_whole(names, replies.sheets)
}

/// The settings to state in a file: those of the cycles in force, with the mode and
/// the flag that the file was loaded with.
pub open spec fn merged_settings<I>(
    cycle: CalcSettings<I>,
    loaded: Option<CalcSettings<I>>,
) -> CalcSettings<I> {
    match loaded {
        None => cycle,
        Some(parsed) => CalcSettings {
            calc_mode: parsed.calc_mode,
            full_calc_on_load: parsed.full_calc_on_load,
            ..cycle
        },
    }
}

/// See [`merged_settings`].
pub fn merge_settings<I>(cycle: CalcSettings<I>, loaded: &Option<CalcSettings<I>>) -> (r:
    CalcSettings<I>)
    ensures
        r == merged_settings(cycle, *loaded),
{
    match loaded {
        None => cycle,
        Some(parsed) => CalcSettings {
            iteration: cycle.iteration,
            calc_mode: match &parsed.calc_mode {
                Some(mode) => Some(mode.clone()),
                None => None,
            },
            full_calc_on_load: parsed.full_calc_on_load,
        },
    }
}

/// What a file states of the mode of calculation and of calculation on load is written
/// back as it was loaded, whatever became of the cycles; and a file written so states
/// the same when it is loaded and written again.
pub proof fn law_loaded_settings_are_written_back<I>(
    cycle: CalcSettings<I>,
    loaded: CalcSettings<I>,
)
    ensures
        merged_settings(cycle, Some(loaded)).calc_mode == loaded.calc_mode,
        merged_settings(cycle, Some(loaded)).full_calc_on_load == loaded.full_calc_on_load,
        merged_settings(cycle, Some(loaded)).iteration == cycle.iteration,
        merged_settings(cycle, Some(merged_settings(cycle, Some(loaded)))) == merged_settings(
            cycle,
            Some(loaded),
        ),
        merged_settings(cycle, None) == cycle,
{
}

/// The refusal `text` of the file writer.
pub open spec fn file_error(text: Seq<char>) -> IoErrorView {
    backend_error("umya"@, text)
}

/// Whether `r` is what the bytes of a file come to with the settings `settings`.
pub open spec fn restated<I, X: SpreadsheetFile<I>>(
    file: X,
    bytes: Vec<u8>,
    settings: CalcSettings<I>,
    r: Result<Vec<u8>, IoError>,
) -> bool {
    exists|reply: Result<Vec<u8>, String>| #[trigger]
        call_ensures(
            <X as SpreadsheetFile<I>>::rewrite_calc_settings,
            (&file, &bytes, &settings),
            reply,
        ) && match (reply, r) {
            (Ok(rewritten), Ok(out)) => out == rewritten,
            (Err(text), Err(e)) => e@ == file_error(text@),
            _ => false,
        }
}

/// Whether `r` is what the bytes of a saved file come to once its calculation
/// settings are stated.
pub open spec fn settled<E: WorkbookEngine, X: SpreadsheetFile<E::Iteration>>(
    engine: E,
    file: X,
    loaded: Option<CalcSettings<E::Iteration>>,
    bytes: Vec<u8>,
    r: Result<Vec<u8>, IoError>,
) -> bool {
    exists|cycle: CalcSettings<E::Iteration>| #[trigger]
        call_ensures(E::cycle_settings, (&engine,), cycle) && restated(
            file,
            bytes,
            merged_settings(cycle, loaded),
            r,
        )
}

/// Whether `r` and `after` are what the saving of a file with the history `before`
/// comes to.
pub open spec fn saved<E: WorkbookEngine, X: SpreadsheetFile<E::Iteration>>(
    engine: E,
    loaded: Option<CalcSettings<E::Iteration>>,
    before: Seq<FileEvent>,
    after: FileHost<X>,
    reply: Result<Vec<u8>, String>,
    r: Result<Vec<u8>, IoError>,
) -> bool {
    &&& after.history() == before.push(FileEvent::Save { reply: file_bytes(reply) })
    &&& match reply {
        Err(text) => r is Err && r->Err_0@ == file_error(text@),
        Ok(bytes) => settled(engine, after.file(), loaded, bytes, r),
    }
}

/// Whether `r` and `after` are what a run of writing comes to.
pub open spec fn exported<E: WorkbookEngine, X: SpreadsheetFile<E::Iteration>>(
    engine: E,
    loaded: Option<CalcSettings<E::Iteration>>,
    run: FileRun,
    after: FileHost<X>,
    r: Result<Vec<u8>, IoError>,
) -> bool {
    match run.refusal {
        Some(text) => after.history() == run.history && r is Err && r->Err_0@ == file_error(text),
        None => saved_after_reply(engine, loaded, run.history, after, r),
    }
}

/// Whether some answer to the saving leads to `r` and `after`.
pub open spec fn saved_after_reply<E: WorkbookEngine, X: SpreadsheetFile<E::Iteration>>(
    engine: E,
    loaded: Option<CalcSettings<E::Iteration>>,
    before: Seq<FileEvent>,
    after: FileHost<X>,
    r: Result<Vec<u8>, IoError>,
) -> bool {
    exists|reply: Result<Vec<u8>, String>| #[trigger]
        saved(engine, loaded, before, after, reply, r)
}

fn refused(text: &String) -> (e: IoError)
    ensures
        e@ == file_error(text@),
{
    IoError::from_backend("umya", text.clone())
}

fn write_row<E: WorkbookEngine, X: SpreadsheetFile<E::Iteration>>(
    engine: &E,
    file: &mut FileHost<X>,
    sheet: &str,
    row: u32,
    width: u32,
) -> (r: (Result<(), String>, Ghost<Seq<CellExport>>))
    ensures
        row_true(*engine, sheet@, row as int, r.1@),
        r.0 is Ok ==> r.1@.len() == width,
        ({
            let run = after_row(
                (FileRun { history: old(file).history(), refusal: None }),
                sheet@,
                row,
                r.1@,
            );
            final(file).history() == run.history && run.refusal == match r.0 {
                Ok(_) => None,
                Err(text) => Some(text@),
            }
        }),
{
    let ghost start = FileRun { history: file.history(), refusal: None };
    let ghost mut cells: Seq<CellExport> = Seq::empty();
    let mut k: u32 = 0;
    while k < width
        invariant
            k <= width,
            cells.len() == k,
            start == (FileRun { history: old(file).history(), refusal: None }),
            row_true(*engine, sheet@, row as int, cells),
            after_row(start, sheet@, row, cells) == (FileRun {
                history: file.history(),
                refusal: None,
            }),
        decreases width - k,
    {
        let col = k + 1;
        let value = engine.get_cell_value(sheet, row, col);
        assert(value_is(*engine, sheet@, row, col, value));
        let formula = read_formula(engine, sheet, row, col);
        let ghost mut cell = CellExport { value, formula: text_view(formula), reply: Ok(()) };
        let mut outcome: Result<(), String> = Ok(());
        if value.is_some() || formula.is_some() {
            let data = CellData { value, formula, style: None };
            outcome = file.write_cell(sheet, row, col, &data);
            proof {
                cell.reply = file_reply(outcome);
            }
        }
        proof {
            let grown = cells.push(cell);
            assert(grown.drop_last() =~= cells);
            assert(cell_true(*engine, sheet@, row as int, k + 1, cell));
            assert forall|j: int| 0 <= j < grown.len() implies cell_true(
                *engine,
                sheet@,
                row as int,
                j + 1,
                #[trigger] grown[j],
            ) by {
                if j < k {
                    assert(grown[j] == cells[j]);
                }
            }
            cells = grown;
        }
        if outcome.is_err() {
            return (outcome, Ghost(cells));
        }
        k += 1;
    }
    (Ok(()), Ghost(cells))
}

fn write_rows<E: WorkbookEngine, X: SpreadsheetFile<E::Iteration>>(
    engine: &E,
    file: &mut FileHost<X>,
    sheet: &str,
    height: u32,
    width: u32,
) -> (r: (Result<(), String>, Ghost<Seq<Seq<CellExport>>>))
    ensures
        rows_true(*engine, sheet@, r.1@),
        r.0 is Ok ==> r.1@.len() == height && forall|j: int|
            0 <= j < r.1@.len() ==> (#[trigger] r.1@[j]).len() == width,
        ({
            let run = after_rows(
                (FileRun { history: old(file).history(), refusal: None }),
                sheet@,
                r.1@,
            );
            final(file).history() == run.history && run.refusal == match r.0 {
                Ok(_) => None,
                Err(text) => Some(text@),
            }
        }),
{
    let ghost start = FileRun { history: file.history(), refusal: None };
    let ghost mut rows: Seq<Seq<CellExport>> = Seq::empty();
    let mut j: u32 = 0;
    while j < height
        invariant
            j <= height,
            rows.len() == j,
            start == (FileRun { history: old(file).history(), refusal: None }),
            rows_true(*engine, sheet@, rows),
            forall|i: int| 0 <= i < rows.len() ==> (#[trigger] rows[i]).len() == width,
            after_rows(start, sheet@, rows) == (FileRun {
                history: file.history(),
                refusal: None,
            }),
        decreases height - j,
    {
        let (outcome, cells) = write_row(engine, file, sheet, j + 1, width);
        proof {
            let grown = rows.push(cells@);
            assert(grown.drop_last() =~= rows);
            assert forall|i: int| 0 <= i < grown.len() implies row_true(
                *engine,
                sheet@,
                i + 1,
                #[trigger] grown[i],
            ) by {
                if i < j {
                    assert(grown[i] == rows[i]);
                }
            }
            rows = grown;
        }
        if outcome.is_err() {
            return (outcome, Ghost(rows));
        }
        j += 1;
    }
    (Ok(()), Ghost(rows))
}

fn write_sheets<E: WorkbookEngine, X: SpreadsheetFile<E::Iteration>>(
    engine: &E,
    file: &mut FileHost<X>,
    names: &Vec<String>,
) -> (r: (Result<(), String>, Ghost<Seq<SheetExport>>))
    ensures
        sheets_true(*engine, names@, r.1@),
        r.0 is Ok ==> sheets_whole(names@, r.1@),
        ({
            let run = after_sheets(
                (FileRun { history: old(file).history(), refusal: None }),
                names@,
                r.1@,
            );
            final(file).history() == run.history && run.refusal == match r.0 {
                Ok(_) => None,
                Err(text) => Some(text@),
            }
        }),
{
    let ghost start = FileRun { history: file.history(), refusal: None };
    let ghost mut sheets: Seq<SheetExport> = Seq::empty();
    let mut i: usize = 0;
    while i < names.len()
        invariant
            i <= names@.len(),
            sheets.len() == i,
            start == (FileRun { history: old(file).history(), refusal: None }),
            sheets_true(*engine, names@, sheets),
            forall|j: int| 0 <= j < sheets.len() ==> sheet_whole(#[trigger] sheets[j]),
            after_sheets(start, names@, sheets) == (FileRun {
                history: file.history(),
                refusal: None,
            }),
        decreases names@.len() - i,
    {
        let name = names[i].as_str();
        let size = read_dimensions(engine, name);
        let ghost mut rows: Seq<Seq<CellExport>> = Seq::empty();
        let mut outcome: Result<(), String> = Ok(());
        if let Some((height, width)) = size {
            let (result, written) = write_rows(engine, file, name, height, width);
            outcome = result;
            proof {
                rows = written@;
            }
        }
        proof {
            let grown = sheets.push(SheetExport { size, rows });
            assert(grown.drop_last() =~= sheets);
            assert forall|j: int| 0 <= j < grown.len() implies dimensions_are(
                *engine,
                names@[j]@,
                (#[trigger] grown[j]).size,
            ) && rows_true(*engine, names@[j]@, grown[j].rows) by {
                if j < i {
                    assert(grown[j] == sheets[j]);
                }
            }
            if outcome is Ok {
                assert forall|j: int| 0 <= j < grown.len() implies sheet_whole(
                    #[trigger] grown[j],
                ) by {
                    if j < i {
                        assert(grown[j] == sheets[j]);
                    }
                }
            }
            sheets = grown;
        }
        if outcome.is_err() {
            return (outcome, Ghost(sheets));
        }
        i += 1;
    }
    (Ok(()), Ghost(sheets))
}

fn create_sheets<I, X: SpreadsheetFile<I>>(file: &mut FileHost<X>, names: &Vec<String>) -> (r: (
    Result<(), String>,
    Ghost<Seq<Result<(), Seq<char>>>>,
))
    requires
        names@.len() > 0,
    ensures
        r.1@.len() < names@.len(),
        r.0 is Ok ==> r.1@.len() == names@.len() - 1,
        ({
            let run = after_creations(
                (FileRun { history: old(file).history(), refusal: None }),
                names@,
                r.1@,
            );
            final(file).history() == run.history && run.refusal == match r.0 {
                Ok(_) => None,
                Err(text) => Some(text@),
            }
        }),
{
    let ghost start = FileRun { history: file.history(), refusal: None };
    let ghost mut replies: Seq<Result<(), Seq<char>>> = Seq::empty();
    let mut i: usize = 1;
    while i < names.len()
        invariant
            1 <= i <= names@.len(),
            replies.len() == i - 1,
            start == (FileRun { history: old(file).history(), refusal: None }),
            after_creations(start, names@, replies) == (FileRun {
                history: file.history(),
                refusal: None,
            }),
        decreases names@.len() - i,
    {
        let outcome = file.create_sheet(names[i].as_str());
        proof {
            let grown = replies.push(file_reply(outcome));
            assert(grown.drop_last() =~= replies);
            replies = grown;
        }
        if outcome.is_err() {
            return (outcome, Ghost(replies));
        }
        i += 1;
    }
    (Ok(()), Ghost(replies))
}

fn fill_file<E: WorkbookEngine, X: SpreadsheetFile<E::Iteration>>(
    engine: &E,
    file: &mut FileHost<X>,
    names: &Vec<String>,
) -> (r: (Result<(), String>, Ghost<ExportReplies>))
    ensures
        ({
            let run = workbook_run(old(file).history(), names@, r.1@);
            &&& final(file).history() == run.history
            &&& run.refusal == match r.0 {
                Ok(_) => None,
                Err(text) => Some(text@),
            }
            &&& export_true(*engine, names@, r.1@, run.refusal)
        }),
{
    let ghost mut replies = ExportReplies {
        renamed: Ok(()),
        created: Seq::empty(),
        sheets: Seq::empty(),
    };
    if names.len() == 0 {
        return (Ok(()), Ghost(replies));
    }
    if !same_text(names[0].as_str(), "Sheet1") {
        let outcome = file.rename_sheet("Sheet1", names[0].as_str());
        proof {
            replies.renamed = file_reply(outcome);
        }
        if outcome.is_err() {
            return (outcome, Ghost(replies));
        }
    }
    let (outcome, created) = create_sheets::<E::Iteration, X>(file, names);
    proof {
        replies.created = created@;
    }
    if outcome.is_err() {
        return (outcome, Ghost(replies));
    }
    let (outcome, sheets) = write_sheets(engine, file, names);
    proof {
        replies.sheets = sheets@;
    }
    (outcome, Ghost(replies))
}

fn save_file<E: WorkbookEngine, X: SpreadsheetFile<E::Iteration>>(
    engine: &E,
    loaded: &Option<CalcSettings<E::Iteration>>,
    file: &mut FileHost<X>,
) -> (r: Result<Vec<u8>, IoError>)
    ensures
        saved_after_reply(*engine, *loaded, old(file).history(), *final(file), r),
{
    let ghost before = file.history();
    let reply = file.save_to_bytes();
    let ghost answer = reply;
    let bytes = match reply {
        Ok(bytes) => bytes,
        Err(text) => {
            let r: Result<Vec<u8>, IoError> = Err(refused(&text));
            assert(saved(*engine, *loaded, before, *file, answer, r));
            return r;
        },
    };
    let cycle = engine.cycle_settings();
    let ghost in_force = cycle;
    let settings = merge_settings(cycle, loaded);
    let rewritten = file.peek().rewrite_calc_settings(&bytes, &settings);
    let r: Result<Vec<u8>, IoError> = match rewritten {
        Ok(out) => Ok(out),
        Err(text) => Err(refused(&text)),
    };
    proof {
        assert(call_ensures(E::cycle_settings, (engine,), in_force));
        assert(restated(file.file(), bytes, merged_settings(in_force, *loaded), r));
        assert(settled(*engine, file.file(), *loaded, bytes, r));
        assert(saved(*engine, *loaded, before, *file, answer, r));
    }
    r
}

/// Writes the workbook of `engine` into `file`, and gives the bytes of the file with
/// its calculation settings. The first refusal ends it.
pub(crate) fn export_workbook<E: WorkbookEngine, X: SpreadsheetFile<E::Iteration>>(
    engine: &E,
    loaded: &Option<CalcSettings<E::Iteration>>,
    file: &mut FileHost<X>,
) -> (r: Result<Vec<u8>, IoError>)
    ensures
        exists|names: Vec<String>, replies: ExportReplies|
            call_ensures(E::sheet_names, (engine,), names) && export_true(
                *engine,
                names@,
                replies,
                workbook_run(old(file).history(), names@, replies).refusal,
            ) && exported(
                *engine,
                *loaded,
                #[trigger] workbook_run(old(file).history(), names@, replies),
                *final(file),
                r,
            ),
{
    let names = engine.sheet_names();
    assert(call_ensures(E::sheet_names, (engine,), names));
    let (outcome, replies) = fill_file(engine, file, &names);
    let ghost run = workbook_run(old(file).history(), names@, replies@);
    match outcome {
        Err(text) => Err(refused(&text)),
        Ok(_) => save_file(engine, loaded, file),
    }
}

} // verus!
