//! The calculation engine that a workbook drives, and what passes between them.

use crate::config::EvalConfig;
use crate::error::{EditorError, ExcelError};
use crate::registry::{CustomFnHandler, FunctionRegistry};
use crate::resolver::WBResolver;
use crate::value::{DateSystem, LiteralValue, OverlayValue};
use crate::wasm::WasmUdfRuntime;
use vstd::prelude::*;

verus! {

/// A cell by the id of its sheet and its coordinates, counted from zero.
#[derive(Clone, Copy, Debug, PartialEq, Eq, Structural)]
pub struct CellRef {
    pub sheet_id: u32,
    pub row: u32,
    pub col: u32,
}

/// A coordinate counted from one as one counted from zero; zero stays.
pub open spec fn zero_based(n: u32) -> u32 {
    if n == 0 {
        0
    } else {
        (n - 1) as u32
    }
}

/// The cell at `row` and `col`, counted from one.
pub open spec fn cell_at(sheet_id: u32, row: u32, col: u32) -> CellRef {
    CellRef { sheet_id, row: zero_based(row), col: zero_based(col) }
}

/// See [`zero_based`].
pub fn to_zero_based(n: u32) -> (r: u32)
    ensures
        r == zero_based(n),
{
    if n == 0 {
        0
    } else {
        n - 1
    }
}

impl CellRef {
    /// See [`cell_at`].
    pub fn from_excel(sheet_id: u32, row: u32, col: u32) -> (c: CellRef)
        ensures
            c == cell_at(sheet_id, row, col),
    {
        CellRef { sheet_id, row: to_zero_based(row), col: to_zero_based(col) }
    }
}

/// What the dependency graph holds of a cell.
pub struct CellState {
    pub formula: Option<formualizer_parse::ASTNode>,
    pub value: Option<LiteralValue>,
}

/// The formula of a cell, where the graph holds one.
pub open spec fn formula_of(state: Option<CellState>) -> Option<formualizer_parse::ASTNode> {
    match state {
        Some(s) => s.formula,
        None => None,
    }
}

/// What a name stands for.
pub enum NamedDefinition {
    Cell(CellRef),
    Range { start: CellRef, end: CellRef },
    Literal,
    Formula,
}

/// Where a name is known.
#[derive(Clone, Copy, Debug, PartialEq, Eq, Structural)]
pub enum NameScope {
    Workbook,
    Sheet(u32),
}

/// A name and what it stands for.
pub struct NamedEntry {
    pub name: String,
    pub definition: NamedDefinition,
}

/// The settings that the workbook's operations depend on.
#[derive(Clone, Copy, Debug, PartialEq, Eq, Structural)]
pub struct EngineFlags {
    pub defer_graph_building: bool,
    pub arrow_storage_enabled: bool,
    pub delta_overlay_enabled: bool,
    pub date_system: DateSystem,
}

/// The flags of a configuration.
pub open spec fn flags_of<S>(config: EvalConfig<S>) -> EngineFlags {
    EngineFlags {
        defer_graph_building: config.defer_graph_building,
        arrow_storage_enabled: config.arrow_storage_enabled,
        delta_overlay_enabled: config.delta_overlay_enabled,
        date_system: config.date_system,
    }
}

/// Workbook-level calculation settings of a file. How iteration is set stands in
/// `iteration`.
pub struct CalcSettings<I> {
    pub iteration: I,
    pub calc_mode: Option<String>,
    pub full_calc_on_load: Option<bool>,
}

/// A calculation engine with its change log and undo stack.
///
/// Coordinates of cells count from one unless said otherwise. Nothing is promised
/// of what a method does or answers: a workbook is described by the calls that it
/// makes and by what it makes of the answers.
pub trait WorkbookEngine: Sized {
    type Settings;

    type LoadLimits;

    type DeterministicMode;

    type CancelFlag;

    type EvalResult;

    type RecalcPlan;

    type EvalPlan;

    type IngestReport;

    type ChangeLog;

    type Iteration;

    /// The code behind the custom functions that formulas call.
    type Handler: CustomFnHandler;

    /// What runs the WASM functions that formulas call.
    type Runtime: WasmUdfRuntime;

    /// An engine with the settings `config`, whose formulas find functions through
    /// `resolver`.
    fn create(
        resolver: WBResolver<Self::Handler, Self::Runtime>,
        config: EvalConfig<Self::Settings>,
    ) -> Self;

    /// Lets formulas find functions through `resolver` from now on.
    fn set_resolver(&mut self, resolver: WBResolver<Self::Handler, Self::Runtime>);

    /// The settings `settings` with what a file states of calculation.
    fn apply_calc_settings(
        settings: Self::Settings,
        stated: &CalcSettings<Self::Iteration>,
    ) -> Self::Settings;

    /// The settings in force.
    fn config(&self) -> &EvalConfig<Self::Settings>;

    /// Whether a function known to every workbook goes by `name`.
    fn has_global_function(&self, name: &str) -> bool;

    /// The names of the sheets in the store, in order.
    fn sheet_names(&self) -> Vec<String>;

    /// The name of the sheet with the id `id`.
    fn sheet_name(&self, id: u32) -> String;

    /// Whether a row is hidden by hand; nothing where the sheet is unknown.
    fn is_row_hidden(&self, sheet: &str, row: u32) -> Option<bool>;

    /// Whether formula texts wait for the graph.
    fn has_staged_formulas(&self) -> bool;

    /// The cells whose formulas refer to a cell.
    fn get_dependents(&self, sheet: &str, row: u32, col: u32) -> Vec<(String, u32, u32)>;

    /// The cells that the formula of a cell refers to.
    fn get_dependencies(&self, sheet: &str, row: u32, col: u32) -> Vec<(String, u32, u32)>;

    /// The cells that depend on a cell, at any distance.
    fn get_transitive_dependents(&self, sheet: &str, row: u32, col: u32) -> Vec<(String, u32, u32)>;

    /// The height and width of what the store holds of a rectangle, bounds counted
    /// from zero.
    fn store_range_dims(
        &self,
        sheet: &str,
        start_row: usize,
        start_col: usize,
        end_row: usize,
        end_col: usize,
    ) -> (usize, usize);

    /// One value of what the store holds of a rectangle, by its place in it.
    fn store_range_cell(
        &self,
        sheet: &str,
        start_row: usize,
        start_col: usize,
        end_row: usize,
        end_col: usize,
        row: usize,
        col: usize,
    ) -> LiteralValue;

    /// The names known in the whole workbook.
    fn named_ranges(&self) -> Vec<NamedEntry>;

    /// The names known in single sheets.
    fn sheet_named_ranges(&self) -> Vec<NamedEntry>;

    /// The order in which whatever is out of date would be evaluated.
    fn build_recalc_plan(&self) -> Result<Self::RecalcPlan, ExcelError>;

    /// How time and chance are seen.
    fn deterministic_mode(&self) -> &Self::DeterministicMode;

    /// What the last taking in of formulas did.
    fn last_formula_ingest_report(&self) -> Option<Self::IngestReport>;

    /// What all takings in of formulas did.
    fn formula_ingest_report_total(&self) -> Self::IngestReport;

    /// The change log.
    fn changelog(&self) -> &Self::ChangeLog;

    /// The settings that a file would state for the cycles in force.
    fn cycle_settings(&self) -> CalcSettings<Self::Iteration>;

    /// The id of the sheet `name`.
    fn sheet_id(&self, name: &str) -> Option<u32>;

    /// Adds a sheet.
    fn add_sheet(&mut self, name: &str) -> Result<u32, ExcelError>;

    /// Adds a sheet that must be added: panics where the engine refuses it.
    fn must_add_sheet(&mut self, name: &str) -> u32;

    /// Copies a sheet.
    fn duplicate_sheet(&mut self, source: &str, new_name: &str) -> Result<(), ExcelError>;

    /// Removes a sheet.
    fn remove_sheet(&mut self, id: u32) -> Result<(), ExcelError>;

    /// Renames a sheet.
    fn rename_sheet(&mut self, id: u32, new_name: &str) -> Result<(), ExcelError>;

    /// Whether the store holds the sheet.
    fn has_store_sheet(&self, sheet: &str) -> bool;

    /// The number of rows that the store holds of the sheet, which must be there.
    fn store_rows(&self, sheet: &str) -> u32;

    /// The number of columns that the store holds of the sheet, which must be there.
    fn store_columns(&self, sheet: &str) -> usize;

    /// The chunk that a row, counted from zero, falls into, and its place in it.
    fn chunk_of_row(&self, sheet: &str, row0: usize) -> Option<(usize, usize)>;

    /// Gives the store an empty sheet, in chunks of `chunk_rows` rows.
    fn push_store_sheet(&mut self, sheet: &str, chunk_rows: usize);

    /// Makes room for `rows` rows.
    fn ensure_store_rows(&mut self, sheet: &str, rows: usize);

    /// Inserts `count` columns before column `at`, counted from zero.
    fn insert_store_columns(&mut self, sheet: &str, at: usize, count: usize);

    /// Makes a chunk of a column; whether it is there then.
    fn ensure_column_chunk(&mut self, sheet: &str, col0: usize, chunk: usize) -> bool;

    /// Lays a value over one place of a chunk.
    fn set_overlay(
        &mut self,
        sheet: &str,
        col0: usize,
        chunk: usize,
        offset: usize,
        value: &OverlayValue,
    );

    /// Takes the sheet out of the store.
    fn drop_store_sheet(&mut self, sheet: &str);

    /// Renames the sheet in the store.
    fn rename_store_sheet(&mut self, sheet: &str, new_name: &str);

    /// The value of a cell.
    fn get_cell_value(&self, sheet: &str, row: u32, col: u32) -> Option<LiteralValue>;

    /// What the dependency graph holds of a cell.
    fn get_cell(&self, sheet: &str, row: u32, col: u32) -> Option<CellState>;

    /// Sets the value of a cell, unlogged.
    fn set_cell_value(
        &mut self,
        sheet: &str,
        row: u32,
        col: u32,
        value: &LiteralValue,
    ) -> Result<(), ExcelError>;

    /// Sets the formula of a cell, unlogged.
    fn set_cell_formula(
        &mut self,
        sheet: &str,
        row: u32,
        col: u32,
        tree: &formualizer_parse::ASTNode,
    ) -> Result<(), ExcelError>;

    /// Notes that the data were edited.
    fn mark_data_edited(&mut self);

    /// Holds back the spreading of changes to dependents.
    fn begin_deferred_dirty(&mut self);

    /// Spreads the changes held back, in one walk.
    fn end_deferred_dirty(&mut self);

    /// The formula text staged for a cell.
    fn staged_formula_text(&self, sheet: &str, row: u32, col: u32) -> Option<String>;

    /// Stages a formula text for a cell.
    fn stage_formula_text(&mut self, sheet: &str, row: u32, col: u32, formula: &str);

    /// Drops the formula text staged for a cell.
    fn clear_staged_formula_text(&mut self, sheet: &str, row: u32, col: u32);

    /// Drops the formula texts staged for a sheet.
    fn clear_staged_formulas_for_sheet(&mut self, sheet: &str);

    /// Moves the formula texts staged for one sheet to another.
    fn rename_staged_formula_sheet(&mut self, old_name: &str, new_name: &str);

    /// Opens a logged edit.
    fn edit_begin(&mut self);

    /// Sets a value.
    fn edit_set_value(&mut self, cell: CellRef, value: &LiteralValue);

    /// Sets a value; the log takes the old state from the caller.
    fn edit_set_value_with_old_state(
        &mut self,
        cell: CellRef,
        value: &LiteralValue,
        old_value: &Option<LiteralValue>,
        old_formula: &Option<formualizer_parse::ASTNode>,
    );

    /// Sets a formula.
    fn edit_set_formula(&mut self, cell: CellRef, tree: &formualizer_parse::ASTNode);

    /// Sets a formula; the log takes the old state from the caller.
    fn edit_set_formula_with_old_state(
        &mut self,
        cell: CellRef,
        tree: &formualizer_parse::ASTNode,
        old_value: &Option<LiteralValue>,
        old_formula: &Option<formualizer_parse::ASTNode>,
    );

    /// Defines a name.
    fn edit_define_name(
        &mut self,
        name: &str,
        definition: &NamedDefinition,
        scope: NameScope,
    ) -> Result<(), EditorError>;

    /// Redefines a name.
    fn edit_update_name(
        &mut self,
        name: &str,
        definition: &NamedDefinition,
        scope: NameScope,
    ) -> Result<(), EditorError>;

    /// Deletes a name.
    fn edit_delete_name(&mut self, name: &str, scope: NameScope) -> Result<(), EditorError>;

    /// Closes a logged edit.
    fn edit_end(&mut self);

    /// Defines a name.
    fn define_name(
        &mut self,
        name: &str,
        definition: &NamedDefinition,
        scope: NameScope,
    ) -> Result<(), ExcelError>;

    /// Redefines a name.
    fn update_name(
        &mut self,
        name: &str,
        definition: &NamedDefinition,
        scope: NameScope,
    ) -> Result<(), ExcelError>;

    /// Deletes a name.
    fn delete_name(&mut self, name: &str, scope: NameScope) -> Result<(), ExcelError>;

    /// Hides or shows a row.
    fn set_row_hidden(&mut self, sheet: &str, row: u32, hidden: bool) -> Result<(), EditorError>;

    /// Hides or shows rows.
    fn set_rows_hidden(
        &mut self,
        sheet: &str,
        start_row: u32,
        end_row: u32,
        hidden: bool,
    ) -> Result<(), EditorError>;

    /// Opens a transaction; a logged one is a compound of the change log.
    fn action_begin(&mut self, logged: bool, name: &str) -> Result<(), EditorError>;

    /// Commits the open transaction.
    fn action_commit(&mut self) -> Result<(), EditorError>;

    /// Rolls the open transaction back.
    fn action_abort(&mut self, reason: &str);

    /// Hands the journal of the unlogged transaction just committed to the undo stack.
    fn push_action_journal(&mut self);

    /// Sets a value in the open transaction.
    fn tx_set_value(
        &mut self,
        sheet: &str,
        row: u32,
        col: u32,
        value: &LiteralValue,
    ) -> Result<(), EditorError>;

    /// Sets a formula in the open transaction.
    fn tx_set_formula(
        &mut self,
        sheet: &str,
        row: u32,
        col: u32,
        tree: &formualizer_parse::ASTNode,
    ) -> Result<(), EditorError>;

    /// Hides or shows a row in the open transaction.
    fn tx_set_row_hidden(&mut self, sheet: &str, row: u32, hidden: bool) -> Result<(), EditorError>;

    /// Hides or shows rows in the open transaction.
    fn tx_set_rows_hidden(
        &mut self,
        sheet: &str,
        start_row: u32,
        end_row: u32,
        hidden: bool,
    ) -> Result<(), EditorError>;

    /// Undoes the last compound of the change log, or the last journal.
    fn undo(&mut self, logged: bool) -> Result<(), EditorError>;

    /// Redoes what was undone last.
    fn redo(&mut self, logged: bool) -> Result<(), EditorError>;

    /// Switches the log.
    fn log_set_enabled(&mut self, enabled: bool);

    /// Names who makes the changes.
    fn log_set_actor_id(&mut self, actor_id: Option<String>);

    /// Names what the changes belong to.
    fn log_set_correlation_id(&mut self, correlation_id: Option<String>);

    /// Says why the changes are made.
    fn log_set_reason(&mut self, reason: Option<String>);

    /// Opens a compound.
    fn log_begin_compound(&mut self, description: &str);

    /// Closes a compound.
    fn log_end_compound(&mut self);

    /// Records that the formula text staged for a cell changed.
    fn log_staged_change(
        &mut self,
        sheet: &str,
        row: u32,
        col: u32,
        before: Option<String>,
        after: Option<String>,
    );

    /// Takes all staged formula texts into the graph.
    fn build_graph_all(&mut self) -> Result<(), String>;

    /// Takes the formula texts staged for some sheets into the graph.
    fn build_graph_for_sheets(&mut self, sheets: &[&str]) -> Result<(), String>;

    /// Evaluates a cell.
    fn evaluate_cell(
        &mut self,
        sheet: &str,
        row: u32,
        col: u32,
    ) -> Result<Option<LiteralValue>, ExcelError>;

    /// Evaluates cells.
    fn evaluate_cells(
        &mut self,
        targets: &[(&str, u32, u32)],
    ) -> Result<Vec<Option<LiteralValue>>, ExcelError>;

    /// Evaluates cells, until cancelled.
    fn evaluate_cells_cancellable(
        &mut self,
        targets: &[(&str, u32, u32)],
        cancel: Self::CancelFlag,
    ) -> Result<Vec<Option<LiteralValue>>, ExcelError>;

    /// Evaluates whatever is out of date.
    fn evaluate_all(&mut self) -> Result<Self::EvalResult, ExcelError>;

    /// Evaluates whatever is out of date, until cancelled.
    fn evaluate_all_cancellable(
        &mut self,
        cancel: Self::CancelFlag,
    ) -> Result<Self::EvalResult, ExcelError>;

    /// Evaluates along a plan.
    fn evaluate_recalc_plan(
        &mut self,
        plan: &Self::RecalcPlan,
    ) -> Result<Self::EvalResult, ExcelError>;

    /// What an evaluation of the targets would do.
    fn get_eval_plan(&self, targets: &[(&str, u32, u32)]) -> Result<Self::EvalPlan, ExcelError>;

    /// Sets how time and chance are seen.
    fn set_deterministic_mode(&mut self, mode: Self::DeterministicMode) -> Result<(), ExcelError>;

    /// Sets the limits of loading.
    fn set_load_limits(&mut self, limits: Self::LoadLimits);
}

/// A call of an engine method, with its answer.
pub enum EngineEvent<E: WorkbookEngine> {
    Create {
        functions: FunctionRegistry<E::Handler, E::Runtime>,
        config: EvalConfig<E::Settings>,
    },
    SetResolver { functions: FunctionRegistry<E::Handler, E::Runtime> },
    Flags { reply: EngineFlags },
    /// The engine was handed out for changes of any kind.
    HandedOut,
    SheetId { name: Seq<char>, reply: Option<u32> },
    AddSheet { name: Seq<char>, reply: Result<u32, ExcelError> },
    MustAddSheet { name: Seq<char>, reply: u32 },
    DuplicateSheet { source: Seq<char>, new_name: Seq<char>, reply: Result<(), ExcelError> },
    RemoveSheet { id: u32, reply: Result<(), ExcelError> },
    RenameSheet { id: u32, new_name: Seq<char>, reply: Result<(), ExcelError> },
    HasStoreSheet { sheet: Seq<char>, reply: bool },
    StoreRows { sheet: Seq<char>, reply: u32 },
    StoreColumns { sheet: Seq<char>, reply: usize },
    ChunkOfRow { sheet: Seq<char>, row0: usize, reply: Option<(usize, usize)> },
    PushStoreSheet { sheet: Seq<char>, chunk_rows: usize },
    EnsureStoreRows { sheet: Seq<char>, rows: usize },
    InsertStoreColumns { sheet: Seq<char>, at: usize, count: usize },
    EnsureColumnChunk { sheet: Seq<char>, col0: usize, chunk: usize, reply: bool },
    SetOverlay { sheet: Seq<char>, col0: usize, chunk: usize, offset: usize, value: OverlayValue },
    DropStoreSheet { sheet: Seq<char> },
    RenameStoreSheet { sheet: Seq<char>, new_name: Seq<char> },
    GetCellValue { sheet: Seq<char>, row: u32, col: u32, reply: Option<LiteralValue> },
    GetCell { sheet: Seq<char>, row: u32, col: u32, reply: Option<CellState> },
    SetCellValue {
        sheet: Seq<char>,
        row: u32,
        col: u32,
        value: LiteralValue,
        reply: Result<(), ExcelError>,
    },
    SetCellFormula {
        sheet: Seq<char>,
        row: u32,
        col: u32,
        tree: formualizer_parse::ASTNode,
        reply: Result<(), ExcelError>,
    },
    MarkDataEdited,
    BeginDeferredDirty,
    EndDeferredDirty,
    StagedFormulaText { sheet: Seq<char>, row: u32, col: u32, reply: Option<Seq<char>> },
    StageFormulaText { sheet: Seq<char>, row: u32, col: u32, formula: Seq<char> },
    ClearStagedFormulaText { sheet: Seq<char>, row: u32, col: u32 },
    ClearStagedFormulasForSheet { sheet: Seq<char> },
    RenameStagedFormulaSheet { old_name: Seq<char>, new_name: Seq<char> },
    EditBegin,
    EditSetValue { cell: CellRef, value: LiteralValue },
    EditSetValueWithOldState {
        cell: CellRef,
        value: LiteralValue,
        old_value: Option<LiteralValue>,
        old_formula: Option<formualizer_parse::ASTNode>,
    },
    EditSetFormula { cell: CellRef, tree: formualizer_parse::ASTNode },
    EditSetFormulaWithOldState {
        cell: CellRef,
        tree: formualizer_parse::ASTNode,
        old_value: Option<LiteralValue>,
        old_formula: Option<formualizer_parse::ASTNode>,
    },
    EditDefineName {
        name: Seq<char>,
        definition: NamedDefinition,
        scope: NameScope,
        reply: Result<(), EditorError>,
    },
    EditUpdateName {
        name: Seq<char>,
        definition: NamedDefinition,
        scope: NameScope,
        reply: Result<(), EditorError>,
    },
    EditDeleteName { name: Seq<char>, scope: NameScope, reply: Result<(), EditorError> },
    EditEnd,
    DefineName {
        name: Seq<char>,
        definition: NamedDefinition,
        scope: NameScope,
        reply: Result<(), ExcelError>,
    },
    UpdateName {
        name: Seq<char>,
        definition: NamedDefinition,
        scope: NameScope,
        reply: Result<(), ExcelError>,
    },
    DeleteName { name: Seq<char>, scope: NameScope, reply: Result<(), ExcelError> },
    SetRowHidden { sheet: Seq<char>, row: u32, hidden: bool, reply: Result<(), EditorError> },
    SetRowsHidden {
        sheet: Seq<char>,
        start_row: u32,
        end_row: u32,
        hidden: bool,
        reply: Result<(), EditorError>,
    },
    ActionBegin { logged: bool, name: Seq<char>, reply: Result<(), EditorError> },
    ActionCommit { reply: Result<(), EditorError> },
    ActionAbort { reason: Seq<char> },
    PushActionJournal,
    TxSetValue {
        sheet: Seq<char>,
        row: u32,
        col: u32,
        value: LiteralValue,
        reply: Result<(), EditorError>,
    },
    TxSetFormula {
        sheet: Seq<char>,
        row: u32,
        col: u32,
        tree: formualizer_parse::ASTNode,
        reply: Result<(), EditorError>,
    },
    TxSetRowHidden { sheet: Seq<char>, row: u32, hidden: bool, reply: Result<(), EditorError> },
    TxSetRowsHidden {
        sheet: Seq<char>,
        start_row: u32,
        end_row: u32,
        hidden: bool,
        reply: Result<(), EditorError>,
    },
    Undo { logged: bool, reply: Result<(), EditorError> },
    Redo { logged: bool, reply: Result<(), EditorError> },
    LogSetEnabled { enabled: bool },
    LogSetActorId { actor_id: Option<Seq<char>> },
    LogSetCorrelationId { correlation_id: Option<Seq<char>> },
    LogSetReason { reason: Option<Seq<char>> },
    LogBeginCompound { description: Seq<char> },
    LogEndCompound,
    LogStagedChange {
        sheet: Seq<char>,
        row: u32,
        col: u32,
        before: Option<Seq<char>>,
        after: Option<Seq<char>>,
    },
    BuildGraphAll { reply: Result<(), String> },
    BuildGraphForSheets { sheets: Seq<Seq<char>>, reply: Result<(), String> },
    EvaluateCell {
        sheet: Seq<char>,
        row: u32,
        col: u32,
        reply: Result<Option<LiteralValue>, ExcelError>,
    },
    EvaluateCells {
        targets: Seq<(Seq<char>, u32, u32)>,
        reply: Result<Vec<Option<LiteralValue>>, ExcelError>,
    },
    EvaluateCellsCancellable {
        targets: Seq<(Seq<char>, u32, u32)>,
        cancel: E::CancelFlag,
        reply: Result<Vec<Option<LiteralValue>>, ExcelError>,
    },
    EvaluateAll { reply: Result<E::EvalResult, ExcelError> },
    EvaluateAllCancellable { cancel: E::CancelFlag, reply: Result<E::EvalResult, ExcelError> },
    EvaluateRecalcPlan { plan: E::RecalcPlan, reply: Result<E::EvalResult, ExcelError> },
    GetEvalPlan { targets: Seq<(Seq<char>, u32, u32)>, reply: Result<E::EvalPlan, ExcelError> },
    SetDeterministicMode { mode: E::DeterministicMode, reply: Result<(), ExcelError> },
    SetLoadLimits { limits: E::LoadLimits },
}

/// The texts of strings.
pub open spec fn texts_view(texts: Seq<&str>) -> Seq<Seq<char>> {
    texts.map_values(|t: &str| t@)
}

/// Cells with the names of their sheets as texts.
pub open spec fn targets_view(targets: Seq<(&str, u32, u32)>) -> Seq<(Seq<char>, u32, u32)> {
    targets.map_values(|t: (&str, u32, u32)| (t.0@, t.1, t.2))
}

} // verus!
