//! The workbook: cells, sheets, names, functions and modules over one engine.

use crate::action::WorkbookAction;
use crate::address::RangeAddress;
use crate::batch::{values_answered, values_run, SetValuesReplies, Target};
use crate::batch_formulas::{formulas_run, rows_answered, SetFormulasReplies};
use crate::batch_range::{range_answered, range_run, WriteRangeReplies};
use crate::cell_data::{is_listing, CellData};
use crate::cells::{formula_run, ran, value_run, SetFormulaReplies, SetValueReplies};
use crate::config::{mode_config, workbook_eval_config, EvalConfig, WorkbookConfig, WorkbookMode};
use crate::engine::{
    targets_view, texts_view, CalcSettings, EngineEvent, EngineFlags, NamedEntry,
    WorkbookEngine,
};
use crate::error::{
    backend_error, editor_backend_outcome, editor_error, engine_outcome, error_of, excel_view,
    io_view, EditorError, ErrorView, ExcelError, ExcelErrorKind, IoError, IoErrorView,
};
use crate::export::{
    export_true, export_workbook, exported, workbook_run, ExportReplies, FileHost, SpreadsheetFile,
};
use crate::function::{
    arity_check, normalize_custom_fn_name, normalized_name, validate_custom_arity, CustomFnInfo,
    CustomFnOptions,
};
use crate::grid::{cells_of, fits, width_of};
use crate::host::Host;
use crate::manifest::{
    normalize_wasm_module_id, normalized_module_id, validate_wasm_spec, wasm_spec_check,
    WasmFunctionSpec, WasmModuleInfo, WasmModuleManifest,
};
use crate::names::{
    find_named_range, hint_view, name_deletion_run, name_resolves, named_range_run,
    AddressReplies, NameEdit, NameReplies, NamedRangeScope,
};
use crate::reads::{
    dimensions_are, formula_is, range_is, read_dimensions, read_formula, read_values, store_has,
};
use crate::registry::{
    function_conflict_message, function_error, function_taken_message, FunctionRegistry,
    RegisteredCustomFn, WorkbookCustomFunction, WorkbookFunction, WorkbookWasmFunction,
};
use crate::resolver::WBResolver;
use crate::runtime::{RuntimeCall, RuntimeSlot};
use crate::store::{after_capacity, CapacityReplies};
use crate::text::{decimal, push_decimal, same_text, text_before, text_view};
use crate::text_map::{ascending, lemma_map_entry, map_of};
use crate::value::{value_or_empty, LiteralValue};
use crate::wasm::{
    inspect_module, inspection, is_module_info, lemma_accepted_id, module_manifest,
    module_taken_message, module_unknown_message, pending_error, pending_message,
    unknown_module_error, ManifestDecoder, RegisteredWasmModule, WasmPluginManager,
    WasmUdfRuntime,
};
use std::collections::BTreeMap;
use std::sync::Arc;
use vstd::prelude::*;
use vstd::string::*;

verus! {

/// A workbook over the engine `E`.
pub struct Workbook<E: WorkbookEngine> {
    tx: WorkbookAction<'static, E>,
    functions: Arc<FunctionRegistry<E::Handler, E::Runtime>>,
    plugins: WasmPluginManager<E::Runtime>,
    enable_changelog: bool,
    calc_settings: Option<CalcSettings<E::Iteration>>,
}

impl<E: WorkbookEngine> Workbook<E> {
    /// The engine and its history.
    pub closed spec fn host(&self) -> Host<E> {
        self.tx.host()
    }

    /// The calls made to the engine so far, in order.
    pub open spec fn history(&self) -> Seq<EngineEvent<E>> {
        self.host().history()
    }

    /// The functions of the workbook.
    pub closed spec fn functions(&self) -> FunctionRegistry<E::Handler, E::Runtime> {
        *self.functions
    }

    /// The modules of the workbook.
    pub closed spec fn plugins(&self) -> WasmPluginManager<E::Runtime> {
        self.plugins
    }

    /// Whether edits go through the change log.
    pub closed spec fn logged(&self) -> bool {
        self.enable_changelog
    }

    /// What the file that the workbook was loaded from states of calculation.
    pub closed spec fn calc(&self) -> Option<CalcSettings<E::Iteration>> {
        self.calc_settings
    }

    /// The registries are sound.
    pub open spec fn wf(&self) -> bool {
        self.functions().wf() && self.plugins().wf()
    }

    /// Whether all but the engine and its history is as in `before`.
    pub open spec fn keeps(&self, before: Self) -> bool {
        &&& self.functions() == before.functions()
        &&& self.plugins() == before.plugins()
        &&& self.logged() == before.logged()
        &&& self.calc() == before.calc()
    }

    /// Whether the engine and its history are as in `before`.
    pub open spec fn idle(&self, before: Self) -> bool {
        &&& self.host() == before.host()
        &&& self.settled(before)
    }

    /// Whether what the workbook holds of its log and its file is as in `before`.
    pub open spec fn settled(&self, before: Self) -> bool {
        &&& self.logged() == before.logged()
        &&& self.calc() == before.calc()
    }

    /// Whether all that the engine was told since `before` is the functions of the
    /// workbook.
    pub open spec fn tells_functions(&self, before: Self) -> bool {
        self.history() == before.history().push(
            EngineEvent::SetResolver { functions: self.functions() },
        )
    }

    /// Gives the workbook the functions `functions`, and lets formulas find them.
    fn install(&mut self, functions: FunctionRegistry<E::Handler, E::Runtime>)
        requires
            functions.wf(),
        ensures
            final(self).functions() == functions,
            final(self).plugins() == old(self).plugins(),
            final(self).settled(*old(self)),
            final(self).tells_functions(*old(self)),
    {
        self.functions = Arc::new(functions);
        self.tx.host_mut().set_resolver(WBResolver::new(self.functions.clone()));
    }

    /// A workbook with the settings `config`. It always keeps its values in the
    /// column store with its overlay.
    pub fn new_with_config(config: WorkbookConfig<E::Settings, E::LoadLimits>) -> (wb: Self)
        ensures
            wb.wf(),
            wb.starts_with(config),
    {
        let mut eval = config.eval;
        eval.arrow_storage_enabled = true;
        eval.delta_overlay_enabled = true;
        eval.write_formula_overlay_enabled = true;
        let functions: Arc<FunctionRegistry<E::Handler, E::Runtime>> = Arc::new(
            FunctionRegistry::new(),
        );
        let mut host: Host<E> = Host::create(WBResolver::new(functions.clone()), eval);
        host.set_load_limits(config.ingest_limits);
        host.log_set_enabled(config.enable_changelog);
        let wb = Workbook {
            tx: WorkbookAction::new(host),
            functions,
            plugins: WasmPluginManager::new(),
            enable_changelog: config.enable_changelog,
            calc_settings: None,
        };
        assert(wb.history() =~= seq![
            EngineEvent::<E>::Create {
                functions: wb.functions(),
                config: workbook_eval_config(config.eval),
            },
            EngineEvent::<E>::SetLoadLimits { limits: config.ingest_limits },
            EngineEvent::<E>::LogSetEnabled { enabled: config.enable_changelog },
        ]);
        wb
    }

    /// Writes the workbook into a new spreadsheet file, and gives its bytes.
    pub fn to_xlsx_bytes<X: SpreadsheetFile<E::Iteration>>(&self, file: &mut FileHost<X>) -> (r:
        Result<Vec<u8>, IoError>)
        ensures
            exists|names: Vec<String>, replies: ExportReplies|
                call_ensures(E::sheet_names, (&self.host().engine(),), names) && export_true(
                    self.host().engine(),
                    names@,
                    replies,
                    workbook_run(old(file).history(), names@, replies).refusal,
                ) && exported(
                    self.host().engine(),
                    self.calc(),
                    #[trigger] workbook_run(old(file).history(), names@, replies),
                    *final(file),
                    r,
                ),
    {
        export_workbook(self.engine(), &self.calc_settings, file)
    }
}

impl<E: WorkbookEngine> Workbook<E> where
    E::Settings: Default,
    E::LoadLimits: Default,
 {
    /// A workbook with the settings of `mode`.
    pub fn new_with_mode(mode: WorkbookMode) -> (wb: Self)
        ensures
            wb.wf(),
            exists|settings: E::Settings, limits: E::LoadLimits|
                call_ensures(E::Settings::default, (), settings) && call_ensures(
                    E::LoadLimits::default,
                    (),
                    limits,
                ) && wb.starts_with(#[trigger] mode_config(mode, settings, limits)),
    {
        let config = WorkbookConfig::for_mode(mode);
        let ghost made = config;
        let wb = Self::new_with_config(config);
        assert(wb.starts_with(mode_config(mode, made.eval.settings, made.ingest_limits)));
        wb
    }

    /// A workbook for interactive use.
    pub fn new() -> (wb: Self)
        ensures
            wb.wf(),
            exists|settings: E::Settings, limits: E::LoadLimits|
                call_ensures(E::Settings::default, (), settings) && call_ensures(
                    E::LoadLimits::default,
                    (),
                    limits,
                ) && wb.starts_with(
                    #[trigger] mode_config(WorkbookMode::Interactive, settings, limits),
                ),
    {
        Self::new_with_mode(WorkbookMode::Interactive)
    }
}

impl<E: WorkbookEngine> Default for Workbook<E> where
    E::Settings: Default,
    E::LoadLimits: Default,
 {
    /// A workbook for interactive use.
    fn default() -> (wb: Self)
        ensures
            wb.wf(),
            exists|settings: E::Settings, limits: E::LoadLimits|
                call_ensures(E::Settings::default, (), settings) && call_ensures(
                    E::LoadLimits::default,
                    (),
                    limits,
                ) && wb.starts_with(
                    #[trigger] mode_config(WorkbookMode::Interactive, settings, limits),
                ),
    {
        Self::new()
    }
}

impl<E: WorkbookEngine> Workbook<E> {
    /// Whether the workbook is a new one with the settings `config`.
    pub open spec fn starts_with(&self, config: WorkbookConfig<E::Settings, E::LoadLimits>) -> bool {
        &&& self.history() == seq![
            EngineEvent::<E>::Create {
                functions: self.functions(),
                config: workbook_eval_config(config.eval),
            },
            EngineEvent::<E>::SetLoadLimits { limits: config.ingest_limits },
            EngineEvent::<E>::LogSetEnabled { enabled: config.enable_changelog },
        ]
        &&& self.bare()
        &&& self.logged() == config.enable_changelog
        &&& self.calc() is None
    }

    /// Whether the workbook has no function, no module and no runtime.
    pub open spec fn bare(&self) -> bool {
        &&& self.functions().functions() == Map::<
            Seq<char>,
            RegisteredCustomFn<E::Handler, E::Runtime>,
        >::empty()
        &&& self.plugins().modules() == Map::<Seq<char>, RegisteredWasmModule>::empty()
        &&& self.plugins().runtime().installed() is None
        &&& self.plugins().calls() == Seq::<RuntimeCall>::empty()
    }

    /// Sets the value of a cell.
    pub fn set_value(&mut self, sheet: &str, row: u32, col: u32, value: LiteralValue) -> (r: Result<
        (),
        IoError,
    >)
        ensures
            final(self).keeps(*old(self)),
            exists|replies: SetValueReplies|
                ran(final(self).history(), r) == #[trigger] value_run(
                    old(self).history(),
                    old(self).logged(),
                    sheet@,
                    row,
                    col,
                    value,
                    replies,
                ),
    {
        self.put_value(sheet, row, col, &value).0
    }

    /// Sets the value of a cell, see [`value_run`].
    pub(crate) fn put_value(&mut self, sheet: &str, row: u32, col: u32, value: &LiteralValue) -> (r: (
        Result<(), IoError>,
        Ghost<SetValueReplies>,
    ))
        ensures
            final(self).keeps(*old(self)),
            ran(final(self).history(), r.0) == value_run(
                old(self).history(),
                old(self).logged(),
                sheet@,
                row,
                col,
                *value,
                r.1@,
            ),
    {
        let logged = self.enable_changelog;
        self.tx.host_mut().edit_value(logged, sheet, row, col, value)
    }

    /// Sets the formula of a cell, given with or without its sign.
    pub fn set_formula(&mut self, sheet: &str, row: u32, col: u32, formula: &str) -> (r: Result<
        (),
        IoError,
    >)
        ensures
            final(self).keeps(*old(self)),
            exists|replies: SetFormulaReplies|
                ran(final(self).history(), r) == #[trigger] formula_run(
                    old(self).history(),
                    old(self).logged(),
                    sheet@,
                    row,
                    col,
                    formula@,
                    replies,
                ),
    {
        self.put_formula(sheet, row, col, formula).0
    }

    /// Sets the formula of a cell, see [`formula_run`].
    pub(crate) fn put_formula(&mut self, sheet: &str, row: u32, col: u32, formula: &str) -> (r: (
        Result<(), IoError>,
        Ghost<SetFormulaReplies>,
    ))
        ensures
            final(self).keeps(*old(self)),
            ran(final(self).history(), r.0) == formula_run(
                old(self).history(),
                old(self).logged(),
                sheet@,
                row,
                col,
                formula@,
                r.1@,
            ),
    {
        let logged = self.enable_changelog;
        self.tx.host_mut().edit_formula(logged, sheet, row, col, formula)
    }

    /// Sets the values of a rectangle in one batch.
    pub fn set_values(
        &mut self,
        sheet: &str,
        start_row: u32,
        start_col: u32,
        rows: &[Vec<LiteralValue>],
    ) -> (r: Result<(), IoError>)
        requires
            fits(start_row, start_col, rows@),
        ensures
            final(self).keeps(*old(self)),
            exists|replies: SetValuesReplies|
                ran(final(self).history(), r) == #[trigger] values_run(
                    old(self).history(),
                    old(self).logged(),
                    sheet@,
                    cells_of(start_row, start_col, rows@),
                    replies,
                ) && values_answered(
                    old(self).logged(),
                    cells_of(start_row, start_col, rows@).len(),
                    replies,
                    io_view(r),
                ),
    {
        let logged = self.enable_changelog;
        let (r, replies) = self.tx.host_mut().edit_values(
            logged,
            sheet,
            start_row,
            start_col,
            rows,
        );
        assert(ran(self.history(), r) == values_run(
            old(self).history(),
            logged,
            sheet@,
            cells_of(start_row, start_col, rows@),
            replies@,
        ));
        r
    }

    /// Sets the formulas of a rectangle in one batch.
    pub fn set_formulas(
        &mut self,
        sheet: &str,
        start_row: u32,
        start_col: u32,
        rows: &[Vec<String>],
    ) -> (r: Result<(), IoError>)
        requires
            width_of(rows@, rows@.len() as int) > 0 ==> fits(start_row, start_col, rows@),
        ensures
            final(self).keeps(*old(self)),
            exists|replies: SetFormulasReplies|
                ran(final(self).history(), r) == #[trigger] formulas_run(
                    old(self).history(),
                    old(self).logged(),
                    sheet@,
                    start_row,
                    start_col,
                    rows@,
                    replies,
                ) && rows_answered(
                    old(self).logged(),
                    start_row,
                    start_col,
                    rows@,
                    replies,
                    io_view(r),
                ),
    {
        let logged = self.enable_changelog;
        let (r, replies) = self.tx.host_mut().edit_formulas(
            logged,
            sheet,
            start_row,
            start_col,
            rows,
        );
        assert(rows_answered(
            old(self).logged(),
            start_row,
            start_col,
            rows@,
            replies@,
            io_view(r),
        ));
        assert(ran(self.history(), r) == formulas_run(
            old(self).history(),
            old(self).logged(),
            sheet@,
            start_row,
            start_col,
            rows@,
            replies@,
        ));
        r
    }

    /// Writes values and formulas of cells in one batch, by row and then by column.
    /// `_start` is not looked at.
    pub fn write_range(
        &mut self,
        sheet: &str,
        _start: (u32, u32),
        cells: BTreeMap<(u32, u32), CellData>,
    ) -> (r: Result<(), IoError>)
        ensures
            final(self).keeps(*old(self)),
            exists|order: Seq<Target<CellData>>, replies: WriteRangeReplies|
                is_listing(order, cells@) && ran(final(self).history(), r) == #[trigger] range_run(
                    old(self).history(),
                    old(self).logged(),
                    sheet@,
                    order,
                    replies,
                ) && range_answered(old(self).logged(), order.len(), replies, io_view(r)),
    {
        let logged = self.enable_changelog;
        let (r, replies) = self.tx.host_mut().edit_range(logged, sheet, &cells);
        assert(ran(self.history(), r) == range_run(
            old(self).history(),
            logged,
            sheet@,
            replies@.0,
            replies@.1,
        ));
        r
    }
}

/// The history `h` after a transaction was opened.
pub open spec fn after_begin<E: WorkbookEngine>(
    h: Seq<EngineEvent<E>>,
    logged: bool,
    name: Seq<char>,
    reply: Result<(), EditorError>,
) -> Seq<EngineEvent<E>> {
    h.push(EngineEvent::ActionBegin { logged, name, reply })
}

/// The history and the result after a transaction that made `value` was committed.
/// Without a change log, its journal goes to the undo stack.
pub open spec fn committed<E: WorkbookEngine, T>(
    h: Seq<EngineEvent<E>>,
    logged: bool,
    value: T,
    reply: Result<(), EditorError>,
) -> (Seq<EngineEvent<E>>, Result<T, IoErrorView>) {
    let asked = h.push(EngineEvent::ActionCommit { reply });
    match reply {
        Err(e) => (asked, Err(editor_error(e))),
        Ok(_) => if logged {
            (asked, Ok(value))
        } else {
            (asked.push(EngineEvent::PushActionJournal), Ok(value))
        },
    }
}

/// The history `h` after a sheet was deleted, or the deletion refused: the sheet is
/// taken out of the graph where that knows it, then its staged texts and what the
/// store holds of it are dropped.
pub open spec fn sheet_deletion<E: WorkbookEngine>(
    h: Seq<EngineEvent<E>>,
    name: Seq<char>,
    found: Option<u32>,
    removed: Result<(), ExcelError>,
) -> (Seq<EngineEvent<E>>, Result<(), ErrorView>) {
    let asked = h.push(EngineEvent::SheetId { name, reply: found });
    let gone = match found {
        None => asked,
        Some(id) => asked.push(EngineEvent::RemoveSheet { id, reply: removed }),
    };
    if found is Some && removed is Err {
        (gone, Err(removed->Err_0@))
    } else {
        (
            gone.push(EngineEvent::ClearStagedFormulasForSheet { sheet: name }).push(
                EngineEvent::DropStoreSheet { sheet: name },
            ),
            Ok(()),
        )
    }
}

/// The history `h` after a sheet was renamed, or the renaming refused.
pub open spec fn sheet_renaming<E: WorkbookEngine>(
    h: Seq<EngineEvent<E>>,
    old_name: Seq<char>,
    new_name: Seq<char>,
    found: Option<u32>,
    renamed: Result<(), ExcelError>,
    stored: bool,
) -> (Seq<EngineEvent<E>>, Result<(), ErrorView>) {
    let asked = h.push(EngineEvent::SheetId { name: old_name, reply: found });
    let known = match found {
        None => asked,
        Some(id) => asked.push(EngineEvent::RenameSheet { id, new_name, reply: renamed }),
    };
    if found is Some && renamed is Err {
        (known, Err(renamed->Err_0@))
    } else {
        let moved = known.push(EngineEvent::RenameStagedFormulaSheet { old_name, new_name }).push(
            EngineEvent::HasStoreSheet { sheet: old_name, reply: stored },
        );
        if stored {
            (moved.push(EngineEvent::RenameStoreSheet { sheet: old_name, new_name }), Ok(()))
        } else {
            (moved, Ok(()))
        }
    }
}

/// The history `h` after a sheet was added, with room for nothing.
pub open spec fn sheet_addition<E: WorkbookEngine>(
    h: Seq<EngineEvent<E>>,
    name: Seq<char>,
    added: Result<u32, ExcelError>,
    capacity: CapacityReplies,
) -> (Seq<EngineEvent<E>>, Result<(), ErrorView>) {
    let asked = h.push(EngineEvent::AddSheet { name, reply: added });
    match added {
        Err(e) => (asked, Err(e@)),
        Ok(_) => (after_capacity(asked, name, 0, 0, capacity), Ok(())),
    }
}

/// Values with empty ones for those that are absent.
pub open spec fn shown_values(values: Seq<Option<LiteralValue>>) -> Seq<LiteralValue> {
    values.map_values(|v: Option<LiteralValue>| value_or_empty(v))
}

/// Whether `r` shows the values that the engine answered with.
pub open spec fn shows(
    reply: Result<Vec<Option<LiteralValue>>, ExcelError>,
    r: Result<Vec<LiteralValue>, IoError>,
) -> bool {
    match (reply, r) {
        (Ok(values), Ok(shown)) => shown@ == shown_values(values@),
        (Err(e), Err(error)) => error@ == IoErrorView::Engine(e@),
        _ => false,
    }
}

/// A parse failure that the engine reports while it builds its graph.
pub open spec fn graph_outcome(r: Result<(), String>) -> Result<(), IoErrorView> {
    match r {
        Ok(_) => Ok(()),
        Err(text) => Err(backend_error("parser"@, text@)),
    }
}

fn graph_result(r: Result<(), String>) -> (out: Result<(), IoError>)
    ensures
        io_view(out) == graph_outcome(r),
{
    match r {
        Ok(_) => Ok(()),
        Err(text) => Err(IoError::from_backend("parser", text)),
    }
}

fn show_values(r: Result<Vec<Option<LiteralValue>>, ExcelError>) -> (out: Result<
    Vec<LiteralValue>,
    IoError,
>)
    ensures
        shows(r, out),
{
    match r {
        Err(e) => Err(IoError::Engine(e)),
        Ok(values) => {
            let ghost all = values@;
            let mut rest = values;
            let mut shown: Vec<LiteralValue> = Vec::new();
            while rest.len() > 0
                invariant
                    shown@.len() + rest@.len() == all.len(),
                    rest@ == all.skip(shown@.len() as int),
                    shown@ == shown_values(all.take(shown@.len() as int)),
                decreases rest@.len(),
            {
                let ghost n = shown@.len() as int;
                let value = rest.remove(0);
                assert(value == all[n]);
                assert(rest@ =~= all.skip(n + 1));
                let ghost before = shown@;
                shown.push(
                    match value {
                        Some(v) => v,
                        None => LiteralValue::Empty,
                    },
                );
                assert(all.take(n + 1) =~= all.take(n).push(all[n]));
                assert(shown@ =~= shown_values(all.take(n + 1)));
            }
            assert(all.take(shown@.len() as int) =~= all);
            Ok(shown)
        },
    }
}

impl<E: WorkbookEngine> Workbook<E> {
    /// Executes an atomic action: the edits that `f` makes are kept together, or
    /// rolled back where it fails.
    ///
    /// With a change log the action is one compound of it, which a rollback takes
    /// out again; without one, its journal can be undone. The error of `f` is
    /// returned as it is. `f` gets no hold on the workbook itself.
    pub fn action<T, F: FnOnce(&mut WorkbookAction<'_, E>) -> Result<T, IoError>>(
        &mut self,
        name: &str,
        f: F,
    ) -> (r: Result<T, IoError>)
        requires
            forall|a: &mut WorkbookAction<'_, E>| call_requires(f, (a,)),
        ensures
            final(self).keeps(*old(self)),
            exists|begun: Result<(), EditorError>|
                #![trigger after_begin(old(self).history(), old(self).logged(), name@, begun)]
                (begun is Err ==> io_view(r) == Err::<T, IoErrorView>(editor_error(begun->Err_0))
                    && final(self).history() == after_begin(
                    old(self).history(),
                    old(self).logged(),
                    name@,
                    begun,
                )) && (begun is Ok ==> exists|
                    a: &mut WorkbookAction<'_, E>,
                    made: Result<T, IoError>,
                | #[trigger]
                    call_ensures(f, (a,), made) && a.history() == after_begin(
                        old(self).history(),
                        old(self).logged(),
                        name@,
                        begun,
                    ) && (made is Err ==> r == Err::<T, IoError>(made->Err_0)
                        && final(self).history() == final(a).history().push(
                        EngineEvent::ActionAbort { reason: "Workbook::action aborted"@ },
                    )) && (made is Ok ==> exists|reply: Result<(), EditorError>|
                        (final(self).history(), io_view(r)) == #[trigger] committed(
                            final(a).history(),
                            old(self).logged(),
                            made->Ok_0,
                            reply,
                        ))),
    {
        let logged = self.enable_changelog;
        let begun = self.tx.host_mut().action_begin(logged, name);
        let ghost opened = after_begin(old(self).history(), old(self).logged(), name@, begun);
        assert(self.history() == opened);
        match begun {
            Err(e) => {
                return Err(IoError::from_editor(e));
            },
            Ok(_) => {},
        }
        let made = f(&mut self.tx);
        let ghost acted = self.history();
        let ghost result = made;
        assert(exists|a: &mut WorkbookAction<'_, E>| #[trigger]
            call_ensures(f, (a,), result) && a.history() == opened && final(a).history() == acted);
        match made {
            Err(e) => {
                self.tx.host_mut().action_abort("Workbook::action aborted");
                assert(result == Err::<T, IoError>(e));
                assert(self.history() == acted.push(
                        EngineEvent::ActionAbort { reason: "Workbook::action aborted"@ }));
                Err(e)
            },
            Ok(value) => {
                let reply = self.tx.host_mut().action_commit();
                let ghost answer = reply;
                let r = match reply {
                    Err(e) => Err(IoError::from_editor(e)),
                    Ok(_) => {
                        if !logged {
                            self.tx.host_mut().push_action_journal();
                        }
                        Ok(value)
                    },
                };
                assert(result is Ok && result->Ok_0 == value);
                assert((self.history(), io_view(r)) == committed(
                    acted,
                    old(self).logged(),
                    result->Ok_0,
                    answer,
                ));
                r
            },
        }
    }

    /// Undoes the last action.
    pub fn undo(&mut self) -> (r: Result<(), IoError>)
        ensures
            final(self).keeps(*old(self)),
            exists|reply: Result<(), EditorError>|
                io_view(r) == #[trigger] editor_backend_outcome(reply) && final(self).history()
                    == old(self).history().push(
                    EngineEvent::Undo { logged: old(self).logged(), reply },
                ),
    {
        let logged = self.enable_changelog;
        let reply = self.tx.host_mut().undo(logged);
        IoError::editor_backend_result(reply)
    }

    /// Redoes what was undone last.
    pub fn redo(&mut self) -> (r: Result<(), IoError>)
        ensures
            final(self).keeps(*old(self)),
            exists|reply: Result<(), EditorError>|
                io_view(r) == #[trigger] editor_backend_outcome(reply) && final(self).history()
                    == old(self).history().push(
                    EngineEvent::Redo { logged: old(self).logged(), reply },
                ),
    {
        let logged = self.enable_changelog;
        let reply = self.tx.host_mut().redo(logged);
        IoError::editor_backend_result(reply)
    }

    /// Opens a compound of the change log, where that is on.
    pub fn begin_action(&mut self, description: &str)
        ensures
            final(self).keeps(*old(self)),
            final(self).history() == if old(self).logged() {
                old(self).history().push(
                    EngineEvent::LogBeginCompound { description: description@ },
                )
            } else {
                old(self).history()
            },
    {
        if self.enable_changelog {
            self.tx.host_mut().log_begin_compound(description);
        }
    }

    /// Closes a compound of the change log, where that is on.
    pub fn end_action(&mut self)
        ensures
            final(self).keeps(*old(self)),
            final(self).history() == if old(self).logged() {
                old(self).history().push(EngineEvent::LogEndCompound)
            } else {
                old(self).history()
            },
    {
        if self.enable_changelog {
            self.tx.host_mut().log_end_compound();
        }
    }

    /// Switches the change log.
    pub fn set_changelog_enabled(&mut self, enabled: bool)
        ensures
            final(self).logged() == enabled,
            final(self).functions() == old(self).functions(),
            final(self).plugins() == old(self).plugins(),
            final(self).calc() == old(self).calc(),
            final(self).history() == old(self).history().push(
                EngineEvent::LogSetEnabled { enabled },
            ),
    {
        self.enable_changelog = enabled;
        self.tx.host_mut().log_set_enabled(enabled);
    }

    /// Names who makes the changes that the log records.
    pub fn set_actor_id(&mut self, actor_id: Option<String>)
        ensures
            final(self).keeps(*old(self)),
            final(self).history() == old(self).history().push(
                EngineEvent::LogSetActorId { actor_id: text_view(actor_id) },
            ),
    {
        self.tx.host_mut().log_set_actor_id(actor_id);
    }

    /// Names what the changes that the log records belong to.
    pub fn set_correlation_id(&mut self, correlation_id: Option<String>)
        ensures
            final(self).keeps(*old(self)),
            final(self).history() == old(self).history().push(
                EngineEvent::LogSetCorrelationId { correlation_id: text_view(correlation_id) },
            ),
    {
        self.tx.host_mut().log_set_correlation_id(correlation_id);
    }

    /// Says why the changes that the log records are made.
    pub fn set_reason(&mut self, reason: Option<String>)
        ensures
            final(self).keeps(*old(self)),
            final(self).history() == old(self).history().push(
                EngineEvent::LogSetReason { reason: text_view(reason) },
            ),
    {
        self.tx.host_mut().log_set_reason(reason);
    }

    /// Adds a sheet.
    pub fn add_sheet(&mut self, name: &str) -> (r: Result<(), ExcelError>)
        ensures
            final(self).keeps(*old(self)),
            exists|added: Result<u32, ExcelError>, capacity: CapacityReplies|
                (final(self).history(), excel_view(r)) == #[trigger] sheet_addition(
                    old(self).history(),
                    name@,
                    added,
                    capacity,
                ),
    {
        let added = self.tx.host_mut().add_sheet(name);
        let ghost answer = added;
        let ghost mut room: CapacityReplies = arbitrary();
        let r = match added {
            Err(e) => Err(e),
            Ok(_) => {
                let capacity = self.tx.host_mut().ensure_arrow_sheet_capacity(name, 0, 0);
                proof {
                    room = capacity@;
                }
                Ok(())
            },
        };
        assert((self.history(), excel_view(r)) == sheet_addition(
            old(self).history(),
            name@,
            answer,
            room,
        ));
        r
    }

    /// Copies a sheet.
    pub fn duplicate_sheet(&mut self, source: &str, new_name: &str) -> (r: Result<(), ExcelError>)
        ensures
            final(self).keeps(*old(self)),
            final(self).history() == old(self).history().push(
                EngineEvent::DuplicateSheet { source: source@, new_name: new_name@, reply: r },
            ),
    {
        self.tx.host_mut().duplicate_sheet(source, new_name)
    }

    /// Deletes a sheet.
    pub fn delete_sheet(&mut self, name: &str) -> (r: Result<(), ExcelError>)
        ensures
            final(self).keeps(*old(self)),
            exists|found: Option<u32>, removed: Result<(), ExcelError>|
                (final(self).history(), excel_view(r)) == #[trigger] sheet_deletion(
                    old(self).history(),
                    name@,
                    found,
                    removed,
                ),
    {
        let found = self.tx.host_mut().sheet_id(name);
        let ghost mut removed: Result<(), ExcelError> = Ok(());
        if let Some(id) = found {
            let reply = self.tx.host_mut().remove_sheet(id);
            proof {
                removed = reply;
            }
            if let Err(e) = reply {
                assert((self.history(), excel_view(Err::<(), ExcelError>(e))) == sheet_deletion(
                    old(self).history(),
                    name@,
                    found,
                    removed,
                ));
                return Err(e);
            }
        }
        self.tx.host_mut().clear_staged_formulas_for_sheet(name);
        self.tx.host_mut().drop_store_sheet(name);
        assert((self.history(), excel_view(Ok::<(), ExcelError>(()))) == sheet_deletion(
            old(self).history(),
            name@,
            found,
            removed,
        ));
        Ok(())
    }

    /// Renames a sheet.
    pub fn rename_sheet(&mut self, old_name: &str, new_name: &str) -> (r: Result<(), ExcelError>)
        ensures
            final(self).keeps(*old(self)),
            exists|found: Option<u32>, renamed: Result<(), ExcelError>, stored: bool|
                (final(self).history(), excel_view(r)) == #[trigger] sheet_renaming(
                    old(self).history(),
                    old_name@,
                    new_name@,
                    found,
                    renamed,
                    stored,
                ),
    {
        let found = self.tx.host_mut().sheet_id(old_name);
        let ghost mut renamed: Result<(), ExcelError> = Ok(());
        if let Some(id) = found {
            let reply = self.tx.host_mut().rename_sheet(id, new_name);
            proof {
                renamed = reply;
            }
            if let Err(e) = reply {
                assert((self.history(), excel_view(Err::<(), ExcelError>(e))) == sheet_renaming(
                    old(self).history(),
                    old_name@,
                    new_name@,
                    found,
                    renamed,
                    false,
                ));
                return Err(e);
            }
        }
        self.tx.host_mut().rename_staged_formula_sheet(old_name, new_name);
        let stored = self.tx.host_mut().has_store_sheet(old_name);
        if stored {
            self.tx.host_mut().rename_store_sheet(old_name, new_name);
        }
        assert((self.history(), excel_view(Ok::<(), ExcelError>(()))) == sheet_renaming(
            old(self).history(),
            old_name@,
            new_name@,
            found,
            renamed,
            stored,
        ));
        Ok(())
    }

    /// Hides or shows a row.
    pub fn set_row_hidden(&mut self, sheet: &str, row: u32, hidden: bool) -> (r: Result<
        (),
        IoError,
    >)
        ensures
            final(self).keeps(*old(self)),
            exists|reply: Result<(), EditorError>|
                io_view(r) == #[trigger] editor_backend_outcome(reply) && final(self).history()
                    == old(self).history().push(
                    EngineEvent::SetRowHidden { sheet: sheet@, row, hidden, reply },
                ),
    {
        let reply = self.tx.host_mut().set_row_hidden(sheet, row, hidden);
        IoError::editor_backend_result(reply)
    }

    /// Hides or shows rows.
    pub fn set_rows_hidden(
        &mut self,
        sheet: &str,
        start_row: u32,
        end_row: u32,
        hidden: bool,
    ) -> (r: Result<(), IoError>)
        ensures
            final(self).keeps(*old(self)),
            exists|reply: Result<(), EditorError>|
                io_view(r) == #[trigger] editor_backend_outcome(reply) && final(self).history()
                    == old(self).history().push(
                    EngineEvent::SetRowsHidden {
                        sheet: sheet@,
                        start_row,
                        end_row,
                        hidden,
                        reply,
                    },
                ),
    {
        let reply = self.tx.host_mut().set_rows_hidden(sheet, start_row, end_row, hidden);
        IoError::editor_backend_result(reply)
    }

    /// Defines a name for a range.
    pub fn define_named_range(
        &mut self,
        name: &str,
        address: &RangeAddress,
        scope: NamedRangeScope,
    ) -> (r: Result<(), IoError>)
        ensures
            final(self).keeps(*old(self)),
            exists|place: AddressReplies, replies: NameReplies|
                ran(final(self).history(), r) == #[trigger] named_range_run(
                    old(self).history(),
                    old(self).logged(),
                    NameEdit::Define,
                    name@,
                    *address,
                    scope,
                    place,
                    replies,
                ),
    {
        let logged = self.enable_changelog;
        let (r, replies) = self.tx.host_mut().edit_named_range(
            logged,
            NameEdit::Define,
            name,
            address,
            scope,
        );
        assert(ran(self.history(), r) == named_range_run(
            old(self).history(),
            old(self).logged(),
            NameEdit::Define,
            name@,
            *address,
            scope,
            replies@.0,
            replies@.1,
        ));
        r
    }

    /// Makes a name stand for another range.
    pub fn update_named_range(
        &mut self,
        name: &str,
        address: &RangeAddress,
        scope: NamedRangeScope,
    ) -> (r: Result<(), IoError>)
        ensures
            final(self).keeps(*old(self)),
            exists|place: AddressReplies, replies: NameReplies|
                ran(final(self).history(), r) == #[trigger] named_range_run(
                    old(self).history(),
                    old(self).logged(),
                    NameEdit::Update,
                    name@,
                    *address,
                    scope,
                    place,
                    replies,
                ),
    {
        let logged = self.enable_changelog;
        let (r, replies) = self.tx.host_mut().edit_named_range(
            logged,
            NameEdit::Update,
            name,
            address,
            scope,
        );
        assert(ran(self.history(), r) == named_range_run(
            old(self).history(),
            old(self).logged(),
            NameEdit::Update,
            name@,
            *address,
            scope,
            replies@.0,
            replies@.1,
        ));
        r
    }

    /// Deletes a name. One known in a sheet is found by the name of the sheet.
    pub fn delete_named_range(
        &mut self,
        name: &str,
        scope: NamedRangeScope,
        sheet: Option<&str>,
    ) -> (r: Result<(), IoError>)
        ensures
            final(self).keeps(*old(self)),
            exists|found: Option<u32>, replies: NameReplies|
                ran(final(self).history(), r) == #[trigger] name_deletion_run(
                    old(self).history(),
                    old(self).logged(),
                    name@,
                    scope,
                    hint_view(sheet),
                    found,
                    replies,
                ),
    {
        let logged = self.enable_changelog;
        let (r, replies) = self.tx.host_mut().remove_named_range(logged, name, scope, sheet);
        assert(ran(self.history(), r) == name_deletion_run(
            old(self).history(),
            old(self).logged(),
            name@,
            scope,
            hint_view(sheet),
            replies@.0,
            replies@.1,
        ));
        r
    }
}

impl<E: WorkbookEngine> Workbook<E> {
    /// The engine.
    pub fn engine(&self) -> (e: &E)
        ensures
            *e == self.host().engine(),
    {
        self.tx.host_ref().peek()
    }

    /// The engine, for changes of any kind.
    pub fn engine_mut(&mut self) -> (e: &mut E)
        ensures
            *e == old(self).host().engine(),
            *final(e) == final(self).host().engine(),
            final(self).keeps(*old(self)),
            final(self).history() == old(self).history().push(EngineEvent::HandedOut),
    {
        self.tx.host_mut().hand_out()
    }

    /// The change log.
    pub fn changelog(&self) -> (l: &E::ChangeLog)
        ensures
            call_ensures(E::changelog, (&self.host().engine(),), l),
    {
        self.engine().changelog()
    }

    /// The settings of the engine.
    pub fn eval_config(&self) -> (c: &EvalConfig<E::Settings>)
        ensures
            call_ensures(E::config, (&self.host().engine(),), c),
    {
        self.engine().config()
    }

    /// What the last taking in of formulas did.
    pub fn last_formula_ingest_report(&self) -> (r: Option<E::IngestReport>)
        ensures
            call_ensures(E::last_formula_ingest_report, (&self.host().engine(),), r),
    {
        self.engine().last_formula_ingest_report()
    }

    /// What all takings in of formulas did.
    pub fn formula_ingest_report_total(&self) -> (r: E::IngestReport)
        ensures
            call_ensures(E::formula_ingest_report_total, (&self.host().engine(),), r),
    {
        self.engine().formula_ingest_report_total()
    }

    /// Whether formula texts wait for the graph.
    pub fn has_staged_formulas(&self) -> (r: bool)
        ensures
            call_ensures(E::has_staged_formulas, (&self.host().engine(),), r),
    {
        self.engine().has_staged_formulas()
    }

    /// How time and chance are seen.
    pub fn deterministic_mode(&self) -> (m: &E::DeterministicMode)
        ensures
            call_ensures(E::deterministic_mode, (&self.host().engine(),), m),
    {
        self.engine().deterministic_mode()
    }

    /// Sets how time and chance are seen.
    pub fn set_deterministic_mode(&mut self, mode: E::DeterministicMode) -> (r: Result<
        (),
        IoError,
    >)
        ensures
            final(self).keeps(*old(self)),
            exists|reply: Result<(), ExcelError>|
                io_view(r) == #[trigger] engine_outcome(reply) && final(self).history()
                    == old(self).history().push(EngineEvent::SetDeterministicMode { mode, reply }),
    {
        let reply = self.tx.host_mut().set_deterministic_mode(mode);
        IoError::engine_result(reply)
    }

    /// What the file that the workbook was loaded from states of calculation.
    pub fn loaded_calc_settings(&self) -> (r: Option<&CalcSettings<E::Iteration>>)
        ensures
            match r {
                Some(settings) => self.calc() == Some(*settings),
                None => self.calc() is None,
            },
    {
        match &self.calc_settings {
            Some(settings) => Some(settings),
            None => None,
        }
    }

    /// The names of the sheets.
    pub fn sheet_names(&self) -> (r: Vec<String>)
        ensures
            call_ensures(E::sheet_names, (&self.host().engine(),), r),
    {
        self.engine().sheet_names()
    }

    /// The rows and columns of a sheet, as far as the store holds it.
    pub fn sheet_dimensions(&self, name: &str) -> (r: Option<(u32, u32)>)
        ensures
            dimensions_are(self.host().engine(), name@, r),
    {
        read_dimensions(self.engine(), name)
    }

    /// Whether the graph knows a sheet.
    pub fn has_sheet(&self, name: &str) -> (r: bool)
        ensures
            exists|id: Option<u32>| #[trigger]
                call_ensures(E::sheet_id, (&self.host().engine(), name), id) && r == (id is Some),
    {
        self.engine().sheet_id(name).is_some()
    }

    /// Whether a row is hidden by hand.
    pub fn is_row_hidden(&self, sheet: &str, row: u32) -> (r: Result<bool, IoError>)
        ensures
            exists|hidden: Option<bool>| #[trigger]
                call_ensures(E::is_row_hidden, (&self.host().engine(), sheet, row), hidden)
                    && io_view(r) == match hidden {
                    Some(h) => Ok(h),
                    None => Err(backend_error("workbook"@, "Unknown sheet: "@ + sheet@)),
                },
    {
        match self.engine().is_row_hidden(sheet, row) {
            Some(hidden) => Ok(hidden),
            None => {
                let mut text = "Unknown sheet: ".to_owned();
                text.append(sheet);
                Err(IoError::from_backend("workbook", text))
            },
        }
    }

    /// The value of a cell.
    pub fn get_value(&self, sheet: &str, row: u32, col: u32) -> (r: Option<LiteralValue>)
        ensures
            call_ensures(E::get_cell_value, (&self.host().engine(), sheet, row, col), r),
    {
        self.engine().get_cell_value(sheet, row, col)
    }

    /// The formula of a cell: the text staged for it as it is, else the canonical
    /// text of what the graph holds.
    pub fn get_formula(&self, sheet: &str, row: u32, col: u32) -> (r: Option<String>)
        ensures
            formula_is(self.host().engine(), sheet@, row, col, text_view(r)),
    {
        read_formula(self.engine(), sheet, row, col)
    }

    /// The cells whose formulas refer to a cell.
    pub fn get_dependents(&self, sheet: &str, row: u32, col: u32) -> (r: Vec<(String, u32, u32)>)
        ensures
            call_ensures(E::get_dependents, (&self.host().engine(), sheet, row, col), r),
    {
        self.engine().get_dependents(sheet, row, col)
    }

    /// The cells that the formula of a cell refers to.
    pub fn get_dependencies(&self, sheet: &str, row: u32, col: u32) -> (r: Vec<(String, u32, u32)>)
        ensures
            call_ensures(E::get_dependencies, (&self.host().engine(), sheet, row, col), r),
    {
        self.engine().get_dependencies(sheet, row, col)
    }

    /// The cells that depend on a cell, at any distance.
    pub fn get_transitive_dependents(&self, sheet: &str, row: u32, col: u32) -> (r: Vec<
        (String, u32, u32),
    >)
        ensures
            call_ensures(
                E::get_transitive_dependents,
                (&self.host().engine(), sheet, row, col),
                r,
            ),
    {
        self.engine().get_transitive_dependents(sheet, row, col)
    }

    /// The values of a range.
    pub fn read_range(&self, addr: &RangeAddress) -> (rows: Vec<Vec<LiteralValue>>)
        requires
            addr.measurable(),
        ensures
            exists|stored: bool| #[trigger]
                store_has(self.host().engine(), addr.sheet@, stored) && range_is(
                    self.host().engine(),
                    *addr,
                    stored,
                    rows@,
                ),
    {
        let engine = self.engine();
        assert(*engine == self.host().engine());
        read_values(engine, addr)
    }

    /// The address of a name known in the whole workbook, else of one known in
    /// exactly one sheet.
    pub fn named_range_address(&self, name: &str) -> (r: Option<RangeAddress>)
        ensures
            exists|entries: Vec<NamedEntry>| #[trigger]
                call_ensures(E::named_ranges, (&self.host().engine(),), entries) && name_resolves(
                    self.host().engine(),
                    name@,
                    entries@,
                    r,
                ),
    {
        let engine = self.engine();
        assert(*engine == self.host().engine());
        find_named_range(engine, name)
    }

    /// Takes all staged formula texts into the graph.
    pub fn prepare_graph_all(&mut self) -> (r: Result<(), IoError>)
        ensures
            final(self).keeps(*old(self)),
            exists|reply: Result<(), String>|
                io_view(r) == #[trigger] graph_outcome(reply) && final(self).history()
                    == old(self).history().push(EngineEvent::BuildGraphAll { reply }),
    {
        let reply = self.tx.host_mut().build_graph_all();
        graph_result(reply)
    }

    /// Takes the formula texts staged for some sheets into the graph.
    pub fn prepare_graph_for_sheets(&mut self, sheets: &[&str]) -> (r: Result<(), IoError>)
        ensures
            final(self).keeps(*old(self)),
            exists|reply: Result<(), String>|
                io_view(r) == #[trigger] graph_outcome(reply) && final(self).history()
                    == old(self).history().push(
                    EngineEvent::BuildGraphForSheets { sheets: texts_view(sheets@), reply },
                ),
    {
        let reply = self.tx.host_mut().build_graph_for_sheets(sheets);
        graph_result(reply)
    }

    /// Evaluates a cell; an absent value counts as empty.
    pub fn evaluate_cell(&mut self, sheet: &str, row: u32, col: u32) -> (r: Result<
        LiteralValue,
        IoError,
    >)
        ensures
            final(self).keeps(*old(self)),
            exists|reply: Result<Option<LiteralValue>, ExcelError>|
                final(self).history() == old(self).history().push(
                    EngineEvent::EvaluateCell { sheet: sheet@, row, col, reply },
                ) && io_view(r) == match #[trigger] engine_outcome(reply) {
                    Ok(value) => Ok(value_or_empty(value)),
                    Err(e) => Err(e),
                },
    {
        let reply = self.tx.host_mut().evaluate_cell(sheet, row, col);
        let ghost answer = engine_outcome(reply);
        match reply {
            Err(e) => Err(IoError::Engine(e)),
            Ok(Some(value)) => Ok(value),
            Ok(None) => Ok(LiteralValue::Empty),
        }
    }

    /// Evaluates cells; an absent value counts as empty.
    pub fn evaluate_cells(&mut self, targets: &[(&str, u32, u32)]) -> (r: Result<
        Vec<LiteralValue>,
        IoError,
    >)
        ensures
            final(self).keeps(*old(self)),
            exists|reply: Result<Vec<Option<LiteralValue>>, ExcelError>| #[trigger]
                shows(reply, r) && final(self).history() == old(self).history().push(
                    EngineEvent::EvaluateCells { targets: targets_view(targets@), reply },
                ),
    {
        let reply = self.tx.host_mut().evaluate_cells(targets);
        show_values(reply)
    }

    /// Evaluates cells until cancelled; an absent value counts as empty.
    pub fn evaluate_cells_cancellable(
        &mut self,
        targets: &[(&str, u32, u32)],
        cancel_flag: E::CancelFlag,
    ) -> (r: Result<Vec<LiteralValue>, IoError>)
        ensures
            final(self).keeps(*old(self)),
            exists|reply: Result<Vec<Option<LiteralValue>>, ExcelError>| #[trigger]
                shows(reply, r) && final(self).history() == old(self).history().push(
                    EngineEvent::EvaluateCellsCancellable {
                        targets: targets_view(targets@),
                        cancel: cancel_flag,
                        reply,
                    },
                ),
    {
        let reply = self.tx.host_mut().evaluate_cells_cancellable(targets, cancel_flag);
        show_values(reply)
    }

    /// Evaluates whatever is out of date.
    pub fn evaluate_all(&mut self) -> (r: Result<E::EvalResult, IoError>)
        ensures
            final(self).keeps(*old(self)),
            exists|reply: Result<E::EvalResult, ExcelError>|
                io_view(r) == #[trigger] engine_outcome(reply) && final(self).history()
                    == old(self).history().push(EngineEvent::EvaluateAll { reply }),
    {
        let reply = self.tx.host_mut().evaluate_all();
        IoError::engine_result(reply)
    }

    /// Evaluates whatever is out of date, until cancelled.
    pub fn evaluate_all_cancellable(&mut self, cancel_flag: E::CancelFlag) -> (r: Result<
        E::EvalResult,
        IoError,
    >)
        ensures
            final(self).keeps(*old(self)),
            exists|reply: Result<E::EvalResult, ExcelError>|
                io_view(r) == #[trigger] engine_outcome(reply) && final(self).history()
                    == old(self).history().push(
                    EngineEvent::EvaluateAllCancellable { cancel: cancel_flag, reply },
                ),
    {
        let reply = self.tx.host_mut().evaluate_all_cancellable(cancel_flag);
        IoError::engine_result(reply)
    }

    /// The order in which whatever is out of date would be evaluated.
    pub fn build_recalc_plan(&self) -> (r: Result<E::RecalcPlan, IoError>)
        ensures
            exists|reply: Result<E::RecalcPlan, ExcelError>| #[trigger]
                call_ensures(E::build_recalc_plan, (&self.host().engine(),), reply) && io_view(r)
                    == engine_outcome(reply),
    {
        let reply = self.engine().build_recalc_plan();
        assert(call_ensures(E::build_recalc_plan, (&self.host().engine(),), reply));
        IoError::engine_result(reply)
    }

    /// Evaluates along a plan.
    pub fn evaluate_with_plan(&mut self, plan: &E::RecalcPlan) -> (r: Result<
        E::EvalResult,
        IoError,
    >)
        ensures
            final(self).keeps(*old(self)),
            exists|reply: Result<E::EvalResult, ExcelError>|
                io_view(r) == #[trigger] engine_outcome(reply) && final(self).history()
                    == old(self).history().push(
                    EngineEvent::EvaluateRecalcPlan { plan: *plan, reply },
                ),
    {
        let reply = self.tx.host_mut().evaluate_recalc_plan(plan);
        IoError::engine_result(reply)
    }

    /// What an evaluation of the targets would do.
    pub fn get_eval_plan(&self, targets: &[(&str, u32, u32)]) -> (r: Result<E::EvalPlan, IoError>)
        ensures
            exists|reply: Result<E::EvalPlan, ExcelError>| #[trigger]
                call_ensures(E::get_eval_plan, (&self.host().engine(), targets), reply) && io_view(
                    r,
                ) == engine_outcome(reply),
    {
        let reply = self.engine().get_eval_plan(targets);
        IoError::engine_result(reply)
    }

    /// What an evaluation of the targets would do. While graph building is deferred,
    /// the staged formula texts are taken into the graph first, where that is asked
    /// for.
    pub fn get_eval_plan_with_options(
        &mut self,
        targets: &[(&str, u32, u32)],
        build_graph_if_needed: bool,
    ) -> (r: Result<E::EvalPlan, IoError>)
        ensures
            final(self).keeps(*old(self)),
            exists|replies: PlanReplies<E::EvalPlan>|
                (final(self).history(), io_view(r)) == #[trigger] plan_run(
                    old(self).history(),
                    targets_view(targets@),
                    build_graph_if_needed,
                    replies,
                ),
    {
        let ghost mut replies: PlanReplies<E::EvalPlan> = arbitrary();
        if build_graph_if_needed {
            let flags = self.tx.host_mut().flags();
            proof {
                replies.deferred = flags;
            }
            if flags.defer_graph_building {
                let built = self.tx.host_mut().build_graph_all();
                proof {
                    replies.built = built;
                }
                if let Err(text) = built {
                    let r: Result<E::EvalPlan, IoError> = Err(
                        IoError::from_backend("parser", text),
                    );
                    assert((self.history(), io_view(r)) == plan_run(
                        old(self).history(),
                        targets_view(targets@),
                        build_graph_if_needed,
                        replies,
                    ));
                    return r;
                }
            }
        }
        let plan = self.tx.host_mut().get_eval_plan(targets);
        proof {
            replies.plan = plan;
        }
        let r = IoError::engine_result(plan);
        assert((self.history(), io_view(r)) == plan_run(
            old(self).history(),
            targets_view(targets@),
            build_graph_if_needed,
            replies,
        ));
        r
    }
}

/// What the engine answers when a plan is asked for.
pub struct PlanReplies<P> {
    pub deferred: EngineFlags,
    pub built: Result<(), String>,
    pub plan: Result<P, ExcelError>,
}

/// The history and the result after a plan was asked for.
pub open spec fn plan_run<E: WorkbookEngine>(
    h: Seq<EngineEvent<E>>,
    targets: Seq<(Seq<char>, u32, u32)>,
    build_graph_if_needed: bool,
    replies: PlanReplies<E::EvalPlan>,
) -> (Seq<EngineEvent<E>>, Result<E::EvalPlan, IoErrorView>) {
    let asked = if build_graph_if_needed {
        h.push(EngineEvent::Flags { reply: replies.deferred })
    } else {
        h
    };
    let build = build_graph_if_needed && replies.deferred.defer_graph_building;
    let ready = if build {
        asked.push(EngineEvent::BuildGraphAll { reply: replies.built })
    } else {
        asked
    };
    if build && replies.built is Err {
        (ready, Err(backend_error("parser"@, replies.built->Err_0@)))
    } else {
        (
            ready.push(EngineEvent::GetEvalPlan { targets, reply: replies.plan }),
            engine_outcome(replies.plan),
        )
    }
}

/// The canonical name under which a function can be registered: it must be a name,
/// its argument bounds in order, and the name free.
pub open spec fn admission<H, R>(
    functions: Map<Seq<char>, RegisteredCustomFn<H, R>>,
    name: Seq<char>,
    options: CustomFnOptions,
) -> Result<Seq<char>, ErrorView> {
    match normalized_name(name) {
        Err(e) => Err(e),
        Ok(canonical) => match arity_check(canonical, options) {
            Err(e) => Err(e),
            Ok(_) => if functions.dom().contains(canonical) {
                Err(error_of(ExcelErrorKind::Name, function_taken_message(canonical)))
            } else {
                Ok(canonical)
            },
        },
    }
}

/// Whether `engine` answered `r` when asked for a function known to every workbook.
pub open spec fn global_is<E: WorkbookEngine>(engine: E, name: Seq<char>, r: bool) -> bool {
    exists|key: &str| key@ == name && #[trigger] call_ensures(
        E::has_global_function,
        (&engine, key),
        r,
    )
}

/// What is said of a codec that is not that of the module.
pub open spec fn codec_message(name: Seq<char>, asked: u32, found: u32) -> Seq<char> {
    "WASM codec mismatch for "@ + name + ": spec codec "@ + decimal(asked as nat)
        + " != module codec "@ + decimal(found as nat)
}

/// What is said of an export that the module does not declare.
pub open spec fn export_message(export: Seq<char>, module_id: Seq<char>) -> Seq<char> {
    "WASM export "@ + export + " is not declared in module "@ + module_id
}

/// Whether a manifest declares an export.
pub open spec fn declares(manifest: WasmModuleManifest, export: Seq<char>) -> bool {
    exists|i: int|
        0 <= i < manifest.functions@.len() && (#[trigger] manifest.functions@[i]).export_name@
            == export
}

/// Whether a function can be bound to a module: the module must be there, speak the
/// codec and declare the export.
pub open spec fn module_check(
    modules: Map<Seq<char>, RegisteredWasmModule>,
    name: Seq<char>,
    module_id: Seq<char>,
    spec: WasmFunctionSpec,
) -> Result<(), ErrorView> {
    if !modules.dom().contains(module_id) {
        Err(error_of(ExcelErrorKind::Name, module_unknown_message(module_id)))
    } else if modules[module_id].manifest.module.codec != spec.codec_version {
        Err(
            error_of(
                ExcelErrorKind::NImpl,
                codec_message(
                    name,
                    spec.codec_version,
                    modules[module_id].manifest.module.codec,
                ),
            ),
        )
    } else if !declares(modules[module_id].manifest, spec.export_name@) {
        Err(error_of(ExcelErrorKind::Name, export_message(spec.export_name@, module_id)))
    } else {
        Ok(())
    }
}

/// The canonical name under which a WASM function can be registered, and the id of
/// its module.
pub open spec fn wasm_admission<H, R>(
    functions: Map<Seq<char>, RegisteredCustomFn<H, R>>,
    modules: Map<Seq<char>, RegisteredWasmModule>,
    name: Seq<char>,
    options: CustomFnOptions,
    spec: WasmFunctionSpec,
) -> Result<(Seq<char>, Seq<char>), ErrorView> {
    match normalized_name(name) {
        Err(e) => Err(e),
        Ok(canonical) => match (
            arity_check(canonical, options),
            wasm_spec_check(spec),
            normalized_module_id(spec.module_id@),
        ) {
            (Err(e), _, _) => Err(e),
            (Ok(_), Err(e), _) => Err(e),
            (Ok(_), Ok(_), Err(e)) => Err(e),
            (Ok(_), Ok(_), Ok(module_id)) => match module_check(
                modules,
                canonical,
                module_id,
                spec,
            ) {
                Err(e) => Err(e),
                Ok(_) => if functions.dom().contains(canonical) {
                    Err(error_of(ExcelErrorKind::Name, function_taken_message(canonical)))
                } else {
                    Ok((canonical, module_id))
                },
            },
        },
    }
}

/// Whether `entry` is a custom function as it was registered.
pub open spec fn is_custom_entry<H, R>(
    entry: RegisteredCustomFn<H, R>,
    name: Seq<char>,
    options: CustomFnOptions,
    handler: Arc<H>,
) -> bool {
    &&& entry.info.name@ == name
    &&& entry.info.options == options
    &&& entry.function is Custom
    &&& entry.function->Custom_0.canonical_name@ == name
    &&& entry.function->Custom_0.options == options
    &&& entry.function->Custom_0.handler == handler
}

/// Whether `entry` is a WASM function as it was registered.
pub open spec fn is_wasm_entry<H, R>(
    entry: RegisteredCustomFn<H, R>,
    name: Seq<char>,
    options: CustomFnOptions,
    module_id: Seq<char>,
    spec: WasmFunctionSpec,
    runtime: RuntimeSlot<R>,
) -> bool {
    &&& entry.info.name@ == name
    &&& entry.info.options == options
    &&& entry.function is Wasm
    &&& entry.function->Wasm_0.canonical_name@ == name
    &&& entry.function->Wasm_0.options == options
    &&& entry.function->Wasm_0.module_id@ == module_id
    &&& entry.function->Wasm_0.export_name@ == spec.export_name@
    &&& entry.function->Wasm_0.codec_version == spec.codec_version
    &&& entry.function->Wasm_0.runtime_hint == spec.runtime_hint
    &&& entry.function->Wasm_0.runtime == runtime
}

/// Whether `after` is `before` with one function more, called `name`.
pub open spec fn gains<H, R>(
    before: Map<Seq<char>, RegisteredCustomFn<H, R>>,
    after: Map<Seq<char>, RegisteredCustomFn<H, R>>,
    name: Seq<char>,
) -> bool {
    &&& !before.dom().contains(name)
    &&& after.dom() == before.dom().insert(name)
    &&& after.remove(name) == before
}

fn declares_export(manifest: &WasmModuleManifest, export: &str) -> (r: bool)
    ensures
        r == declares(*manifest, export@),
{
    let mut i: usize = 0;
    while i < manifest.functions.len()
        invariant
            i <= manifest.functions@.len(),
            forall|j: int|
                0 <= j < i ==> (#[trigger] manifest.functions@[j]).export_name@ != export@,
        decreases manifest.functions@.len() - i,
    {
        if same_text(&manifest.functions[i].export_name, export) {
            return true;
        }
        i += 1;
    }
    false
}

fn check_module<R: WasmUdfRuntime>(
    plugins: &WasmPluginManager<R>,
    name: &str,
    module_id: &str,
    spec: &WasmFunctionSpec,
) -> (r: Result<(), ExcelError>)
    requires
        plugins.wf(),
    ensures
        excel_view(r) == module_check(plugins.modules(), name@, module_id@, *spec),
{
    let module = match plugins.get(module_id) {
        Some(module) => module,
        None => {
            return Err(unknown_module_error(module_id));
        },
    };
    let codec = module.manifest.module.codec;
    if codec != spec.codec_version {
        let mut text = "WASM codec mismatch for ".to_owned();
        text.append(name);
        text.append(": spec codec ");
        push_decimal(&mut text, spec.codec_version as u64);
        text.append(" != module codec ");
        push_decimal(&mut text, codec as u64);
        return Err(ExcelError::new(ExcelErrorKind::NImpl).with_message(text));
    }
    if !declares_export(&module.manifest, &spec.export_name) {
        let mut text = "WASM export ".to_owned();
        text.append(&spec.export_name);
        text.append(" is not declared in module ");
        text.append(module_id);
        return Err(ExcelError::new(ExcelErrorKind::Name).with_message(text));
    }
    Ok(())
}

impl<E: WorkbookEngine> Workbook<E> {
    /// Whether a refused registration left the workbook as it was.
    pub open spec fn refuses(before: Self, after: Self, r: Result<(), ExcelError>, e: ErrorView) -> bool {
        &&& r is Err
        &&& r->Err_0@ == e
        &&& after.functions() == before.functions()
        &&& after.host() == before.host()
    }

    /// Whether `after` and `r` are what the registration of an admitted custom function
    /// comes to.
    pub open spec fn takes_custom(
        before: Self,
        after: Self,
        canonical: Seq<char>,
        options: CustomFnOptions,
        handler: Arc<E::Handler>,
        r: Result<(), ExcelError>,
    ) -> bool {
        &&& r is Ok
        &&& after.tells_functions(before)
        &&& gains(before.functions().functions(), after.functions().functions(), canonical)
        &&& is_custom_entry(
            after.functions().functions()[canonical],
            canonical,
            options,
            handler,
        )
    }

    /// Whether the name is free of functions known to every workbook, or may hide
    /// them; `global` is what the engine said of it where it was asked.
    pub open spec fn unhidden(&self, canonical: Seq<char>, options: CustomFnOptions, global: bool) -> bool {
        if options.allow_override_builtin {
            !global
        } else {
            global_is(self.host().engine(), canonical, global)
        }
    }

    fn hides_global(&self, canonical: &str, options: &CustomFnOptions) -> (r: bool)
        ensures
            self.unhidden(canonical@, *options, r),
    {
        if options.allow_override_builtin {
            false
        } else {
            let r = self.engine().has_global_function(canonical);
            assert(global_is(self.host().engine(), canonical@, r));
            r
        }
    }

    /// Registers a function of the caller's own code.
    pub fn register_custom_function(
        &mut self,
        name: &str,
        options: CustomFnOptions,
        handler: Arc<E::Handler>,
    ) -> (r: Result<(), ExcelError>)
        requires
            old(self).wf(),
        ensures
            final(self).wf(),
            final(self).settled(*old(self)),
            final(self).plugins() == old(self).plugins(),
            match admission(old(self).functions().functions(), name@, options) {
                Err(e) => Self::refuses(*old(self), *final(self), r, e),
                Ok(canonical) => Self::custom_outcome(
                    *old(self),
                    *final(self),
                    canonical,
                    options,
                    handler,
                    r,
                ),
            },
    {
        let canonical = match normalize_custom_fn_name(name) {
            Ok(canonical) => canonical,
            Err(e) => {
                return Err(e);
            },
        };
        proof {
            crate::function::law_canonical_name_idempotent(name@);
        }
        match validate_custom_arity(&canonical, &options) {
            Ok(_) => {},
            Err(e) => {
                return Err(e);
            },
        }
        if self.functions.contains(&canonical) {
            return Err(function_error(&canonical, " is already registered"));
        }
        let global = self.hides_global(&canonical, &options);
        assert(old(self).unhidden(canonical@, options, global));
        if global {
            return Err(
                function_error(
                    &canonical,
                    " conflicts with a global function; set allow_override_builtin=true to override",
                ),
            );
        }
        let info = CustomFnInfo { name: canonical.clone(), options };
        let function = WorkbookFunction::Custom(
            WorkbookCustomFunction { canonical_name: canonical.clone(), options, handler },
        );
        let ghost key = canonical@;
        let mut functions = self.functions.copied();
        functions.insert(canonical, RegisteredCustomFn { info, function });
        self.install(functions);
        assert(self.functions().functions().remove(key)
            =~= old(self).functions().functions());
        assert(Self::takes_custom(*old(self), *self, key, options, handler, Ok(())));
        Ok(())
    }

    /// Whether `after` and `r` are what the registration of an admitted custom function
    /// comes to, given what the engine says of the name.
    pub open spec fn custom_outcome(
        before: Self,
        after: Self,
        canonical: Seq<char>,
        options: CustomFnOptions,
        handler: Arc<E::Handler>,
        r: Result<(), ExcelError>,
    ) -> bool {
        exists|global: bool| #[trigger]
            before.unhidden(canonical, options, global) && if global {
                Self::refuses(
                    before,
                    after,
                    r,
                    error_of(ExcelErrorKind::Name, function_conflict_message(canonical)),
                )
            } else {
                Self::takes_custom(before, after, canonical, options, handler, r)
            }
    }

    /// Whether `after` and `r` are what the registration of an admitted WASM function
    /// comes to, given whether the runtime binds functions.
    pub open spec fn takes_wasm(
        before: Self,
        after: Self,
        canonical: Seq<char>,
        options: CustomFnOptions,
        module_id: Seq<char>,
        spec: WasmFunctionSpec,
        binds: bool,
        r: Result<(), ExcelError>,
    ) -> bool {
        if binds {
            &&& r is Ok
            &&& after.tells_functions(before)
            &&& gains(before.functions().functions(), after.functions().functions(), canonical)
            &&& is_wasm_entry(
                after.functions().functions()[canonical],
                canonical,
                options,
                module_id,
                spec,
                before.plugins().runtime(),
            )
        } else {
            Self::refuses(
                before,
                after,
                r,
                error_of(
                    ExcelErrorKind::NImpl,
                    pending_message(canonical, module_id, spec.export_name@, spec.codec_version),
                ),
            )
        }
    }

    /// Whether some answer of the runtime leads to `after` and `r`.
    pub open spec fn wasm_bound(
        before: Self,
        after: Self,
        canonical: Seq<char>,
        options: CustomFnOptions,
        module_id: Seq<char>,
        spec: WasmFunctionSpec,
        r: Result<(), ExcelError>,
    ) -> bool {
        exists|binds: bool| #[trigger]
            before.plugins().runtime().binds(binds) && Self::takes_wasm(
                before,
                after,
                canonical,
                options,
                module_id,
                spec,
                binds,
                r,
            )
    }

    /// Whether `after` and `r` are what the registration of an admitted WASM function
    /// comes to, given what the engine says of the name.
    pub open spec fn wasm_outcome(
        before: Self,
        after: Self,
        canonical: Seq<char>,
        options: CustomFnOptions,
        module_id: Seq<char>,
        spec: WasmFunctionSpec,
        r: Result<(), ExcelError>,
    ) -> bool {
        exists|global: bool| #[trigger]
            before.unhidden(canonical, options, global) && if global {
                Self::refuses(
                    before,
                    after,
                    r,
                    error_of(ExcelErrorKind::Name, function_conflict_message(canonical)),
                )
            } else {
                Self::wasm_bound(before, after, canonical, options, module_id, spec, r)
            }
    }

    /// Whether `after` and `r` are what the registration of a WASM function comes to.
    pub open spec fn registers_wasm(
        before: Self,
        after: Self,
        name: Seq<char>,
        options: CustomFnOptions,
        spec: WasmFunctionSpec,
        r: Result<(), ExcelError>,
    ) -> bool {
        match wasm_admission(
            before.functions().functions(),
            before.plugins().modules(),
            name,
            options,
            spec,
        ) {
            Err(e) => Self::refuses(before, after, r, e),
            Ok((canonical, module_id)) => Self::wasm_outcome(
                before,
                after,
                canonical,
                options,
                module_id,
                spec,
                r,
            ),
        }
    }

    /// Registers a function of an attached WASM module.
    pub fn register_wasm_function(
        &mut self,
        name: &str,
        options: CustomFnOptions,
        spec: WasmFunctionSpec,
    ) -> (r: Result<(), ExcelError>)
        requires
            old(self).wf(),
        ensures
            final(self).wf(),
            final(self).settled(*old(self)),
            final(self).plugins() == old(self).plugins(),
            Self::registers_wasm(*old(self), *final(self), name@, options, spec, r),
    {
        let canonical = match normalize_custom_fn_name(name) {
            Ok(canonical) => canonical,
            Err(e) => {
                return Err(e);
            },
        };
        proof {
            crate::function::law_canonical_name_idempotent(name@);
        }
        match validate_custom_arity(&canonical, &options) {
            Ok(_) => {},
            Err(e) => {
                return Err(e);
            },
        }
        match validate_wasm_spec(&spec) {
            Ok(_) => {},
            Err(e) => {
                return Err(e);
            },
        }
        let module_id = match normalize_wasm_module_id(&spec.module_id) {
            Ok(module_id) => module_id,
            Err(e) => {
                return Err(e);
            },
        };
        match check_module(&self.plugins, &canonical, &module_id, &spec) {
            Ok(_) => {},
            Err(e) => {
                return Err(e);
            },
        }
        if self.functions.contains(&canonical) {
            return Err(function_error(&canonical, " is already registered"));
        }
        let global = self.hides_global(&canonical, &options);
        assert(old(self).unhidden(canonical@, options, global));
        if global {
            return Err(
                function_error(
                    &canonical,
                    " conflicts with a global function; set allow_override_builtin=true to override",
                ),
            );
        }
        let runtime = self.plugins.share_runtime();
        let binds = runtime.can_bind_functions();
        assert(old(self).plugins().runtime().binds(binds));
        if !binds {
            let r: Result<(), ExcelError> = Err(
                pending_error(&canonical, &module_id, &spec.export_name, spec.codec_version),
            );
            assert(Self::wasm_bound(
                *old(self),
                *self,
                canonical@,
                options,
                module_id@,
                spec,
                r,
            ));
            return r;
        }
        let info = CustomFnInfo { name: canonical.clone(), options };
        let ghost id = module_id@;
        let ghost given = spec;
        let function = WorkbookFunction::Wasm(
            WorkbookWasmFunction {
                canonical_name: canonical.clone(),
                options,
                module_id,
                export_name: spec.export_name,
                codec_version: spec.codec_version,
                runtime_hint: spec.runtime_hint,
                runtime,
            },
        );
        let ghost key = canonical@;
        let mut functions = self.functions.copied();
        functions.insert(canonical, RegisteredCustomFn { info, function });
        self.install(functions);
        assert(self.functions().functions().remove(key)
            =~= old(self).functions().functions());
        assert(Self::wasm_bound(*old(self), *self, key, options, id, given, Ok(())));
        Ok(())
    }

    /// Another name of [`Workbook::register_wasm_function`].
    pub fn bind_wasm_function(
        &mut self,
        name: &str,
        options: CustomFnOptions,
        spec: WasmFunctionSpec,
    ) -> (r: Result<(), ExcelError>)
        requires
            old(self).wf(),
        ensures
            final(self).wf(),
            final(self).settled(*old(self)),
            final(self).plugins() == old(self).plugins(),
            Self::registers_wasm(*old(self), *final(self), name@, options, spec, r),
    {
        self.register_wasm_function(name, options, spec)
    }

    /// Removes a function, case and surrounding white space of its name ignored.
    pub fn unregister_custom_function(&mut self, name: &str) -> (r: Result<(), ExcelError>)
        requires
            old(self).wf(),
        ensures
            final(self).wf(),
            final(self).settled(*old(self)),
            final(self).plugins() == old(self).plugins(),
            match FunctionRegistry::<E::Handler, E::Runtime>::removal(
                old(self).functions().functions(),
                name@,
            ) {
                Ok(functions) => r is Ok && final(self).functions().functions() == functions
                    && final(self).tells_functions(*old(self)),
                Err(e) => Self::refuses(*old(self), *final(self), r, e),
            },
    {
        let mut functions = self.functions.copied();
        let r = functions.unregister(name);
        if r.is_ok() {
            self.install(functions);
        }
        r
    }

    /// The functions of the workbook, in ascending order of their names.
    pub fn list_custom_functions(&self) -> (r: Vec<CustomFnInfo>)
        requires
            self.wf(),
        ensures
            r@.len() == self.functions().entries().len(),
            forall|i: int|
                0 <= i < r@.len() ==> (#[trigger] r@[i]) == self.functions().entries()[i].1.info,
            ascending(self.functions().entries()),
            self.functions().functions() == map_of(self.functions().entries()),
    {
        self.functions.list()
    }

    /// What the engine resolves the references of formulas with.
    pub fn resolver(&self) -> (r: WBResolver<E::Handler, E::Runtime>)
        requires
            self.wf(),
        ensures
            r.functions() == self.functions(),
    {
        WBResolver::new(self.functions.clone())
    }

    /// The function that a formula means by `name` in the namespace `ns`, where it is
    /// one of the workbook.
    pub fn find_function(&self, ns: &str, name: &str) -> (r: Option<
        &RegisteredCustomFn<E::Handler, E::Runtime>,
    >)
        requires
            self.wf(),
        ensures
            match r {
                Some(entry) => self.functions().meant(ns@, name@) == Some(*entry),
                None => self.functions().meant(ns@, name@) is None,
            },
    {
        self.functions.find(ns, name)
    }

    /// What the manifest of a WASM binary tells of the module. The workbook stays as
    /// it is.
    pub fn inspect_wasm_module_bytes<D: ManifestDecoder>(
        &self,
        wasm_bytes: &[u8],
        decoder: &D,
    ) -> (r: Result<WasmModuleInfo, ExcelError>)
        ensures
            exists|m: Result<WasmModuleManifest, ErrorView>| #[trigger]
                module_manifest(*decoder, wasm_bytes@, m) && inspection(m, wasm_bytes@.len(), r),
    {
        inspect_module(wasm_bytes, decoder)
    }

    /// Whether `after` and `r` are what the attaching of a binary under the id
    /// `module_id` comes to.
    pub open spec fn attaches<D: ManifestDecoder>(
        before: Self,
        after: Self,
        module_id: Seq<char>,
        wasm_bytes: &[u8],
        decoder: D,
        r: Result<WasmModuleInfo, ExcelError>,
    ) -> bool {
        if before.plugins().modules().dom().contains(module_id) {
            &&& after.plugins().undisturbed(before.plugins())
            &&& r is Err
            &&& r->Err_0@ == error_of(ExcelErrorKind::Name, module_taken_message(module_id))
        } else {
            exists|manifest: Result<WasmModuleManifest, ErrorView>| #[trigger]
                module_manifest(decoder, wasm_bytes@, manifest) && WasmPluginManager::<
                    E::Runtime,
                >::registered(
                    before.plugins(),
                    after.plugins(),
                    module_id,
                    wasm_bytes,
                    manifest,
                    r,
                )
        }
    }

    /// Whether `after` and `r` are what the attaching of a binary under the id
    /// `module_id`, given with surrounding white space, comes to.
    pub open spec fn attaches_trimmed<D: ManifestDecoder>(
        before: Self,
        after: Self,
        module_id: Seq<char>,
        wasm_bytes: &[u8],
        decoder: D,
        r: Result<WasmModuleInfo, ExcelError>,
    ) -> bool {
        match normalized_module_id(module_id) {
            Err(e) => {
                &&& after.plugins().undisturbed(before.plugins())
                &&& r is Err
                &&& r->Err_0@ == e
            },
            Ok(id) => Self::attaches(before, after, id, wasm_bytes, decoder, r),
        }
    }

    /// Attaches a WASM binary under the id that its manifest states.
    pub fn register_wasm_module_bytes<D: ManifestDecoder>(
        &mut self,
        module_id: &str,
        wasm_bytes: &[u8],
        decoder: &D,
    ) -> (r: Result<WasmModuleInfo, ExcelError>)
        requires
            old(self).wf(),
        ensures
            final(self).wf(),
            final(self).idle(*old(self)),
            final(self).functions() == old(self).functions(),
            final(self).plugins().runtime() == old(self).plugins().runtime(),
            Self::attaches_trimmed(*old(self), *final(self), module_id@, wasm_bytes, *decoder, r),
    {
        let canonical = match normalize_wasm_module_id(module_id) {
            Ok(canonical) => canonical,
            Err(e) => {
                return Err(e);
            },
        };
        let r = self.plugins.register_module_bytes(&canonical, wasm_bytes, decoder);
        assert(Self::attaches(*old(self), *self, canonical@, wasm_bytes, *decoder, r));
        r
    }

    /// Another name of [`Workbook::register_wasm_module_bytes`].
    pub fn attach_wasm_module_bytes<D: ManifestDecoder>(
        &mut self,
        module_id: &str,
        wasm_bytes: &[u8],
        decoder: &D,
    ) -> (r: Result<WasmModuleInfo, ExcelError>)
        requires
            old(self).wf(),
        ensures
            final(self).wf(),
            final(self).idle(*old(self)),
            final(self).functions() == old(self).functions(),
            final(self).plugins().runtime() == old(self).plugins().runtime(),
            Self::attaches_trimmed(*old(self), *final(self), module_id@, wasm_bytes, *decoder, r),
    {
        self.register_wasm_module_bytes(module_id, wasm_bytes, decoder)
    }

    /// Attaches a WASM binary under the id that its manifest states, as for a binary read
    /// from a file.
    pub fn attach_inspected_module<D: ManifestDecoder>(
        &mut self,
        wasm_bytes: &[u8],
        decoder: &D,
    ) -> (r: Result<WasmModuleInfo, ExcelError>)
        requires
            old(self).wf(),
        ensures
            final(self).wf(),
            final(self).idle(*old(self)),
            final(self).functions() == old(self).functions(),
            final(self).plugins().runtime() == old(self).plugins().runtime(),
            exists|m: Result<WasmModuleManifest, ErrorView>| #[trigger]
                module_manifest(*decoder, wasm_bytes@, m) && WasmPluginManager::<
                    E::Runtime,
                >::attached(
                    old(self).plugins(),
                    final(self).plugins(),
                    wasm_bytes,
                    m,
                    r,
                ),
    {
        self.plugins.attach_module_bytes(wasm_bytes, decoder)
    }

    /// The attached modules, in ascending order of their ids.
    pub fn list_wasm_modules(&self) -> (r: Vec<WasmModuleInfo>)
        requires
            self.wf(),
        ensures
            r@.len() == self.plugins().entries().len(),
            forall|i: int|
                0 <= i < r@.len() ==> (#[trigger] r@[i]) == self.plugins().entries()[i].1.info,
            ascending(self.plugins().entries()),
            self.plugins().modules() == map_of(self.plugins().entries()),
    {
        self.plugins.list_module_infos()
    }

    /// Whether `after` and `r` are what the detaching of the module `id` comes to.
    pub open spec fn detaches(
        before: Self,
        after: Self,
        id: Seq<char>,
        r: Result<(), ExcelError>,
    ) -> bool {
        if before.plugins().modules().dom().contains(id) {
            exists|reply: Result<(), ExcelError>| #[trigger]
                before.plugins().runtime().releases(id, reply) && WasmPluginManager::<
                    E::Runtime,
                >::released(before.plugins(), after.plugins(), id, reply, r)
        } else {
            &&& after.plugins().undisturbed(before.plugins())
            &&& excel_view(r) == Err::<(), ErrorView>(
                error_of(ExcelErrorKind::Name, module_unknown_message(id)),
            )
        }
    }

    /// Detaches a module, unless the runtime holds on to it.
    pub fn unregister_wasm_module(&mut self, module_id: &str) -> (r: Result<(), ExcelError>)
        requires
            old(self).wf(),
        ensures
            final(self).wf(),
            final(self).idle(*old(self)),
            final(self).functions() == old(self).functions(),
            final(self).plugins().runtime() == old(self).plugins().runtime(),
            match normalized_module_id(module_id@) {
                Err(e) => final(self).plugins().undisturbed(old(self).plugins())
                    && excel_view(r) == Err::<(), ErrorView>(e),
                Ok(id) => Self::detaches(*old(self), *final(self), id, r),
            },
    {
        let canonical = match normalize_wasm_module_id(module_id) {
            Ok(canonical) => canonical,
            Err(e) => {
                return Err(e);
            },
        };
        let r = self.plugins.unregister_module(&canonical);
        assert(Self::detaches(*old(self), *self, canonical@, r));
        r
    }

    /// Installs a runtime. Functions bound before keep the one they were bound with.
    pub fn set_wasm_runtime(&mut self, runtime: Arc<E::Runtime>)
        requires
            old(self).wf(),
        ensures
            final(self).wf(),
            final(self).idle(*old(self)),
            final(self).functions() == old(self).functions(),
            final(self).plugins().undisturbed(old(self).plugins()),
            final(self).plugins().runtime().installed() == Some(runtime),
    {
        self.plugins.set_runtime(runtime);
    }
}

/// How much of a file is read at once.
#[derive(Clone, Copy, Debug, PartialEq, Eq, Structural)]
pub enum LoadStrategy {
    EagerAll,
    EagerSheet,
    LazyCell,
    LazyRange,
    WriteOnly,
}

/// A spreadsheet file being read.
///
/// Nothing is promised of what a method does or answers.
pub trait SpreadsheetReader<E: WorkbookEngine> {
    /// What is told of a loading.
    type Stats;

    /// What the file states of calculation.
    fn calc_settings(&mut self) -> Option<CalcSettings<E::Iteration>>;

    /// Reads the contents of the file into an engine.
    fn stream_into_engine(&mut self, engine: &mut E) -> Result<(), IoError>;

    /// What can be told of the loading.
    fn load_stats(&self) -> Option<Self::Stats>;
}

/// Whether `given` with what a file states of calculation comes to `r`.
pub open spec fn settings_stated<E: WorkbookEngine>(
    given: E::Settings,
    stated: Option<CalcSettings<E::Iteration>>,
    r: E::Settings,
) -> bool {
    match stated {
        None => r == given,
        Some(settings) => call_ensures(E::apply_calc_settings, (given, &settings), r),
    }
}

/// The settings `config` with others for the engine.
pub open spec fn with_settings<S, L>(config: WorkbookConfig<S, L>, settings: S) -> WorkbookConfig<
    S,
    L,
> {
    WorkbookConfig { eval: EvalConfig { settings, ..config.eval }, ..config }
}

impl<E: WorkbookEngine> Workbook<E> {
    /// Whether the workbook is one that was loaded with the settings `config` from a
    /// file that states `stated` of calculation: what the file states goes into the
    /// settings before the engine is made, and stays with the workbook.
    pub open spec fn loaded_with(
        &self,
        config: WorkbookConfig<E::Settings, E::LoadLimits>,
        stated: Option<CalcSettings<E::Iteration>>,
        settings: E::Settings,
    ) -> bool {
        let eval = EvalConfig { settings, ..config.eval };
        &&& self.wf()
        &&& self.history() == seq![
            EngineEvent::<E>::Create {
                functions: self.functions(),
                config: workbook_eval_config(eval),
            },
            EngineEvent::<E>::SetLoadLimits { limits: config.ingest_limits },
            EngineEvent::<E>::LogSetEnabled { enabled: config.enable_changelog },
            EngineEvent::<E>::HandedOut,
        ]
        &&& self.bare()
        &&& self.logged() == config.enable_changelog
        &&& self.calc() == stated
    }

    /// Whether `engine` is that of a new workbook with the settings `config` and what a
    /// file states of calculation.
    pub open spec fn is_fresh_engine(
        config: WorkbookConfig<E::Settings, E::LoadLimits>,
        stated: Option<CalcSettings<E::Iteration>>,
        engine: E,
    ) -> bool {
        exists|settings: E::Settings, fresh: Self|
            settings_stated::<E>(config.eval.settings, stated, settings)
                && #[trigger] fresh.starts_with(with_settings(config, settings))
                && fresh.host().engine() == engine
    }

    /// What a loading gives, without what is told of it.
    pub open spec fn untold<T>(r: Result<(Self, T), IoError>) -> Result<Self, IoError> {
        match r {
            Ok((wb, _)) => Ok(wb),
            Err(e) => Err(e),
        }
    }

    /// A workbook with the contents of a file, and what can be told of the loading.
    ///
    /// What the file states of calculation overrides `config`, as it governs how the
    /// document computes.
    pub fn from_reader_with_adapter_stats<B: SpreadsheetReader<E>>(
        backend: B,
        _strategy: LoadStrategy,
        config: WorkbookConfig<E::Settings, E::LoadLimits>,
    ) -> (r: Result<(Self, Option<B::Stats>), IoError>)
        ensures
            match r {
                Ok((wb, stats)) => exists|
                    b: &mut B,
                    stated: Option<CalcSettings<E::Iteration>>,
                    settings: E::Settings,
                    read: &mut B,
                    engine: &mut E,
                    reply: Result<(), IoError>,
                |
                    *b == backend && #[trigger] call_ensures(B::calc_settings, (b,), stated)
                        && settings_stated::<E>(config.eval.settings, stated, settings)
                        && #[trigger] wb.loaded_with(config, stated, settings) && *read == *final(b)
                        && Self::is_fresh_engine(config, stated, *engine)
                        && *final(engine) == wb.host().engine() && reply is Ok
                        && #[trigger] call_ensures(
                        B::stream_into_engine,
                        (read, engine),
                        reply,
                    ) && call_ensures(B::load_stats, (&*final(read),), stats),
                Err(e) => exists|
                    b: &mut B,
                    stated: Option<CalcSettings<E::Iteration>>,
                    read: &mut B,
                    engine: &mut E,
                |
                    *b == backend && #[trigger] call_ensures(B::calc_settings, (b,), stated)
                        && *read == *final(b) && Self::is_fresh_engine(config, stated, *engine)
                        && #[trigger] call_ensures(
                        B::stream_into_engine,
                        (read, engine),
                        Err(e),
                    ),
            },
    {
        let mut backend = backend;
        let mut config = config;
        let ghost given = config;
        let parsed = backend.calc_settings();
        if let Some(settings) = &parsed {
            config.eval = EvalConfig {
                defer_graph_building: config.eval.defer_graph_building,
                formula_parse_policy: config.eval.formula_parse_policy,
                formula_plane_mode: config.eval.formula_plane_mode,
                arrow_storage_enabled: config.eval.arrow_storage_enabled,
                delta_overlay_enabled: config.eval.delta_overlay_enabled,
                write_formula_overlay_enabled: config.eval.write_formula_overlay_enabled,
                date_system: config.eval.date_system,
                settings: E::apply_calc_settings(config.eval.settings, settings),
            };
        }
        let ghost applied = config.eval.settings;
        assert(settings_stated::<E>(given.eval.settings, parsed, applied));
        let ghost eval = EvalConfig { settings: applied, ..given.eval };
        assert(config.eval == eval);
        let mut wb = Self::new_with_config(config);
        assert(config == with_settings(given, applied));
        assert(wb.starts_with(with_settings(given, applied)));
        assert(Self::is_fresh_engine(given, parsed, wb.host().engine()));
        wb.calc_settings = parsed;
        let streamed = backend.stream_into_engine(wb.engine_mut());
        match streamed {
            Ok(_) => {},
            Err(e) => {
                return Err(e);
            },
        }
        let stats = backend.load_stats();
        assert(wb.history() =~= seq![
            EngineEvent::<E>::Create {
                functions: wb.functions(),
                config: workbook_eval_config(eval),
            },
            EngineEvent::<E>::SetLoadLimits { limits: given.ingest_limits },
            EngineEvent::<E>::LogSetEnabled { enabled: given.enable_changelog },
            EngineEvent::<E>::HandedOut,
        ]);
        assert(wb.loaded_with(given, parsed, applied));
        Ok((wb, stats))
    }

    /// A workbook with the contents of a file.
    pub fn from_reader<B: SpreadsheetReader<E>>(
        backend: B,
        strategy: LoadStrategy,
        config: WorkbookConfig<E::Settings, E::LoadLimits>,
    ) -> (r: Result<Self, IoError>)
        ensures
            exists|told: Result<(Self, Option<B::Stats>), IoError>|
                r == #[trigger] Self::untold(told) && call_ensures(
                    Self::from_reader_with_adapter_stats::<B>,
                    (backend, strategy, config),
                    told,
                ),
    {
        let told = Self::from_reader_with_adapter_stats(backend, strategy, config);
        let ghost given = Self::untold(told);
        match told {
            Ok((wb, _)) => Ok(wb),
            Err(e) => Err(e),
        }
    }

    /// Another name of [`Workbook::from_reader`].
    pub fn from_reader_with_config<B: SpreadsheetReader<E>>(
        backend: B,
        strategy: LoadStrategy,
        config: WorkbookConfig<E::Settings, E::LoadLimits>,
    ) -> (r: Result<Self, IoError>)
        ensures
            exists|told: Result<(Self, Option<B::Stats>), IoError>|
                r == #[trigger] Self::untold(told) && call_ensures(
                    Self::from_reader_with_adapter_stats::<B>,
                    (backend, strategy, config),
                    told,
                ),
    {
        Self::from_reader(backend, strategy, config)
    }
}

impl<E: WorkbookEngine> Workbook<E> where
    E::Settings: Default,
    E::LoadLimits: Default,
 {
    /// A workbook with the contents of a file and the settings of `mode`.
    pub fn from_reader_with_mode<B: SpreadsheetReader<E>>(
        backend: B,
        strategy: LoadStrategy,
        mode: WorkbookMode,
    ) -> (r: Result<Self, IoError>)
        ensures
            exists|config: WorkbookConfig<E::Settings, E::LoadLimits>|
                config == #[trigger] mode_config(
                    mode,
                    config.eval.settings,
                    config.ingest_limits,
                ) && call_ensures(E::Settings::default, (), config.eval.settings) && call_ensures(
                    E::LoadLimits::default,
                    (),
                    config.ingest_limits,
                ) && exists|
                    told: Result<(Self, Option<B::Stats>), IoError>,
                |
                    r == #[trigger] Self::untold(told) && call_ensures(
                        Self::from_reader_with_adapter_stats::<B>,
                        (backend, strategy, config),
                        told,
                    ),
    {
        let config = WorkbookConfig::for_mode(mode);
        Self::from_reader(backend, strategy, config)
    }
}

/// A function that was registered can be unregistered, under any spelling of its
/// name, and leaves the functions as they were before.
pub proof fn law_unregistering_undoes_registering<H, R>(
    before: Map<Seq<char>, RegisteredCustomFn<H, R>>,
    after: Map<Seq<char>, RegisteredCustomFn<H, R>>,
    canonical: Seq<char>,
    name: Seq<char>,
)
    requires
        gains(before, after, canonical),
        normalized_name(name) == Ok::<Seq<char>, ErrorView>(canonical),
    ensures
        FunctionRegistry::<H, R>::removal(after, name) == Ok::<
            Map<Seq<char>, RegisteredCustomFn<H, R>>,
            ErrorView,
        >(before),
{
}

/// A registered function is refused a second time, with the same name error for
/// every spelling of its name.
pub proof fn law_registering_twice_is_refused<H, R>(
    before: Map<Seq<char>, RegisteredCustomFn<H, R>>,
    after: Map<Seq<char>, RegisteredCustomFn<H, R>>,
    canonical: Seq<char>,
    name: Seq<char>,
    options: CustomFnOptions,
)
    requires
        gains(before, after, canonical),
        normalized_name(name) == Ok::<Seq<char>, ErrorView>(canonical),
        arity_check(canonical, options) is Ok,
    ensures
        admission(after, name, options) == Err::<Seq<char>, ErrorView>(
            error_of(ExcelErrorKind::Name, function_taken_message(canonical)),
        ),
{
}

/// The functions are listed in ascending order, each under its canonical name.
pub proof fn law_functions_are_listed_in_order<H, R>(registry: FunctionRegistry<H, R>, i: int)
    requires
        registry.wf(),
        0 <= i < registry.entries().len(),
    ensures
        forall|j: int|
            i < j < registry.entries().len() ==> text_before(
                registry.entries()[i].0,
                #[trigger] registry.entries()[j].0,
            ),
        registry.entries()[i].1.info.name@ == registry.entries()[i].0,
        normalized_name(registry.entries()[i].0) == Ok::<Seq<char>, ErrorView>(
            registry.entries()[i].0,
        ),
        registry.functions().dom().contains(registry.entries()[i].0),
{
    registry.lemma_wf();
    lemma_map_entry(registry.entries(), i);
}

/// The modules are listed in ascending order of their ids, each with the id that its
/// manifest states.
pub proof fn law_modules_are_listed_in_order<R: WasmUdfRuntime>(
    plugins: WasmPluginManager<R>,
    i: int,
)
    requires
        plugins.wf(),
        0 <= i < plugins.entries().len(),
    ensures
        forall|j: int|
            i < j < plugins.entries().len() ==> text_before(
                plugins.entries()[i].0,
                #[trigger] plugins.entries()[j].0,
            ),
        plugins.entries()[i].1.info.module_id@ == plugins.entries()[i].0,
        plugins.entries()[i].1.manifest.module.id@ == plugins.entries()[i].0,
{
    plugins.lemma_wf();
    lemma_map_entry(plugins.entries(), i);
    assert(plugins.modules().dom().contains(plugins.entries()[i].0));
}

/// Attaching a binary as for a file is registering it under the id that an inspection of
/// it finds. Where that succeeds, what is told of the module is what the inspection told,
/// and the module is listed with it; where it fails, the modules are as they were.
pub proof fn law_attaching_is_registering<E: WorkbookEngine, D: ManifestDecoder>(
    before: Workbook<E>,
    after: Workbook<E>,
    wasm_bytes: &[u8],
    decoder: D,
    manifest: WasmModuleManifest,
    seen: WasmModuleInfo,
    r: Result<WasmModuleInfo, ExcelError>,
)
    requires
        module_manifest(decoder, wasm_bytes@, Ok(manifest)),
        inspection(Ok(manifest), wasm_bytes@.len(), Ok(seen)),
        WasmPluginManager::<E::Runtime>::attached(
            before.plugins(),
            after.plugins(),
            wasm_bytes,
            Ok(manifest),
            r,
        ),
    ensures
        Workbook::attaches_trimmed(before, after, seen.module_id@, wasm_bytes, decoder, r),
        r is Ok ==> is_module_info(seen, manifest.module.id@, wasm_bytes@.len(), manifest)
            && is_module_info(r->Ok_0, manifest.module.id@, wasm_bytes@.len(), manifest),
        r is Ok ==> after.plugins().modules().dom().contains(seen.module_id@)
            && after.plugins().modules()[seen.module_id@].info == r->Ok_0,
        r is Err ==> after.plugins().modules() == before.plugins().modules(),
{
    lemma_accepted_id(decoder, wasm_bytes@, manifest);
    let id = manifest.module.id@;
    if !before.plugins().modules().dom().contains(id) {
        assert(WasmPluginManager::<E::Runtime>::registered(
            before.plugins(),
            after.plugins(),
            id,
            wasm_bytes,
            Ok(manifest),
            r,
        ));
    }
    assert(Workbook::attaches(before, after, id, wasm_bytes, decoder, r));
}

/// A module that was attached and then detached leaves the modules as they were
/// before; one that the runtime holds on to stays.
pub proof fn law_detaching_undoes_attaching<R: WasmUdfRuntime>(
    before: WasmPluginManager<R>,
    attached: WasmPluginManager<R>,
    after: WasmPluginManager<R>,
    module_id: Seq<char>,
    wasm_bytes: Seq<u8>,
    manifest: WasmModuleManifest,
    info: WasmModuleInfo,
    reply: Result<(), ExcelError>,
    r: Result<(), ExcelError>,
)
    requires
        WasmPluginManager::enrolled(
            before,
            attached,
            module_id,
            wasm_bytes,
            manifest,
            Ok(()),
            Ok(info),
        ),
        WasmPluginManager::released(attached, after, module_id, reply, r),
    ensures
        r == reply,
        reply is Ok ==> after.modules() == before.modules(),
        reply is Err ==> after.modules() == attached.modules(),
{
}

} // verus!
