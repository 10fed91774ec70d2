//! Workbooks over a small engine: it evaluates sums, additions and products, keeps a
//! change log, and counts the cells that the spreading of changes visits.

use formualizer_parse::parser::ReferenceType;
use formualizer_parse::{ASTNode, ASTNodeType, BinaryOperator};
use formualizer_workbook::address::RangeAddress;
use formualizer_workbook::cell_data::CellData;
use formualizer_workbook::config::{EvalConfig, WorkbookConfig};
use formualizer_workbook::engine::{
    CalcSettings, CellRef, CellState, NameScope, NamedDefinition, NamedEntry, WorkbookEngine,
};
use formualizer_workbook::error::{EditorError, ExcelError, ExcelErrorKind, IoError};
use formualizer_workbook::export::{FileHost, SpreadsheetFile};
use formualizer_workbook::function::{CallArguments, CallOutcome, CustomFnOptions, EvaluatedArg};
use formualizer_workbook::manifest::{
    WasmFunctionSpec, WasmManifestFunction, WasmManifestModule, WasmModuleManifest,
    WasmRuntimeHint, WASM_MANIFEST_SCHEMA_V1, WASM_MANIFEST_SECTION_V1,
};
use formualizer_workbook::module_files::{
    collect_wasm_files_in_dir, DirectoryEntry, DirectoryListing, ModuleFile,
};
use formualizer_workbook::names::NamedRangeScope;
use formualizer_workbook::registry::CustomFnHandler;
use formualizer_workbook::resolver::{FoundFunction, WBResolver};
use formualizer_workbook::value::{DateSystem, LiteralValue, OverlayValue};
use formualizer_workbook::wasm::{ManifestDecoder, WasmUdfRuntime};
use formualizer_workbook::workbook::{LoadStrategy, SpreadsheetReader, Workbook};
use formualizer_workbook::writer::SpreadsheetWriter;
use std::collections::{BTreeMap, BTreeSet, VecDeque};
use std::sync::{Arc, Mutex};

type Key = (String, u32, u32);
type Content = (Option<LiteralValue>, Option<ASTNode>);

fn number(n: f64) -> LiteralValue {
    LiteralValue::Number(n.to_bits())
}

fn copy(value: &LiteralValue) -> LiteralValue {
    match value {
        LiteralValue::Int(i) => LiteralValue::Int(*i),
        LiteralValue::Number(n) => LiteralValue::Number(*n),
        LiteralValue::Text(s) => LiteralValue::Text(s.clone()),
        LiteralValue::Boolean(b) => LiteralValue::Boolean(*b),
        LiteralValue::Array(rows) => {
            LiteralValue::Array(rows.iter().map(|r| r.iter().map(copy).collect()).collect())
        }
        LiteralValue::Date(d) => LiteralValue::Date(*d),
        LiteralValue::DateTime(d) => LiteralValue::DateTime(*d),
        LiteralValue::Time(t) => LiteralValue::Time(*t),
        LiteralValue::Duration(d) => LiteralValue::Duration(*d),
        LiteralValue::Empty => LiteralValue::Empty,
        LiteralValue::Pending => LiteralValue::Pending,
        LiteralValue::Error(e) => LiteralValue::Error(e.clone()),
    }
}

fn copy_content(content: &Content) -> Content {
    (content.0.as_ref().map(copy), content.1.clone())
}

fn copy_definition(definition: &NamedDefinition) -> NamedDefinition {
    match definition {
        NamedDefinition::Cell(c) => NamedDefinition::Cell(*c),
        NamedDefinition::Range { start, end } => {
            NamedDefinition::Range { start: *start, end: *end }
        }
        NamedDefinition::Literal => NamedDefinition::Literal,
        NamedDefinition::Formula => NamedDefinition::Formula,
    }
}

struct Rect {
    sheet: String,
    rows: (u32, u32),
    cols: (u32, u32),
}

impl Rect {
    fn holds(&self, key: &Key) -> bool {
        self.sheet == key.0
            && self.rows.0 <= key.1
            && key.1 <= self.rows.1
            && self.cols.0 <= key.2
            && key.2 <= self.cols.1
    }
}

struct Cell {
    content: Content,
    refs: Vec<Rect>,
    dirty: bool,
}

struct StoreSheet {
    name: String,
    chunk_rows: usize,
    rows: u32,
    columns: usize,
    overlay: BTreeMap<(usize, usize), OverlayValue>,
}

enum Change {
    Content { key: Key, before: Content, after: Content },
    Staged { key: Key, before: Option<String>, after: Option<String> },
}

struct Mini {
    resolver: WBResolver<Joiner, Echo>,
    config: EvalConfig<Option<u32>>,
    sheets: Vec<(u32, String)>,
    next_sheet: u32,
    cells: BTreeMap<Key, Cell>,
    store: Vec<StoreSheet>,
    staged: BTreeMap<Key, String>,
    hidden: BTreeSet<(String, u32)>,
    names: Vec<(NameScope, String, NamedDefinition)>,
    deferred: Option<Vec<Key>>,
    visits: u64,
    log_enabled: bool,
    open: Option<Vec<Change>>,
    undo_stack: Vec<Vec<Change>>,
    redo_stack: Vec<Vec<Change>>,
    tx: Option<Vec<Change>>,
    journal: Option<Vec<Change>>,
    log: Vec<String>,
    refuse_value: Option<u32>,
    refuse_names: bool,
    limits: u32,
    mode: u8,
    ingests: usize,
}

fn refs_of(node: &ASTNode, sheet: &str, out: &mut Vec<Rect>) {
    match &node.node_type {
        ASTNodeType::Reference { reference, .. } => match reference {
            ReferenceType::Cell { row, col, .. } => out.push(Rect {
                sheet: sheet.to_string(),
                rows: (*row, *row),
                cols: (*col, *col),
            }),
            ReferenceType::Range { start_row, start_col, end_row, end_col, .. } => {
                out.push(Rect {
                    sheet: sheet.to_string(),
                    rows: (start_row.unwrap_or(1), end_row.unwrap_or(u32::MAX)),
                    cols: (start_col.unwrap_or(1), end_col.unwrap_or(u32::MAX)),
                })
            }
            _ => {}
        },
        ASTNodeType::BinaryOp { left, right, .. } => {
            refs_of(left, sheet, out);
            refs_of(right, sheet, out);
        }
        ASTNodeType::Function { args, .. } => {
            for arg in args {
                refs_of(arg, sheet, out);
            }
        }
        _ => {}
    }
}

fn as_number(value: Option<&LiteralValue>) -> f64 {
    match value {
        Some(LiteralValue::Number(n)) => f64::from_bits(*n),
        Some(LiteralValue::Int(i)) => *i as f64,
        _ => 0.0,
    }
}

impl Mini {
    fn dirty_propagation_visits(&self) -> u64 {
        self.visits
    }

    fn name_of(&self, id: u32) -> String {
        self.sheets.iter().find(|s| s.0 == id).map(|s| s.1.clone()).unwrap()
    }

    fn key_of(&self, cell: CellRef) -> Key {
        (self.name_of(cell.sheet_id), cell.row + 1, cell.col + 1)
    }

    fn sheet(&self, name: &str) -> Option<&StoreSheet> {
        self.store.iter().find(|s| s.name == name)
    }

    fn sheet_mut(&mut self, name: &str) -> &mut StoreSheet {
        self.store.iter_mut().find(|s| s.name == name).unwrap()
    }

    fn content(&self, key: &Key) -> Content {
        self.cells.get(key).map(|c| copy_content(&c.content)).unwrap_or((None, None))
    }

    fn put(&mut self, key: Key, content: Content) {
        let mut refs = Vec::new();
        if let Some(tree) = &content.1 {
            refs_of(tree, &key.0, &mut refs);
        }
        let overlay = match (&content.0, &content.1) {
            (Some(v), None) => Some(formualizer_workbook::value::overlay_value(
                v,
                self.config.date_system,
            )),
            _ => None,
        };
        if let Some(sheet) = self.store.iter_mut().find(|s| s.name == key.0) {
            let place = (key.1 as usize - 1, key.2 as usize - 1);
            sheet.rows = sheet.rows.max(key.1);
            sheet.columns = sheet.columns.max(key.2 as usize);
            match overlay {
                Some(v) => {
                    sheet.overlay.insert(place, v);
                }
                None => {
                    sheet.overlay.remove(&place);
                }
            }
        }
        let dirty = content.1.is_some();
        self.cells.insert(key.clone(), Cell { content, refs, dirty });
        match &mut self.deferred {
            Some(held) => held.push(key),
            None => self.spread(vec![key]),
        }
    }

    fn spread(&mut self, sources: Vec<Key>) {
        let mut seen: BTreeSet<Key> = sources.iter().cloned().collect();
        let mut queue: VecDeque<Key> = seen.iter().cloned().collect();
        while let Some(key) = queue.pop_front() {
            self.visits += 1;
            for (other, cell) in self.cells.iter_mut() {
                if cell.refs.iter().any(|r| r.holds(&key)) {
                    cell.dirty = true;
                    if seen.insert(other.clone()) {
                        queue.push_back(other.clone());
                    }
                }
            }
        }
    }

    fn record(&mut self, change: Change) {
        if !self.log_enabled {
            return;
        }
        self.redo_stack.clear();
        match &mut self.open {
            Some(compound) => compound.push(change),
            None => self.undo_stack.push(vec![change]),
        }
    }

    fn take_back(&mut self, change: &Change, forward: bool) {
        match change {
            Change::Content { key, before, after } => {
                let content = copy_content(if forward { after } else { before });
                self.put(key.clone(), content);
            }
            Change::Staged { key, before, after } => {
                match if forward { after } else { before } {
                    Some(text) => {
                        self.staged.insert(key.clone(), text.clone());
                    }
                    None => {
                        self.staged.remove(key);
                    }
                }
            }
        }
    }

    fn eval(&mut self, key: &Key) -> f64 {
        let tree = match self.cells.get(key) {
            Some(cell) if cell.dirty => cell.content.1.clone(),
            Some(cell) => return as_number(cell.content.0.as_ref()),
            None => return 0.0,
        };
        let Some(tree) = tree else { return 0.0 };
        let result = match &tree.node_type {
            ASTNodeType::Function { name, args } => self.call(name, args, &key.0),
            _ => number(self.eval_tree(&tree, &key.0)),
        };
        let shown = as_number(Some(&result));
        let cell = self.cells.get_mut(key).unwrap();
        cell.content.0 = Some(result);
        cell.dirty = false;
        shown
    }

    /// Calls what the resolver finds; of the functions known to every workbook there is
    /// only the sum.
    fn call(&mut self, name: &str, args: &[ASTNode], sheet: &str) -> LiteralValue {
        let values: Vec<f64> = args.iter().map(|arg| self.eval_tree(arg, sheet)).collect();
        let global = if self.has_global_function(name) { Some(values.iter().sum()) } else { None };
        match self.resolver.get_function::<f64>("", name, global) {
            Some(FoundFunction::Own(entry)) => {
                let given = Given(
                    values
                        .iter()
                        .map(|v| Ok(EvaluatedArg::Value(LiteralValue::Int(*v as i64))))
                        .collect(),
                );
                let called = entry.function.prepare(&given).and_then(|ready| {
                    let came = entry.function.invoke(&ready);
                    entry.function.finish(CallOutcome::Returned(came))
                });
                called.unwrap_or_else(LiteralValue::Error)
            }
            Some(FoundFunction::Global(sum)) => number(sum),
            None => LiteralValue::Error(ExcelError::new(ExcelErrorKind::Name)),
        }
    }

    fn eval_tree(&mut self, node: &ASTNode, sheet: &str) -> f64 {
        match &node.node_type {
            ASTNodeType::Literal(v) => match v {
                formualizer_parse::LiteralValue::Number(n) => *n,
                formualizer_parse::LiteralValue::Int(i) => *i as f64,
                _ => 0.0,
            },
            ASTNodeType::Reference { .. } => {
                let mut refs = Vec::new();
                refs_of(node, sheet, &mut refs);
                let keys: Vec<Key> =
                    self.cells.keys().filter(|k| refs[0].holds(k)).cloned().collect();
                keys.iter().map(|k| self.eval(k)).sum()
            }
            ASTNodeType::BinaryOp { op, left, right } => {
                let a = self.eval_tree(left, sheet);
                let b = self.eval_tree(right, sheet);
                match op {
                    BinaryOperator::Multiply => a * b,
                    _ => a + b,
                }
            }
            ASTNodeType::Function { name, args } => {
                as_number(Some(&self.call(name, args, sheet)))
            }
            _ => 0.0,
        }
    }

    fn set_definition(&mut self, name: &str, definition: &NamedDefinition, scope: NameScope) {
        self.names.retain(|n| !(n.1 == name && n.0 == scope));
        self.names.push((scope, name.to_string(), copy_definition(definition)));
    }

    fn name_refusal(&self) -> EditorError {
        EditorError { text: "name refused".to_string(), excel: None }
    }
}

impl WorkbookEngine for Mini {
    type Settings = Option<u32>;
    type LoadLimits = u32;
    type DeterministicMode = u8;
    type CancelFlag = bool;
    type EvalResult = usize;
    type RecalcPlan = Vec<Key>;
    type EvalPlan = usize;
    type IngestReport = usize;
    type ChangeLog = Vec<String>;
    type Iteration = Option<u32>;
    type Handler = Joiner;
    type Runtime = Echo;

    fn create(resolver: WBResolver<Joiner, Echo>, config: EvalConfig<Option<u32>>) -> Self {
        Mini {
            resolver,
            config,
            sheets: Vec::new(),
            next_sheet: 0,
            cells: BTreeMap::new(),
            store: Vec::new(),
            staged: BTreeMap::new(),
            hidden: BTreeSet::new(),
            names: Vec::new(),
            deferred: None,
            visits: 0,
            log_enabled: false,
            open: None,
            undo_stack: Vec::new(),
            redo_stack: Vec::new(),
            tx: None,
            journal: None,
            log: Vec::new(),
            refuse_value: None,
            refuse_names: false,
            limits: 0,
            mode: 0,
            ingests: 0,
        }
    }

    fn set_resolver(&mut self, resolver: WBResolver<Joiner, Echo>) {
        self.resolver = resolver;
    }

    fn apply_calc_settings(
        settings: Option<u32>,
        stated: &CalcSettings<Option<u32>>,
    ) -> Option<u32> {
        stated.iteration.or(settings)
    }

    fn config(&self) -> &EvalConfig<Option<u32>> {
        &self.config
    }

    fn has_global_function(&self, name: &str) -> bool {
        name == "SUM"
    }

    fn sheet_names(&self) -> Vec<String> {
        self.store.iter().map(|s| s.name.clone()).collect()
    }

    fn sheet_name(&self, id: u32) -> String {
        self.name_of(id)
    }

    fn is_row_hidden(&self, sheet: &str, row: u32) -> Option<bool> {
        self.sheet_id(sheet).map(|_| self.hidden.contains(&(sheet.to_string(), row)))
    }

    fn has_staged_formulas(&self) -> bool {
        !self.staged.is_empty()
    }

    fn get_dependents(&self, sheet: &str, row: u32, col: u32) -> Vec<(String, u32, u32)> {
        let key = (sheet.to_string(), row, col);
        self.cells
            .iter()
            .filter(|(_, c)| c.refs.iter().any(|r| r.holds(&key)))
            .map(|(k, _)| k.clone())
            .collect()
    }

    fn get_dependencies(&self, sheet: &str, row: u32, col: u32) -> Vec<(String, u32, u32)> {
        match self.cells.get(&(sheet.to_string(), row, col)) {
            Some(cell) => self
                .cells
                .keys()
                .filter(|k| cell.refs.iter().any(|r| r.holds(k)))
                .cloned()
                .collect(),
            None => Vec::new(),
        }
    }

    fn get_transitive_dependents(
        &self,
        sheet: &str,
        row: u32,
        col: u32,
    ) -> Vec<(String, u32, u32)> {
        self.get_dependents(sheet, row, col)
    }

    fn store_range_dims(
        &self,
        sheet: &str,
        start_row: usize,
        start_col: usize,
        end_row: usize,
        end_col: usize,
    ) -> (usize, usize) {
        let s = self.sheet(sheet).unwrap();
        let rows = (s.rows as usize).min(end_row + 1).saturating_sub(start_row);
        let cols = s.columns.min(end_col + 1).saturating_sub(start_col);
        (rows, cols)
    }

    fn store_range_cell(
        &self,
        sheet: &str,
        start_row: usize,
        start_col: usize,
        _end_row: usize,
        _end_col: usize,
        row: usize,
        col: usize,
    ) -> LiteralValue {
        match self.sheet(sheet).unwrap().overlay.get(&(start_row + row, start_col + col)) {
            None | Some(OverlayValue::Empty) => LiteralValue::Empty,
            Some(OverlayValue::Number(n)) => LiteralValue::Number(*n),
            Some(OverlayValue::Integer(i)) => number(*i as f64),
            Some(OverlayValue::Boolean(b)) => LiteralValue::Boolean(*b),
            Some(OverlayValue::Text(s)) => LiteralValue::Text(s.clone()),
            Some(OverlayValue::Error(k)) => LiteralValue::Error(ExcelError::new(*k)),
            Some(_) => LiteralValue::Pending,
        }
    }

    fn named_ranges(&self) -> Vec<NamedEntry> {
        self.names
            .iter()
            .filter(|n| n.0 == NameScope::Workbook)
            .map(|n| NamedEntry { name: n.1.clone(), definition: copy_definition(&n.2) })
            .collect()
    }

    fn sheet_named_ranges(&self) -> Vec<NamedEntry> {
        self.names
            .iter()
            .filter(|n| n.0 != NameScope::Workbook)
            .map(|n| NamedEntry { name: n.1.clone(), definition: copy_definition(&n.2) })
            .collect()
    }

    fn build_recalc_plan(&self) -> Result<Vec<Key>, ExcelError> {
        Ok(self.cells.iter().filter(|c| c.1.dirty).map(|c| c.0.clone()).collect())
    }

    fn deterministic_mode(&self) -> &u8 {
        &self.mode
    }

    fn last_formula_ingest_report(&self) -> Option<usize> {
        if self.ingests > 0 { Some(1) } else { None }
    }

    fn formula_ingest_report_total(&self) -> usize {
        self.ingests
    }

    fn changelog(&self) -> &Vec<String> {
        &self.log
    }

    fn cycle_settings(&self) -> CalcSettings<Option<u32>> {
        CalcSettings {
            iteration: self.config.settings,
            calc_mode: None,
            full_calc_on_load: None,
        }
    }

    fn sheet_id(&self, name: &str) -> Option<u32> {
        self.sheets.iter().find(|s| s.1 == name).map(|s| s.0)
    }

    fn add_sheet(&mut self, name: &str) -> Result<u32, ExcelError> {
        if self.sheet_id(name).is_some() {
            return Err(ExcelError::new(ExcelErrorKind::Value)
                .with_message(format!("sheet {name} exists")));
        }
        self.next_sheet += 1;
        self.sheets.push((self.next_sheet, name.to_string()));
        Ok(self.next_sheet)
    }

    fn must_add_sheet(&mut self, name: &str) -> u32 {
        self.add_sheet(name).unwrap()
    }

    fn duplicate_sheet(&mut self, source: &str, new_name: &str) -> Result<(), ExcelError> {
        self.add_sheet(new_name)?;
        let copies: Vec<(Key, Content)> = self
            .cells
            .iter()
            .filter(|c| c.0.0 == source)
            .map(|c| ((new_name.to_string(), c.0.1, c.0.2), copy_content(&c.1.content)))
            .collect();
        for (key, content) in copies {
            self.put(key, content);
        }
        Ok(())
    }

    fn remove_sheet(&mut self, id: u32) -> Result<(), ExcelError> {
        let name = self.name_of(id);
        if name == "Locked" {
            return Err(ExcelError::new(ExcelErrorKind::Ref).with_message("locked".to_string()));
        }
        self.sheets.retain(|s| s.0 != id);
        self.cells.retain(|k, _| k.0 != name);
        Ok(())
    }

    fn rename_sheet(&mut self, id: u32, new_name: &str) -> Result<(), ExcelError> {
        let sheet = self.sheets.iter_mut().find(|s| s.0 == id).unwrap();
        sheet.1 = new_name.to_string();
        Ok(())
    }

    fn has_store_sheet(&self, sheet: &str) -> bool {
        self.sheet(sheet).is_some()
    }

    fn store_rows(&self, sheet: &str) -> u32 {
        self.sheet(sheet).unwrap().rows
    }

    fn store_columns(&self, sheet: &str) -> usize {
        self.sheet(sheet).unwrap().columns
    }

    fn chunk_of_row(&self, sheet: &str, row0: usize) -> Option<(usize, usize)> {
        let s = self.sheet(sheet)?;
        if row0 < s.rows as usize {
            Some((row0 / s.chunk_rows, row0 % s.chunk_rows))
        } else {
            None
        }
    }

    fn push_store_sheet(&mut self, sheet: &str, chunk_rows: usize) {
        self.store.push(StoreSheet {
            name: sheet.to_string(),
            chunk_rows,
            rows: 0,
            columns: 0,
            overlay: BTreeMap::new(),
        });
    }

    fn ensure_store_rows(&mut self, sheet: &str, rows: usize) {
        let s = self.sheet_mut(sheet);
        s.rows = s.rows.max(rows as u32);
    }

    fn insert_store_columns(&mut self, sheet: &str, at: usize, count: usize) {
        let s = self.sheet_mut(sheet);
        assert_eq!(at, s.columns);
        s.columns += count;
    }

    fn ensure_column_chunk(&mut self, sheet: &str, col0: usize, _chunk: usize) -> bool {
        col0 < self.sheet_mut(sheet).columns
    }

    fn set_overlay(
        &mut self,
        sheet: &str,
        col0: usize,
        chunk: usize,
        offset: usize,
        value: &OverlayValue,
    ) {
        let s = self.sheet_mut(sheet);
        let row0 = chunk * s.chunk_rows + offset;
        s.overlay.insert((row0, col0), value.clone());
    }

    fn drop_store_sheet(&mut self, sheet: &str) {
        self.store.retain(|s| s.name != sheet);
    }

    fn rename_store_sheet(&mut self, sheet: &str, new_name: &str) {
        self.sheet_mut(sheet).name = new_name.to_string();
    }

    fn get_cell_value(&self, sheet: &str, row: u32, col: u32) -> Option<LiteralValue> {
        self.cells
            .get(&(sheet.to_string(), row, col))
            .and_then(|c| c.content.0.as_ref().map(copy))
    }

    fn get_cell(&self, sheet: &str, row: u32, col: u32) -> Option<CellState> {
        self.cells.get(&(sheet.to_string(), row, col)).map(|c| {
            let (value, formula) = copy_content(&c.content);
            CellState { formula, value }
        })
    }

    fn set_cell_value(
        &mut self,
        sheet: &str,
        row: u32,
        col: u32,
        value: &LiteralValue,
    ) -> Result<(), ExcelError> {
        if self.refuse_value == Some(row) {
            return Err(ExcelError::new(ExcelErrorKind::Num).with_message("refused".to_string()));
        }
        if self.sheet_id(sheet).is_none() {
            self.add_sheet(sheet)?;
        }
        self.put((sheet.to_string(), row, col), (Some(copy(value)), None));
        Ok(())
    }

    fn set_cell_formula(
        &mut self,
        sheet: &str,
        row: u32,
        col: u32,
        tree: &ASTNode,
    ) -> Result<(), ExcelError> {
        if self.sheet_id(sheet).is_none() {
            self.add_sheet(sheet)?;
        }
        self.put((sheet.to_string(), row, col), (None, Some(tree.clone())));
        Ok(())
    }

    fn mark_data_edited(&mut self) {}

    fn begin_deferred_dirty(&mut self) {
        assert!(self.deferred.is_none());
        self.deferred = Some(Vec::new());
    }

    fn end_deferred_dirty(&mut self) {
        let held = self.deferred.take().unwrap();
        self.spread(held);
    }

    fn staged_formula_text(&self, sheet: &str, row: u32, col: u32) -> Option<String> {
        self.staged.get(&(sheet.to_string(), row, col)).cloned()
    }

    fn stage_formula_text(&mut self, sheet: &str, row: u32, col: u32, formula: &str) {
        self.staged.insert((sheet.to_string(), row, col), formula.to_string());
    }

    fn clear_staged_formula_text(&mut self, sheet: &str, row: u32, col: u32) {
        self.staged.remove(&(sheet.to_string(), row, col));
    }

    fn clear_staged_formulas_for_sheet(&mut self, sheet: &str) {
        self.staged.retain(|k, _| k.0 != sheet);
    }

    fn rename_staged_formula_sheet(&mut self, old_name: &str, new_name: &str) {
        let texts: Vec<(Key, String)> =
            self.staged.iter().map(|(k, v)| (k.clone(), v.clone())).collect();
        self.staged.clear();
        for (mut key, text) in texts {
            if key.0 == old_name {
                key.0 = new_name.to_string();
            }
            self.staged.insert(key, text);
        }
    }

    fn edit_begin(&mut self) {}

    fn edit_set_value(&mut self, cell: CellRef, value: &LiteralValue) {
        let before = self.content(&self.key_of(cell));
        self.edit_set_value_with_old_state(cell, value, &before.0, &before.1);
    }

    fn edit_set_value_with_old_state(
        &mut self,
        cell: CellRef,
        value: &LiteralValue,
        old_value: &Option<LiteralValue>,
        old_formula: &Option<ASTNode>,
    ) {
        let key = self.key_of(cell);
        let before = (old_value.as_ref().map(copy), old_formula.clone());
        let after = (Some(copy(value)), None);
        self.record(Change::Content { key: key.clone(), before, after: copy_content(&after) });
        self.put(key, after);
    }

    fn edit_set_formula(&mut self, cell: CellRef, tree: &ASTNode) {
        let before = self.content(&self.key_of(cell));
        self.edit_set_formula_with_old_state(cell, tree, &before.0, &before.1);
    }

    fn edit_set_formula_with_old_state(
        &mut self,
        cell: CellRef,
        tree: &ASTNode,
        old_value: &Option<LiteralValue>,
        old_formula: &Option<ASTNode>,
    ) {
        let key = self.key_of(cell);
        let before = (old_value.as_ref().map(copy), old_formula.clone());
        let after = (None, Some(tree.clone()));
        self.record(Change::Content { key: key.clone(), before, after: copy_content(&after) });
        self.put(key, after);
    }

    fn edit_define_name(
        &mut self,
        name: &str,
        definition: &NamedDefinition,
        scope: NameScope,
    ) -> Result<(), EditorError> {
        if self.refuse_names {
            return Err(self.name_refusal());
        }
        self.set_definition(name, definition, scope);
        Ok(())
    }

    fn edit_update_name(
        &mut self,
        name: &str,
        definition: &NamedDefinition,
        scope: NameScope,
    ) -> Result<(), EditorError> {
        self.edit_define_name(name, definition, scope)
    }

    fn edit_delete_name(&mut self, name: &str, scope: NameScope) -> Result<(), EditorError> {
        if self.refuse_names {
            return Err(self.name_refusal());
        }
        self.names.retain(|n| !(n.1 == name && n.0 == scope));
        Ok(())
    }

    fn edit_end(&mut self) {}

    fn define_name(
        &mut self,
        name: &str,
        definition: &NamedDefinition,
        scope: NameScope,
    ) -> Result<(), ExcelError> {
        self.set_definition(name, definition, scope);
        Ok(())
    }

    fn update_name(
        &mut self,
        name: &str,
        definition: &NamedDefinition,
        scope: NameScope,
    ) -> Result<(), ExcelError> {
        self.set_definition(name, definition, scope);
        Ok(())
    }

    fn delete_name(&mut self, name: &str, scope: NameScope) -> Result<(), ExcelError> {
        self.names.retain(|n| !(n.1 == name && n.0 == scope));
        Ok(())
    }

    fn set_row_hidden(&mut self, sheet: &str, row: u32, hidden: bool) -> Result<(), EditorError> {
        self.set_rows_hidden(sheet, row, row, hidden)
    }

    fn set_rows_hidden(
        &mut self,
        sheet: &str,
        start_row: u32,
        end_row: u32,
        hidden: bool,
    ) -> Result<(), EditorError> {
        for row in start_row..=end_row {
            if hidden {
                self.hidden.insert((sheet.to_string(), row));
            } else {
                self.hidden.remove(&(sheet.to_string(), row));
            }
        }
        Ok(())
    }

    fn action_begin(&mut self, _logged: bool, name: &str) -> Result<(), EditorError> {
        if name == "forbidden" {
            return Err(EditorError { text: "no transaction".to_string(), excel: None });
        }
        self.tx = Some(Vec::new());
        Ok(())
    }

    fn action_commit(&mut self) -> Result<(), EditorError> {
        let changes = self.tx.take().unwrap();
        if self.log_enabled {
            self.undo_stack.push(changes);
        } else {
            self.journal = Some(changes);
        }
        Ok(())
    }

    fn action_abort(&mut self, reason: &str) {
        self.log.push(reason.to_string());
        let changes = self.tx.take().unwrap();
        for change in changes.iter().rev() {
            self.take_back(change, false);
        }
    }

    fn push_action_journal(&mut self) {
        let changes = self.journal.take().unwrap();
        self.undo_stack.push(changes);
    }

    fn tx_set_value(
        &mut self,
        sheet: &str,
        row: u32,
        col: u32,
        value: &LiteralValue,
    ) -> Result<(), EditorError> {
        let key = (sheet.to_string(), row, col);
        let before = self.content(&key);
        let after = (Some(copy(value)), None);
        let change = Change::Content { key: key.clone(), before, after: copy_content(&after) };
        self.tx.as_mut().unwrap().push(change);
        self.put(key, after);
        Ok(())
    }

    fn tx_set_formula(
        &mut self,
        sheet: &str,
        row: u32,
        col: u32,
        tree: &ASTNode,
    ) -> Result<(), EditorError> {
        let key = (sheet.to_string(), row, col);
        let before = self.content(&key);
        let after = (None, Some(tree.clone()));
        let change = Change::Content { key: key.clone(), before, after: copy_content(&after) };
        self.tx.as_mut().unwrap().push(change);
        self.put(key, after);
        Ok(())
    }

    fn tx_set_row_hidden(
        &mut self,
        sheet: &str,
        row: u32,
        hidden: bool,
    ) -> Result<(), EditorError> {
        self.set_row_hidden(sheet, row, hidden)
    }

    fn tx_set_rows_hidden(
        &mut self,
        sheet: &str,
        start_row: u32,
        end_row: u32,
        hidden: bool,
    ) -> Result<(), EditorError> {
        self.set_rows_hidden(sheet, start_row, end_row, hidden)
    }

    fn undo(&mut self, _logged: bool) -> Result<(), EditorError> {
        if let Some(changes) = self.undo_stack.pop() {
            for change in changes.iter().rev() {
                self.take_back(change, false);
            }
            self.redo_stack.push(changes);
        }
        Ok(())
    }

    fn redo(&mut self, _logged: bool) -> Result<(), EditorError> {
        if let Some(changes) = self.redo_stack.pop() {
            for change in changes.iter() {
                self.take_back(change, true);
            }
            self.undo_stack.push(changes);
        }
        Ok(())
    }

    fn log_set_enabled(&mut self, enabled: bool) {
        self.log_enabled = enabled;
    }

    fn log_set_actor_id(&mut self, actor_id: Option<String>) {
        self.log.push(format!("actor {actor_id:?}"));
    }

    fn log_set_correlation_id(&mut self, correlation_id: Option<String>) {
        self.log.push(format!("correlation {correlation_id:?}"));
    }

    fn log_set_reason(&mut self, reason: Option<String>) {
        self.log.push(format!("reason {reason:?}"));
    }

    fn log_begin_compound(&mut self, description: &str) {
        self.log.push(description.to_string());
        self.open = Some(Vec::new());
    }

    fn log_end_compound(&mut self) {
        if let Some(changes) = self.open.take() {
            self.undo_stack.push(changes);
        }
    }

    fn log_staged_change(
        &mut self,
        sheet: &str,
        row: u32,
        col: u32,
        before: Option<String>,
        after: Option<String>,
    ) {
        self.log.push(format!("staged {sheet} {row} {col} {before:?} {after:?}"));
        self.record(Change::Staged { key: (sheet.to_string(), row, col), before, after });
    }

    fn build_graph_all(&mut self) -> Result<(), String> {
        let texts: Vec<(Key, String)> =
            self.staged.iter().map(|(k, v)| (k.clone(), v.clone())).collect();
        for (key, text) in texts {
            let tree = formualizer_parse::parse(&text).map_err(|e| e.to_string())?;
            self.staged.remove(&key);
            self.ingests += 1;
            self.put(key, (None, Some(tree)));
        }
        Ok(())
    }

    fn build_graph_for_sheets(&mut self, sheets: &[&str]) -> Result<(), String> {
        let held: BTreeMap<Key, String> = std::mem::take(&mut self.staged);
        let (now, later): (Vec<_>, Vec<_>) =
            held.into_iter().partition(|(k, _)| sheets.contains(&k.0.as_str()));
        self.staged = now.into_iter().collect();
        let result = self.build_graph_all();
        self.staged.extend(later);
        result
    }

    fn evaluate_cell(
        &mut self,
        sheet: &str,
        row: u32,
        col: u32,
    ) -> Result<Option<LiteralValue>, ExcelError> {
        if row > 1000 {
            return Err(ExcelError::new(ExcelErrorKind::Ref));
        }
        self.eval(&(sheet.to_string(), row, col));
        Ok(self.get_cell_value(sheet, row, col))
    }

    fn evaluate_cells(
        &mut self,
        targets: &[(&str, u32, u32)],
    ) -> Result<Vec<Option<LiteralValue>>, ExcelError> {
        targets.iter().map(|t| self.evaluate_cell(t.0, t.1, t.2)).collect()
    }

    fn evaluate_cells_cancellable(
        &mut self,
        targets: &[(&str, u32, u32)],
        cancel: bool,
    ) -> Result<Vec<Option<LiteralValue>>, ExcelError> {
        if cancel {
            return Err(ExcelError::new(ExcelErrorKind::Cancelled));
        }
        self.evaluate_cells(targets)
    }

    fn evaluate_all(&mut self) -> Result<usize, ExcelError> {
        assert!(self.deferred.is_none());
        let keys = self.build_recalc_plan()?;
        for key in &keys {
            self.eval(key);
        }
        Ok(keys.len())
    }

    fn evaluate_all_cancellable(&mut self, cancel: bool) -> Result<usize, ExcelError> {
        if cancel {
            return Err(ExcelError::new(ExcelErrorKind::Cancelled));
        }
        self.evaluate_all()
    }

    fn evaluate_recalc_plan(&mut self, plan: &Vec<Key>) -> Result<usize, ExcelError> {
        for key in plan {
            self.eval(key);
        }
        Ok(plan.len())
    }

    fn get_eval_plan(&self, targets: &[(&str, u32, u32)]) -> Result<usize, ExcelError> {
        Ok(targets.len())
    }

    fn set_deterministic_mode(&mut self, mode: u8) -> Result<(), ExcelError> {
        if mode > 1 {
            return Err(ExcelError::new(ExcelErrorKind::NImpl));
        }
        self.mode = mode;
        Ok(())
    }

    fn set_load_limits(&mut self, limits: u32) {
        self.limits = limits;
    }
}

/// A function that joins the kinds of its arguments, or misbehaves when told to.
struct Joiner;

impl CustomFnHandler for Joiner {
    fn call(&self, args: &[LiteralValue]) -> Result<LiteralValue, ExcelError> {
        let mut text = String::new();
        for arg in args {
            match arg {
                LiteralValue::Int(i) => text.push_str(&format!("{i};")),
                LiteralValue::Array(rows) => text.push_str(&format!("array of {};", rows.len())),
                LiteralValue::Text(s) => text.push_str(s),
                _ => return Err(ExcelError::new(ExcelErrorKind::Na)),
            }
        }
        Ok(LiteralValue::Array(vec![vec![LiteralValue::Text(text)]]))
    }
}

/// A runtime that tells what it was asked for.
struct Echo {
    holds: Option<String>,
    asked: Mutex<Vec<String>>,
}

fn echo(holds: Option<&str>) -> Arc<Echo> {
    Arc::new(Echo { holds: holds.map(str::to_string), asked: Mutex::new(Vec::new()) })
}

impl WasmUdfRuntime for Echo {
    fn validate_module(
        &self,
        module_id: &str,
        _wasm_bytes: &[u8],
        _manifest: &WasmModuleManifest,
    ) -> Result<(), ExcelError> {
        self.asked.lock().unwrap().push(format!("validate {module_id}"));
        if module_id == "plugin://refused" {
            return Err(ExcelError::new(ExcelErrorKind::Calc));
        }
        Ok(())
    }

    fn unregister_module(&self, module_id: &str) -> Result<(), ExcelError> {
        self.asked.lock().unwrap().push(format!("unregister {module_id}"));
        if self.holds.as_deref() == Some(module_id) {
            return Err(ExcelError::new(ExcelErrorKind::Spill));
        }
        Ok(())
    }

    fn invoke(
        &self,
        module_id: &str,
        export_name: &str,
        function_name: &str,
        codec_version: u32,
        args: &[LiteralValue],
        runtime_hint: Option<&WasmRuntimeHint>,
    ) -> Result<LiteralValue, ExcelError> {
        Ok(LiteralValue::Text(format!(
            "{module_id} {export_name} {function_name} {codec_version} {} {}",
            args.len(),
            runtime_hint.is_some()
        )))
    }
}

type Book = Workbook<Mini>;

const SHEET: &str = "Sheet1";
const INPUTS: u32 = 200;
const CHAIN: u32 = 200;

fn workbook(changelog: bool) -> Book {
    let mut config = WorkbookConfig::ephemeral();
    config.enable_changelog = changelog;
    Workbook::new_with_config(config)
}

fn num(wb: &Book, row: u32, col: u32) -> f64 {
    match wb.get_value(SHEET, row, col) {
        Some(LiteralValue::Number(n)) => f64::from_bits(n),
        Some(LiteralValue::Int(i)) => i as f64,
        other => panic!("expected number at r{row}c{col}, got {other:?}"),
    }
}

/// K inputs in column A all feed one shared component: B1 = SUM(A1:AK) plus
/// a CHAIN-long arithmetic chain off B1. Disjoint island: D1 = C1 + 1 off
/// input C1 (untouched by the batch edits unless a test edits it).
fn build_rollup(wb: &mut Book) {
    let rows: Vec<Vec<LiteralValue>> = (0..INPUTS).map(|_| vec![LiteralValue::Int(1)]).collect();
    wb.set_values(SHEET, 1, 1, &rows).unwrap();
    wb.set_formula(SHEET, 1, 2, &format!("=SUM(A1:A{INPUTS})"))
        .unwrap();
    for r in 2..=(CHAIN + 1) {
        wb.set_formula(SHEET, r, 2, &format!("=B{}+1", r - 1))
            .unwrap();
    }
    wb.set_value(SHEET, 1, 3, LiteralValue::Int(7)).unwrap();
    wb.set_formula(SHEET, 1, 4, "=C1+1").unwrap();
    wb.evaluate_all().unwrap();
    assert_eq!(num(wb, 1, 2), INPUTS as f64);
    assert_eq!(num(wb, CHAIN + 1, 2), (INPUTS + CHAIN) as f64);
}

fn assert_post_edit_state(wb: &Book, input_value: f64) {
    assert_eq!(num(wb, 1, 2), input_value * INPUTS as f64, "rollup root");
    assert_eq!(
        num(wb, CHAIN + 1, 2),
        input_value * INPUTS as f64 + CHAIN as f64,
        "chain tail"
    );
}

fn batched_set_values_visits_o_component(changelog: bool) {
    let mut wb = workbook(changelog);
    build_rollup(&mut wb);

    let before = wb.engine().dirty_propagation_visits();
    let rows: Vec<Vec<LiteralValue>> = (0..INPUTS).map(|_| vec![number(2.0)]).collect();
    wb.set_values(SHEET, 1, 1, &rows).unwrap();
    let delta = wb.engine().dirty_propagation_visits() - before;

    let component = (CHAIN + 1) as u64; // B1 + chain (inputs are value cells)
    assert!(
        delta <= 2 * component + INPUTS as u64,
        "batched set_values (changelog={changelog}) must be ~one component walk \
         (≈{component} visits), got {delta} (per-cell loop was ≥ {})",
        INPUTS as u64 * component
    );

    wb.evaluate_all().unwrap();
    assert_post_edit_state(&wb, 2.0);
}

#[test]
fn batched_set_values_visits_are_o_component_no_changelog() {
    batched_set_values_visits_o_component(false);
}

#[test]
fn batched_set_values_visits_are_o_component_with_changelog() {
    batched_set_values_visits_o_component(true);
}

#[test]
fn batched_set_formulas_visits_are_o_component() {
    // Rewrite every chain formula (same text) in one batch: each edit's
    // propagation reaches the rest of the chain, so a per-cell loop is
    // O(CHAIN²); the deferred flush walks the chain once.
    let mut wb = workbook(false);
    build_rollup(&mut wb);

    let before = wb.engine().dirty_propagation_visits();
    let rows: Vec<Vec<String>> = (2..=(CHAIN + 1))
        .map(|r| vec![format!("=B{}+1", r - 1)])
        .collect();
    wb.set_formulas(SHEET, 2, 2, &rows).unwrap();
    let delta = wb.engine().dirty_propagation_visits() - before;

    let component = (CHAIN + 1) as u64;
    assert!(
        delta <= 3 * component,
        "batched set_formulas must be ~one component walk (≈{component} visits), \
         got {delta} (per-cell loop was ≥ {})",
        (CHAIN as u64) * (CHAIN as u64) / 2
    );

    wb.evaluate_all().unwrap();
    assert_post_edit_state(&wb, 1.0);
}

fn apply_per_cell(wb: &mut Book) {
    for r in 1..=INPUTS {
        wb.set_value(SHEET, r, 1, number(3.0)).unwrap();
    }
    // Value over formula (D1 was =C1+1), formula over value (C1 was 7).
    wb.set_value(SHEET, 1, 4, number(99.0)).unwrap();
    wb.set_formula(SHEET, 1, 3, "=B1*2").unwrap();
}

fn apply_batch(wb: &mut Book) {
    let rows: Vec<Vec<LiteralValue>> = (0..INPUTS).map(|_| vec![number(3.0)]).collect();
    wb.set_values(SHEET, 1, 1, &rows).unwrap();
    wb.set_values(SHEET, 1, 4, &[vec![number(99.0)]]).unwrap();
    wb.set_formulas(SHEET, 1, 3, &[vec!["=B1*2".to_string()]])
        .unwrap();
}

#[test]
fn batch_equals_per_cell_loop_values() {
    // Shared + disjoint downstream structure; the edit set includes values
    // overwriting a formula cell and a formula overwriting a value cell.
    let mut wb_seq = workbook(false);
    build_rollup(&mut wb_seq);
    apply_per_cell(&mut wb_seq);
    wb_seq.evaluate_all().unwrap();

    let mut wb_batch = workbook(false);
    build_rollup(&mut wb_batch);
    apply_batch(&mut wb_batch);
    wb_batch.evaluate_all().unwrap();

    for (r, c) in (1..=(CHAIN + 1))
        .map(|r| (r, 2u32))
        .chain([(1u32, 3u32), (1, 4)])
        .chain((1..=INPUTS).map(|r| (r, 1u32)))
    {
        assert_eq!(
            wb_seq.get_value(SHEET, r, c),
            wb_batch.get_value(SHEET, r, c),
            "value mismatch at r{r}c{c}"
        );
    }
    assert_eq!(num(&wb_batch, 1, 3), 2.0 * 3.0 * INPUTS as f64);
}

#[test]
fn undo_restores_pre_batch_values() {
    let mut wb = workbook(true);
    build_rollup(&mut wb);

    wb.begin_action("bulk input update");
    let rows: Vec<Vec<LiteralValue>> = (0..INPUTS).map(|_| vec![number(5.0)]).collect();
    wb.set_values(SHEET, 1, 1, &rows).unwrap();
    wb.end_action();
    wb.evaluate_all().unwrap();
    assert_post_edit_state(&wb, 5.0);

    wb.undo().unwrap();
    for r in 1..=INPUTS {
        assert_eq!(
            num(&wb, r, 1),
            1.0,
            "input r{r} must be restored by one undo of the batched action"
        );
    }
    wb.evaluate_all().unwrap();
    assert_post_edit_state(&wb, 1.0);

    wb.redo().unwrap();
    wb.evaluate_all().unwrap();
    assert_post_edit_state(&wb, 5.0);
}

#[test]
fn mid_batch_error_flushes_scope_and_later_edits_propagate() {
    // Row 2's formula fails to parse → set_formulas errors mid-batch. The
    // deferred scope must still flush (row 1's edit propagates), and the
    // graph must be fully consistent: a subsequent SINGLE edit propagates
    // normally and evaluation entry sees no active deferral (asserted).
    let mut wb = workbook(false);
    build_rollup(&mut wb);

    let rows = vec![
        vec!["=SUM(A1:A10)*1000".to_string()],
        vec!["=THIS IS NOT A FORMULA ((".to_string()],
        vec!["=A1+1".to_string()],
    ];
    let err = wb.set_formulas(SHEET, 10, 6, &rows);
    assert!(err.is_err(), "mid-batch parse failure must surface");

    // Row 1 of the failed batch was applied before the error; its dirty
    // marking must have been flushed, so a recalc evaluates it.
    wb.evaluate_all().unwrap();
    assert_eq!(num(&wb, 10, 6), 10_000.0, "pre-error edit must evaluate");

    // Subsequent single edit must propagate through the shared component.
    wb.set_value(SHEET, 1, 1, number(2.0)).unwrap();
    wb.evaluate_all().unwrap();
    assert_eq!(num(&wb, 1, 2), (INPUTS + 1) as f64, "rollup sees the edit");
    assert_eq!(
        num(&wb, 10, 6),
        11_000.0,
        "failed-batch survivor re-evaluates"
    );
}

#[test]
fn interactive_batch_values_roundtrip_through_arrow_after_overwriting_staged_formula() {
    let mut workbook = Book::new();
    workbook
        .set_formula("Sheet1", 1, 5, "=1+1")
        .expect("staged formula should be accepted");

    let rows = vec![
        vec![
            LiteralValue::Int(10),
            number(2.5),
            LiteralValue::Text("seed".to_string()),
            LiteralValue::Boolean(true),
            number(9.0),
        ],
        vec![
            LiteralValue::Int(11),
            LiteralValue::Empty,
            LiteralValue::Text("tail".to_string()),
            LiteralValue::Boolean(false),
            number(12.0),
        ],
    ];
    workbook
        .set_values("Sheet1", 1, 1, &rows)
        .expect("interactive batch values should be accepted");

    assert_eq!(workbook.get_formula("Sheet1", 1, 5), None);
    let range = RangeAddress::new("Sheet1", 1, 1, 2, 5).expect("range should be valid");
    assert_eq!(
        workbook.read_range(&range),
        vec![
            vec![
                number(10.0),
                number(2.5),
                LiteralValue::Text("seed".to_string()),
                LiteralValue::Boolean(true),
                number(9.0),
            ],
            vec![
                number(11.0),
                LiteralValue::Empty,
                LiteralValue::Text("tail".to_string()),
                LiteralValue::Boolean(false),
                number(12.0),
            ],
        ]
    );
}

fn interactive() -> Book {
    Book::new()
}

fn text(s: &str) -> LiteralValue {
    LiteralValue::Text(s.to_string())
}

fn engine_error(kind: ExcelErrorKind, message: &str) -> IoError {
    IoError::Engine(ExcelError::new(kind).with_message(message.to_string()))
}

fn backend(backend: &str, message: &str) -> IoError {
    IoError::Backend { backend: backend.to_string(), message: message.to_string() }
}

fn named(kind: ExcelErrorKind, message: &str) -> ExcelError {
    ExcelError::new(kind).with_message(message.to_string())
}

fn range(sheet: &str, r1: u32, c1: u32, r2: u32, c2: u32) -> RangeAddress {
    RangeAddress::new(sheet, r1, c1, r2, c2).unwrap()
}

#[test]
fn new_workbooks_keep_values_in_the_store() {
    let mut config = WorkbookConfig::ephemeral();
    config.eval.arrow_storage_enabled = false;
    config.eval.delta_overlay_enabled = false;
    config.eval.write_formula_overlay_enabled = false;
    config.ingest_limits = 17;
    let wb = Book::new_with_config(config);
    assert!(wb.eval_config().arrow_storage_enabled);
    assert!(wb.eval_config().delta_overlay_enabled);
    assert!(wb.eval_config().write_formula_overlay_enabled);
    assert_eq!(wb.engine().limits, 17);
    assert!(!wb.engine().log_enabled);
    assert!(wb.loaded_calc_settings().is_none());
    assert!(wb.list_custom_functions().is_empty());
    assert!(wb.list_wasm_modules().is_empty());
}

#[test]
fn staged_texts_are_recorded_and_undone() {
    let mut wb = interactive();
    wb.set_formula(SHEET, 1, 1, "1+1").unwrap();
    assert_eq!(wb.get_formula(SHEET, 1, 1), Some("1+1".to_string()));
    assert!(wb.has_staged_formulas());
    assert_eq!(wb.changelog().clone(), vec!["staged Sheet1 1 1 None Some(\"1+1\")".to_string()]);
    wb.set_formula(SHEET, 1, 1, "1+1").unwrap();
    assert_eq!(wb.changelog().len(), 1);

    wb.set_formulas(SHEET, 2, 1, &[vec!["=A1".to_string(), "=A1+2".to_string()]]).unwrap();
    wb.begin_action("overwrite");
    wb.set_values(SHEET, 1, 1, &[vec![number(4.0)], vec![number(5.0)]]).unwrap();
    wb.end_action();
    assert_eq!(wb.get_formula(SHEET, 1, 1), None);
    assert_eq!(wb.get_formula(SHEET, 2, 1), None);
    assert_eq!(wb.get_formula(SHEET, 2, 2), Some("=A1+2".to_string()));
    assert_eq!(wb.changelog().iter().filter(|l| l.starts_with("staged")).count(), 5);

    wb.undo().unwrap();
    assert_eq!(wb.get_formula(SHEET, 1, 1), Some("1+1".to_string()));
    assert_eq!(wb.get_formula(SHEET, 2, 1), Some("=A1".to_string()));
    wb.redo().unwrap();
    assert_eq!(wb.get_formula(SHEET, 1, 1), None);
    assert_eq!(num(&wb, 2, 1), 5.0);
}

#[test]
fn range_writing_records_what_becomes_of_staged_texts() {
    let mut wb = interactive();
    wb.set_formula(SHEET, 1, 1, "=7").unwrap();
    let mut cells = BTreeMap::new();
    cells.insert((1, 1), CellData { value: Some(number(1.0)), formula: None, style: None });
    cells.insert(
        (2, 1),
        CellData { value: Some(number(9.0)), formula: Some("=A1+1".to_string()), style: None },
    );
    wb.write_range(SHEET, (1, 1), cells).unwrap();
    assert_eq!(wb.get_formula(SHEET, 1, 1), None);
    assert_eq!(wb.get_formula(SHEET, 2, 1), Some("=A1+1".to_string()));
    let staged: Vec<String> =
        wb.changelog().iter().filter(|l| l.starts_with("staged")).cloned().collect();
    assert_eq!(
        staged,
        vec![
            "staged Sheet1 1 1 None Some(\"=7\")".to_string(),
            "staged Sheet1 1 1 Some(\"=7\") None".to_string(),
            "staged Sheet1 2 1 None Some(\"=A1+1\")".to_string(),
        ]
    );
    // The value under a formula is not laid over what the formula comes to.
    let overlay = &wb.engine().sheet(SHEET).unwrap().overlay;
    assert_eq!(overlay.get(&(0, 0)), Some(&OverlayValue::Number(1.0f64.to_bits())));
}

#[test]
fn range_writing_without_a_log_sets_values_and_formulas() {
    let mut wb = workbook(false);
    let mut cells = BTreeMap::new();
    cells.insert((3, 2), CellData { value: None, formula: Some("=A1*2".to_string()), style: None });
    cells.insert((1, 1), CellData { value: Some(number(6.0)), formula: None, style: None });
    wb.write_range(SHEET, (1, 1), cells).unwrap();
    wb.evaluate_all().unwrap();
    assert_eq!(num(&wb, 3, 2), 12.0);
    assert_eq!(wb.get_formula(SHEET, 3, 2), Some("=A1 * 2".to_string()));

    let mut bad = BTreeMap::new();
    bad.insert((1, 1), CellData { value: Some(number(1.0)), formula: None, style: None });
    bad.insert((2, 1), CellData { value: None, formula: Some("=((".to_string()), style: None });
    bad.insert((3, 1), CellData { value: Some(number(3.0)), formula: None, style: None });
    assert!(matches!(wb.write_range(SHEET, (1, 1), bad), Err(IoError::Backend { .. })));
    assert_eq!(num(&wb, 1, 1), 1.0);
    assert_eq!(wb.get_value(SHEET, 3, 1), None);
    assert!(wb.engine().deferred.is_none());
}

#[test]
fn refused_value_ends_the_batch_and_closes_its_bracket() {
    let mut wb = workbook(false);
    wb.engine_mut().refuse_value = Some(2);
    let rows = vec![vec![number(1.0)], vec![number(2.0)], vec![number(3.0)]];
    assert_eq!(
        wb.set_values(SHEET, 1, 1, &rows),
        Err(engine_error(ExcelErrorKind::Num, "refused"))
    );
    assert_eq!(num(&wb, 1, 1), 1.0);
    assert_eq!(wb.get_value(SHEET, 3, 1), None);
    assert!(wb.engine().deferred.is_none());
    assert_eq!(
        wb.set_value(SHEET, 2, 1, number(2.0)),
        Err(engine_error(ExcelErrorKind::Num, "refused"))
    );
}

#[test]
fn logged_batch_equals_single_edits() {
    let mut single = workbook(true);
    let mut batch = workbook(true);
    let rows = vec![
        vec![LiteralValue::Int(1), text("x")],
        vec![LiteralValue::Empty, LiteralValue::Boolean(true)],
    ];
    for (i, row) in rows.iter().enumerate() {
        for (j, value) in row.iter().enumerate() {
            single.set_value(SHEET, i as u32 + 1, j as u32 + 1, copy(value)).unwrap();
        }
    }
    batch.set_values(SHEET, 1, 1, &rows).unwrap();
    for r in 1..=2 {
        for c in 1..=2 {
            assert_eq!(single.get_value(SHEET, r, c), batch.get_value(SHEET, r, c));
        }
    }
    let a = range(SHEET, 1, 1, 2, 2);
    assert_eq!(single.read_range(&a), batch.read_range(&a));
    assert_eq!(
        batch.read_range(&a),
        vec![
            vec![number(1.0), text("x")],
            vec![LiteralValue::Empty, LiteralValue::Boolean(true)],
        ]
    );
}

fn staged_lines(wb: &Book) -> Vec<String> {
    wb.changelog().iter().filter(|l| l.starts_with("staged")).cloned().collect()
}

fn assert_same_cells(a: &Book, b: &Book, rows: u32, cols: u32) {
    for r in 1..=rows {
        for c in 1..=cols {
            assert_eq!(a.get_formula(SHEET, r, c), b.get_formula(SHEET, r, c), "r{r}c{c}");
            assert_eq!(
                a.engine().staged_formula_text(SHEET, r, c),
                b.engine().staged_formula_text(SHEET, r, c),
                "r{r}c{c}"
            );
            let key = (SHEET.to_string(), r, c);
            assert_eq!(a.engine().content(&key), b.engine().content(&key), "r{r}c{c}");
        }
    }
}

fn set_one_by_one(wb: &mut Book, rows: &[Vec<String>]) {
    for (i, row) in rows.iter().enumerate() {
        for (j, formula) in row.iter().enumerate() {
            wb.set_formula(SHEET, i as u32 + 1, j as u32 + 1, formula).unwrap();
        }
    }
}

#[test]
fn formula_batches_equal_single_formulas() {
    let rows = vec![
        vec!["=C1+1".to_string(), "2*3".to_string()],
        vec!["=A1".to_string()],
    ];
    for changelog in [false, true] {
        let mut single = workbook(changelog);
        let mut batch = workbook(changelog);
        for wb in [&mut single, &mut batch] {
            wb.set_value(SHEET, 1, 3, number(4.0)).unwrap();
            wb.engine_mut().stage_formula_text(SHEET, 1, 2, "=9");
        }
        set_one_by_one(&mut single, &rows);
        batch.set_formulas(SHEET, 1, 1, &rows).unwrap();
        assert_same_cells(&single, &batch, 2, 3);
        assert_eq!(staged_lines(&single), staged_lines(&batch));
        batch.evaluate_all().unwrap();
        assert_eq!(num(&batch, 1, 1), 5.0);
        assert_eq!(num(&batch, 1, 2), 6.0);
        assert_eq!(num(&batch, 2, 1), 5.0);
    }
}

#[test]
fn deferred_formula_batches_equal_single_formulas() {
    let rows = vec![
        vec!["=C1+1".to_string(), "2*3".to_string()],
        vec!["=A1".to_string()],
    ];
    let mut single = interactive();
    let mut batch = interactive();
    for wb in [&mut single, &mut batch] {
        wb.set_formula(SHEET, 1, 2, "=9").unwrap();
    }
    set_one_by_one(&mut single, &rows);
    batch.set_formulas(SHEET, 1, 1, &rows).unwrap();
    assert_same_cells(&single, &batch, 2, 3);
    assert_eq!(staged_lines(&single), staged_lines(&batch));
    assert_eq!(batch.get_formula(SHEET, 1, 2), Some("2*3".to_string()));

    // A batch stages a formula also for a cell that the graph holds.
    for wb in [&mut single, &mut batch] {
        wb.set_value(SHEET, 5, 1, number(1.0)).unwrap();
    }
    single.set_formula(SHEET, 5, 1, "=1+1").unwrap();
    batch.set_formulas(SHEET, 5, 1, &[vec!["=1+1".to_string()]]).unwrap();
    assert_eq!(single.engine().staged_formula_text(SHEET, 5, 1), None);
    assert_eq!(batch.engine().staged_formula_text(SHEET, 5, 1), Some("=1+1".to_string()));
}

#[test]
fn range_writing_equals_single_writing() {
    let cells = || {
        let mut cells = BTreeMap::new();
        let value = |n: f64| CellData { value: Some(number(n)), formula: None, style: None };
        cells.insert((1, 1), value(6.0));
        cells.insert((2, 2), value(7.0));
        cells.insert(
            (1, 2),
            CellData { value: None, formula: Some("=A1*2".to_string()), style: None },
        );
        cells.insert((2, 1), CellData { value: None, formula: None, style: Some(1) });
        cells
    };
    for kind in 0..3 {
        let make = || if kind == 2 { interactive() } else { workbook(kind == 1) };
        let mut single = make();
        let mut batch = make();
        for wb in [&mut single, &mut batch] {
            wb.engine_mut().stage_formula_text(SHEET, 1, 1, "=9");
            wb.engine_mut().stage_formula_text(SHEET, 2, 1, "=8");
        }
        let mut both = cells();
        let mut more = cells();
        if kind != 2 {
            let data = || CellData {
                value: Some(number(1.0)),
                formula: Some("=B2+A1".to_string()),
                style: None,
            };
            both.insert((3, 1), data());
            more.insert((3, 1), data());
        }
        for ((row, col), data) in both {
            if let Some(value) = data.value {
                single.set_value(SHEET, row, col, value).unwrap();
            }
            if let Some(formula) = data.formula {
                single.set_formula(SHEET, row, col, &formula).unwrap();
            }
        }
        batch.write_range(SHEET, (1, 1), more).unwrap();
        assert_same_cells(&single, &batch, 3, 2);
        assert_eq!(staged_lines(&single), staged_lines(&batch));
        assert_eq!(batch.engine().staged_formula_text(SHEET, 2, 1), Some("=8".to_string()));
        assert_eq!(num(&batch, 1, 1), 6.0);
    }
}

#[test]
fn values_are_read_back_and_replace_formulas() {
    for changelog in [false, true] {
        let mut wb = workbook(changelog);
        wb.set_formula(SHEET, 1, 1, "=1+1").unwrap();
        wb.set_formula(SHEET, 1, 2, "=A1").unwrap();
        wb.set_value(SHEET, 1, 1, text("seen")).unwrap();
        assert_eq!(wb.get_value(SHEET, 1, 1), Some(text("seen")));
        assert_eq!(wb.get_formula(SHEET, 1, 1), None);
        assert_eq!(wb.get_formula(SHEET, 1, 2), Some("=A1".to_string()));
    }
}

#[test]
fn formulas_are_parsed_with_or_without_their_sign() {
    let mut wb = workbook(false);
    wb.set_value(SHEET, 1, 1, number(3.0)).unwrap();
    wb.set_formula(SHEET, 1, 2, "A1+1").unwrap();
    wb.set_formula(SHEET, 1, 3, "=A1+1").unwrap();
    wb.evaluate_all().unwrap();
    assert_eq!(num(&wb, 1, 2), 4.0);
    assert_eq!(wb.get_formula(SHEET, 1, 2), Some("=A1 + 1".to_string()));
    assert_eq!(wb.get_formula(SHEET, 1, 2), wb.get_formula(SHEET, 1, 3));
    assert!(matches!(
        wb.set_formula(SHEET, 1, 4, "=SUM("),
        Err(IoError::Backend { backend, .. }) if backend == "parser"
    ));
    assert_eq!(wb.get_formula(SHEET, 1, 4), None);
}

#[test]
fn actions_commit_or_roll_back() {
    let mut wb = workbook(false);
    wb.set_value(SHEET, 1, 1, number(1.0)).unwrap();
    let made = wb.action("double", |tx| {
        tx.set_value(SHEET, 1, 1, number(2.0))?;
        tx.set_formula(SHEET, 1, 2, "=A1*10")?;
        tx.set_values(SHEET, 2, 1, &[vec![number(7.0)]])?;
        tx.set_row_hidden(SHEET, 4, true)?;
        Ok(11)
    });
    assert_eq!(made, Ok(11));
    wb.evaluate_all().unwrap();
    assert_eq!(num(&wb, 1, 2), 20.0);
    assert_eq!(wb.is_row_hidden(SHEET, 4), Ok(true));
    wb.undo().unwrap();
    assert_eq!(num(&wb, 1, 1), 1.0);
    assert_eq!(wb.get_value(SHEET, 2, 1), None);

    let refused: Result<(), IoError> = wb.action("fail", |tx| {
        tx.set_value(SHEET, 1, 1, number(5.0))?;
        let mut cells = BTreeMap::new();
        cells.insert((9, 9), CellData { value: Some(number(9.0)), formula: None, style: None });
        tx.write_range(SHEET, (9, 9), cells)?;
        Err(backend("caller", "changed my mind"))
    });
    assert_eq!(refused, Err(backend("caller", "changed my mind")));
    assert_eq!(num(&wb, 1, 1), 1.0);
    assert_eq!(wb.get_value(SHEET, 9, 9), None);
    assert_eq!(wb.changelog().last().unwrap(), "Workbook::action aborted");

    let unparsed = wb.action("unparsed", |tx| tx.set_formula(SHEET, 1, 1, "=(("));
    assert!(matches!(unparsed, Err(IoError::Backend { backend, .. }) if backend == "parser"));
    assert_eq!(num(&wb, 1, 1), 1.0);

    let begun = wb.action("forbidden", |_| Ok(1));
    assert_eq!(begun, Err(backend("editor", "no transaction")));
}

#[test]
fn logged_actions_are_one_step_of_the_log() {
    let mut wb = workbook(true);
    wb.add_sheet(SHEET).unwrap();
    wb.set_value(SHEET, 1, 1, number(1.0)).unwrap();
    wb.action("two", |tx| {
        tx.set_value(SHEET, 1, 1, number(2.0))?;
        tx.set_rows_hidden(SHEET, 1, 2, true)?;
        tx.set_value(SHEET, 2, 1, number(2.0))
    })
    .unwrap();
    wb.undo().unwrap();
    assert_eq!(num(&wb, 1, 1), 1.0);
    assert_eq!(wb.get_value(SHEET, 2, 1), None);
}

#[test]
fn change_log_settings_are_handed_on() {
    let mut wb = workbook(true);
    wb.set_actor_id(Some("me".to_string()));
    wb.set_correlation_id(None);
    wb.set_reason(Some("why".to_string()));
    wb.begin_action("step");
    wb.end_action();
    assert_eq!(
        wb.changelog().clone(),
        vec![
            "actor Some(\"me\")".to_string(),
            "correlation None".to_string(),
            "reason Some(\"why\")".to_string(),
            "step".to_string(),
        ]
    );
    wb.set_changelog_enabled(false);
    assert!(!wb.engine().log_enabled);
    wb.begin_action("silent");
    wb.end_action();
    assert_eq!(wb.changelog().len(), 4);
}

#[test]
fn sheets_are_kept_in_graph_and_store() {
    let mut wb = interactive();
    wb.add_sheet("One").unwrap();
    assert!(wb.has_sheet("One"));
    assert_eq!(wb.sheet_names(), vec!["One".to_string()]);
    assert_eq!(wb.sheet_dimensions("One"), Some((0, 0)));
    assert_eq!(wb.sheet_dimensions("Two"), None);
    assert_eq!(wb.add_sheet("One"), Err(named(ExcelErrorKind::Value, "sheet One exists")));

    wb.set_value("One", 3, 2, number(1.0)).unwrap();
    assert_eq!(wb.sheet_dimensions("One"), Some((3, 2)));
    wb.set_formula("One", 1, 1, "=B3").unwrap();
    wb.rename_sheet("One", "Two").unwrap();
    assert!(!wb.has_sheet("One"));
    assert_eq!(wb.sheet_names(), vec!["Two".to_string()]);
    assert_eq!(wb.get_formula("Two", 1, 1), Some("=B3".to_string()));
    wb.duplicate_sheet("Two", "Three").unwrap();

    wb.delete_sheet("Two").unwrap();
    assert!(!wb.has_sheet("Two"));
    assert!(!wb.has_staged_formulas());
    assert!(wb.sheet_names().is_empty());

    wb.add_sheet("Locked").unwrap();
    wb.set_formula("Locked", 1, 1, "=1").unwrap();
    assert_eq!(wb.delete_sheet("Locked"), Err(named(ExcelErrorKind::Ref, "locked")));
    assert!(wb.has_staged_formulas());
    assert_eq!(wb.sheet_names(), vec!["Locked".to_string()]);
}

#[test]
fn rows_are_hidden_and_asked_for() {
    let mut wb = workbook(false);
    wb.add_sheet(SHEET).unwrap();
    wb.set_rows_hidden(SHEET, 2, 4, true).unwrap();
    wb.set_row_hidden(SHEET, 3, false).unwrap();
    assert_eq!(wb.is_row_hidden(SHEET, 2), Ok(true));
    assert_eq!(wb.is_row_hidden(SHEET, 3), Ok(false));
    assert_eq!(
        wb.is_row_hidden("Nowhere", 1),
        Err(backend("workbook", "Unknown sheet: Nowhere"))
    );
}

#[test]
fn names_give_their_addresses_back() {
    let mut wb = workbook(false);
    let a = range("Data", 2, 3, 4, 5);
    wb.define_named_range("Total", &a, NamedRangeScope::Workbook).unwrap();
    assert_eq!(wb.named_range_address("Total"), Some(range("Data", 2, 3, 4, 5)));
    let single = range("Data", 1, 1, 1, 1);
    wb.update_named_range("Total", &single, NamedRangeScope::Workbook).unwrap();
    assert_eq!(wb.named_range_address("Total"), Some(range("Data", 1, 1, 1, 1)));
    assert_eq!(wb.named_range_address("Other"), None);
    wb.delete_named_range("Total", NamedRangeScope::Workbook, None).unwrap();
    assert_eq!(wb.named_range_address("Total"), None);
}

#[test]
fn local_names_must_be_sole() {
    let mut wb = workbook(true);
    wb.define_named_range("Local", &range("A", 1, 1, 2, 2), NamedRangeScope::Sheet).unwrap();
    assert_eq!(wb.named_range_address("Local"), Some(range("A", 1, 1, 2, 2)));
    wb.define_named_range("Local", &range("B", 1, 1, 2, 2), NamedRangeScope::Sheet).unwrap();
    assert_eq!(wb.named_range_address("Local"), None);
    wb.define_named_range("Local", &range("C", 7, 7, 7, 7), NamedRangeScope::Workbook).unwrap();
    assert_eq!(wb.named_range_address("Local"), Some(range("C", 7, 7, 7, 7)));
    wb.delete_named_range("Local", NamedRangeScope::Workbook, None).unwrap();

    assert_eq!(
        wb.delete_named_range("Local", NamedRangeScope::Sheet, None),
        Err(backend("workbook", "Sheet scope requires a sheet name"))
    );
    assert_eq!(
        wb.delete_named_range("Local", NamedRangeScope::Sheet, Some("Z")),
        Err(backend("workbook", "Sheet not found"))
    );
    wb.delete_named_range("Local", NamedRangeScope::Sheet, Some("A")).unwrap();
    assert_eq!(wb.named_range_address("Local"), Some(range("B", 1, 1, 2, 2)));

    wb.engine_mut().refuse_names = true;
    assert_eq!(
        wb.define_named_range("X", &range("A", 1, 1, 1, 1), NamedRangeScope::Workbook),
        Err(backend("editor", "name refused"))
    );
}

#[test]
fn cells_are_evaluated_on_demand() {
    let mut wb = workbook(false);
    wb.set_value(SHEET, 1, 1, number(2.0)).unwrap();
    wb.set_formula(SHEET, 1, 2, "=A1+1").unwrap();
    assert_eq!(wb.evaluate_cell(SHEET, 1, 2), Ok(number(3.0)));
    assert_eq!(wb.evaluate_cell(SHEET, 9, 9), Ok(LiteralValue::Empty));
    assert_eq!(
        wb.evaluate_cell(SHEET, 2000, 1),
        Err(IoError::Engine(ExcelError::new(ExcelErrorKind::Ref)))
    );
    assert_eq!(
        wb.evaluate_cells(&[(SHEET, 1, 2), (SHEET, 5, 5)]),
        Ok(vec![number(3.0), LiteralValue::Empty])
    );
    assert_eq!(
        wb.evaluate_cells_cancellable(&[(SHEET, 1, 2)], true),
        Err(IoError::Engine(ExcelError::new(ExcelErrorKind::Cancelled)))
    );
    assert_eq!(
        wb.evaluate_all_cancellable(true),
        Err(IoError::Engine(ExcelError::new(ExcelErrorKind::Cancelled)))
    );
    wb.set_value(SHEET, 1, 1, number(4.0)).unwrap();
    let plan = wb.build_recalc_plan().unwrap();
    assert_eq!(plan.len(), 1);
    assert_eq!(wb.evaluate_with_plan(&plan), Ok(1));
    assert_eq!(num(&wb, 1, 2), 5.0);
    assert_eq!(wb.get_eval_plan(&[(SHEET, 1, 1), (SHEET, 1, 2)]), Ok(2));
    assert_eq!(wb.get_dependents(SHEET, 1, 1), vec![(SHEET.to_string(), 1, 2)]);
    assert_eq!(wb.get_dependencies(SHEET, 1, 2), vec![(SHEET.to_string(), 1, 1)]);
    assert_eq!(wb.get_transitive_dependents(SHEET, 1, 1), vec![(SHEET.to_string(), 1, 2)]);
    assert_eq!(wb.set_deterministic_mode(1), Ok(()));
    assert_eq!(wb.deterministic_mode(), &1);
    assert_eq!(
        wb.set_deterministic_mode(2),
        Err(IoError::Engine(ExcelError::new(ExcelErrorKind::NImpl)))
    );
}

#[test]
fn staged_texts_reach_the_graph_when_it_is_prepared() {
    let mut wb = interactive();
    wb.add_sheet("A").unwrap();
    wb.set_formula("A", 1, 1, "=1+2").unwrap();
    wb.set_formula("B", 1, 1, "=2+2").unwrap();
    wb.prepare_graph_for_sheets(&["A"]).unwrap();
    assert!(wb.has_staged_formulas());
    assert_eq!(wb.get_formula("A", 1, 1), Some("=1 + 2".to_string()));
    assert_eq!(wb.last_formula_ingest_report(), Some(1));
    wb.prepare_graph_all().unwrap();
    assert!(!wb.has_staged_formulas());
    assert_eq!(wb.formula_ingest_report_total(), 2);

    wb.engine_mut().stage_formula_text("A", 2, 2, "=((");
    assert!(matches!(
        wb.get_eval_plan_with_options(&[("A", 1, 1)], true),
        Err(IoError::Backend { backend, .. }) if backend == "parser"
    ));
    assert_eq!(wb.get_eval_plan_with_options(&[("A", 1, 1)], false), Ok(1));
    assert!(matches!(
        wb.prepare_graph_all(),
        Err(IoError::Backend { backend, .. }) if backend == "parser"
    ));
}

struct Given(Vec<Result<EvaluatedArg, ExcelError>>);

impl CallArguments for Given {
    fn count(&self) -> usize {
        self.0.len()
    }

    fn evaluate(&self, index: usize) -> Result<EvaluatedArg, ExcelError> {
        match &self.0[index] {
            Ok(EvaluatedArg::Value(v)) => Ok(EvaluatedArg::Value(copy(v))),
            Ok(EvaluatedArg::Range(rows)) => Ok(EvaluatedArg::Range(
                rows.iter().map(|r| r.iter().map(copy).collect()).collect(),
            )),
            Err(e) => Err(e.clone()),
        }
    }
}

fn options() -> CustomFnOptions {
    CustomFnOptions::default()
}

#[test]
fn custom_functions_are_registered_once_per_name() {
    let mut wb = workbook(false);
    wb.register_custom_function("  zeta ", options(), Arc::new(Joiner)).unwrap();
    wb.register_custom_function("Alpha", options(), Arc::new(Joiner)).unwrap();
    assert_eq!(
        wb.register_custom_function("ALPHA", options(), Arc::new(Joiner)),
        Err(named(ExcelErrorKind::Name, "Custom function ALPHA is already registered"))
    );
    let names: Vec<String> = wb.list_custom_functions().into_iter().map(|i| i.name).collect();
    assert_eq!(names, vec!["ALPHA".to_string(), "ZETA".to_string()]);
    assert!(wb.find_function("", "alpha").is_some());
    assert!(wb.find_function("ns", "alpha").is_none());
    assert_eq!(wb.unregister_custom_function(" aLpHa"), Ok(()));
    assert_eq!(
        wb.unregister_custom_function("alpha"),
        Err(named(ExcelErrorKind::Name, "Custom function ALPHA is not registered"))
    );
    assert!(wb.find_function("", "ALPHA").is_none());
    assert_eq!(wb.list_custom_functions().len(), 1);
}

#[test]
fn custom_functions_respect_names_arity_and_builtins() {
    let mut wb = workbook(false);
    assert_eq!(
        wb.register_custom_function("  ", options(), Arc::new(Joiner)),
        Err(named(ExcelErrorKind::Name, "Function name cannot be empty"))
    );
    let mut inverted = options();
    inverted.min_args = 3;
    inverted.max_args = Some(2);
    assert_eq!(
        wb.register_custom_function("f", inverted, Arc::new(Joiner)),
        Err(named(ExcelErrorKind::Value, "Invalid arity for F: max_args (2) < min_args (3)"))
    );
    assert_eq!(
        wb.register_custom_function("sum", options(), Arc::new(Joiner)),
        Err(named(
            ExcelErrorKind::Name,
            "Custom function SUM conflicts with a global function; set \
             allow_override_builtin=true to override"
        ))
    );
    let mut over = options();
    over.allow_override_builtin = true;
    assert_eq!(wb.register_custom_function("sum", over, Arc::new(Joiner)), Ok(()));
}

#[test]
fn custom_functions_are_called_with_plain_values() {
    let mut wb = workbook(false);
    let mut bounds = options();
    bounds.min_args = 1;
    bounds.max_args = Some(3);
    bounds.volatile = true;
    wb.register_custom_function("join", bounds, Arc::new(Joiner)).unwrap();
    let function = &wb.find_function("", "Join").unwrap().function;
    assert_eq!(function.name(), "__WORKBOOK_CUSTOM__");
    assert!(function.caps().volatile);
    assert!(!function.caps().pure);

    let args = Given(vec![
        Ok(EvaluatedArg::Value(LiteralValue::Int(4))),
        Ok(EvaluatedArg::Range(vec![vec![LiteralValue::Int(5)]])),
        Ok(EvaluatedArg::Range(vec![vec![number(1.0)], vec![number(2.0)]])),
    ]);
    let ready = function.prepare(&args).unwrap();
    let came = function.invoke(&ready);
    assert_eq!(function.finish(CallOutcome::Returned(came)), Ok(text("4;5;array of 2;")));
    assert_eq!(
        function.finish(CallOutcome::Panicked),
        Err(named(ExcelErrorKind::Value, "Custom function callback panicked"))
    );
    assert_eq!(
        function.prepare(&Given(vec![])),
        Err(named(ExcelErrorKind::Value, "JOIN expects at least 1 argument(s), got 0"))
    );
    let many = Given((0..4).map(|i| Ok(EvaluatedArg::Value(LiteralValue::Int(i)))).collect());
    assert_eq!(
        function.prepare(&many),
        Err(named(ExcelErrorKind::Value, "JOIN expects at most 3 argument(s), got 4"))
    );
    let broken = Given(vec![Err(ExcelError::new(ExcelErrorKind::Div))]);
    assert_eq!(function.prepare(&broken), Err(ExcelError::new(ExcelErrorKind::Div)));
    let came = function.invoke(&[LiteralValue::Pending]);
    assert_eq!(
        function.finish(CallOutcome::Returned(came)),
        Err(ExcelError::new(ExcelErrorKind::Na))
    );
}

#[test]
fn formulas_call_registered_functions() {
    let mut wb = interactive();
    wb.set_formula(SHEET, 1, 1, "=join(4,5)").unwrap();
    wb.set_formula(SHEET, 2, 1, "=SUM(4,5)").unwrap();
    wb.prepare_graph_all().unwrap();
    assert_eq!(
        wb.evaluate_cell(SHEET, 1, 1),
        Ok(LiteralValue::Error(ExcelError::new(ExcelErrorKind::Name)))
    );
    wb.register_custom_function(" Join ", options(), Arc::new(Joiner)).unwrap();
    let again = |wb: &mut Book| {
        wb.set_formula(SHEET, 1, 1, "=Join(4,5)").unwrap();
        wb.set_formula(SHEET, 2, 1, "=SUM(4,5)").unwrap();
    };
    again(&mut wb);
    assert_eq!(wb.evaluate_cell(SHEET, 1, 1), Ok(text("4;5;")));
    again(&mut wb);
    let targets = [(SHEET, 1, 1), (SHEET, 2, 1)];
    assert_eq!(wb.evaluate_cells(&targets), Ok(vec![text("4;5;"), number(9.0)]));
    again(&mut wb);
    assert_eq!(
        wb.evaluate_cells_cancellable(&targets, false),
        Ok(vec![text("4;5;"), number(9.0)])
    );
    again(&mut wb);
    assert_eq!(wb.evaluate_all_cancellable(false), Ok(2));
    assert_eq!(wb.get_value(SHEET, 1, 1), Some(text("4;5;")));
    again(&mut wb);
    let plan = wb.build_recalc_plan().unwrap();
    assert_eq!(wb.evaluate_with_plan(&plan), Ok(2));
    assert_eq!(wb.get_value(SHEET, 1, 1), Some(text("4;5;")));

    // A function of the workbook can stand before one that every workbook knows.
    let mut over = options();
    over.allow_override_builtin = true;
    wb.register_custom_function("sum", over, Arc::new(Joiner)).unwrap();
    again(&mut wb);
    wb.evaluate_all().unwrap();
    assert_eq!(wb.get_value(SHEET, 2, 1), Some(text("4;5;")));

    wb.unregister_custom_function("JOIN").unwrap();
    wb.unregister_custom_function("Sum").unwrap();
    again(&mut wb);
    wb.evaluate_all().unwrap();
    assert_eq!(
        wb.get_value(SHEET, 1, 1),
        Some(LiteralValue::Error(ExcelError::new(ExcelErrorKind::Name)))
    );
    assert_eq!(num(&wb, 2, 1), 9.0);
}

#[test]
fn formulas_call_functions_of_modules() {
    let source = Source { settings: None, broken: false };
    let config = WorkbookConfig::ephemeral();
    let mut wb = Book::from_reader(source, LoadStrategy::EagerAll, config).unwrap();
    wb.set_wasm_runtime(echo(None));
    wb.register_wasm_module_bytes("plugin://m", &module("plugin://m fn_add"), &Words).unwrap();
    let spec = WasmFunctionSpec::new("plugin://m", "fn_add", 1);
    wb.register_wasm_function("add", options(), spec).unwrap();
    wb.set_formula(SHEET, 1, 2, "=add(A1,2)").unwrap();
    wb.evaluate_all().unwrap();
    assert_eq!(
        wb.get_value(SHEET, 1, 2),
        Some(text("plugin://m fn_add ADD 1 2 false"))
    );
}

#[test]
fn runtimes_are_asked_once_and_only_where_it_matters() {
    let runtime = echo(Some("plugin://kept"));
    let asked = |runtime: &Arc<Echo>| std::mem::take(&mut *runtime.asked.lock().unwrap());
    let mut wb = workbook(false);
    wb.set_wasm_runtime(runtime.clone());
    let bytes = module("plugin://kept f");
    wb.register_wasm_module_bytes("plugin://kept", &bytes, &Words).unwrap();
    assert_eq!(asked(&runtime), vec!["validate plugin://kept".to_string()]);
    assert!(wb.register_wasm_module_bytes("plugin://kept", &bytes, &Words).is_err());
    assert!(wb.register_wasm_module_bytes("plugin://other", &bytes, &Words).is_err());
    assert!(wb.attach_wasm_module_file(&file("kept.wasm", Ok(bytes.clone())), &Words).is_err());
    assert!(wb.unregister_wasm_module("plugin://other").is_err());
    assert!(asked(&runtime).is_empty());
    assert!(wb.unregister_wasm_module("plugin://kept").is_err());
    assert_eq!(asked(&runtime), vec!["unregister plugin://kept".to_string()]);
    assert_eq!(wb.list_wasm_modules().len(), 1);
}

#[test]
fn aliases_do_the_same() {
    let spec = || WasmFunctionSpec::new("plugin://m", "fn_add", 1);
    let bytes = module("plugin://m fn_add");
    let mut one = workbook(false);
    let mut other = workbook(false);
    for wb in [&mut one, &mut other] {
        wb.set_wasm_runtime(echo(None));
    }
    assert_eq!(
        one.attach_wasm_module_bytes(" plugin://m", &bytes, &Words),
        other.register_wasm_module_bytes("plugin://m ", &bytes, &Words)
    );
    assert_eq!(one.list_wasm_modules(), other.list_wasm_modules());
    assert_eq!(
        one.attach_wasm_module_bytes("  ", &bytes, &Words),
        other.register_wasm_module_bytes("", &bytes, &Words)
    );
    assert_eq!(
        one.bind_wasm_function("add", options(), spec()),
        other.register_wasm_function("add", options(), spec())
    );
    assert_eq!(one.list_custom_functions(), other.list_custom_functions());
    assert_eq!(
        one.bind_wasm_function("Add", options(), spec()),
        other.register_wasm_function("Add", options(), spec())
    );
}

#[test]
fn default_workbooks_are_interactive() {
    let wb = Book::default();
    assert!(wb.eval_config().defer_graph_building);
    assert!(wb.engine().log_enabled);
}

fn leb(mut n: usize, out: &mut Vec<u8>) {
    loop {
        let byte = (n & 0x7f) as u8;
        n >>= 7;
        if n == 0 {
            out.push(byte);
            return;
        }
        out.push(byte | 0x80);
    }
}

fn custom_section(name: &str, data: &[u8]) -> Vec<u8> {
    let mut body = Vec::new();
    leb(name.len(), &mut body);
    body.extend_from_slice(name.as_bytes());
    body.extend_from_slice(data);
    let mut section = vec![0];
    leb(body.len(), &mut section);
    section.extend(body);
    section
}

fn module(manifest: &str) -> Vec<u8> {
    let mut bytes = b"\0asm\x01\0\0\0".to_vec();
    bytes.extend(custom_section("name", b""));
    bytes.extend(custom_section(WASM_MANIFEST_SECTION_V1, manifest.as_bytes()));
    bytes
}

/// Reads `id export codec` where a manifest would be JSON.
struct Words;

impl ManifestDecoder for Words {
    fn decode(&self, json: &Vec<u8>) -> Result<WasmModuleManifest, String> {
        let text = String::from_utf8(json.clone()).map_err(|e| e.to_string())?;
        let words: Vec<&str> = text.split_whitespace().collect();
        if words.len() != 2 {
            return Err(format!("{} words", words.len()));
        }
        Ok(WasmModuleManifest {
            schema: WASM_MANIFEST_SCHEMA_V1.to_string(),
            module: WasmManifestModule {
                id: words[0].to_string(),
                version: "1.2.3".to_string(),
                abi: 1,
                codec: 1,
            },
            functions: vec![WasmManifestFunction {
                id: 1,
                name: "ADD".to_string(),
                aliases: vec!["PLUS".to_string()],
                export_name: words[1].to_string(),
                min_args: 2,
                max_args: Some(2),
                volatile: false,
                deterministic: true,
                thread_safe: false,
                params: Vec::new(),
                returns: None,
            }],
        })
    }
}

#[test]
fn modules_are_attached_under_their_manifest_id() {
    let mut wb = workbook(false);
    let bytes = module("plugin://b fn_add");
    let info = wb.inspect_wasm_module_bytes(&bytes, &Words).unwrap();
    assert_eq!(info.module_id, "plugin://b");
    assert_eq!(info.version, "1.2.3");
    assert_eq!(info.function_count, 1);
    assert_eq!(info.module_size_bytes, bytes.len());
    assert!(wb.list_wasm_modules().is_empty());

    wb.set_wasm_runtime(echo(None));
    assert_eq!(
        wb.register_wasm_module_bytes(" plugin://b ", &bytes, &Words).unwrap().module_id,
        "plugin://b"
    );
    assert_eq!(
        wb.attach_wasm_module_bytes("plugin://b", &bytes, &Words),
        Err(named(ExcelErrorKind::Name, "WASM module plugin://b is already registered"))
    );
    wb.attach_wasm_module_bytes("plugin://a", &module("plugin://a f"), &Words).unwrap();
    let ids: Vec<String> = wb.list_wasm_modules().into_iter().map(|i| i.module_id).collect();
    assert_eq!(ids, vec!["plugin://a".to_string(), "plugin://b".to_string()]);

    let mut other = workbook(false);
    other.set_wasm_runtime(echo(None));
    for id in ["plugin://b", "plugin://a"] {
        let bytes = if id == "plugin://b" { bytes.clone() } else { module("plugin://a f") };
        other.register_wasm_module_bytes(id, &bytes, &Words).unwrap();
    }
    assert_eq!(other.list_wasm_modules(), wb.list_wasm_modules());

    assert_eq!(wb.unregister_wasm_module(" plugin://b"), Ok(()));
    assert_eq!(
        wb.unregister_wasm_module("plugin://b"),
        Err(named(ExcelErrorKind::Name, "WASM module plugin://b is not registered"))
    );
    assert_eq!(wb.list_wasm_modules().len(), 1);
    assert_eq!(
        wb.unregister_wasm_module(" "),
        Err(named(ExcelErrorKind::Value, "WASM module_id cannot be empty"))
    );
}

#[test]
fn modules_are_refused_with_a_reason() {
    let mut wb = workbook(false);
    wb.set_wasm_runtime(echo(Some("plugin://kept")));
    assert_eq!(
        wb.register_wasm_module_bytes("plugin://x", &module("plugin://y f"), &Words),
        Err(named(
            ExcelErrorKind::Value,
            "WASM manifest module id mismatch: requested plugin://x, manifest plugin://y"
        ))
    );
    assert_eq!(
        wb.register_wasm_module_bytes("plugin://refused", &module("plugin://refused f"), &Words),
        Err(ExcelError::new(ExcelErrorKind::Calc))
    );
    assert_eq!(
        wb.inspect_wasm_module_bytes(&module("too many words here"), &Words),
        Err(named(ExcelErrorKind::Value, "Failed to parse WASM manifest JSON: 4 words"))
    );
    assert!(matches!(
        wb.inspect_wasm_module_bytes(b"not wasm", &Words),
        Err(e) if e.message.as_deref().unwrap().starts_with("Invalid WASM module bytes: ")
    ));
    let bare = b"\0asm\x01\0\0\0".to_vec();
    assert_eq!(
        wb.inspect_wasm_module_bytes(&bare, &Words),
        Err(named(
            ExcelErrorKind::Value,
            "WASM module is missing required custom section: formualizer.udf.manifest.v1"
        ))
    );
    let mut twice = module("plugin://x f");
    twice.extend(custom_section(WASM_MANIFEST_SECTION_V1, b"plugin://x f"));
    assert_eq!(
        wb.inspect_wasm_module_bytes(&twice, &Words),
        Err(named(
            ExcelErrorKind::Value,
            "WASM module has multiple formualizer manifest custom sections"
        ))
    );
    assert!(wb.list_wasm_modules().is_empty());

    wb.register_wasm_module_bytes("plugin://kept", &module("plugin://kept f"), &Words).unwrap();
    assert_eq!(
        wb.unregister_wasm_module("plugin://kept"),
        Err(ExcelError::new(ExcelErrorKind::Spill))
    );
    assert_eq!(wb.list_wasm_modules().len(), 1);
}

#[test]
fn wasm_functions_are_bound_to_exports() {
    let mut wb = workbook(false);
    let spec = WasmFunctionSpec::new("plugin://m", "fn_add", 1);
    assert_eq!(
        wb.register_wasm_function("add", options(), spec),
        Err(named(ExcelErrorKind::Name, "WASM module plugin://m is not registered"))
    );
    wb.register_wasm_module_bytes("plugin://m", &module("plugin://m fn_add"), &Words).unwrap();
    assert_eq!(
        wb.register_wasm_function("add", options(), WasmFunctionSpec::new("plugin://m", "g", 1)),
        Err(named(
            ExcelErrorKind::Name,
            "WASM export g is not declared in module plugin://m"
        ))
    );
    assert_eq!(
        wb.register_wasm_function("add", options(), WasmFunctionSpec::new("plugin://m", "fn_add", 2)),
        Err(named(
            ExcelErrorKind::NImpl,
            "WASM codec mismatch for ADD: spec codec 2 != module codec 1"
        ))
    );
    assert_eq!(
        wb.register_wasm_function("add", options(), WasmFunctionSpec::new(" ", "fn_add", 1)),
        Err(named(ExcelErrorKind::Value, "WASM function module_id cannot be empty"))
    );
    assert_eq!(
        wb.register_wasm_function("add", options(), WasmFunctionSpec::new("plugin://m", "", 1)),
        Err(named(ExcelErrorKind::Value, "WASM function export_name cannot be empty"))
    );
    // Nothing can be bound before a runtime is installed.
    assert_eq!(
        wb.register_wasm_function("add", options(), WasmFunctionSpec::new("plugin://m", "fn_add", 1)),
        Err(named(
            ExcelErrorKind::NImpl,
            "WASM plugin runtime integration is pending for ADD (module_id=plugin://m, \
             export_name=fn_add, codec_version=1)"
        ))
    );
    wb.set_wasm_runtime(echo(None));
    let mut spec = WasmFunctionSpec::new("plugin://m", "fn_add", 1);
    spec.runtime_hint = Some(WasmRuntimeHint::default());
    wb.bind_wasm_function("add", options(), spec).unwrap();
    let function = &wb.find_function("", "ADD").unwrap().function;
    assert_eq!(function.name(), "__WORKBOOK_WASM__");
    assert_eq!(
        function.invoke(&[LiteralValue::Int(1), LiteralValue::Int(2)]),
        Ok(text("plugin://m fn_add ADD 1 2 true"))
    );
    assert_eq!(
        function.finish(CallOutcome::Panicked),
        Err(named(ExcelErrorKind::Value, "WASM function runtime panicked"))
    );
}

fn file(path: &str, content: Result<Vec<u8>, &str>) -> ModuleFile {
    ModuleFile { path: path.to_string(), content: content.map_err(|e| e.to_string()) }
}

fn entry(name: &str, extension: Option<&str>) -> DirectoryEntry {
    DirectoryEntry::File {
        name: name.as_bytes().to_vec(),
        extension: extension.map(str::to_string),
    }
}

#[test]
fn module_files_are_chosen_by_their_extension() {
    let listing = DirectoryListing::Entries {
        entries: vec![
            entry("a.txt", Some("txt")),
            entry("m.WaSm", Some("WaSm")),
            DirectoryEntry::Other,
            entry("wasm", None),
            entry("b.wasm", Some("wasm")),
            entry("c.wasm2", Some("wasm2")),
            entry("Z.wasm", Some("wasm")),
            entry("b.a.wasm", Some("wasm")),
        ],
    };
    // Z.wasm, b.a.wasm, b.wasm, m.WaSm
    assert_eq!(collect_wasm_files_in_dir("d", &listing), Ok(vec![6, 7, 4, 1]));
    assert_eq!(
        collect_wasm_files_in_dir("d", &DirectoryListing::Missing),
        Err(named(
            ExcelErrorKind::Value,
            "WASM module directory does not exist or is not a directory: d"
        ))
    );
    assert_eq!(
        collect_wasm_files_in_dir("d", &DirectoryListing::Unreadable { reason: "no".to_string() }),
        Err(named(ExcelErrorKind::Value, "Failed to read WASM module directory d: no"))
    );
    let broken = DirectoryListing::Entries {
        entries: vec![
            entry("x.wasm", Some("wasm")),
            DirectoryEntry::Unreadable { reason: "gone".to_string() },
            DirectoryEntry::Unreadable { reason: "again".to_string() },
        ],
    };
    assert_eq!(
        collect_wasm_files_in_dir("d", &broken),
        Err(named(ExcelErrorKind::Value, "Failed to iterate WASM module directory d: gone"))
    );
}

#[test]
fn module_files_are_attached_up_to_the_first_failure() {
    let mut wb = workbook(false);
    wb.set_wasm_runtime(echo(None));
    let good = file("a.wasm", Ok(module("plugin://a f")));
    assert_eq!(
        wb.inspect_wasm_module_file(&good, &Words).unwrap().module_id,
        "plugin://a"
    );
    let missing = file("m.wasm", Err("not found"));
    let lost = named(ExcelErrorKind::Value, "Failed to read WASM module file m.wasm: not found");
    assert_eq!(wb.inspect_wasm_module_file(&missing, &Words), Err(lost.clone()));
    assert_eq!(wb.attach_wasm_module_file(&missing, &Words), Err(lost.clone()));

    let files = vec![
        file("a.wasm", Ok(module("plugin://a f"))),
        file("b.wasm", Ok(module("plugin://b f"))),
    ];
    let seen = wb.inspect_wasm_modules_dir(&files, &Words).unwrap();
    assert_eq!(seen.len(), 2);
    assert_eq!(seen[1].module_id, "plugin://b");
    assert!(wb.list_wasm_modules().is_empty());

    let files = vec![
        file("a.wasm", Ok(module("plugin://a f"))),
        file("m.wasm", Err("not found")),
        file("b.wasm", Ok(module("plugin://b f"))),
    ];
    assert_eq!(wb.inspect_wasm_modules_dir(&files, &Words), Err(lost.clone()));
    assert_eq!(wb.attach_wasm_modules_dir(&files, &Words), Err(lost));
    let ids: Vec<String> = wb.list_wasm_modules().into_iter().map(|i| i.module_id).collect();
    assert_eq!(ids, vec!["plugin://a".to_string()]);
    let attached = wb.attach_wasm_modules_dir(&vec![file("b", Ok(module("plugin://b f")))], &Words);
    assert_eq!(attached.unwrap()[0].module_id, "plugin://b");
}

/// A file with a value in A1, or with something wrong in it.
struct Source {
    settings: Option<CalcSettings<Option<u32>>>,
    broken: bool,
}

impl SpreadsheetReader<Mini> for Source {
    type Stats = u32;

    fn calc_settings(&mut self) -> Option<CalcSettings<Option<u32>>> {
        self.settings.take()
    }

    fn stream_into_engine(&mut self, engine: &mut Mini) -> Result<(), IoError> {
        if self.broken {
            return Err(backend("source", "broken"));
        }
        engine.must_add_sheet(SHEET);
        engine.set_cell_value(SHEET, 1, 1, &number(8.0)).map_err(IoError::Engine)
    }

    fn load_stats(&self) -> Option<u32> {
        Some(1)
    }
}

#[test]
fn file_settings_override_the_configuration() {
    let settings = CalcSettings {
        iteration: Some(50),
        calc_mode: Some("manual".to_string()),
        full_calc_on_load: Some(true),
    };
    let mut config = WorkbookConfig::interactive();
    config.eval.settings = Some(3);
    let source = Source { settings: Some(settings), broken: false };
    let (wb, stats) =
        Book::from_reader_with_adapter_stats(source, LoadStrategy::EagerAll, config).unwrap();
    assert_eq!(stats, Some(1));
    assert_eq!(wb.eval_config().settings, Some(50));
    assert_eq!(num(&wb, 1, 1), 8.0);
    let kept = wb.loaded_calc_settings().unwrap();
    assert_eq!(kept.calc_mode.as_deref(), Some("manual"));

    let mut file = FileHost::new(Sink::default());
    let bytes = wb.to_xlsx_bytes(&mut file).unwrap();
    assert_eq!(bytes, b"bytes Some(50) Some(\"manual\") Some(true)".to_vec());

    let mut config = WorkbookConfig::ephemeral();
    config.eval.settings = Some(3);
    let plain = Source { settings: None, broken: false };
    let wb = Book::from_reader_with_config(plain, LoadStrategy::EagerAll, config).unwrap();
    assert_eq!(wb.eval_config().settings, Some(3));
    assert!(wb.loaded_calc_settings().is_none());

    let broken = Source { settings: None, broken: true };
    assert!(matches!(
        Book::from_reader_with_mode(
            broken,
            LoadStrategy::EagerAll,
            formualizer_workbook::config::WorkbookMode::Ephemeral
        ),
        Err(e) if e == backend("source", "broken")
    ));
}

#[derive(Default)]
struct Sink {
    refuse: Option<&'static str>,
}

impl SpreadsheetFile<Option<u32>> for Sink {
    fn rename_sheet(&mut self, _old_name: &str, _new_name: &str) -> Result<(), String> {
        Ok(())
    }

    fn create_sheet(&mut self, _name: &str) -> Result<(), String> {
        Ok(())
    }

    fn write_cell(
        &mut self,
        _sheet: &str,
        _row: u32,
        _col: u32,
        data: &CellData,
    ) -> Result<(), String> {
        if data.style.is_some() {
            return Err("styled".to_string());
        }
        match self.refuse {
            Some(reason) => Err(reason.to_string()),
            None => Ok(()),
        }
    }

    fn save_to_bytes(&mut self) -> Result<Vec<u8>, String> {
        Ok(b"bytes".to_vec())
    }

    fn rewrite_calc_settings(
        &self,
        bytes: &Vec<u8>,
        settings: &CalcSettings<Option<u32>>,
    ) -> Result<Vec<u8>, String> {
        let mut out = bytes.clone();
        out.extend_from_slice(
            format!(
                " {:?} {:?} {:?}",
                settings.iteration, settings.calc_mode, settings.full_calc_on_load
            )
            .as_bytes(),
        );
        Ok(out)
    }
}

#[test]
fn file_refusals_end_the_export() {
    let mut wb = workbook(false);
    wb.set_value("Data", 1, 1, number(1.0)).unwrap();
    let mut file = FileHost::new(Sink { refuse: Some("disk full") });
    assert_eq!(wb.to_xlsx_bytes(&mut file), Err(backend("umya", "disk full")));
    let mut file = FileHost::new(Sink::default());
    assert_eq!(wb.to_xlsx_bytes(&mut file), Ok(b"bytes None None None".to_vec()));
}

#[test]
fn exported_cells_have_no_style() {
    let mut wb = workbook(false);
    let data = CellData { value: Some(number(2.0)), formula: None, style: Some(3) };
    SpreadsheetWriter::write_cell(&mut wb, SHEET, 1, 1, data).unwrap();
    let mut file = FileHost::new(Sink::default());
    assert_eq!(wb.to_xlsx_bytes(&mut file), Ok(b"bytes None None None".to_vec()));
}

#[test]
fn workbooks_can_be_written_to() {
    let mut wb = workbook(false);
    SpreadsheetWriter::create_sheet(&mut wb, SHEET).unwrap();
    let data = CellData { value: Some(number(2.0)), formula: None, style: Some(3) };
    SpreadsheetWriter::write_cell(&mut wb, SHEET, 1, 1, data).unwrap();
    let mut cells = BTreeMap::new();
    cells.insert((1, 2), CellData { value: None, formula: Some("=A1+5".to_string()), style: None });
    cells.insert((2, 1), CellData { value: Some(number(6.0)), formula: None, style: None });
    SpreadsheetWriter::write_range(&mut wb, SHEET, cells).unwrap();
    wb.evaluate_all().unwrap();
    assert_eq!(num(&wb, 1, 2), 7.0);
    SpreadsheetWriter::clear_range(&mut wb, SHEET, (1, 1), (2, 1)).unwrap();
    assert_eq!(wb.get_value(SHEET, 2, 1), Some(LiteralValue::Empty));
    assert_eq!(wb.get_value(SHEET, 1, 1), Some(LiteralValue::Empty));
    SpreadsheetWriter::rename_sheet(&mut wb, SHEET, "Other").unwrap();
    assert!(wb.has_sheet("Other"));
    assert_eq!(
        SpreadsheetWriter::create_sheet(&mut wb, "Other"),
        Err(engine_error(ExcelErrorKind::Value, "sheet Other exists"))
    );
    SpreadsheetWriter::delete_sheet(&mut wb, "Other").unwrap();
    SpreadsheetWriter::flush(&mut wb).unwrap();
    assert!(!wb.has_sheet("Other"));
}

#[test]
fn ranges_are_read_from_the_store_or_cell_by_cell() {
    let mut wb = workbook(false);
    wb.add_sheet(SHEET).unwrap();
    wb.set_values(SHEET, 1, 1, &[vec![LiteralValue::Int(1), text("a")]]).unwrap();
    assert_eq!(
        wb.read_range(&range(SHEET, 1, 1, 1, 2)),
        vec![vec![number(1.0), text("a")]]
    );
    assert_eq!(
        wb.read_range(&range("Nowhere", 1, 1, 2, 1)),
        vec![vec![LiteralValue::Empty], vec![LiteralValue::Empty]]
    );
    assert_eq!(wb.eval_config().date_system, DateSystem::Excel1900);
}

#[test]
fn resolvers_know_functions_and_nothing_else() {
    let mut wb = workbook(false);
    wb.register_custom_function("mine", options(), Arc::new(Joiner)).unwrap();
    let resolver = wb.resolver();
    assert!(matches!(
        resolver.get_function("", "Mine", Some(1)),
        Some(FoundFunction::Own(entry)) if entry.info.name == "MINE"
    ));
    assert!(matches!(
        resolver.get_function("", "SUM", Some(2)),
        Some(FoundFunction::Global(2))
    ));
    assert!(matches!(
        resolver.get_function("lib", "mine", Some(3)),
        Some(FoundFunction::Global(3))
    ));
    assert!(resolver.get_function::<u8>("", "OTHER", None).is_none());
    let unknown = ExcelError::new(ExcelErrorKind::NImpl);
    assert_eq!(resolver.resolve_cell_reference(None, 1, 1), Err(unknown.clone()));
    assert_eq!(
        resolver.resolve_range_reference(Some(SHEET), (Some(1), None), (None, None)),
        Err(unknown.clone())
    );
    assert_eq!(resolver.resolve_table_reference("T"), Err(unknown));
    assert_eq!(
        resolver.resolve_named_range_reference("rate"),
        Err(named(ExcelErrorKind::Name, "Undefined name: rate"))
    );
}
