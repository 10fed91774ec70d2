//! An engine together with the record of the calls made to it.

use crate::config::EvalConfig;
use crate::engine::{
    flags_of, targets_view, texts_view, CellRef, CellState, EngineEvent, EngineFlags, NameScope,
    NamedDefinition, WorkbookEngine,
};
use crate::error::{EditorError, ExcelError};
use crate::resolver::WBResolver;
use crate::text::text_view;
use crate::value::{LiteralValue, OverlayValue};
use vstd::prelude::*;

verus! {

/// An engine and its history. Each method makes one call and adds it to the
/// history with its answer.
pub struct Host<E: WorkbookEngine> {
    engine: E,
    history: Ghost<Seq<EngineEvent<E>>>,
}

impl<E: WorkbookEngine> Host<E> {
    /// The engine as it stands.
    pub closed spec fn engine(&self) -> E {
        self.engine
    }

    /// The calls made so far, in order.
    pub closed spec fn history(&self) -> Seq<EngineEvent<E>> {
        self.history@
    }

    pub(crate) fn create(
        resolver: WBResolver<E::Handler, E::Runtime>,
        config: EvalConfig<E::Settings>,
    ) -> (h: Host<E>)
        ensures
            call_ensures(E::create, (resolver, config), h.engine()),
            h.history() == seq![
                EngineEvent::<E>::Create { functions: resolver.functions(), config },
            ],
    {
        let ghost made: Seq<EngineEvent<E>> = seq![
            EngineEvent::Create { functions: resolver.functions(), config },
        ];
        let engine = E::create(resolver, config);
        Host { engine, history: Ghost(made) }
    }

    pub(crate) fn set_resolver(&mut self, resolver: WBResolver<E::Handler, E::Runtime>)
        ensures
            final(self).history() == old(self).history().push(
                EngineEvent::SetResolver { functions: resolver.functions() },
            ),
            exists|m: &mut E|
                *m == old(self).engine() && *final(m) == final(self).engine()
                    && #[trigger] call_ensures(E::set_resolver, (m, resolver), ()),
    {
        proof {
            self.history@ = self.history@.push(
                EngineEvent::SetResolver { functions: resolver.functions() },
            );
        }
        self.engine.set_resolver(resolver);
    }

    pub(crate) fn peek(&self) -> (e: &E)
        ensures
            *e == self.engine(),
    {
        &self.engine
    }

    pub(crate) fn hand_out(&mut self) -> (e: &mut E)
        ensures
            *e == old(self).engine(),
            final(self).engine() == *final(e),
            final(self).history() == old(self).history().push(EngineEvent::HandedOut),
    {
        proof {
            self.history@ = self.history@.push(EngineEvent::HandedOut);
        }
        &mut self.engine
    }

    pub(crate) fn flags(&mut self) -> (r: EngineFlags)
        ensures
            final(self).history() == old(self).history().push(EngineEvent::Flags { reply: r }),
            final(self).engine() == old(self).engine(),
            exists|config: &EvalConfig<E::Settings>| #[trigger]
                call_ensures(E::config, (&old(self).engine(),), config) && r == flags_of(*config),
    {
        let config = self.engine.config();
        let r = EngineFlags {
            defer_graph_building: config.defer_graph_building,
            arrow_storage_enabled: config.arrow_storage_enabled,
            delta_overlay_enabled: config.delta_overlay_enabled,
            date_system: config.date_system,
        };
        proof {
            self.history@ = self.history@.push(EngineEvent::Flags { reply: r });
        }
        r
    }

    pub(crate) fn sheet_id(&mut self, name: &str) -> (r: Option<u32>)
        ensures
            final(self).history() == old(self).history().push(
                EngineEvent::SheetId { name: name@, reply: r },
            ),
            call_ensures(E::sheet_id, (&old(self).engine(), name), r),
            final(self).engine() == old(self).engine(),
    {
        let r = self.engine.sheet_id(name);
        proof {
            self.history@ = self.history@.push(EngineEvent::SheetId { name: name@, reply: r });
        }
        r
    }

    pub(crate) fn add_sheet(&mut self, name: &str) -> (r: Result<u32, ExcelError>)
        ensures
            final(self).history() == old(self).history().push(
                EngineEvent::AddSheet { name: name@, reply: r },
            ),
            exists|m: &mut E|
                *m == old(self).engine() && *final(m) == final(self).engine()
                    && #[trigger] call_ensures(E::add_sheet, (m, name), r),
    {
        let r = self.engine.add_sheet(name);
        proof {
            self.history@ = self.history@.push(EngineEvent::AddSheet { name: name@, reply: r });
        }
        r
    }

    pub(crate) fn must_add_sheet(&mut self, name: &str) -> (r: u32)
        ensures
            final(self).history() == old(self).history().push(
                EngineEvent::MustAddSheet { name: name@, reply: r },
            ),
            exists|m: &mut E|
                *m == old(self).engine() && *final(m) == final(self).engine()
                    && #[trigger] call_ensures(E::must_add_sheet, (m, name), r),
    {
        let r = self.engine.must_add_sheet(name);
        proof {
            self.history@ = self.history@.push(EngineEvent::MustAddSheet { name: name@, reply: r });
        }
        r
    }

    pub(crate) fn duplicate_sheet(
        &mut self,
        source: &str,
        new_name: &str,
    ) -> (r: Result<(), ExcelError>)
        ensures
            final(self).history() == old(self).history().push(
                EngineEvent::DuplicateSheet { source: source@, new_name: new_name@, reply: r },
            ),
            exists|m: &mut E|
                *m == old(self).engine() && *final(m) == final(self).engine()
                    && #[trigger] call_ensures(E::duplicate_sheet, (m, source, new_name), r),
    {
        let r = self.engine.duplicate_sheet(source, new_name);
        proof {
            self.history@ = self.history@.push(
                EngineEvent::DuplicateSheet { source: source@, new_name: new_name@, reply: r },
            );
        }
        r
    }

    pub(crate) fn remove_sheet(&mut self, id: u32) -> (r: Result<(), ExcelError>)
        ensures
            final(self).history() == old(self).history().push(
                EngineEvent::RemoveSheet { id, reply: r },
            ),
            exists|m: &mut E|
                *m == old(self).engine() && *final(m) == final(self).engine()
                    && #[trigger] call_ensures(E::remove_sheet, (m, id), r),
    {
        let r = self.engine.remove_sheet(id);
        proof {
            self.history@ = self.history@.push(EngineEvent::RemoveSheet { id, reply: r });
        }
        r
    }

    pub(crate) fn rename_sheet(&mut self, id: u32, new_name: &str) -> (r: Result<(), ExcelError>)
        ensures
            final(self).history() == old(self).history().push(
                EngineEvent::RenameSheet { id, new_name: new_name@, reply: r },
            ),
            exists|m: &mut E|
                *m == old(self).engine() && *final(m) == final(self).engine()
                    && #[trigger] call_ensures(E::rename_sheet, (m, id, new_name), r),
    {
        let r = self.engine.rename_sheet(id, new_name);
        proof {
            self.history@ = self.history@.push(
                EngineEvent::RenameSheet { id, new_name: new_name@, reply: r },
            );
        }
        r
    }

    pub(crate) fn has_store_sheet(&mut self, sheet: &str) -> (r: bool)
        ensures
            final(self).history() == old(self).history().push(
                EngineEvent::HasStoreSheet { sheet: sheet@, reply: r },
            ),
            call_ensures(E::has_store_sheet, (&old(self).engine(), sheet), r),
            final(self).engine() == old(self).engine(),
    {
        let r = self.engine.has_store_sheet(sheet);
        proof {
            self.history@ = self.history@.push(
                EngineEvent::HasStoreSheet { sheet: sheet@, reply: r },
            );
        }
        r
    }

    pub(crate) fn store_rows(&mut self, sheet: &str) -> (r: u32)
        ensures
            final(self).history() == old(self).history().push(
                EngineEvent::StoreRows { sheet: sheet@, reply: r },
            ),
            call_ensures(E::store_rows, (&old(self).engine(), sheet), r),
            final(self).engine() == old(self).engine(),
    {
        let r = self.engine.store_rows(sheet);
        proof {
            self.history@ = self.history@.push(EngineEvent::StoreRows { sheet: sheet@, reply: r });
        }
        r
    }

    pub(crate) fn store_columns(&mut self, sheet: &str) -> (r: usize)
        ensures
            final(self).history() == old(self).history().push(
                EngineEvent::StoreColumns { sheet: sheet@, reply: r },
            ),
            call_ensures(E::store_columns, (&old(self).engine(), sheet), r),
            final(self).engine() == old(self).engine(),
    {
        let r = self.engine.store_columns(sheet);
        proof {
            self.history@ = self.history@.push(
                EngineEvent::StoreColumns { sheet: sheet@, reply: r },
            );
        }
        r
    }

    pub(crate) fn chunk_of_row(&mut self, sheet: &str, row0: usize) -> (r: Option<(usize, usize)>)
        ensures
            final(self).history() == old(self).history().push(
                EngineEvent::ChunkOfRow { sheet: sheet@, row0, reply: r },
            ),
            call_ensures(E::chunk_of_row, (&old(self).engine(), sheet, row0), r),
            final(self).engine() == old(self).engine(),
    {
        let r = self.engine.chunk_of_row(sheet, row0);
        proof {
            self.history@ = self.history@.push(
                EngineEvent::ChunkOfRow { sheet: sheet@, row0, reply: r },
            );
        }
        r
    }

    pub(crate) fn push_store_sheet(&mut self, sheet: &str, chunk_rows: usize)
        ensures
            final(self).history() == old(self).history().push(
                EngineEvent::PushStoreSheet { sheet: sheet@, chunk_rows },
            ),
            exists|m: &mut E|
                *m == old(self).engine() && *final(m) == final(self).engine()
                    && #[trigger] call_ensures(E::push_store_sheet, (m, sheet, chunk_rows), ()),
    {
        self.engine.push_store_sheet(sheet, chunk_rows);
        proof {
            self.history@ = self.history@.push(
                EngineEvent::PushStoreSheet { sheet: sheet@, chunk_rows },
            );
        }
    }

    pub(crate) fn ensure_store_rows(&mut self, sheet: &str, rows: usize)
        ensures
            final(self).history() == old(self).history().push(
                EngineEvent::EnsureStoreRows { sheet: sheet@, rows },
            ),
            exists|m: &mut E|
                *m == old(self).engine() && *final(m) == final(self).engine()
                    && #[trigger] call_ensures(E::ensure_store_rows, (m, sheet, rows), ()),
    {
        self.engine.ensure_store_rows(sheet, rows);
        proof {
            self.history@ = self.history@.push(
                EngineEvent::EnsureStoreRows { sheet: sheet@, rows },
            );
        }
    }

    pub(crate) fn insert_store_columns(&mut self, sheet: &str, at: usize, count: usize)
        ensures
            final(self).history() == old(self).history().push(
                EngineEvent::InsertStoreColumns { sheet: sheet@, at, count },
            ),
            exists|m: &mut E|
                *m == old(self).engine() && *final(m) == final(self).engine()
                    && #[trigger] call_ensures(E::insert_store_columns, (m, sheet, at, count), ()),
    {
        self.engine.insert_store_columns(sheet, at, count);
        proof {
            self.history@ = self.history@.push(
                EngineEvent::InsertStoreColumns { sheet: sheet@, at, count },
            );
        }
    }

    pub(crate) fn ensure_column_chunk(
        &mut self,
        sheet: &str,
        col0: usize,
        chunk: usize,
    ) -> (r: bool)
        ensures
            final(self).history() == old(self).history().push(
                EngineEvent::EnsureColumnChunk { sheet: sheet@, col0, chunk, reply: r },
            ),
            exists|m: &mut E|
                *m == old(self).engine() && *final(m) == final(self).engine()
                    && #[trigger] call_ensures(E::ensure_column_chunk, (m, sheet, col0, chunk), r),
    {
        let r = self.engine.ensure_column_chunk(sheet, col0, chunk);
        proof {
            self.history@ = self.history@.push(
                EngineEvent::EnsureColumnChunk { sheet: sheet@, col0, chunk, reply: r },
            );
        }
        r
    }

    pub(crate) fn set_overlay(
        &mut self,
        sheet: &str,
        col0: usize,
        chunk: usize,
        offset: usize,
        value: &OverlayValue,
    )
        ensures
            final(self).history() == old(self).history().push(
                EngineEvent::SetOverlay { sheet: sheet@, col0, chunk, offset, value: *value },
            ),
            exists|m: &mut E|
                *m == old(self).engine() && *final(m) == final(self).engine()
                    && #[trigger] call_ensures(
                        E::set_overlay,
                        (m, sheet, col0, chunk, offset, value),
                        (),
                    ),
    {
        self.engine.set_overlay(sheet, col0, chunk, offset, value);
        proof {
            self.history@ = self.history@.push(
                EngineEvent::SetOverlay { sheet: sheet@, col0, chunk, offset, value: *value },
            );
        }
    }

    pub(crate) fn drop_store_sheet(&mut self, sheet: &str)
        ensures
            final(self).history() == old(self).history().push(
                EngineEvent::DropStoreSheet { sheet: sheet@ },
            ),
            exists|m: &mut E|
                *m == old(self).engine() && *final(m) == final(self).engine()
                    && #[trigger] call_ensures(E::drop_store_sheet, (m, sheet), ()),
    {
        self.engine.drop_store_sheet(sheet);
        proof {
            self.history@ = self.history@.push(EngineEvent::DropStoreSheet { sheet: sheet@ });
        }
    }

    pub(crate) fn rename_store_sheet(&mut self, sheet: &str, new_name: &str)
        ensures
            final(self).history() == old(self).history().push(
                EngineEvent::RenameStoreSheet { sheet: sheet@, new_name: new_name@ },
            ),
            exists|m: &mut E|
                *m == old(self).engine() && *final(m) == final(self).engine()
                    && #[trigger] call_ensures(E::rename_store_sheet, (m, sheet, new_name), ()),
    {
        self.engine.rename_store_sheet(sheet, new_name);
        proof {
            self.history@ = self.history@.push(
                EngineEvent::RenameStoreSheet { sheet: sheet@, new_name: new_name@ },
            );
        }
    }

    pub(crate) fn get_cell_value(
        &mut self,
        sheet: &str,
        row: u32,
        col: u32,
    ) -> (r: Option<LiteralValue>)
        ensures
            final(self).history() == old(self).history().push(
                EngineEvent::GetCellValue { sheet: sheet@, row, col, reply: r },
            ),
            call_ensures(E::get_cell_value, (&old(self).engine(), sheet, row, col), r),
            final(self).engine() == old(self).engine(),
    {
        let r = self.engine.get_cell_value(sheet, row, col);
        proof {
            self.history@ = self.history@.push(
                EngineEvent::GetCellValue { sheet: sheet@, row, col, reply: r },
            );
        }
        r
    }

    pub(crate) fn get_cell(&mut self, sheet: &str, row: u32, col: u32) -> (r: Option<CellState>)
        ensures
            final(self).history() == old(self).history().push(
                EngineEvent::GetCell { sheet: sheet@, row, col, reply: r },
            ),
            call_ensures(E::get_cell, (&old(self).engine(), sheet, row, col), r),
            final(self).engine() == old(self).engine(),
    {
        let r = self.engine.get_cell(sheet, row, col);
        proof {
            self.history@ = self.history@.push(
                EngineEvent::GetCell { sheet: sheet@, row, col, reply: r },
            );
        }
        r
    }

    pub(crate) fn set_cell_value(
        &mut self,
        sheet: &str,
        row: u32,
        col: u32,
        value: &LiteralValue,
    ) -> (r: Result<(), ExcelError>)
        ensures
            final(self).history() == old(self).history().push(
                EngineEvent::SetCellValue { sheet: sheet@, row, col, value: *value, reply: r },
            ),
            exists|m: &mut E|
                *m == old(self).engine() && *final(m) == final(self).engine()
                    && #[trigger] call_ensures(E::set_cell_value, (m, sheet, row, col, value), r),
    {
        let r = self.engine.set_cell_value(sheet, row, col, value);
        proof {
            self.history@ = self.history@.push(
                EngineEvent::SetCellValue { sheet: sheet@, row, col, value: *value, reply: r },
            );
        }
        r
    }

    pub(crate) fn set_cell_formula(
        &mut self,
        sheet: &str,
        row: u32,
        col: u32,
        tree: &formualizer_parse::ASTNode,
    ) -> (r: Result<(), ExcelError>)
        ensures
            final(self).history() == old(self).history().push(
                EngineEvent::SetCellFormula { sheet: sheet@, row, col, tree: *tree, reply: r },
            ),
            exists|m: &mut E|
                *m == old(self).engine() && *final(m) == final(self).engine()
                    && #[trigger] call_ensures(E::set_cell_formula, (m, sheet, row, col, tree), r),
    {
        let r = self.engine.set_cell_formula(sheet, row, col, tree);
        proof {
            self.history@ = self.history@.push(
                EngineEvent::SetCellFormula { sheet: sheet@, row, col, tree: *tree, reply: r },
            );
        }
        r
    }

    pub(crate) fn mark_data_edited(&mut self)
        ensures
            final(self).history() == old(self).history().push(EngineEvent::MarkDataEdited),
            exists|m: &mut E|
                *m == old(self).engine() && *final(m) == final(self).engine()
                    && #[trigger] call_ensures(E::mark_data_edited, (m,), ()),
    {
        self.engine.mark_data_edited();
        proof {
            self.history@ = self.history@.push(EngineEvent::MarkDataEdited);
        }
    }

    pub(crate) fn begin_deferred_dirty(&mut self)
        ensures
            final(self).history() == old(self).history().push(EngineEvent::BeginDeferredDirty),
            exists|m: &mut E|
                *m == old(self).engine() && *final(m) == final(self).engine()
                    && #[trigger] call_ensures(E::begin_deferred_dirty, (m,), ()),
    {
        self.engine.begin_deferred_dirty();
        proof {
            self.history@ = self.history@.push(EngineEvent::BeginDeferredDirty);
        }
    }

    pub(crate) fn end_deferred_dirty(&mut self)
        ensures
            final(self).history() == old(self).history().push(EngineEvent::EndDeferredDirty),
            exists|m: &mut E|
                *m == old(self).engine() && *final(m) == final(self).engine()
                    && #[trigger] call_ensures(E::end_deferred_dirty, (m,), ()),
    {
        self.engine.end_deferred_dirty();
        proof {
            self.history@ = self.history@.push(EngineEvent::EndDeferredDirty);
        }
    }

    pub(crate) fn staged_formula_text(
        &mut self,
        sheet: &str,
        row: u32,
        col: u32,
    ) -> (r: Option<String>)
        ensures
            final(self).history() == old(self).history().push(
                EngineEvent::StagedFormulaText { sheet: sheet@, row, col, reply: text_view(r) },
            ),
            call_ensures(E::staged_formula_text, (&old(self).engine(), sheet, row, col), r),
            final(self).engine() == old(self).engine(),
    {
        let r = self.engine.staged_formula_text(sheet, row, col);
        proof {
            self.history@ = self.history@.push(
                EngineEvent::StagedFormulaText { sheet: sheet@, row, col, reply: text_view(r) },
            );
        }
        r
    }

    pub(crate) fn stage_formula_text(&mut self, sheet: &str, row: u32, col: u32, formula: &str)
        ensures
            final(self).history() == old(self).history().push(
                EngineEvent::StageFormulaText { sheet: sheet@, row, col, formula: formula@ },
            ),
            exists|m: &mut E|
                *m == old(self).engine() && *final(m) == final(self).engine()
                    && #[trigger] call_ensures(
                        E::stage_formula_text,
                        (m, sheet, row, col, formula),
                        (),
                    ),
    {
        self.engine.stage_formula_text(sheet, row, col, formula);
        proof {
            self.history@ = self.history@.push(
                EngineEvent::StageFormulaText { sheet: sheet@, row, col, formula: formula@ },
            );
        }
    }

    pub(crate) fn clear_staged_formula_text(&mut self, sheet: &str, row: u32, col: u32)
        ensures
            final(self).history() == old(self).history().push(
                EngineEvent::ClearStagedFormulaText { sheet: sheet@, row, col },
            ),
            exists|m: &mut E|
                *m == old(self).engine() && *final(m) == final(self).engine()
                    && #[trigger] call_ensures(
                        E::clear_staged_formula_text,
                        (m, sheet, row, col),
                        (),
                    ),
    {
        self.engine.clear_staged_formula_text(sheet, row, col);
        proof {
            self.history@ = self.history@.push(
                EngineEvent::ClearStagedFormulaText { sheet: sheet@, row, col },
            );
        }
    }

    pub(crate) fn clear_staged_formulas_for_sheet(&mut self, sheet: &str)
        ensures
            final(self).history() == old(self).history().push(
                EngineEvent::ClearStagedFormulasForSheet { sheet: sheet@ },
            ),
            exists|m: &mut E|
                *m == old(self).engine() && *final(m) == final(self).engine()
                    && #[trigger] call_ensures(E::clear_staged_formulas_for_sheet, (m, sheet), ()),
    {
        self.engine.clear_staged_formulas_for_sheet(sheet);
        proof {
            self.history@ = self.history@.push(
                EngineEvent::ClearStagedFormulasForSheet { sheet: sheet@ },
            );
        }
    }

    pub(crate) fn rename_staged_formula_sheet(&mut self, old_name: &str, new_name: &str)
        ensures
            final(self).history() == old(self).history().push(
                EngineEvent::RenameStagedFormulaSheet { old_name: old_name@, new_name: new_name@ },
            ),
            exists|m: &mut E|
                *m == old(self).engine() && *final(m) == final(self).engine()
                    && #[trigger] call_ensures(
                        E::rename_staged_formula_sheet,
                        (m, old_name, new_name),
                        (),
                    ),
    {
        self.engine.rename_staged_formula_sheet(old_name, new_name);
        proof {
            self.history@ = self.history@.push(
                EngineEvent::RenameStagedFormulaSheet { old_name: old_name@, new_name: new_name@ },
            );
        }
    }

    pub(crate) fn edit_begin(&mut self)
        ensures
            final(self).history() == old(self).history().push(EngineEvent::EditBegin),
            exists|m: &mut E|
                *m == old(self).engine() && *final(m) == final(self).engine()
                    && #[trigger] call_ensures(E::edit_begin, (m,), ()),
    {
        self.engine.edit_begin();
        proof {
            self.history@ = self.history@.push(EngineEvent::EditBegin);
        }
    }

    pub(crate) fn edit_set_value(&mut self, cell: CellRef, value: &LiteralValue)
        ensures
            final(self).history() == old(self).history().push(
                EngineEvent::EditSetValue { cell, value: *value },
            ),
            exists|m: &mut E|
                *m == old(self).engine() && *final(m) == final(self).engine()
                    && #[trigger] call_ensures(E::edit_set_value, (m, cell, value), ()),
    {
        self.engine.edit_set_value(cell, value);
        proof {
            self.history@ = self.history@.push(EngineEvent::EditSetValue { cell, value: *value });
        }
    }

    pub(crate) fn edit_set_value_with_old_state(
        &mut self,
        cell: CellRef,
        value: &LiteralValue,
        old_value: &Option<LiteralValue>,
        old_formula: &Option<formualizer_parse::ASTNode>,
    )
        ensures
            final(self).history() == old(self).history().push(
                EngineEvent::EditSetValueWithOldState {
                    cell,
                    value: *value,
                    old_value: *old_value,
                    old_formula: *old_formula,
                },
            ),
            exists|m: &mut E|
                *m == old(self).engine() && *final(m) == final(self).engine()
                    && #[trigger] call_ensures(
                        E::edit_set_value_with_old_state,
                        (m, cell, value, old_value, old_formula),
                        (),
                    ),
    {
        self.engine.edit_set_value_with_old_state(cell, value, old_value, old_formula);
        proof {
            self.history@ = self.history@.push(
                EngineEvent::EditSetValueWithOldState {
                    cell,
                    value: *value,
                    old_value: *old_value,
                    old_formula: *old_formula,
                },
            );
        }
    }

    pub(crate) fn edit_set_formula(&mut self, cell: CellRef, tree: &formualizer_parse::ASTNode)
        ensures
            final(self).history() == old(self).history().push(
                EngineEvent::EditSetFormula { cell, tree: *tree },
            ),
            exists|m: &mut E|
                *m == old(self).engine() && *final(m) == final(self).engine()
                    && #[trigger] call_ensures(E::edit_set_formula, (m, cell, tree), ()),
    {
        self.engine.edit_set_formula(cell, tree);
        proof {
            self.history@ = self.history@.push(EngineEvent::EditSetFormula { cell, tree: *tree });
        }
    }

    pub(crate) fn edit_set_formula_with_old_state(
        &mut self,
        cell: CellRef,
        tree: &formualizer_parse::ASTNode,
        old_value: &Option<LiteralValue>,
        old_formula: &Option<formualizer_parse::ASTNode>,
    )
        ensures
            final(self).history() == old(self).history().push(
                EngineEvent::EditSetFormulaWithOldState {
                    cell,
                    tree: *tree,
                    old_value: *old_value,
                    old_formula: *old_formula,
                },
            ),
            exists|m: &mut E|
                *m == old(self).engine() && *final(m) == final(self).engine()
                    && #[trigger] call_ensures(
                        E::edit_set_formula_with_old_state,
                        (m, cell, tree, old_value, old_formula),
                        (),
                    ),
    {
        self.engine.edit_set_formula_with_old_state(cell, tree, old_value, old_formula);
        proof {
            self.history@ = self.history@.push(
                EngineEvent::EditSetFormulaWithOldState {
                    cell,
                    tree: *tree,
                    old_value: *old_value,
                    old_formula: *old_formula,
                },
            );
        }
    }

    pub(crate) fn edit_define_name(
        &mut self,
        name: &str,
        definition: &NamedDefinition,
        scope: NameScope,
    ) -> (r: Result<(), EditorError>)
        ensures
            final(self).history() == old(self).history().push(
                EngineEvent::EditDefineName {
                    name: name@,
                    definition: *definition,
                    scope,
                    reply: r,
                },
            ),
            exists|m: &mut E|
                *m == old(self).engine() && *final(m) == final(self).engine()
                    && #[trigger] call_ensures(
                        E::edit_define_name,
                        (m, name, definition, scope),
                        r,
                    ),
    {
        let r = self.engine.edit_define_name(name, definition, scope);
        proof {
            self.history@ = self.history@.push(
                EngineEvent::EditDefineName {
                    name: name@,
                    definition: *definition,
                    scope,
                    reply: r,
                },
            );
        }
        r
    }

    pub(crate) fn edit_update_name(
        &mut self,
        name: &str,
        definition: &NamedDefinition,
        scope: NameScope,
    ) -> (r: Result<(), EditorError>)
        ensures
            final(self).history() == old(self).history().push(
                EngineEvent::EditUpdateName {
                    name: name@,
                    definition: *definition,
                    scope,
                    reply: r,
                },
            ),
            exists|m: &mut E|
                *m == old(self).engine() && *final(m) == final(self).engine()
                    && #[trigger] call_ensures(
                        E::edit_update_name,
                        (m, name, definition, scope),
                        r,
                    ),
    {
        let r = self.engine.edit_update_name(name, definition, scope);
        proof {
            self.history@ = self.history@.push(
                EngineEvent::EditUpdateName {
                    name: name@,
                    definition: *definition,
                    scope,
                    reply: r,
                },
            );
        }
        r
    }

    pub(crate) fn edit_delete_name(
        &mut self,
        name: &str,
        scope: NameScope,
    ) -> (r: Result<(), EditorError>)
        ensures
            final(self).history() == old(self).history().push(
                EngineEvent::EditDeleteName { name: name@, scope, reply: r },
            ),
            exists|m: &mut E|
                *m == old(self).engine() && *final(m) == final(self).engine()
                    && #[trigger] call_ensures(E::edit_delete_name, (m, name, scope), r),
    {
        let r = self.engine.edit_delete_name(name, scope);
        proof {
            self.history@ = self.history@.push(
                EngineEvent::EditDeleteName { name: name@, scope, reply: r },
            );
        }
        r
    }

    pub(crate) fn edit_end(&mut self)
        ensures
            final(self).history() == old(self).history().push(EngineEvent::EditEnd),
            exists|m: &mut E|
                *m == old(self).engine() && *final(m) == final(self).engine()
                    && #[trigger] call_ensures(E::edit_end, (m,), ()),
    {
        self.engine.edit_end();
        proof {
            self.history@ = self.history@.push(EngineEvent::EditEnd);
        }
    }

    pub(crate) fn define_name(
        &mut self,
        name: &str,
        definition: &NamedDefinition,
        scope: NameScope,
    ) -> (r: Result<(), ExcelError>)
        ensures
            final(self).history() == old(self).history().push(
                EngineEvent::DefineName { name: name@, definition: *definition, scope, reply: r },
            ),
            exists|m: &mut E|
                *m == old(self).engine() && *final(m) == final(self).engine()
                    && #[trigger] call_ensures(E::define_name, (m, name, definition, scope), r),
    {
        let r = self.engine.define_name(name, definition, scope);
        proof {
            self.history@ = self.history@.push(
                EngineEvent::DefineName { name: name@, definition: *definition, scope, reply: r },
            );
        }
        r
    }

    pub(crate) fn update_name(
        &mut self,
        name: &str,
        definition: &NamedDefinition,
        scope: NameScope,
    ) -> (r: Result<(), ExcelError>)
        ensures
            final(self).history() == old(self).history().push(
                EngineEvent::UpdateName { name: name@, definition: *definition, scope, reply: r },
            ),
            exists|m: &mut E|
                *m == old(self).engine() && *final(m) == final(self).engine()
                    && #[trigger] call_ensures(E::update_name, (m, name, definition, scope), r),
    {
        let r = self.engine.update_name(name, definition, scope);
        proof {
            self.history@ = self.history@.push(
                EngineEvent::UpdateName { name: name@, definition: *definition, scope, reply: r },
            );
        }
        r
    }

    pub(crate) fn delete_name(
        &mut self,
        name: &str,
        scope: NameScope,
    ) -> (r: Result<(), ExcelError>)
        ensures
            final(self).history() == old(self).history().push(
                EngineEvent::DeleteName { name: name@, scope, reply: r },
            ),
            exists|m: &mut E|
                *m == old(self).engine() && *final(m) == final(self).engine()
                    && #[trigger] call_ensures(E::delete_name, (m, name, scope), r),
    {
        let r = self.engine.delete_name(name, scope);
        proof {
            self.history@ = self.history@.push(
                EngineEvent::DeleteName { name: name@, scope, reply: r },
            );
        }
        r
    }

    pub(crate) fn set_row_hidden(
        &mut self,
        sheet: &str,
        row: u32,
        hidden: bool,
    ) -> (r: Result<(), EditorError>)
        ensures
            final(self).history() == old(self).history().push(
                EngineEvent::SetRowHidden { sheet: sheet@, row, hidden, reply: r },
            ),
            exists|m: &mut E|
                *m == old(self).engine() && *final(m) == final(self).engine()
                    && #[trigger] call_ensures(E::set_row_hidden, (m, sheet, row, hidden), r),
    {
        let r = self.engine.set_row_hidden(sheet, row, hidden);
        proof {
            self.history@ = self.history@.push(
                EngineEvent::SetRowHidden { sheet: sheet@, row, hidden, reply: r },
            );
        }
        r
    }

    pub(crate) fn set_rows_hidden(
        &mut self,
        sheet: &str,
        start_row: u32,
        end_row: u32,
        hidden: bool,
    ) -> (r: Result<(), EditorError>)
        ensures
            final(self).history() == old(self).history().push(
                EngineEvent::SetRowsHidden { sheet: sheet@, start_row, end_row, hidden, reply: r },
            ),
            exists|m: &mut E|
                *m == old(self).engine() && *final(m) == final(self).engine()
                    && #[trigger] call_ensures(
                        E::set_rows_hidden,
                        (m, sheet, start_row, end_row, hidden),
                        r,
                    ),
    {
        let r = self.engine.set_rows_hidden(sheet, start_row, end_row, hidden);
        proof {
            self.history@ = self.history@.push(
                EngineEvent::SetRowsHidden { sheet: sheet@, start_row, end_row, hidden, reply: r },
            );
        }
        r
    }

    pub(crate) fn action_begin(&mut self, logged: bool, name: &str) -> (r: Result<(), EditorError>)
        ensures
            final(self).history() == old(self).history().push(
                EngineEvent::ActionBegin { logged, name: name@, reply: r },
            ),
            exists|m: &mut E|
                *m == old(self).engine() && *final(m) == final(self).engine()
                    && #[trigger] call_ensures(E::action_begin, (m, logged, name), r),
    {
        let r = self.engine.action_begin(logged, name);
        proof {
            self.history@ = self.history@.push(
                EngineEvent::ActionBegin { logged, name: name@, reply: r },
            );
        }
        r
    }

    pub(crate) fn action_commit(&mut self) -> (r: Result<(), EditorError>)
        ensures
            final(self).history() == old(self).history().push(
                EngineEvent::ActionCommit { reply: r },
            ),
            exists|m: &mut E|
                *m == old(self).engine() && *final(m) == final(self).engine()
                    && #[trigger] call_ensures(E::action_commit, (m,), r),
    {
        let r = self.engine.action_commit();
        proof {
            self.history@ = self.history@.push(EngineEvent::ActionCommit { reply: r });
        }
        r
    }

    pub(crate) fn action_abort(&mut self, reason: &str)
        ensures
            final(self).history() == old(self).history().push(
                EngineEvent::ActionAbort { reason: reason@ },
            ),
            exists|m: &mut E|
                *m == old(self).engine() && *final(m) == final(self).engine()
                    && #[trigger] call_ensures(E::action_abort, (m, reason), ()),
    {
        self.engine.action_abort(reason);
        proof {
            self.history@ = self.history@.push(EngineEvent::ActionAbort { reason: reason@ });
        }
    }

    pub(crate) fn push_action_journal(&mut self)
        ensures
            final(self).history() == old(self).history().push(EngineEvent::PushActionJournal),
            exists|m: &mut E|
                *m == old(self).engine() && *final(m) == final(self).engine()
                    && #[trigger] call_ensures(E::push_action_journal, (m,), ()),
    {
        self.engine.push_action_journal();
        proof {
            self.history@ = self.history@.push(EngineEvent::PushActionJournal);
        }
    }

    pub(crate) fn tx_set_value(
        &mut self,
        sheet: &str,
        row: u32,
        col: u32,
        value: &LiteralValue,
    ) -> (r: Result<(), EditorError>)
        ensures
            final(self).history() == old(self).history().push(
                EngineEvent::TxSetValue { sheet: sheet@, row, col, value: *value, reply: r },
            ),
            exists|m: &mut E|
                *m == old(self).engine() && *final(m) == final(self).engine()
                    && #[trigger] call_ensures(E::tx_set_value, (m, sheet, row, col, value), r),
    {
        let r = self.engine.tx_set_value(sheet, row, col, value);
        proof {
            self.history@ = self.history@.push(
                EngineEvent::TxSetValue { sheet: sheet@, row, col, value: *value, reply: r },
            );
        }
        r
    }

    pub(crate) fn tx_set_formula(
        &mut self,
        sheet: &str,
        row: u32,
        col: u32,
        tree: &formualizer_parse::ASTNode,
    ) -> (r: Result<(), EditorError>)
        ensures
            final(self).history() == old(self).history().push(
                EngineEvent::TxSetFormula { sheet: sheet@, row, col, tree: *tree, reply: r },
            ),
            exists|m: &mut E|
                *m == old(self).engine() && *final(m) == final(self).engine()
                    && #[trigger] call_ensures(E::tx_set_formula, (m, sheet, row, col, tree), r),
    {
        let r = self.engine.tx_set_formula(sheet, row, col, tree);
        proof {
            self.history@ = self.history@.push(
                EngineEvent::TxSetFormula { sheet: sheet@, row, col, tree: *tree, reply: r },
            );
        }
        r
    }

    pub(crate) fn tx_set_row_hidden(
        &mut self,
        sheet: &str,
        row: u32,
        hidden: bool,
    ) -> (r: Result<(), EditorError>)
        ensures
            final(self).history() == old(self).history().push(
                EngineEvent::TxSetRowHidden { sheet: sheet@, row, hidden, reply: r },
            ),
            exists|m: &mut E|
                *m == old(self).engine() && *final(m) == final(self).engine()
                    && #[trigger] call_ensures(E::tx_set_row_hidden, (m, sheet, row, hidden), r),
    {
        let r = self.engine.tx_set_row_hidden(sheet, row, hidden);
        proof {
            self.history@ = self.history@.push(
                EngineEvent::TxSetRowHidden { sheet: sheet@, row, hidden, reply: r },
            );
        }
        r
    }

    pub(crate) fn tx_set_rows_hidden(
        &mut self,
        sheet: &str,
        start_row: u32,
        end_row: u32,
        hidden: bool,
    ) -> (r: Result<(), EditorError>)
        ensures
            final(self).history() == old(self).history().push(
                EngineEvent::TxSetRowsHidden {
                    sheet: sheet@,
                    start_row,
                    end_row,
                    hidden,
                    reply: r,
                },
            ),
            exists|m: &mut E|
                *m == old(self).engine() && *final(m) == final(self).engine()
                    && #[trigger] call_ensures(
                        E::tx_set_rows_hidden,
                        (m, sheet, start_row, end_row, hidden),
                        r,
                    ),
    {
        let r = self.engine.tx_set_rows_hidden(sheet, start_row, end_row, hidden);
        proof {
            self.history@ = self.history@.push(
                EngineEvent::TxSetRowsHidden {
                    sheet: sheet@,
                    start_row,
                    end_row,
                    hidden,
                    reply: r,
                },
            );
        }
        r
    }

    pub(crate) fn undo(&mut self, logged: bool) -> (r: Result<(), EditorError>)
        ensures
            final(self).history() == old(self).history().push(
                EngineEvent::Undo { logged, reply: r },
            ),
            exists|m: &mut E|
                *m == old(self).engine() && *final(m) == final(self).engine()
                    && #[trigger] call_ensures(E::undo, (m, logged), r),
    {
        let r = self.engine.undo(logged);
        proof {
            self.history@ = self.history@.push(EngineEvent::Undo { logged, reply: r });
        }
        r
    }

    pub(crate) fn redo(&mut self, logged: bool) -> (r: Result<(), EditorError>)
        ensures
            final(self).history() == old(self).history().push(
                EngineEvent::Redo { logged, reply: r },
            ),
            exists|m: &mut E|
                *m == old(self).engine() && *final(m) == final(self).engine()
                    && #[trigger] call_ensures(E::redo, (m, logged), r),
    {
        let r = self.engine.redo(logged);
        proof {
            self.history@ = self.history@.push(EngineEvent::Redo { logged, reply: r });
        }
        r
    }

    pub(crate) fn log_set_enabled(&mut self, enabled: bool)
        ensures
            final(self).history() == old(self).history().push(
                EngineEvent::LogSetEnabled { enabled },
            ),
            exists|m: &mut E|
                *m == old(self).engine() && *final(m) == final(self).engine()
                    && #[trigger] call_ensures(E::log_set_enabled, (m, enabled), ()),
    {
        self.engine.log_set_enabled(enabled);
        proof {
            self.history@ = self.history@.push(EngineEvent::LogSetEnabled { enabled });
        }
    }

    pub(crate) fn log_set_actor_id(&mut self, actor_id: Option<String>)
        ensures
            final(self).history() == old(self).history().push(
                EngineEvent::LogSetActorId { actor_id: text_view(actor_id) },
            ),
            exists|m: &mut E|
                *m == old(self).engine() && *final(m) == final(self).engine()
                    && #[trigger] call_ensures(E::log_set_actor_id, (m, actor_id), ()),
    {
        self.engine.log_set_actor_id(actor_id);
        proof {
            self.history@ = self.history@.push(
                EngineEvent::LogSetActorId { actor_id: text_view(actor_id) },
            );
        }
    }

    pub(crate) fn log_set_correlation_id(&mut self, correlation_id: Option<String>)
        ensures
            final(self).history() == old(self).history().push(
                EngineEvent::LogSetCorrelationId { correlation_id: text_view(correlation_id) },
            ),
            exists|m: &mut E|
                *m == old(self).engine() && *final(m) == final(self).engine()
                    && #[trigger] call_ensures(E::log_set_correlation_id, (m, correlation_id), ()),
    {
        self.engine.log_set_correlation_id(correlation_id);
        proof {
            self.history@ = self.history@.push(
                EngineEvent::LogSetCorrelationId { correlation_id: text_view(correlation_id) },
            );
        }
    }

    pub(crate) fn log_set_reason(&mut self, reason: Option<String>)
        ensures
            final(self).history() == old(self).history().push(
                EngineEvent::LogSetReason { reason: text_view(reason) },
            ),
            exists|m: &mut E|
                *m == old(self).engine() && *final(m) == final(self).engine()
                    && #[trigger] call_ensures(E::log_set_reason, (m, reason), ()),
    {
        self.engine.log_set_reason(reason);
        proof {
            self.history@ = self.history@.push(
                EngineEvent::LogSetReason { reason: text_view(reason) },
            );
        }
    }

    pub(crate) fn log_begin_compound(&mut self, description: &str)
        ensures
            final(self).history() == old(self).history().push(
                EngineEvent::LogBeginCompound { description: description@ },
            ),
            exists|m: &mut E|
                *m == old(self).engine() && *final(m) == final(self).engine()
                    && #[trigger] call_ensures(E::log_begin_compound, (m, description), ()),
    {
        self.engine.log_begin_compound(description);
        proof {
            self.history@ = self.history@.push(
                EngineEvent::LogBeginCompound { description: description@ },
            );
        }
    }

    pub(crate) fn log_end_compound(&mut self)
        ensures
            final(self).history() == old(self).history().push(EngineEvent::LogEndCompound),
            exists|m: &mut E|
                *m == old(self).engine() && *final(m) == final(self).engine()
                    && #[trigger] call_ensures(E::log_end_compound, (m,), ()),
    {
        self.engine.log_end_compound();
        proof {
            self.history@ = self.history@.push(EngineEvent::LogEndCompound);
        }
    }

    pub(crate) fn log_staged_change(
        &mut self,
        sheet: &str,
        row: u32,
        col: u32,
        before: Option<String>,
        after: Option<String>,
    )
        ensures
            final(self).history() == old(self).history().push(
                EngineEvent::LogStagedChange {
                    sheet: sheet@,
                    row,
                    col,
                    before: text_view(before),
                    after: text_view(after),
                },
            ),
            exists|m: &mut E|
                *m == old(self).engine() && *final(m) == final(self).engine()
                    && #[trigger] call_ensures(
                        E::log_staged_change,
                        (m, sheet, row, col, before, after),
                        (),
                    ),
    {
        self.engine.log_staged_change(sheet, row, col, before, after);
        proof {
            self.history@ = self.history@.push(
                EngineEvent::LogStagedChange {
                    sheet: sheet@,
                    row,
                    col,
                    before: text_view(before),
                    after: text_view(after),
                },
            );
        }
    }

    pub(crate) fn build_graph_all(&mut self) -> (r: Result<(), String>)
        ensures
            final(self).history() == old(self).history().push(
                EngineEvent::BuildGraphAll { reply: r },
            ),
            exists|m: &mut E|
                *m == old(self).engine() && *final(m) == final(self).engine()
                    && #[trigger] call_ensures(E::build_graph_all, (m,), r),
    {
        let r = self.engine.build_graph_all();
        proof {
            self.history@ = self.history@.push(EngineEvent::BuildGraphAll { reply: r });
        }
        r
    }

    pub(crate) fn build_graph_for_sheets(&mut self, sheets: &[&str]) -> (r: Result<(), String>)
        ensures
            final(self).history() == old(self).history().push(
                EngineEvent::BuildGraphForSheets { sheets: texts_view(sheets@), reply: r },
            ),
            exists|m: &mut E|
                *m == old(self).engine() && *final(m) == final(self).engine()
                    && #[trigger] call_ensures(E::build_graph_for_sheets, (m, sheets), r),
    {
        let r = self.engine.build_graph_for_sheets(sheets);
        proof {
            self.history@ = self.history@.push(
                EngineEvent::BuildGraphForSheets { sheets: texts_view(sheets@), reply: r },
            );
        }
        r
    }

    pub(crate) fn evaluate_cell(
        &mut self,
        sheet: &str,
        row: u32,
        col: u32,
    ) -> (r: Result<Option<LiteralValue>, ExcelError>)
        ensures
            final(self).history() == old(self).history().push(
                EngineEvent::EvaluateCell { sheet: sheet@, row, col, reply: r },
            ),
            exists|m: &mut E|
                *m == old(self).engine() && *final(m) == final(self).engine()
                    && #[trigger] call_ensures(E::evaluate_cell, (m, sheet, row, col), r),
    {
        let r = self.engine.evaluate_cell(sheet, row, col);
        proof {
            self.history@ = self.history@.push(
                EngineEvent::EvaluateCell { sheet: sheet@, row, col, reply: r },
            );
        }
        r
    }

    pub(crate) fn evaluate_cells(
        &mut self,
        targets: &[(&str, u32, u32)],
    ) -> (r: Result<Vec<Option<LiteralValue>>, ExcelError>)
        ensures
            final(self).history() == old(self).history().push(
                EngineEvent::EvaluateCells { targets: targets_view(targets@), reply: r },
            ),
            exists|m: &mut E|
                *m == old(self).engine() && *final(m) == final(self).engine()
                    && #[trigger] call_ensures(E::evaluate_cells, (m, targets), r),
    {
        let r = self.engine.evaluate_cells(targets);
        proof {
            self.history@ = self.history@.push(
                EngineEvent::EvaluateCells { targets: targets_view(targets@), reply: r },
            );
        }
        r
    }

    pub(crate) fn evaluate_cells_cancellable(
        &mut self,
        targets: &[(&str, u32, u32)],
        cancel: E::CancelFlag,
    ) -> (r: Result<Vec<Option<LiteralValue>>, ExcelError>)
        ensures
            final(self).history() == old(self).history().push(
                EngineEvent::EvaluateCellsCancellable {
                    targets: targets_view(targets@),
                    cancel,
                    reply: r,
                },
            ),
            exists|m: &mut E|
                *m == old(self).engine() && *final(m) == final(self).engine()
                    && #[trigger] call_ensures(
                        E::evaluate_cells_cancellable,
                        (m, targets, cancel),
                        r,
                    ),
    {
        let r = self.engine.evaluate_cells_cancellable(targets, cancel);
        proof {
            self.history@ = self.history@.push(
                EngineEvent::EvaluateCellsCancellable {
                    targets: targets_view(targets@),
                    cancel,
                    reply: r,
                },
            );
        }
        r
    }

    pub(crate) fn evaluate_all(&mut self) -> (r: Result<E::EvalResult, ExcelError>)
        ensures
            final(self).history() == old(self).history().push(
                EngineEvent::EvaluateAll { reply: r },
            ),
            exists|m: &mut E|
                *m == old(self).engine() && *final(m) == final(self).engine()
                    && #[trigger] call_ensures(E::evaluate_all, (m,), r),
    {
        let r = self.engine.evaluate_all();
        proof {
            self.history@ = self.history@.push(EngineEvent::EvaluateAll { reply: r });
        }
        r
    }

    pub(crate) fn evaluate_all_cancellable(
        &mut self,
        cancel: E::CancelFlag,
    ) -> (r: Result<E::EvalResult, ExcelError>)
        ensures
            final(self).history() == old(self).history().push(
                EngineEvent::EvaluateAllCancellable { cancel, reply: r },
            ),
            exists|m: &mut E|
                *m == old(self).engine() && *final(m) == final(self).engine()
                    && #[trigger] call_ensures(E::evaluate_all_cancellable, (m, cancel), r),
    {
        let r = self.engine.evaluate_all_cancellable(cancel);
        proof {
            self.history@ = self.history@.push(
                EngineEvent::EvaluateAllCancellable { cancel, reply: r },
            );
        }
        r
    }

    pub(crate) fn evaluate_recalc_plan(
        &mut self,
        plan: &E::RecalcPlan,
    ) -> (r: Result<E::EvalResult, ExcelError>)
        ensures
            final(self).history() == old(self).history().push(
                EngineEvent::EvaluateRecalcPlan { plan: *plan, reply: r },
            ),
            exists|m: &mut E|
                *m == old(self).engine() && *final(m) == final(self).engine()
                    && #[trigger] call_ensures(E::evaluate_recalc_plan, (m, plan), r),
    {
        let r = self.engine.evaluate_recalc_plan(plan);
        proof {
            self.history@ = self.history@.push(
                EngineEvent::EvaluateRecalcPlan { plan: *plan, reply: r },
            );
        }
        r
    }

    pub(crate) fn get_eval_plan(
        &mut self,
        targets: &[(&str, u32, u32)],
    ) -> (r: Result<E::EvalPlan, ExcelError>)
        ensures
            final(self).history() == old(self).history().push(
                EngineEvent::GetEvalPlan { targets: targets_view(targets@), reply: r },
            ),
            call_ensures(E::get_eval_plan, (&old(self).engine(), targets), r),
            final(self).engine() == old(self).engine(),
    {
        let r = self.engine.get_eval_plan(targets);
        proof {
            self.history@ = self.history@.push(
                EngineEvent::GetEvalPlan { targets: targets_view(targets@), reply: r },
            );
        }
        r
    }

    pub(crate) fn set_deterministic_mode(
        &mut self,
        mode: E::DeterministicMode,
    ) -> (r: Result<(), ExcelError>)
        ensures
            final(self).history() == old(self).history().push(
                EngineEvent::SetDeterministicMode { mode, reply: r },
            ),
            exists|m: &mut E|
                *m == old(self).engine() && *final(m) == final(self).engine()
                    && #[trigger] call_ensures(E::set_deterministic_mode, (m, mode), r),
    {
        let r = self.engine.set_deterministic_mode(mode);
        proof {
            self.history@ = self.history@.push(
                EngineEvent::SetDeterministicMode { mode, reply: r },
            );
        }
        r
    }

    pub(crate) fn set_load_limits(&mut self, limits: E::LoadLimits)
        ensures
            final(self).history() == old(self).history().push(
                EngineEvent::SetLoadLimits { limits },
            ),
            exists|m: &mut E|
                *m == old(self).engine() && *final(m) == final(self).engine()
                    && #[trigger] call_ensures(E::set_load_limits, (m, limits), ()),
    {
        self.engine.set_load_limits(limits);
        proof {
            self.history@ = self.history@.push(EngineEvent::SetLoadLimits { limits });
        }
    }
}

} // verus!
