//! Edits of single cells.

use crate::engine::{
    cell_at, formula_of, CellRef, CellState, EngineEvent, EngineFlags, WorkbookEngine,
};
use crate::error::{io_view, ExcelError, IoError, IoErrorView};
use crate::formula::{parse_formula, parsed_formula};
use crate::host::Host;
use crate::store::{after_capacity, after_mirror, CapacityReplies, MirrorReplies};
use crate::text::{same_optional_text, text_view};
use crate::value::LiteralValue;
use vstd::prelude::*;

verus! {

/// Where an operation leads: the history that it leaves, and its outcome.
pub struct Run<E: WorkbookEngine> {
    pub history: Seq<EngineEvent<E>>,
    pub outcome: Result<(), IoErrorView>,
}

/// The run that leaves `history` with the result `r`.
pub open spec fn ran<E: WorkbookEngine>(
    history: Seq<EngineEvent<E>>,
    r: Result<(), IoError>,
) -> Run<E> {
    Run { history, outcome: io_view(r) }
}

/// A run that succeeded.
pub open spec fn done<E: WorkbookEngine>(history: Seq<EngineEvent<E>>) -> Run<E> {
    Run { history, outcome: Ok(()) }
}

/// A run that failed.
pub open spec fn failed<E: WorkbookEngine>(
    history: Seq<EngineEvent<E>>,
    error: IoErrorView,
) -> Run<E> {
    Run { history, outcome: Err(error) }
}

/// What the engine answers when a sheet is looked up or else added.
pub struct SheetReplies {
    pub found: Option<u32>,
    pub added: u32,
}

/// The history `h` after the sheet was looked up, and added where it is unknown.
pub open spec fn after_sheet<E: WorkbookEngine>(
    h: Seq<EngineEvent<E>>,
    sheet: Seq<char>,
    replies: SheetReplies,
) -> Seq<EngineEvent<E>> {
    let asked = h.push(EngineEvent::SheetId { name: sheet, reply: replies.found });
    if replies.found is Some {
        asked
    } else {
        asked.push(EngineEvent::MustAddSheet { name: sheet, reply: replies.added })
    }
}

/// The id of a sheet that was looked up or else added.
pub open spec fn sheet_of(replies: SheetReplies) -> u32 {
    match replies.found {
        Some(id) => id,
        None => replies.added,
    }
}

/// The state of a cell before an edit.
pub struct OldState {
    pub value: Option<LiteralValue>,
    pub cell: Option<CellState>,
}

/// The history `h` after the state of a cell was read.
pub open spec fn after_old_state<E: WorkbookEngine>(
    h: Seq<EngineEvent<E>>,
    sheet: Seq<char>,
    row: u32,
    col: u32,
    old_state: OldState,
) -> Seq<EngineEvent<E>> {
    h.push(EngineEvent::GetCellValue { sheet, row, col, reply: old_state.value }).push(
        EngineEvent::GetCell { sheet, row, col, reply: old_state.cell },
    )
}

/// The history `h` after a change of the formula text staged for a cell was
/// recorded. Nothing is recorded of a text that stays, nor while the change log is
/// off.
pub open spec fn after_delta<E: WorkbookEngine>(
    h: Seq<EngineEvent<E>>,
    logged: bool,
    sheet: Seq<char>,
    row: u32,
    col: u32,
    before: Option<Seq<char>>,
    after: Option<Seq<char>>,
) -> Seq<EngineEvent<E>> {
    if logged && before != after {
        h.push(EngineEvent::LogStagedChange { sheet, row, col, before, after })
    } else {
        h
    }
}

/// The history `h` after one logged setting of a value.
pub open spec fn after_value_edit<E: WorkbookEngine>(
    h: Seq<EngineEvent<E>>,
    cell: CellRef,
    value: LiteralValue,
    old_state: OldState,
) -> Seq<EngineEvent<E>> {
    h.push(
        EngineEvent::EditSetValueWithOldState {
            cell,
            value,
            old_value: old_state.value,
            old_formula: formula_of(old_state.cell),
        },
    )
}

/// What the engine answers when a value is set.
pub struct SetValueReplies {
    pub capacity: CapacityReplies,
    pub staged: Option<Seq<char>>,
    pub sheet: SheetReplies,
    pub old_state: OldState,
    pub mirror: MirrorReplies,
    pub set: Result<(), ExcelError>,
}

/// Where the setting of a value leads from the history `h`.
pub open spec fn value_run<E: WorkbookEngine>(
    h: Seq<EngineEvent<E>>,
    logged: bool,
    sheet: Seq<char>,
    row: u32,
    col: u32,
    value: LiteralValue,
    replies: SetValueReplies,
) -> Run<E> {
    let roomy = after_capacity(h, sheet, row as int, col as int, replies.capacity);
    if logged {
        let staged = roomy.push(
            EngineEvent::StagedFormulaText { sheet, row, col, reply: replies.staged },
        );
        let named = after_sheet(staged, sheet, replies.sheet);
        let seen = after_old_state(named, sheet, row, col, replies.old_state);
        let edited = after_value_edit(
            seen.push(EngineEvent::EditBegin),
            cell_at(sheet_of(replies.sheet), row, col),
            value,
            replies.old_state,
        ).push(EngineEvent::EditEnd);
        let mirrored = after_mirror(edited, sheet, row, col, value, replies.mirror);
        let cleared = mirrored.push(EngineEvent::ClearStagedFormulaText { sheet, row, col });
        let recorded = after_delta(cleared, true, sheet, row, col, replies.staged, None);
        done(recorded.push(EngineEvent::MarkDataEdited))
    } else {
        let set = roomy.push(
            EngineEvent::SetCellValue { sheet, row, col, value, reply: replies.set },
        );
        match replies.set {
            Err(e) => failed(set, IoErrorView::Engine(e@)),
            Ok(_) => done(set.push(EngineEvent::ClearStagedFormulaText { sheet, row, col })),
        }
    }
}

/// What the engine answers when a formula is set.
pub struct SetFormulaReplies {
    pub capacity: CapacityReplies,
    pub staged: Option<Seq<char>>,
    pub flags: EngineFlags,
    pub present: Option<CellState>,
    pub sheet: SheetReplies,
    pub old_state: OldState,
    pub set: Result<(), ExcelError>,
    pub staged_after: Option<Seq<char>>,
}

/// The history `h` after the formula text of a cell was dropped and that recorded,
/// at the end of a logged edit.
pub open spec fn after_logged_formula<E: WorkbookEngine>(
    h: Seq<EngineEvent<E>>,
    sheet: Seq<char>,
    row: u32,
    col: u32,
    staged: Option<Seq<char>>,
) -> Seq<EngineEvent<E>> {
    let cleared = h.push(EngineEvent::ClearStagedFormulaText { sheet, row, col });
    after_delta(cleared, true, sheet, row, col, staged, None).push(EngineEvent::MarkDataEdited)
}

/// Where the unlogged setting of a formula tree leads.
pub open spec fn plain_formula_run<E: WorkbookEngine>(
    h: Seq<EngineEvent<E>>,
    sheet: Seq<char>,
    row: u32,
    col: u32,
    tree: formualizer_parse::ASTNode,
    reply: Result<(), ExcelError>,
) -> Run<E> {
    let set = h.push(EngineEvent::SetCellFormula { sheet, row, col, tree, reply });
    match reply {
        Err(e) => failed(set, IoErrorView::Engine(e@)),
        Ok(_) => done(set.push(EngineEvent::ClearStagedFormulaText { sheet, row, col })),
    }
}

/// Where the setting of a formula leads from the history `h`.
///
/// While graph building is deferred, a formula for a cell that the graph does not
/// hold is staged as text. Any other is parsed and set in the graph; what the cell
/// was is read for the log only where the graph holds it already.
pub open spec fn formula_run<E: WorkbookEngine>(
    h: Seq<EngineEvent<E>>,
    logged: bool,
    sheet: Seq<char>,
    row: u32,
    col: u32,
    formula: Seq<char>,
    replies: SetFormulaReplies,
) -> Run<E> {
    let roomy = after_capacity(h, sheet, row as int, col as int, replies.capacity);
    let staged = if logged {
        roomy.push(EngineEvent::StagedFormulaText { sheet, row, col, reply: replies.staged })
    } else {
        roomy
    };
    let asked = staged.push(EngineEvent::Flags { reply: replies.flags });
    let deferred = replies.flags.defer_graph_building;
    let looked = if deferred {
        asked.push(EngineEvent::GetCell { sheet, row, col, reply: replies.present })
    } else {
        asked
    };
    if deferred && replies.present is None {
        let kept = looked.push(EngineEvent::StageFormulaText { sheet, row, col, formula });
        if logged {
            let reread = kept.push(
                EngineEvent::StagedFormulaText { sheet, row, col, reply: replies.staged_after },
            );
            done(
                after_delta(reread, true, sheet, row, col, replies.staged, replies.staged_after),
            )
        } else {
            done(kept)
        }
    } else {
        match parsed_formula(formula) {
            Err(e) => failed(looked, e),
            Ok(tree) => if !logged {
                plain_formula_run(looked, sheet, row, col, tree, replies.set)
            } else {
                let named = after_sheet(looked, sheet, replies.sheet);
                let cell = cell_at(sheet_of(replies.sheet), row, col);
                let edited = if deferred {
                    after_old_state(named, sheet, row, col, replies.old_state).push(
                        EngineEvent::EditBegin,
                    ).push(
                        EngineEvent::EditSetFormulaWithOldState {
                            cell,
                            tree,
                            old_value: replies.old_state.value,
                            old_formula: formula_of(replies.old_state.cell),
                        },
                    )
                } else {
                    named.push(EngineEvent::EditBegin).push(
                        EngineEvent::EditSetFormula { cell, tree },
                    )
                };
                done(
                    after_logged_formula(
                        edited.push(EngineEvent::EditEnd),
                        sheet,
                        row,
                        col,
                        replies.staged,
                    ),
                )
            },
        }
    }
}

impl<E: WorkbookEngine> Host<E> {
    /// The id of a sheet, which is added where it is unknown.
    pub(crate) fn require_sheet(&mut self, sheet: &str) -> (r: (u32, Ghost<SheetReplies>))
        ensures
            r.0 == sheet_of(r.1@),
            final(self).history() == after_sheet(old(self).history(), sheet@, r.1@),
    {
        match self.sheet_id(sheet) {
            Some(id) => (id, Ghost(SheetReplies { found: Some(id), added: arbitrary() })),
            None => {
                let id = self.must_add_sheet(sheet);
                (id, Ghost(SheetReplies { found: None, added: id }))
            },
        }
    }

    /// Records a change of the formula text staged for a cell, see [`after_delta`].
    pub(crate) fn record_staged_formula_cell_change(
        &mut self,
        logged: bool,
        sheet: &str,
        row: u32,
        col: u32,
        before: Option<String>,
        after: Option<String>,
    )
        ensures
            final(self).history() == after_delta(
                old(self).history(),
                logged,
                sheet@,
                row,
                col,
                text_view(before),
                text_view(after),
            ),
    {
        if !logged {
            return;
        }
        if same_optional_text(&before, &after) {
            return;
        }
        self.log_staged_change(sheet, row, col, before, after);
    }

    /// Sets the value of a cell, see [`value_run`].
    pub(crate) fn edit_value(
        &mut self,
        logged: bool,
        sheet: &str,
        row: u32,
        col: u32,
        value: &LiteralValue,
    ) -> (r: (Result<(), IoError>, Ghost<SetValueReplies>))
        ensures
            ran(final(self).history(), r.0) == value_run(
                old(self).history(),
                logged,
                sheet@,
                row,
                col,
                *value,
                r.1@,
            ),
    {
        let capacity = self.ensure_arrow_sheet_capacity(sheet, row as usize, col as usize);
        if logged {
            let before = self.staged_formula_text(sheet, row, col);
            let ghost staged = text_view(before);
            let (sheet_id, named) = self.require_sheet(sheet);
            let cell = CellRef::from_excel(sheet_id, row, col);
            let old_value = self.get_cell_value(sheet, row, col);
            let old_cell = self.get_cell(sheet, row, col);
            let ghost old_state = OldState { value: old_value, cell: old_cell };
            let old_formula = match old_cell {
                Some(state) => state.formula,
                None => None,
            };
            self.edit_begin();
            self.edit_set_value_with_old_state(cell, value, &old_value, &old_formula);
            self.edit_end();
            let mirror = self.mirror_value_to_overlay(sheet, row, col, value);
            self.clear_staged_formula_text(sheet, row, col);
            self.record_staged_formula_cell_change(true, sheet, row, col, before, None);
            self.mark_data_edited();
            let ghost replies = SetValueReplies {
                capacity: capacity@,
                staged,
                sheet: named@,
                old_state,
                mirror: mirror@,
                set: arbitrary(),
            };
            (Ok(()), Ghost(replies))
        } else {
            let reply = self.set_cell_value(sheet, row, col, value);
            let ghost replies = SetValueReplies {
                capacity: capacity@,
                staged: arbitrary(),
                sheet: arbitrary(),
                old_state: arbitrary(),
                mirror: arbitrary(),
                set: reply,
            };
            match reply {
                Err(e) => (Err(IoError::Engine(e)), Ghost(replies)),
                Ok(_) => {
                    self.clear_staged_formula_text(sheet, row, col);
                    (Ok(()), Ghost(replies))
                },
            }
        }
    }

    /// Sets the formula of a cell, see [`formula_run`].
    pub(crate) fn edit_formula(
        &mut self,
        logged: bool,
        sheet: &str,
        row: u32,
        col: u32,
        formula: &str,
    ) -> (r: (Result<(), IoError>, Ghost<SetFormulaReplies>))
        ensures
            ran(final(self).history(), r.0) == formula_run(
                old(self).history(),
                logged,
                sheet@,
                row,
                col,
                formula@,
                r.1@,
            ),
    {
        let ghost mut replies: SetFormulaReplies = arbitrary();
        let capacity = self.ensure_arrow_sheet_capacity(sheet, row as usize, col as usize);
        let before = if logged {
            self.staged_formula_text(sheet, row, col)
        } else {
            None
        };
        let flags = self.flags();
        let deferred = flags.defer_graph_building;
        proof {
            replies.capacity = capacity@;
            replies.staged = text_view(before);
            replies.flags = flags;
        }
        if deferred {
            let present = self.get_cell(sheet, row, col);
            proof {
                replies.present = present;
            }
            if present.is_none() {
                self.stage_formula_text(sheet, row, col, formula);
                if logged {
                    let after = self.staged_formula_text(sheet, row, col);
                    proof {
                        replies.staged_after = text_view(after);
                    }
                    self.record_staged_formula_cell_change(true, sheet, row, col, before, after);
                }
                return (Ok(()), Ghost(replies));
            }
        }
        let tree = match parse_formula(formula) {
            Ok(tree) => tree,
            Err(e) => {
                return (Err(e), Ghost(replies));
            },
        };
        if logged {
            let (sheet_id, named) = self.require_sheet(sheet);
            proof {
                replies.sheet = named@;
            }
            let cell = CellRef::from_excel(sheet_id, row, col);
            if deferred {
                let old_value = self.get_cell_value(sheet, row, col);
                let old_cell = self.get_cell(sheet, row, col);
                proof {
                    replies.old_state = OldState { value: old_value, cell: old_cell };
                }
                let old_formula = match old_cell {
                    Some(state) => state.formula,
                    None => None,
                };
                self.edit_begin();
                self.edit_set_formula_with_old_state(cell, &tree, &old_value, &old_formula);
            } else {
                self.edit_begin();
                self.edit_set_formula(cell, &tree);
            }
            self.edit_end();
            self.clear_staged_formula_text(sheet, row, col);
            self.record_staged_formula_cell_change(true, sheet, row, col, before, None);
            self.mark_data_edited();
            (Ok(()), Ghost(replies))
        } else {
            let reply = self.set_cell_formula(sheet, row, col, &tree);
            proof {
                replies.set = reply;
            }
            match reply {
                Err(e) => (Err(IoError::Engine(e)), Ghost(replies)),
                Ok(_) => {
                    self.clear_staged_formula_text(sheet, row, col);
                    (Ok(()), Ghost(replies))
                },
            }
        }
    }
}

} // verus!
