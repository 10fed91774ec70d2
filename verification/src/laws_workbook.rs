//! Laws on what a workbook asks of its engine and hands back, call by call.

use crate::config::{
    EvalConfig, FormulaParsePolicy, FormulaPlaneMode, WorkbookConfig, WorkbookMode,
};
use crate::engine::{EngineEvent, WorkbookEngine};
use crate::error::{
    excel_view, EditorError, ErrorView, ExcelError, IoError,
};
use crate::store::CapacityReplies;
use crate::value::LiteralValue;
use crate::workbook::{
    sheet_addition, sheet_deletion, sheet_renaming, LoadStrategy, SpreadsheetReader, Workbook,
};
use vstd::prelude::*;

verus! {

/// Whether `g` is `h` with one more call, `g.last()`.
pub open spec fn one_call<E: WorkbookEngine>(
    h: Seq<EngineEvent<E>>,
    g: Seq<EngineEvent<E>>,
) -> bool {
    g.len() == h.len() + 1 && forall|i: int| 0 <= i < h.len() ==> #[trigger] g[i] == h[i]
}

/// Whether `r` hands on what the engine answered to a request that its editor can refuse:
/// what the editor says, under its name.
pub open spec fn hands_on_edit(reply: Result<(), EditorError>, r: Result<(), IoError>) -> bool {
    match reply {
        Ok(_) => r is Ok,
        Err(e) => r is Err && r->Err_0 is Backend && r->Err_0->backend@ == "editor"@
            && r->Err_0->message@ == e.text@,
    }
}

/// Whether `r` hands on what the engine answered: its value, or its error.
pub open spec fn hands_on<T>(reply: Result<T, ExcelError>, r: Result<T, IoError>) -> bool {
    match reply {
        Ok(v) => r is Ok && r->Ok_0 == v,
        Err(e) => r is Err && r->Err_0 is Engine && r->Err_0->Engine_0@ == e@,
    }
}

/// Whether `r` hands on what the engine answered when it took formula texts into the graph:
/// what it says of one that does not parse, under the name of the parser.
pub open spec fn hands_on_parse(reply: Result<(), String>, r: Result<(), IoError>) -> bool {
    match reply {
        Ok(_) => r is Ok,
        Err(text) => r is Err && r->Err_0 is Backend && r->Err_0->backend@ == "parser"@
            && r->Err_0->message@ == text@,
    }
}

/// The value that is shown for one that may be absent.
pub open spec fn or_empty(value: Option<LiteralValue>) -> LiteralValue {
    match value {
        Some(v) => v,
        None => LiteralValue::Empty,
    }
}

/// Undoing and redoing ask the engine for just that, under the change log as it is
/// switched, and hand on its answer.
pub proof fn law_undo_and_redo_are_those_of_the_engine<E: WorkbookEngine>(r: Result<(), IoError>)
    ensures
        forall|wb: &mut Workbook<E>| #[trigger]
            call_ensures(Workbook::<E>::undo, (wb,), r) ==> {
                let g = (*final(wb)).history();
                &&& one_call((*wb).history(), g)
                &&& g.last() is Undo
                &&& g.last()->Undo_logged == (*wb).logged()
                &&& hands_on_edit(g.last()->Undo_reply, r)
                &&& (*final(wb)).logged() == (*wb).logged()
            },
        forall|wb: &mut Workbook<E>| #[trigger]
            call_ensures(Workbook::<E>::redo, (wb,), r) ==> {
                let g = (*final(wb)).history();
                &&& one_call((*wb).history(), g)
                &&& g.last() is Redo
                &&& g.last()->Redo_logged == (*wb).logged()
                &&& hands_on_edit(g.last()->Redo_reply, r)
                &&& (*final(wb)).logged() == (*wb).logged()
            },
{
}

/// A compound of the change log is opened and closed while the log is on, and only then.
pub proof fn law_compounds_are_of_the_log<E: WorkbookEngine>(description: &str)
    ensures
        forall|wb: &mut Workbook<E>| #[trigger]
            call_ensures(Workbook::<E>::begin_action, (wb, description), ()) ==> {
                let g = (*final(wb)).history();
                if (*wb).logged() {
                    &&& one_call((*wb).history(), g)
                    &&& g.last() is LogBeginCompound
                    &&& g.last()->LogBeginCompound_description == description@
                } else {
                    g == (*wb).history()
                }
            },
        forall|wb: &mut Workbook<E>| #[trigger]
            call_ensures(Workbook::<E>::end_action, (wb,), ()) ==> {
                let g = (*final(wb)).history();
                if (*wb).logged() {
                    one_call((*wb).history(), g) && g.last() is LogEndCompound
                } else {
                    g == (*wb).history()
                }
            },
{
}

/// The change log is switched in the workbook and in the engine alike, and what it is told
/// of who makes changes, what they belong to and why is what was given.
pub proof fn law_log_is_switched_and_told<E: WorkbookEngine>(enabled: bool, text: Option<String>)
    ensures
        forall|wb: &mut Workbook<E>| #[trigger]
            call_ensures(Workbook::<E>::set_changelog_enabled, (wb, enabled), ()) ==> {
                let g = (*final(wb)).history();
                &&& one_call((*wb).history(), g)
                &&& g.last() is LogSetEnabled
                &&& g.last()->enabled == enabled
                &&& (*final(wb)).logged() == enabled
            },
        forall|wb: &mut Workbook<E>| #[trigger]
            call_ensures(Workbook::<E>::set_actor_id, (wb, text), ()) ==> {
                let g = (*final(wb)).history();
                &&& one_call((*wb).history(), g)
                &&& g.last() is LogSetActorId
                &&& same_words(g.last()->actor_id, text)
            },
        forall|wb: &mut Workbook<E>| #[trigger]
            call_ensures(Workbook::<E>::set_correlation_id, (wb, text), ()) ==> {
                let g = (*final(wb)).history();
                &&& one_call((*wb).history(), g)
                &&& g.last() is LogSetCorrelationId
                &&& same_words(g.last()->correlation_id, text)
            },
        forall|wb: &mut Workbook<E>| #[trigger]
            call_ensures(Workbook::<E>::set_reason, (wb, text), ()) ==> {
                let g = (*final(wb)).history();
                &&& one_call((*wb).history(), g)
                &&& g.last() is LogSetReason
                &&& same_words(g.last()->LogSetReason_reason, text)
            },
{
}

/// Whether an optional text is that of an optional string.
pub open spec fn same_words(words: Option<Seq<char>>, text: Option<String>) -> bool {
    match text {
        Some(t) => words == Some(t@),
        None => words is None,
    }
}

/// Rows are hidden and shown by the engine, as many as were named and as they were named.
pub proof fn law_rows_are_hidden_by_the_engine<E: WorkbookEngine>(
    sheet: &str,
    row: u32,
    end_row: u32,
    hidden: bool,
    r: Result<(), IoError>,
)
    ensures
        forall|wb: &mut Workbook<E>| #[trigger]
            call_ensures(Workbook::<E>::set_row_hidden, (wb, sheet, row, hidden), r) ==> {
                let g = (*final(wb)).history();
                &&& one_call((*wb).history(), g)
                &&& g.last() is SetRowHidden
                &&& g.last()->SetRowHidden_sheet == sheet@
                &&& g.last()->SetRowHidden_row == row
                &&& g.last()->SetRowHidden_hidden == hidden
                &&& hands_on_edit(g.last()->SetRowHidden_reply, r)
            },
        forall|wb: &mut Workbook<E>| #[trigger]
            call_ensures(
                Workbook::<E>::set_rows_hidden,
                (wb, sheet, row, end_row, hidden),
                r,
            ) ==> {
                let g = (*final(wb)).history();
                &&& one_call((*wb).history(), g)
                &&& g.last() is SetRowsHidden
                &&& g.last()->SetRowsHidden_sheet == sheet@
                &&& g.last()->SetRowsHidden_start_row == row
                &&& g.last()->SetRowsHidden_end_row == end_row
                &&& g.last()->SetRowsHidden_hidden == hidden
                &&& hands_on_edit(g.last()->SetRowsHidden_reply, r)
            },
{
}

/// A cell is evaluated by the engine, and its value handed on; an absent one is empty.
pub proof fn law_cell_is_evaluated_by_the_engine<E: WorkbookEngine>(
    sheet: &str,
    row: u32,
    col: u32,
    r: Result<LiteralValue, IoError>,
)
    ensures
        forall|wb: &mut Workbook<E>| #[trigger]
            call_ensures(Workbook::<E>::evaluate_cell, (wb, sheet, row, col), r) ==> {
                let g = (*final(wb)).history();
                let reply = g.last()->EvaluateCell_reply;
                &&& one_call((*wb).history(), g)
                &&& g.last() is EvaluateCell
                &&& g.last()->EvaluateCell_sheet == sheet@
                &&& g.last()->EvaluateCell_row == row
                &&& g.last()->EvaluateCell_col == col
                &&& reply is Ok ==> r is Ok && r->Ok_0 == or_empty(reply->Ok_0)
                &&& reply is Err ==> r is Err && r->Err_0 is Engine && r->Err_0->Engine_0@
                    == reply->Err_0@
            },
{
}

/// Whether the engine was asked for these cells, in this order.
pub open spec fn asks_for(
    asked: Seq<(Seq<char>, u32, u32)>,
    targets: Seq<(&str, u32, u32)>,
) -> bool {
    &&& asked.len() == targets.len()
    &&& forall|i: int|
        0 <= i < targets.len() ==> (#[trigger] asked[i]).0 == targets[i].0@ && asked[i].1
            == targets[i].1 && asked[i].2 == targets[i].2
}

/// Whether `r` hands on the values that the engine answered with, in their order, with
/// empty ones for those that are absent.
pub open spec fn hands_on_values(
    reply: Result<Vec<Option<LiteralValue>>, ExcelError>,
    r: Result<Vec<LiteralValue>, IoError>,
) -> bool {
    match reply {
        Ok(values) => r is Ok && r->Ok_0@.len() == values@.len() && forall|i: int|
            0 <= i < values@.len() ==> #[trigger] r->Ok_0@[i] == or_empty(values@[i]),
        Err(e) => r is Err && r->Err_0 is Engine && r->Err_0->Engine_0@ == e@,
    }
}

/// Cells are evaluated by the engine, the ones that were named in the order in which they
/// were named, and their values handed on in that order; absent ones are empty.
pub proof fn law_cells_are_evaluated_by_the_engine<E: WorkbookEngine>(
    targets: &[(&str, u32, u32)],
    cancel: E::CancelFlag,
    r: Result<Vec<LiteralValue>, IoError>,
)
    ensures
        forall|wb: &mut Workbook<E>| #[trigger]
            call_ensures(Workbook::<E>::evaluate_cells, (wb, targets), r) ==> {
                let g = (*final(wb)).history();
                &&& one_call((*wb).history(), g)
                &&& g.last() is EvaluateCells
                &&& asks_for(g.last()->EvaluateCells_targets, targets@)
                &&& hands_on_values(g.last()->EvaluateCells_reply, r)
            },
        forall|wb: &mut Workbook<E>| #[trigger]
            call_ensures(
                Workbook::<E>::evaluate_cells_cancellable,
                (wb, targets, cancel),
                r,
            ) ==> {
                let g = (*final(wb)).history();
                &&& one_call((*wb).history(), g)
                &&& g.last() is EvaluateCellsCancellable
                &&& asks_for(g.last()->EvaluateCellsCancellable_targets, targets@)
                &&& g.last()->EvaluateCellsCancellable_cancel == cancel
                &&& hands_on_values(g.last()->EvaluateCellsCancellable_reply, r)
            },
{
}

/// Evaluations of all that is out of date, and along a plan, are those of the engine; their
/// results are handed on.
pub proof fn law_evaluations_are_those_of_the_engine<E: WorkbookEngine>(
    cancel: E::CancelFlag,
    plan: &E::RecalcPlan,
    r: Result<E::EvalResult, IoError>,
)
    ensures
        forall|wb: &mut Workbook<E>| #[trigger]
            call_ensures(Workbook::<E>::evaluate_all, (wb,), r) ==> {
                let g = (*final(wb)).history();
                &&& one_call((*wb).history(), g)
                &&& g.last() is EvaluateAll
                &&& hands_on(g.last()->EvaluateAll_reply, r)
            },
        forall|wb: &mut Workbook<E>| #[trigger]
            call_ensures(Workbook::<E>::evaluate_all_cancellable, (wb, cancel), r) ==> {
                let g = (*final(wb)).history();
                &&& one_call((*wb).history(), g)
                &&& g.last() is EvaluateAllCancellable
                &&& g.last()->EvaluateAllCancellable_cancel == cancel
                &&& hands_on(g.last()->EvaluateAllCancellable_reply, r)
            },
        forall|wb: &mut Workbook<E>| #[trigger]
            call_ensures(Workbook::<E>::evaluate_with_plan, (wb, plan), r) ==> {
                let g = (*final(wb)).history();
                &&& one_call((*wb).history(), g)
                &&& g.last() is EvaluateRecalcPlan
                &&& g.last()->EvaluateRecalcPlan_plan == *plan
                &&& hands_on(g.last()->EvaluateRecalcPlan_reply, r)
            },
{
}

/// Staged formula texts are taken into the graph by the engine: all of them, or those of
/// the sheets that were named.
pub proof fn law_graph_is_prepared_by_the_engine<E: WorkbookEngine>(
    sheets: &[&str],
    r: Result<(), IoError>,
)
    ensures
        forall|wb: &mut Workbook<E>| #[trigger]
            call_ensures(Workbook::<E>::prepare_graph_all, (wb,), r) ==> {
                let g = (*final(wb)).history();
                &&& one_call((*wb).history(), g)
                &&& g.last() is BuildGraphAll
                &&& hands_on_parse(g.last()->BuildGraphAll_reply, r)
            },
        forall|wb: &mut Workbook<E>| #[trigger]
            call_ensures(Workbook::<E>::prepare_graph_for_sheets, (wb, sheets), r) ==> {
                let g = (*final(wb)).history();
                let asked = g.last()->BuildGraphForSheets_sheets;
                &&& one_call((*wb).history(), g)
                &&& g.last() is BuildGraphForSheets
                &&& asked.len() == sheets@.len()
                &&& forall|i: int|
                    0 <= i < sheets@.len() ==> #[trigger] asked[i] == sheets@[i]@
                &&& hands_on_parse(g.last()->BuildGraphForSheets_reply, r)
            },
{
}

/// How time and chance are seen is set in the engine.
pub proof fn law_time_is_set_in_the_engine<E: WorkbookEngine>(
    mode: E::DeterministicMode,
    r: Result<(), IoError>,
)
    ensures
        forall|wb: &mut Workbook<E>| #[trigger]
            call_ensures(Workbook::<E>::set_deterministic_mode, (wb, mode), r) ==> {
                let g = (*final(wb)).history();
                &&& one_call((*wb).history(), g)
                &&& g.last() is SetDeterministicMode
                &&& g.last()->SetDeterministicMode_mode == mode
                &&& hands_on(g.last()->SetDeterministicMode_reply, r)
            },
{
}

/// A plan is asked of the engine for the cells that were named. Where that is wanted, and
/// graph building is deferred, all staged texts are taken into the graph before; a text
/// that does not parse is answered, and no plan asked for then.
pub proof fn law_plan_follows_the_graph<E: WorkbookEngine>(
    targets: &[(&str, u32, u32)],
    build: bool,
    r: Result<E::EvalPlan, IoError>,
)
    ensures
        forall|wb: &mut Workbook<E>| #[trigger]
            call_ensures(
                Workbook::<E>::get_eval_plan_with_options,
                (wb, targets, build),
                r,
            ) ==> {
                let h = (*wb).history();
                let g = (*final(wb)).history();
                let n = h.len() as int;
                let deferred = build && g.len() > n && g[n] is Flags
                    && g[n]->Flags_reply.defer_graph_building;
                &&& forall|i: int| 0 <= i < n ==> #[trigger] g[i] == h[i]
                &&& build ==> g.len() > n + 1 && g[n] is Flags
                &&& deferred ==> g[n + 1] is BuildGraphAll
                &&& g.len() == n + 1 + (if build {
                    1int
                } else {
                    0
                }) + (if deferred && g[n + 1]->BuildGraphAll_reply is Ok {
                    1int
                } else {
                    0
                })
                &&& if deferred && g[n + 1]->BuildGraphAll_reply is Err {
                    &&& r is Err
                    &&& r->Err_0 is Backend
                    &&& r->Err_0->backend@ == "parser"@
                    &&& r->Err_0->message@ == g[n + 1]->BuildGraphAll_reply->Err_0@
                } else {
                    &&& g.last() is GetEvalPlan
                    &&& asks_for(g.last()->GetEvalPlan_targets, targets@)
                    &&& hands_on(g.last()->GetEvalPlan_reply, r)
                }
            },
{
}

/// The sheets by name: which ids the graph knows, and what the store and the staged texts
/// hold, each by a number that stands for it.
pub struct Tabs {
    pub names: Map<u32, Seq<char>>,
    pub stored: Map<Seq<char>, int>,
    pub texts: Map<Seq<char>, int>,
    /// Whether every answer was the true one.
    pub truth: bool,
    /// Whether nothing was asked for but what has to do with sheets by name.
    pub sound: bool,
}

/// What is held under another name.
pub open spec fn moved(m: Map<Seq<char>, int>, from: Seq<char>, to: Seq<char>) -> Map<
    Seq<char>,
    int,
> {
    if m.contains_key(from) {
        m.remove(from).insert(to, m[from])
    } else {
        m
    }
}

/// The sheets after one more call.
pub open spec fn tabs_step<E: WorkbookEngine>(t: Tabs, e: EngineEvent<E>) -> Tabs {
    match e {
        EngineEvent::SheetId { name, reply } => Tabs {
            truth: t.truth && match reply {
                Some(id) => t.names.contains_key(id) && t.names[id] == name,
                None => forall|id: u32| #[trigger] t.names.contains_key(id) ==> t.names[id] != name,
            },
            ..t
        },
        EngineEvent::AddSheet { name, reply } => match reply {
            Ok(id) => Tabs { names: t.names.insert(id, name), ..t },
            Err(_) => t,
        },
        EngineEvent::RemoveSheet { id, reply } => match reply {
            Ok(_) => Tabs { names: t.names.remove(id), ..t },
            Err(_) => t,
        },
        EngineEvent::RenameSheet { id, new_name, reply } => match reply {
            Ok(_) => Tabs { names: t.names.insert(id, new_name), ..t },
            Err(_) => t,
        },
        EngineEvent::HasStoreSheet { sheet, reply } => Tabs {
            truth: t.truth && reply == t.stored.contains_key(sheet),
            ..t
        },
        EngineEvent::PushStoreSheet { sheet, chunk_rows } => Tabs {
            stored: t.stored.insert(sheet, 0),
            ..t
        },
        EngineEvent::StoreRows { sheet, reply } => t,
        EngineEvent::StoreColumns { sheet, reply } => t,
        EngineEvent::DropStoreSheet { sheet } => Tabs { stored: t.stored.remove(sheet), ..t },
        EngineEvent::RenameStoreSheet { sheet, new_name } => Tabs {
            stored: moved(t.stored, sheet, new_name),
            ..t
        },
        EngineEvent::ClearStagedFormulasForSheet { sheet } => Tabs {
            texts: t.texts.remove(sheet),
            ..t
        },
        EngineEvent::RenameStagedFormulaSheet { old_name, new_name } => Tabs {
            texts: moved(t.texts, old_name, new_name),
            ..t
        },
        _ => Tabs { sound: false, ..t },
    }
}

/// The sheets `t` after the calls of `h` behind the first `from`.
pub open spec fn tabs<E: WorkbookEngine>(t: Tabs, h: Seq<EngineEvent<E>>, from: int) -> Tabs
    decreases h.len(),
{
    if h.len() <= from || h.len() == 0 {
        t
    } else {
        tabs_step(tabs(t, h.drop_last(), from), h.last())
    }
}

broadcast proof fn lemma_tabs_push<E: WorkbookEngine>(
    t: Tabs,
    h: Seq<EngineEvent<E>>,
    e: EngineEvent<E>,
    from: int,
)
    requires
        0 <= from <= h.len(),
    ensures
        #[trigger] tabs(t, h.push(e), from) == tabs_step(tabs(t, h, from), e),
{
    assert(h.push(e).drop_last() =~= h);
}

/// Whether `h` led to `g` by the adding of a sheet with the outcome `outcome`.
pub open spec fn added_so<E: WorkbookEngine>(
    t: Tabs,
    h: Seq<EngineEvent<E>>,
    g: Seq<EngineEvent<E>>,
    name: Seq<char>,
    outcome: Result<(), ErrorView>,
) -> bool {
    let n = h.len() as int;
    let e = tabs(t, g, n);
    &&& g.len() > n
    &&& g[n] is AddSheet
    &&& g[n]->AddSheet_name == name
    &&& t.sound ==> e.sound
    &&& match g[n]->AddSheet_reply {
        Ok(id) => outcome is Ok && (e.truth ==> e.names == t.names.insert(id, name) && e.texts
            == t.texts && e.stored == if t.stored.contains_key(name) {
            t.stored
        } else {
            t.stored.insert(name, 0)
        }),
        Err(x) => outcome is Err && outcome->Err_0 == x@ && e == t,
    }
}

/// Whether `h` led to `g` by the deletion of a sheet with the outcome `outcome`.
pub open spec fn deleted_so<E: WorkbookEngine>(
    t: Tabs,
    h: Seq<EngineEvent<E>>,
    g: Seq<EngineEvent<E>>,
    name: Seq<char>,
    id: u32,
    outcome: Result<(), ErrorView>,
) -> bool {
    let e = tabs(t, g, h.len() as int);
    &&& t.sound ==> e.sound
    &&& outcome is Ok && e.truth ==> {
        &&& e.stored == t.stored.remove(name)
        &&& e.texts == t.texts.remove(name)
        &&& t.names.contains_key(id) && t.names[id] == name ==> e.names == t.names.remove(id)
        &&& t.names.contains_key(id) && t.names[id] != name ==> e.names.contains_key(id)
            && e.names[id] == t.names[id]
    }
    &&& outcome is Err ==> {
        &&& e.names == t.names && e.stored == t.stored && e.texts == t.texts
        &&& g.last() is RemoveSheet
        &&& g.last()->RemoveSheet_reply is Err
        &&& outcome->Err_0 == g.last()->RemoveSheet_reply->Err_0@
    }
}

/// Whether `h` led to `g` by the renaming of a sheet with the outcome `outcome`.
pub open spec fn renamed_so<E: WorkbookEngine>(
    t: Tabs,
    h: Seq<EngineEvent<E>>,
    g: Seq<EngineEvent<E>>,
    old_name: Seq<char>,
    new_name: Seq<char>,
    id: u32,
    outcome: Result<(), ErrorView>,
) -> bool {
    let e = tabs(t, g, h.len() as int);
    &&& t.sound ==> e.sound
    &&& outcome is Ok && e.truth ==> {
        &&& e.stored == moved(t.stored, old_name, new_name)
        &&& e.texts == moved(t.texts, old_name, new_name)
        &&& t.names.contains_key(id) ==> e.names.contains_key(id) && e.names[id]
            == if t.names[id] == old_name {
            new_name
        } else {
            t.names[id]
        }
    }
    &&& outcome is Err ==> {
        &&& e.names == t.names && e.stored == t.stored && e.texts == t.texts
        &&& g.last() is RenameSheet
        &&& g.last()->RenameSheet_reply is Err
        &&& outcome->Err_0 == g.last()->RenameSheet_reply->Err_0@
    }
}

/// Whether no two ids have the same name.
pub open spec fn named_apart(names: Map<u32, Seq<char>>) -> bool {
    forall|a: u32, b: u32|
        names.contains_key(a) && names.contains_key(b) && #[trigger] names[a]
            == #[trigger] names[b] ==> a == b
}

/// See [`added_so`].
pub proof fn lemma_added_so<E: WorkbookEngine>(
    t: Tabs,
    h: Seq<EngineEvent<E>>,
    name: Seq<char>,
    added: Result<u32, ExcelError>,
    capacity: CapacityReplies,
)
    ensures
        added_so(
            t,
            h,
            sheet_addition(h, name, added, capacity).0,
            name,
            sheet_addition(h, name, added, capacity).1,
        ),
{
    broadcast use lemma_tabs_push;

}

/// See [`deleted_so`].
pub proof fn lemma_deleted_so<E: WorkbookEngine>(
    t: Tabs,
    h: Seq<EngineEvent<E>>,
    name: Seq<char>,
    id: u32,
    found: Option<u32>,
    removed: Result<(), ExcelError>,
)
    requires
        named_apart(t.names),
    ensures
        deleted_so(
            t,
            h,
            sheet_deletion(h, name, found, removed).0,
            name,
            id,
            sheet_deletion(h, name, found, removed).1,
        ),
{
    broadcast use lemma_tabs_push;

    if t.names.contains_key(id) && t.names[id] == name && found is Some {
        assert(t.names.contains_key(found->0) && t.names[found->0] == name ==> found->0 == id);
    }
}

/// See [`renamed_so`].
pub proof fn lemma_renamed_so<E: WorkbookEngine>(
    t: Tabs,
    h: Seq<EngineEvent<E>>,
    old_name: Seq<char>,
    new_name: Seq<char>,
    id: u32,
    found: Option<u32>,
    renamed: Result<(), ExcelError>,
    stored: bool,
)
    requires
        named_apart(t.names),
    ensures
        renamed_so(
            t,
            h,
            sheet_renaming(h, old_name, new_name, found, renamed, stored).0,
            old_name,
            new_name,
            id,
            sheet_renaming(h, old_name, new_name, found, renamed, stored).1,
        ),
{
    broadcast use lemma_tabs_push;

    if t.names.contains_key(id) && t.names[id] == old_name && found is Some {
        assert(t.names.contains_key(found->0) && t.names[found->0] == old_name ==> found->0
            == id);
    }
}

/// A result with its error as a plain value.
pub open spec fn plainly(r: Result<(), ExcelError>) -> Result<(), ErrorView> {
    match r {
        Ok(_) => Ok(()),
        Err(e) => Err(e@),
    }
}

/// A sheet that was added is known to the graph under its name, and is in the store, empty
/// where it was not there. Nothing else changes; a refusal changes nothing and is handed
/// on.
pub proof fn law_added_sheet_is_there<E: WorkbookEngine>(
    name: &str,
    r: Result<(), ExcelError>,
    t: Tabs,
)
    ensures
        forall|wb: &mut Workbook<E>| #[trigger]
            call_ensures(Workbook::<E>::add_sheet, (wb, name), r) ==> added_so(
                t,
                (*wb).history(),
                (*final(wb)).history(),
                name@,
                plainly(r),
            ),
{
    assert forall|wb: &mut Workbook<E>| #[trigger]
        call_ensures(Workbook::<E>::add_sheet, (wb, name), r) implies added_so(
        t,
        (*wb).history(),
        (*final(wb)).history(),
        name@,
        plainly(r),
    ) by {
        let h = (*wb).history();
        let (added, capacity) = choose|
            added: Result<u32, ExcelError>,
            capacity: CapacityReplies,
        |
            ((*final(wb)).history(), excel_view(r)) == #[trigger] sheet_addition(
                h,
                name@,
                added,
                capacity,
            );
        lemma_added_so(t, h, name@, added, capacity);
    }
}

/// A sheet that was deleted is gone from the graph, from the store and from the staged
/// texts; no other sheet is. A refusal changes nothing and is handed on.
pub proof fn law_deleted_sheet_is_gone<E: WorkbookEngine>(
    name: &str,
    r: Result<(), ExcelError>,
    t: Tabs,
    id: u32,
)
    requires
        named_apart(t.names),
    ensures
        forall|wb: &mut Workbook<E>| #[trigger]
            call_ensures(Workbook::<E>::delete_sheet, (wb, name), r) ==> deleted_so(
                t,
                (*wb).history(),
                (*final(wb)).history(),
                name@,
                id,
                plainly(r),
            ),
{
    assert forall|wb: &mut Workbook<E>| #[trigger]
        call_ensures(Workbook::<E>::delete_sheet, (wb, name), r) implies deleted_so(
        t,
        (*wb).history(),
        (*final(wb)).history(),
        name@,
        id,
        plainly(r),
    ) by {
        let h = (*wb).history();
        let (found, removed) = choose|found: Option<u32>, removed: Result<(), ExcelError>|
            ((*final(wb)).history(), excel_view(r)) == #[trigger] sheet_deletion(
                h,
                name@,
                found,
                removed,
            );
        lemma_deleted_so(t, h, name@, id, found, removed);
    }
}

/// A sheet that was renamed is known to the graph, the store and the staged texts under its
/// new name, with what they held of it, and no more under its old one. No other sheet is
/// renamed. A refusal changes nothing and is handed on.
pub proof fn law_renamed_sheet_keeps_what_it_has<E: WorkbookEngine>(
    old_name: &str,
    new_name: &str,
    r: Result<(), ExcelError>,
    t: Tabs,
    id: u32,
)
    requires
        named_apart(t.names),
    ensures
        forall|wb: &mut Workbook<E>| #[trigger]
            call_ensures(Workbook::<E>::rename_sheet, (wb, old_name, new_name), r) ==> renamed_so(
                t,
                (*wb).history(),
                (*final(wb)).history(),
                old_name@,
                new_name@,
                id,
                plainly(r),
            ),
{
    assert forall|wb: &mut Workbook<E>| #[trigger]
        call_ensures(Workbook::<E>::rename_sheet, (wb, old_name, new_name), r) implies renamed_so(
        t,
        (*wb).history(),
        (*final(wb)).history(),
        old_name@,
        new_name@,
        id,
        plainly(r),
    ) by {
        let h = (*wb).history();
        let (found, renamed, stored) = choose|
            found: Option<u32>,
            renamed: Result<(), ExcelError>,
            stored: bool,
        |
            ((*final(wb)).history(), excel_view(r)) == #[trigger] sheet_renaming(
                h,
                old_name@,
                new_name@,
                found,
                renamed,
                stored,
            );
        lemma_renamed_so(t, h, old_name@, new_name@, id, found, renamed, stored);
    }
}

/// A sheet is copied by the engine, from the one that was named first to the one that was
/// named second.
pub proof fn law_sheet_is_copied_by_the_engine<E: WorkbookEngine>(
    source: &str,
    new_name: &str,
    r: Result<(), ExcelError>,
)
    ensures
        forall|wb: &mut Workbook<E>| #[trigger]
            call_ensures(Workbook::<E>::duplicate_sheet, (wb, source, new_name), r) ==> {
                let g = (*final(wb)).history();
                &&& one_call((*wb).history(), g)
                &&& g.last() is DuplicateSheet
                &&& g.last()->source == source@
                &&& g.last()->DuplicateSheet_new_name == new_name@
                &&& g.last()->DuplicateSheet_reply == r
            },
{
}

/// The settings of a mode. An ephemeral workbook builds formulas at once, refuses those
/// that do not parse and keeps no change log; an interactive one defers the building, shows
/// an error for those that do not parse and keeps a log. Both evaluate no spans, count days
/// from 1900 and keep values in the store, with edits and results laid over it.
pub proof fn law_modes_differ_in_three_settings<S: Default, L: Default>(
    mode: WorkbookMode,
    c: WorkbookConfig<S, L>,
)
    requires
        call_ensures(WorkbookConfig::<S, L>::for_mode, (mode,), c),
    ensures
        c.enable_changelog == (mode is Interactive),
        c.eval.defer_graph_building == (mode is Interactive),
        c.eval.formula_parse_policy is CoerceToError <==> mode is Interactive,
        c.eval.formula_plane_mode is Off,
        c.eval.arrow_storage_enabled,
        c.eval.delta_overlay_enabled,
        c.eval.write_formula_overlay_enabled,
        c.eval.date_system is Excel1900,
        call_ensures(S::default, (), c.eval.settings),
        call_ensures(L::default, (), c.ingest_limits),
{
}

/// The settings by name are those of the modes; the engine's own choice is that of an
/// ephemeral workbook.
pub proof fn law_named_settings_are_those_of_the_modes<S: Default, L: Default>(
    ephemeral: WorkbookConfig<S, L>,
    interactive: WorkbookConfig<S, L>,
    own: EvalConfig<S>,
)
    requires
        call_ensures(WorkbookConfig::<S, L>::ephemeral, (), ephemeral),
        call_ensures(WorkbookConfig::<S, L>::interactive, (), interactive),
        call_ensures(EvalConfig::<S>::default, (), own),
    ensures
        !ephemeral.enable_changelog,
        ephemeral.eval == (EvalConfig { settings: ephemeral.eval.settings, ..own }),
        interactive.enable_changelog,
        interactive.eval == (EvalConfig {
            settings: interactive.eval.settings,
            defer_graph_building: true,
            formula_parse_policy: FormulaParsePolicy::CoerceToError,
            ..own
        }),
        !own.defer_graph_building,
        own.formula_parse_policy is Strict,
        own.formula_plane_mode is Off,
        own.arrow_storage_enabled && own.delta_overlay_enabled
            && own.write_formula_overlay_enabled,
        own.date_system is Excel1900,
{
}

/// Settings are changed one at a time: the limits, or whether and how spans are evaluated.
pub proof fn law_settings_are_changed_one_at_a_time<S, L>(
    c: WorkbookConfig<S, L>,
    limits: L,
    enabled: bool,
    mode: FormulaPlaneMode,
    limited: WorkbookConfig<S, L>,
    spanned: WorkbookConfig<S, L>,
    planed: WorkbookConfig<S, L>,
    told: bool,
)
    requires
        call_ensures(WorkbookConfig::<S, L>::with_ingest_limits, (c, limits), limited),
        call_ensures(WorkbookConfig::<S, L>::with_span_evaluation, (c, enabled), spanned),
        call_ensures(WorkbookConfig::<S, L>::with_formula_plane_mode, (c, mode), planed),
        call_ensures(WorkbookConfig::<S, L>::span_evaluation_enabled, (&c,), told),
    ensures
        limited == (WorkbookConfig { ingest_limits: limits, ..c }),
        spanned == (WorkbookConfig { eval: spanned.eval, ..c }),
        spanned.eval == (EvalConfig {
            formula_plane_mode: spanned.eval.formula_plane_mode,
            ..c.eval
        }),
        spanned.eval.formula_plane_mode is AuthoritativeExperimental <==> enabled,
        planed == (WorkbookConfig { eval: planed.eval, ..c }),
        planed.eval == (EvalConfig { formula_plane_mode: mode, ..c.eval }),
        told == (c.eval.formula_plane_mode is AuthoritativeExperimental),
{
}

/// A new workbook has an engine made with its settings, but always with the store and with
/// edits and results laid over it; it has the limits and the change log that the settings
/// name, and no function, module, runtime or file.
pub proof fn law_new_workbook_has_its_settings<E: WorkbookEngine>(
    config: WorkbookConfig<E::Settings, E::LoadLimits>,
    wb: Workbook<E>,
)
    requires
        call_ensures(Workbook::<E>::new_with_config, (config,), wb),
    ensures
        wb.history().len() == 3,
        wb.history()[0] is Create,
        wb.history()[0]->Create_config == (EvalConfig {
            arrow_storage_enabled: true,
            delta_overlay_enabled: true,
            write_formula_overlay_enabled: true,
            ..config.eval
        }),
        wb.history()[0]->Create_functions == wb.functions(),
        wb.history()[1] is SetLoadLimits,
        wb.history()[1]->limits == config.ingest_limits,
        wb.history()[2] is LogSetEnabled,
        wb.history()[2]->enabled == config.enable_changelog,
        wb.logged() == config.enable_changelog,
        wb.calc() is None,
        wb.functions().functions().dom() =~= Set::<Seq<char>>::empty(),
        wb.plugins().modules().dom() =~= Set::<Seq<char>>::empty(),
        wb.plugins().runtime().installed() is None,
        wb.plugins().calls().len() == 0,
{
}

/// A workbook that was loaded keeps what its file states of calculation. Its engine was
/// made with the settings that were given, but for what the file states, and always with
/// the store and with edits and results laid over it; it was then filled by the reader, and
/// nothing else was asked of it.
pub proof fn law_loaded_workbook_has_its_settings<E: WorkbookEngine, B: SpreadsheetReader<E>>(
    backend: B,
    strategy: LoadStrategy,
    config: WorkbookConfig<E::Settings, E::LoadLimits>,
    wb: Workbook<E>,
    stats: Option<B::Stats>,
)
    requires
        call_ensures(
            Workbook::<E>::from_reader_with_adapter_stats::<B>,
            (backend, strategy, config),
            Ok((wb, stats)),
        ),
    ensures
        exists|b: &mut B| *b == backend && #[trigger]
            call_ensures(B::calc_settings, (b,), wb.calc()),
        wb.logged() == config.enable_changelog,
        wb.history().len() == 4,
        wb.history()[0] is Create,
        wb.history()[0]->Create_config == (EvalConfig {
            settings: wb.history()[0]->Create_config.settings,
            arrow_storage_enabled: true,
            delta_overlay_enabled: true,
            write_formula_overlay_enabled: true,
            ..config.eval
        }),
        wb.calc() is None ==> wb.history()[0]->Create_config.settings == config.eval.settings,
        wb.calc() is Some ==> call_ensures(
            E::apply_calc_settings,
            (config.eval.settings, &wb.calc()->0),
            wb.history()[0]->Create_config.settings,
        ),
        wb.history()[1] is SetLoadLimits,
        wb.history()[1]->limits == config.ingest_limits,
        wb.history()[2] is LogSetEnabled,
        wb.history()[2]->enabled == config.enable_changelog,
        wb.history()[3] is HandedOut,
        exists|read: &mut B, engine: &mut E, reply: Result<(), IoError>| #[trigger]
            call_ensures(B::stream_into_engine, (read, engine), reply) && reply is Ok
                && *final(engine) == wb.host().engine() && call_ensures(
                B::load_stats,
                (&*final(read),),
                stats,
            ),
{
}

} // verus!
