//! Laws on the functions that formulas find: the engine knows those of the workbook.

use crate::address::RangeAddress;
use crate::batch::{values_run, SetValuesReplies, Target};
use crate::batch_formulas::{formulas_run, SetFormulasReplies};
use crate::batch_range::{range_run, WriteRangeReplies};
use crate::cell_data::CellData;
use crate::cells::{formula_run, value_run, Run, SetFormulaReplies, SetValueReplies};
use crate::config::WorkbookConfig;
use crate::engine::{CalcSettings, EngineEvent, WorkbookEngine};
use crate::error::{EditorError, ErrorView, ExcelError};
use crate::function::{normalized_name, CustomFnOptions};
use crate::laws_cells::acts;
use crate::laws_history::{
    is_bracketed, is_telling, law_formulas_are_spread_once, law_ranges_are_spread_once,
    law_single_formula_is_not_bracketed, law_single_value_is_not_bracketed,
    law_values_are_spread_once,
};
use crate::manifest::WasmFunctionSpec;
use crate::names::{
    after_address, name_deletion_run, named_range_run, AddressReplies, NameEdit, NameReplies,
    NamedRangeScope,
};
use crate::registry::FunctionRegistry;
use crate::store::{after_capacity, CapacityReplies};
use crate::text::ascii_upper;
use crate::value::LiteralValue;
use crate::workbook::{
    after_begin, committed, is_custom_entry, is_wasm_entry, plan_run, sheet_addition,
    sheet_deletion, sheet_renaming, PlanReplies, Workbook,
};
use crate::writer::{
    cell_write_run, cell_writes_run, clear_row_run, clear_rows_run, CellWriteReplies,
};
use std::sync::Arc;
use vstd::prelude::*;

verus! {

/// The functions that the workbook told the engine last.
pub open spec fn told<E: WorkbookEngine>(h: Seq<EngineEvent<E>>) -> Option<
    FunctionRegistry<E::Handler, E::Runtime>,
>
    decreases h.len(),
{
    if h.len() == 0 {
        None
    } else {
        match h.last() {
            EngineEvent::Create { functions, .. } => Some(functions),
            EngineEvent::SetResolver { functions } => Some(functions),
            _ => told(h.drop_last()),
        }
    }
}

/// Whether the engine was told the functions of the workbook as they are, which formulas
/// then find.
pub open spec fn in_tune<E: WorkbookEngine>(wb: Workbook<E>) -> bool {
    told(wb.history()) == Some(wb.functions())
}

broadcast proof fn lemma_told_push<E: WorkbookEngine>(
    h: Seq<EngineEvent<E>>,
    e: EngineEvent<E>,
)
    ensures
        #[trigger] told(h.push(e)) == match e {
            EngineEvent::Create { functions, .. } => Some(functions),
            EngineEvent::SetResolver { functions } => Some(functions),
            _ => told(h),
        },
{
    assert(h.push(e).drop_last() =~= h);
}

/// What goes on without a word on functions leaves the engine with those that it knew.
proof fn lemma_told_after<E: WorkbookEngine>(h: Seq<EngineEvent<E>>, g: Seq<EngineEvent<E>>)
    requires
        h.len() <= g.len(),
        forall|i: int| 0 <= i < h.len() ==> #[trigger] g[i] == h[i],
        forall|i: int| h.len() <= i < g.len() ==> !is_telling(#[trigger] g[i]),
    ensures
        told(g) == told(h),
    decreases g.len(),
{
    if g.len() > h.len() {
        let rest = g.drop_last();
        assert forall|i: int| 0 <= i < h.len() implies #[trigger] rest[i] == h[i] by {
            assert(g[i] == h[i]);
        }
        assert forall|i: int| h.len() <= i < rest.len() implies !is_telling(
            #[trigger] rest[i],
        ) by {
            assert(!is_telling(g[i]));
        }
        lemma_told_after(h, rest);
        assert(!is_telling(g[g.len() - 1]));
    } else {
        assert(g =~= h);
    }
}

proof fn lemma_told_bracketed<E: WorkbookEngine>(
    h: Seq<EngineEvent<E>>,
    run: Run<E>,
    logged: bool,
)
    requires
        is_bracketed(h, run, logged),
    ensures
        told(run.history) == told(h),
{
    lemma_told_after(h, run.history);
}

/// Formulas of a new workbook find its functions, of which there is none.
pub proof fn law_new_workbooks_are_in_tune<E: WorkbookEngine>(
    wb: Workbook<E>,
    config: WorkbookConfig<E::Settings, E::LoadLimits>,
)
    requires
        wb.starts_with(config),
    ensures
        in_tune(wb),
        forall|ns: Seq<char>, name: Seq<char>| #[trigger] wb.functions().meant(ns, name) is None,
{
    lemma_told_after(wb.history().take(1), wb.history());
    assert(wb.history().take(1).last() is Create);
}

/// Formulas of a workbook loaded from a file find its functions, of which there is none.
pub proof fn law_loaded_workbooks_are_in_tune<E: WorkbookEngine>(
    wb: Workbook<E>,
    config: WorkbookConfig<E::Settings, E::LoadLimits>,
    stated: Option<CalcSettings<E::Iteration>>,
    settings: E::Settings,
)
    requires
        wb.loaded_with(config, stated, settings),
    ensures
        in_tune(wb),
        forall|ns: Seq<char>, name: Seq<char>| #[trigger] wb.functions().meant(ns, name) is None,
{
    lemma_told_after(wb.history().take(1), wb.history());
    assert(wb.history().take(1).last() is Create);
}

/// A custom function that was registered is what formulas find by its name, in any
/// spelling, and by no other name; what they found before, they find still.
pub proof fn law_registered_functions_are_found<E: WorkbookEngine>(
    before: Workbook<E>,
    after: Workbook<E>,
    canonical: Seq<char>,
    options: CustomFnOptions,
    handler: Arc<E::Handler>,
    r: Result<(), ExcelError>,
    spelling: Seq<char>,
)
    requires
        Workbook::takes_custom(before, after, canonical, options, handler, r),
    ensures
        in_tune(after),
        ascii_upper(spelling) == canonical ==> after.functions().meant(Seq::empty(), spelling)
            is Some && is_custom_entry(
            after.functions().meant(Seq::empty(), spelling)->0,
            canonical,
            options,
            handler,
        ),
        ascii_upper(spelling) != canonical ==> after.functions().meant(Seq::empty(), spelling)
            == before.functions().meant(Seq::empty(), spelling),
{
    broadcast use lemma_told_push;

    let older = before.functions().functions();
    let newer = after.functions().functions();
    let key = ascii_upper(spelling);
    assert(newer.remove(canonical) == older);
    assert(newer.dom().contains(key) == older.insert(canonical, newer[canonical]).dom().contains(
        key,
    ));
    if key != canonical && older.dom().contains(key) {
        assert(newer.remove(canonical)[key] == newer[key]);
    }
}

/// A WASM function that was registered is what formulas find by its name, in any
/// spelling, and by no other name; what they found before, they find still.
pub proof fn law_bound_functions_are_found<E: WorkbookEngine>(
    before: Workbook<E>,
    after: Workbook<E>,
    canonical: Seq<char>,
    options: CustomFnOptions,
    module_id: Seq<char>,
    spec: WasmFunctionSpec,
    r: Result<(), ExcelError>,
    spelling: Seq<char>,
)
    requires
        Workbook::takes_wasm(before, after, canonical, options, module_id, spec, true, r),
    ensures
        in_tune(after),
        ascii_upper(spelling) == canonical ==> after.functions().meant(Seq::empty(), spelling)
            is Some && is_wasm_entry(
            after.functions().meant(Seq::empty(), spelling)->0,
            canonical,
            options,
            module_id,
            spec,
            before.plugins().runtime(),
        ),
        ascii_upper(spelling) != canonical ==> after.functions().meant(Seq::empty(), spelling)
            == before.functions().meant(Seq::empty(), spelling),
{
    broadcast use lemma_told_push;

    let older = before.functions().functions();
    let newer = after.functions().functions();
    let key = ascii_upper(spelling);
    assert(newer.remove(canonical) == older);
    assert(newer.dom().contains(key) == older.insert(canonical, newer[canonical]).dom().contains(
        key,
    ));
    if key != canonical && older.dom().contains(key) {
        assert(newer.remove(canonical)[key] == newer[key]);
    }
}

/// A function that was unregistered is found no more; what else formulas found, they find
/// still.
pub proof fn law_unregistered_functions_are_lost<E: WorkbookEngine>(
    before: Workbook<E>,
    after: Workbook<E>,
    name: Seq<char>,
    canonical: Seq<char>,
    spelling: Seq<char>,
)
    requires
        normalized_name(name) == Ok::<Seq<char>, ErrorView>(canonical),
        FunctionRegistry::<E::Handler, E::Runtime>::removal(before.functions().functions(), name)
            is Ok,
        after.functions().functions() == FunctionRegistry::<E::Handler, E::Runtime>::removal(
            before.functions().functions(),
            name,
        )->Ok_0,
        after.tells_functions(before),
    ensures
        in_tune(after),
        ascii_upper(spelling) == canonical ==> after.functions().meant(Seq::empty(), spelling)
            is None,
        ascii_upper(spelling) != canonical ==> after.functions().meant(Seq::empty(), spelling)
            == before.functions().meant(Seq::empty(), spelling),
{
    broadcast use lemma_told_push;

}

/// A refused registration leaves what formulas find as it was.
pub proof fn law_refusals_stay_in_tune<E: WorkbookEngine>(
    before: Workbook<E>,
    after: Workbook<E>,
    r: Result<(), ExcelError>,
    e: ErrorView,
)
    requires
        in_tune(before),
        Workbook::refuses(before, after, r, e),
    ensures
        in_tune(after),
{
}

/// A single call that is no word on functions, such as an evaluation, meets the engine
/// with the functions that it knew.
pub proof fn law_calls_stay_in_tune<E: WorkbookEngine>(
    h: Seq<EngineEvent<E>>,
    e: EngineEvent<E>,
)
    requires
        !is_telling(e),
    ensures
        told(h.push(e)) == told(h),
{
    broadcast use lemma_told_push;

}

/// An evaluation meets the engine with the functions of the workbook.
pub proof fn law_evaluations_find_the_functions<E: WorkbookEngine>(
    before: Workbook<E>,
    after: Workbook<E>,
    e: EngineEvent<E>,
)
    requires
        in_tune(before),
        after.keeps(before),
        after.history() == before.history().push(e),
        e is EvaluateCell || e is EvaluateCells || e is EvaluateCellsCancellable || e is EvaluateAll
            || e is EvaluateAllCancellable || e is EvaluateRecalcPlan,
    ensures
        told(before.history()) == Some(before.functions()),
        in_tune(after),
{
    broadcast use lemma_told_push;

}

/// Setting the values and formulas of cells, one by one or many at once, leaves the
/// engine with the functions that it knew.
pub proof fn law_cell_edits_stay_in_tune<E: WorkbookEngine>(
    h: Seq<EngineEvent<E>>,
    logged: bool,
    sheet: Seq<char>,
    row: u32,
    col: u32,
    value: LiteralValue,
    formula: Seq<char>,
    values: Seq<Target<LiteralValue>>,
    formulas: Seq<Vec<String>>,
    cells: Seq<Target<CellData>>,
    value_replies: SetValueReplies,
    formula_replies: SetFormulaReplies,
    values_replies: SetValuesReplies,
    formulas_replies: SetFormulasReplies,
    range_replies: WriteRangeReplies,
)
    ensures
        told(value_run(h, logged, sheet, row, col, value, value_replies).history) == told(h),
        told(formula_run(h, logged, sheet, row, col, formula, formula_replies).history) == told(h),
        told(values_run(h, logged, sheet, values, values_replies).history) == told(h),
        told(formulas_run(h, logged, sheet, row, col, formulas, formulas_replies).history) == told(
            h,
        ),
        told(range_run(h, logged, sheet, cells, range_replies).history) == told(h),
{
    law_single_value_is_not_bracketed(h, logged, sheet, row, col, value, value_replies);
    lemma_told_after(h, value_run(h, logged, sheet, row, col, value, value_replies).history);
    law_single_formula_is_not_bracketed(h, logged, sheet, row, col, formula, formula_replies);
    lemma_told_after(h, formula_run(h, logged, sheet, row, col, formula, formula_replies).history);
    law_values_are_spread_once(h, logged, sheet, values, values_replies);
    lemma_told_bracketed(h, values_run(h, logged, sheet, values, values_replies), logged);
    law_formulas_are_spread_once(h, logged, sheet, row, col, formulas, formulas_replies);
    lemma_told_bracketed(
        h,
        formulas_run(h, logged, sheet, row, col, formulas, formulas_replies),
        logged,
    );
    law_ranges_are_spread_once(h, logged, sheet, cells, range_replies);
    lemma_told_bracketed(h, range_run(h, logged, sheet, cells, range_replies), logged);
}

proof fn lemma_told_capacity<E: WorkbookEngine>(
    h: Seq<EngineEvent<E>>,
    sheet: Seq<char>,
    rows: int,
    cols: int,
    r: CapacityReplies,
)
    ensures
        told(after_capacity(h, sheet, rows, cols, r)) == told(h),
{
    broadcast use lemma_told_push;

}

/// Edits of names leave the engine with the functions that it knew.
pub proof fn law_name_edits_stay_in_tune<E: WorkbookEngine>(
    h: Seq<EngineEvent<E>>,
    logged: bool,
    edit: NameEdit,
    name: Seq<char>,
    address: RangeAddress,
    scope: NamedRangeScope,
    place: AddressReplies,
    sheet: Option<Seq<char>>,
    found: Option<u32>,
    replies: NameReplies,
)
    ensures
        told(named_range_run(h, logged, edit, name, address, scope, place, replies).history)
            == told(h),
        told(name_deletion_run(h, logged, name, scope, sheet, found, replies).history) == told(h),
{
    broadcast use lemma_told_push;

    let asked = h.push(EngineEvent::SheetId { name: address.sheet@, reply: place.found });
    let there = if place.found is Some {
        asked
    } else {
        asked.push(EngineEvent::AddSheet { name: address.sheet@, reply: place.added })
    };
    lemma_told_capacity(
        there,
        address.sheet@,
        address.end_row as int,
        address.end_col as int,
        place.capacity,
    );
    assert(told(after_address(h, address, place)) == told(h));
}

/// Edits of sheets leave the engine with the functions that it knew.
pub proof fn law_sheet_edits_stay_in_tune<E: WorkbookEngine>(
    h: Seq<EngineEvent<E>>,
    name: Seq<char>,
    new_name: Seq<char>,
    added: Result<u32, ExcelError>,
    capacity: CapacityReplies,
    found: Option<u32>,
    reply: Result<(), ExcelError>,
    stored: bool,
)
    ensures
        told(sheet_addition(h, name, added, capacity).0) == told(h),
        told(sheet_deletion(h, name, found, reply).0) == told(h),
        told(sheet_renaming(h, name, new_name, found, reply, stored).0) == told(h),
{
    broadcast use lemma_told_push;

    lemma_told_capacity(
        h.push(EngineEvent::AddSheet { name, reply: added }),
        name,
        0,
        0,
        capacity,
    );
}

/// An action, committed or rolled back, leaves the engine with the functions that it
/// knew.
pub proof fn law_actions_stay_in_tune<E: WorkbookEngine, T>(
    h: Seq<EngineEvent<E>>,
    logged: bool,
    name: Seq<char>,
    acted: Seq<EngineEvent<E>>,
    value: T,
    reason: Seq<char>,
    reply: Result<(), EditorError>,
)
    requires
        acts(after_begin(h, logged, name, Ok(())), acted),
    ensures
        told(committed(acted, logged, value, reply).0) == told(h),
        told(acted.push(EngineEvent::ActionAbort { reason })) == told(h),
{
    broadcast use lemma_told_push;

    let begun = after_begin(h, logged, name, Ok(()));
    lemma_told_after(begun, acted);
}

/// Asking for a plan leaves the engine with the functions that it knew.
pub proof fn law_plans_stay_in_tune<E: WorkbookEngine>(
    h: Seq<EngineEvent<E>>,
    targets: Seq<(Seq<char>, u32, u32)>,
    build_graph_if_needed: bool,
    replies: PlanReplies<E::EvalPlan>,
)
    ensures
        told(plan_run(h, targets, build_graph_if_needed, replies).0) == told(h),
{
    broadcast use lemma_told_push;

}

/// Writing cells one by one leaves the engine with the functions that it knew.
pub proof fn law_cell_writes_stay_in_tune<E: WorkbookEngine>(
    h: Seq<EngineEvent<E>>,
    logged: bool,
    sheet: Seq<char>,
    cells: Seq<Target<CellData>>,
    replies: Seq<CellWriteReplies>,
)
    ensures
        told(cell_writes_run(h, logged, sheet, cells, replies).history) == told(h),
    decreases replies.len(),
{
    if replies.len() > 0 {
        law_cell_writes_stay_in_tune(h, logged, sheet, cells, replies.drop_last());
        let before = cell_writes_run(h, logged, sheet, cells, replies.drop_last()).history;
        let (row, col, data) = cells[replies.len() - 1];
        lemma_told_write(before, logged, sheet, row, col, data, replies.last());
    }
}

proof fn lemma_told_write<E: WorkbookEngine>(
    h: Seq<EngineEvent<E>>,
    logged: bool,
    sheet: Seq<char>,
    row: u32,
    col: u32,
    data: CellData,
    replies: CellWriteReplies,
)
    ensures
        told(cell_write_run(h, logged, sheet, row, col, data, replies).history) == told(h),
{
    let valued = match data.value {
        None => h,
        Some(value) => value_run(h, logged, sheet, row, col, value, replies.value).history,
    };
    if data.value is Some {
        let value = data.value->0;
        law_single_value_is_not_bracketed(h, logged, sheet, row, col, value, replies.value);
        lemma_told_after(h, valued);
    }
    if data.formula is Some {
        let formula = (data.formula->0)@;
        law_single_formula_is_not_bracketed(
            valued,
            logged,
            sheet,
            row,
            col,
            formula,
            replies.formula,
        );
        lemma_told_after(
            valued,
            formula_run(valued, logged, sheet, row, col, formula, replies.formula).history,
        );
    }
}

proof fn lemma_told_clear_row<E: WorkbookEngine>(
    run: Run<E>,
    logged: bool,
    sheet: Seq<char>,
    row: u32,
    col: u32,
    replies: Seq<SetValueReplies>,
)
    ensures
        told(clear_row_run(run, logged, sheet, row, col, replies).history) == told(run.history),
    decreases replies.len(),
{
    if replies.len() > 0 {
        lemma_told_clear_row(run, logged, sheet, row, col, replies.drop_last());
        let before = clear_row_run(run, logged, sheet, row, col, replies.drop_last()).history;
        let at = (col + replies.len() - 1) as u32;
        let value = LiteralValue::Empty;
        law_single_value_is_not_bracketed(before, logged, sheet, row, at, value, replies.last());
        lemma_told_after(
            before,
            value_run(before, logged, sheet, row, at, value, replies.last()).history,
        );
    }
}

/// Emptying a rectangle leaves the engine with the functions that it knew.
pub proof fn law_clearings_stay_in_tune<E: WorkbookEngine>(
    run: Run<E>,
    logged: bool,
    sheet: Seq<char>,
    row: u32,
    col: u32,
    rows: Seq<Seq<SetValueReplies>>,
)
    ensures
        told(clear_rows_run(run, logged, sheet, row, col, rows).history) == told(run.history),
    decreases rows.len(),
{
    if rows.len() > 0 {
        law_clearings_stay_in_tune(run, logged, sheet, row, col, rows.drop_last());
        let before = clear_rows_run(run, logged, sheet, row, col, rows.drop_last());
        let at = (row + rows.len() - 1) as u32;
        lemma_told_clear_row(before, logged, sheet, at, col, rows.last());
    }
}

} // verus!
