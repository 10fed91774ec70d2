//! Laws on what is read back, over an engine that keeps what it is given.

use crate::action::{
    tx_cell_run, tx_formula_run, tx_range_run, tx_run, tx_value_run, tx_values_run, TxCellReplies,
};
use crate::address::{one_based, ordered, RangeAddress};
use crate::batch::Target;
use crate::book::{
    book, book_formula, lemma_book_push, lemma_capacity_book, lemma_mirror_book, same_cells, Book,
};
use crate::cell_data::CellData;
use crate::cells::{
    after_old_state, after_sheet, after_value_edit, formula_run, sheet_of, value_run,
    SetFormulaReplies, SetValueReplies,
};
use crate::engine::{
    cell_at, formula_of, CellState, EngineEvent, NameScope, NamedEntry, WorkbookEngine,
};
use crate::error::EditorError;
use crate::formula::{law_sign_is_optional, with_sign};
use crate::laws_staged::{text_at, with_text};
use crate::laws_undo::with_content;
use crate::names::{
    address_sheet, corners, definition_of, definition_resolves, is_address,
    law_name_gives_address_back, name_place, name_resolves, named_range_run, AddressReplies,
    NameEdit, NameReplies, NamedRangeScope,
};
use crate::reads::{formula_is, staged_is, state_is, value_is};
use crate::store::after_capacity;
use crate::text::text_view;
use crate::value::LiteralValue;
use crate::workbook::after_begin;
use vstd::prelude::*;

verus! {

/// Whether `engine` tells of the sheet `sheet`, with the id `id`, what `b` holds. The value
/// of a cell with a formula is the engine's own.
pub open spec fn tells_cells<E: WorkbookEngine>(
    engine: E,
    b: Book,
    id: u32,
    sheet: Seq<char>,
) -> bool {
    &&& forall|row: u32, col: u32, r: Option<LiteralValue>| #[trigger]
        value_is(engine, sheet, row, col, r) && (b.contents)(cell_at(id, row, col)).1 is None
            ==> r == (b.contents)(cell_at(id, row, col)).0
    &&& forall|row: u32, col: u32, r: Option<CellState>| #[trigger]
        state_is(engine, sheet, row, col, r) ==> formula_of(r) == (b.contents)(
            cell_at(id, row, col),
        ).1
    &&& forall|row: u32, col: u32, r: Option<String>| #[trigger]
        staged_is(engine, sheet, row, col, r) ==> text_view(r) == text_at(
            b.texts,
            (sheet, row, col),
        )
}

/// The formula that is read of a cell is the one that the book shows for it.
pub proof fn law_formula_is_that_of_the_book<E: WorkbookEngine>(
    engine: E,
    b: Book,
    id: u32,
    sheet: Seq<char>,
    row: u32,
    col: u32,
    r: Option<Seq<char>>,
)
    requires
        tells_cells(engine, b, id, sheet),
        formula_is(engine, sheet, row, col, r),
    ensures
        r == book_formula(b, id, sheet, row, col),
{
    let staged = choose|staged: Option<String>| #[trigger]
        staged_is(engine, sheet, row, col, staged) && crate::reads::shown_formula(
            engine,
            sheet,
            row,
            col,
            text_view(staged),
            r,
        );
    assert(text_view(staged) == text_at(b.texts, (sheet, row, col)));
    if text_view(staged) is None {
        let state = choose|state: Option<CellState>| #[trigger]
            state_is(engine, sheet, row, col, state) && r == crate::reads::graph_formula(state);
        assert(formula_of(state) == (b.contents)(cell_at(id, row, col)).1);
    }
}

/// What a successful setting of a value leaves: the value in its cell and no staged text
/// for it; every other cell as it was; and the sheet in the store.
pub proof fn law_value_is_kept<E: WorkbookEngine>(
    b: Book,
    id: u32,
    h: Seq<EngineEvent<E>>,
    logged: bool,
    sheet: Seq<char>,
    row: u32,
    col: u32,
    value: LiteralValue,
    replies: SetValueReplies,
)
    requires
        logged ==> id == sheet_of(replies.sheet),
        value_run(h, logged, sheet, row, col, value, replies).outcome is Ok,
    ensures
        ({
            let end = value_run(h, logged, sheet, row, col, value, replies).history;
            let k = book(b, id, end, h.len() as int);
            &&& end.len() >= h.len()
            &&& k.contents == with_content(b.contents, cell_at(id, row, col), (Some(value), None))
            &&& k.texts == with_text(b.texts, (sheet, row, col), None)
            &&& k.names == b.names
            &&& k.told ==> k.stored.contains(sheet)
        }),
{
    broadcast use lemma_book_push;

    let from = h.len() as int;
    lemma_capacity_book(b, id, h, from, sheet, row as int, col as int, replies.capacity);
    let roomy = after_capacity(h, sheet, row as int, col as int, replies.capacity);
    if logged {
        let staged = roomy.push(
            EngineEvent::StagedFormulaText { sheet, row, col, reply: replies.staged },
        );
        let named = after_sheet(staged, sheet, replies.sheet);
        let seen = after_old_state(named, sheet, row, col, replies.old_state);
        let edited = after_value_edit(
            seen.push(EngineEvent::EditBegin),
            cell_at(id, row, col),
            value,
            replies.old_state,
        ).push(EngineEvent::EditEnd);
        lemma_mirror_book(b, id, edited, from, sheet, row, col, value, replies.mirror);
    }
}

/// What was set is read back: a value from its cell, and no formula. The formulas of all
/// other cells are read as before.
pub proof fn law_value_is_read_back<E: WorkbookEngine>(
    b: Book,
    id: u32,
    h: Seq<EngineEvent<E>>,
    logged: bool,
    sheet: Seq<char>,
    row: u32,
    col: u32,
    value: LiteralValue,
    replies: SetValueReplies,
    engine: E,
    got: Option<LiteralValue>,
    formula: Option<Seq<char>>,
)
    requires
        logged ==> id == sheet_of(replies.sheet),
        value_run(h, logged, sheet, row, col, value, replies).outcome is Ok,
        tells_cells(
            engine,
            book(
                b,
                id,
                value_run(h, logged, sheet, row, col, value, replies).history,
                h.len() as int,
            ),
            id,
            sheet,
        ),
        value_is(engine, sheet, row, col, got),
        formula_is(engine, sheet, row, col, formula),
    ensures
        got == Some(value),
        formula is None,
        forall|r: u32, c: u32|
            cell_at(id, r, c) != cell_at(id, row, col) ==> #[trigger] book_formula(
                book(
                    b,
                    id,
                    value_run(h, logged, sheet, row, col, value, replies).history,
                    h.len() as int,
                ),
                id,
                sheet,
                r,
                c,
            ) == book_formula(b, id, sheet, r, c),
{
    law_value_is_kept(b, id, h, logged, sheet, row, col, value, replies);
    let k = book(
        b,
        id,
        value_run(h, logged, sheet, row, col, value, replies).history,
        h.len() as int,
    );
    law_formula_is_that_of_the_book(engine, k, id, sheet, row, col, formula);
    assert((k.contents)(cell_at(id, row, col)) == (Some(value), None::<
        formualizer_parse::ASTNode,
    >));
    assert(text_at(k.texts, (sheet, row, col)) is None);
}

/// While the graph is built at once, a formula is set with or without its sign by the
/// same calls and with the same outcome, so that the book holds the same afterwards and the
/// cell shows the same formula.
pub proof fn law_formula_is_set_without_its_sign<E: WorkbookEngine>(
    b: Book,
    id: u32,
    h: Seq<EngineEvent<E>>,
    logged: bool,
    sheet: Seq<char>,
    row: u32,
    col: u32,
    formula: Seq<char>,
    replies: SetFormulaReplies,
)
    requires
        !replies.flags.defer_graph_building,
    ensures
        formula_run(h, logged, sheet, row, col, formula, replies) == formula_run(
            h,
            logged,
            sheet,
            row,
            col,
            with_sign(formula),
            replies,
        ),
        ({
            let bare = formula_run(h, logged, sheet, row, col, formula, replies).history;
            let signed = formula_run(
                h,
                logged,
                sheet,
                row,
                col,
                with_sign(formula),
                replies,
            ).history;
            let from = h.len() as int;
            &&& book(b, id, bare, from) == book(b, id, signed, from)
            &&& book_formula(book(b, id, bare, from), id, sheet, row, col) == book_formula(
                book(b, id, signed, from),
                id,
                sheet,
                row,
                col,
            )
        }),
{
    law_sign_is_optional(formula);
}

/// Whether `engine` lists the names that `b` holds for the whole workbook, each once.
pub open spec fn tells_names<E: WorkbookEngine>(engine: E, b: Book) -> bool {
    forall|entries: Vec<NamedEntry>| #[trigger]
        call_ensures(E::named_ranges, (&engine,), entries) ==> names_listed(entries@, b)
}

/// Whether `entries` are the names that `b` holds for the whole workbook.
pub open spec fn names_listed(entries: Seq<NamedEntry>, b: Book) -> bool {
    &&& forall|name: Seq<char>|
        #![trigger b.names.dom().contains((NameScope::Workbook, name))]
        b.names.dom().contains((NameScope::Workbook, name)) ==> exists|i: int|
            0 <= i < entries.len() && (#[trigger] entries[i]).name@ == name
    &&& forall|i: int|
        0 <= i < entries.len() ==> b.names[(NameScope::Workbook, (
        #[trigger] entries[i]).name@)] == entries[i].definition
}

proof fn lemma_place_found(entries: Seq<NamedEntry>, name: Seq<char>, k: int, n: int)
    requires
        0 <= k < n <= entries.len(),
        entries[k].name@ == name,
    ensures
        0 <= name_place(entries, name, n) <= k,
        entries[name_place(entries, name, n)].name@ == name,
    decreases n,
{
    if k < n - 1 {
        lemma_place_found(entries, name, k, n - 1);
    } else {
        lemma_place_bounds(entries, name, n - 1);
    }
}

proof fn lemma_place_bounds(entries: Seq<NamedEntry>, name: Seq<char>, n: int)
    requires
        0 <= n <= entries.len(),
    ensures
        0 <= name_place(entries, name, n) <= n,
        name_place(entries, name, n) < n ==> entries[name_place(entries, name, n)].name@ == name,
    decreases n,
{
    if n > 0 {
        lemma_place_bounds(entries, name, n - 1);
    }
}

/// A name defined for the whole workbook is found again and gives back its address,
/// whatever names single sheets know.
pub proof fn law_defined_name_is_found<E: WorkbookEngine>(
    b: Book,
    id: u32,
    h: Seq<EngineEvent<E>>,
    logged: bool,
    edit: NameEdit,
    name: Seq<char>,
    address: RangeAddress,
    place: AddressReplies,
    replies: NameReplies,
    engine: E,
    entries: Vec<NamedEntry>,
    found: Option<RangeAddress>,
)
    requires
        one_based(address.start_row, address.start_col, address.end_row, address.end_col),
        ordered(address.start_row, address.start_col, address.end_row, address.end_col),
        address_sheet(place) == Some(id),
        named_range_run(
            h,
            logged,
            edit,
            name,
            address,
            NamedRangeScope::Workbook,
            place,
            replies,
        ).outcome is Ok,
        tells_names(
            engine,
            book(
                b,
                id,
                named_range_run(
                    h,
                    logged,
                    edit,
                    name,
                    address,
                    NamedRangeScope::Workbook,
                    place,
                    replies,
                ).history,
                h.len() as int,
            ),
        ),
        forall|sheet: String| #[trigger]
            call_ensures(E::sheet_name, (&engine, id), sheet) ==> sheet@ == address.sheet@,
        call_ensures(E::named_ranges, (&engine,), entries),
        name_resolves(engine, name, entries@, found),
    ensures
        found is Some,
        found->0.spans(
            address.sheet@,
            address.start_row,
            address.start_col,
            address.end_row,
            address.end_col,
        ),
{
    broadcast use lemma_book_push;

    let from = h.len() as int;
    let run = named_range_run(
        h,
        logged,
        edit,
        name,
        address,
        NamedRangeScope::Workbook,
        place,
        replies,
    );
    let asked = h.push(EngineEvent::SheetId { name: address.sheet@, reply: place.found });
    let there = if place.found is Some {
        asked
    } else {
        asked.push(EngineEvent::AddSheet { name: address.sheet@, reply: place.added })
    };
    lemma_capacity_book(
        b,
        id,
        there,
        from,
        address.sheet@,
        address.end_row as int,
        address.end_col as int,
        place.capacity,
    );
    let k = book(b, id, run.history, from);
    let definition = definition_of(id, address);
    assert(k.names == b.names.insert((NameScope::Workbook, name), definition));
    assert(names_listed(entries@, k));
    assert(k.names.dom().contains((NameScope::Workbook, name)));
    let i = choose|i: int| 0 <= i < entries@.len() && (#[trigger] entries@[i]).name@ == name;
    let n = entries@.len() as int;
    lemma_place_found(entries@, name, i, n);
    let p = name_place(entries@, name, n);
    assert(entries@[p].definition == definition);
    assert(definition_resolves(engine, definition, found));
    let (start, end) = corners(definition)->0;
    let sheet = choose|sheet: String| #[trigger]
        call_ensures(E::sheet_name, (&engine, start.sheet_id), sheet) && is_address(
            sheet@,
            start,
            end,
            found,
        );
    assert(sheet@ == address.sheet@);
    law_name_gives_address_back(id, address, found);
}

/// Whether a call is one that an action can make.
pub open spec fn is_action_edit<E: WorkbookEngine>(e: EngineEvent<E>) -> bool {
    e is TxSetValue || e is TxSetFormula || e is TxSetRowHidden || e is TxSetRowsHidden
}

/// Whether `after` continues `before` with the edits of an action alone.
pub open spec fn acts<E: WorkbookEngine>(
    before: Seq<EngineEvent<E>>,
    after: Seq<EngineEvent<E>>,
) -> bool {
    &&& before.len() <= after.len()
    &&& forall|i: int| 0 <= i < before.len() ==> #[trigger] after[i] == before[i]
    &&& forall|i: int| before.len() <= i < after.len() ==> is_action_edit(#[trigger] after[i])
}

/// Each edit of an action adds edits of an action alone, whatever its outcome.
pub proof fn law_actions_make_action_edits<E: WorkbookEngine>(
    h: Seq<EngineEvent<E>>,
    sheet: Seq<char>,
    row: u32,
    col: u32,
    value: LiteralValue,
    formula: Seq<char>,
    hidden: bool,
    reply: Result<(), EditorError>,
)
    ensures
        acts(h, tx_value_run(h, sheet, row, col, value, reply).history),
        acts(h, tx_formula_run(h, sheet, row, col, formula, reply).history),
        acts(
            h,
            tx_run(h, EngineEvent::TxSetRowHidden { sheet, row, hidden, reply }, reply).history,
        ),
        acts(
            h,
            tx_run(
                h,
                EngineEvent::TxSetRowsHidden { sheet, start_row: row, end_row: col, hidden, reply },
                reply,
            ).history,
        ),
{
}

/// A batch of values in an action adds edits of an action alone.
pub proof fn law_action_values_make_action_edits<E: WorkbookEngine>(
    h: Seq<EngineEvent<E>>,
    sheet: Seq<char>,
    cells: Seq<Target<LiteralValue>>,
    replies: Seq<Result<(), EditorError>>,
)
    ensures
        acts(h, tx_values_run(h, sheet, cells, replies).history),
    decreases replies.len(),
{
    if replies.len() > 0 {
        law_action_values_make_action_edits(h, sheet, cells, replies.drop_last());
    }
}

/// A batch of cells in an action adds edits of an action alone.
pub proof fn law_action_cells_make_action_edits<E: WorkbookEngine>(
    h: Seq<EngineEvent<E>>,
    sheet: Seq<char>,
    cells: Seq<Target<CellData>>,
    replies: Seq<TxCellReplies>,
)
    ensures
        acts(h, tx_range_run(h, sheet, cells, replies).history),
    decreases replies.len(),
{
    if replies.len() > 0 {
        law_action_cells_make_action_edits(h, sheet, cells, replies.drop_last());
        let before = tx_range_run(h, sheet, cells, replies.drop_last());
        if before.outcome is Ok {
            let (row, col, data) = cells[replies.len() - 1];
            let end = tx_cell_run(before.history, sheet, row, col, data, replies.last()).history;
            assert(acts(before.history, end));
        }
    }
}

proof fn lemma_action_book<E: WorkbookEngine>(
    b: Book,
    id: u32,
    h: Seq<EngineEvent<E>>,
    begun: Seq<EngineEvent<E>>,
    acted: Seq<EngineEvent<E>>,
)
    requires
        h.len() <= begun.len(),
        acts(begun, acted),
    ensures
        ({
            let before = book(b, id, begun, h.len() as int);
            let after = book(b, id, acted, h.len() as int);
            &&& after.saved == before.saved
            &&& after.texts == before.texts
            &&& after.names == before.names
            &&& after.stored == before.stored
            &&& after.steps == before.steps
        }),
    decreases acted.len(),
{
    if acted.len() > begun.len() {
        let rest = acted.drop_last();
        assert(acts(begun, rest)) by {
            assert forall|i: int| 0 <= i < begun.len() implies #[trigger] rest[i] == begun[i] by {
                assert(acted[i] == begun[i]);
            }
            assert forall|i: int| begun.len() <= i < rest.len() implies is_action_edit(
                #[trigger] rest[i],
            ) by {
                assert(is_action_edit(acted[i]));
            }
        }
        lemma_action_book(b, id, h, begun, rest);
        assert(is_action_edit(acted[acted.len() - 1]));
    } else {
        assert(acted =~= begun);
    }
}

/// A failed action leaves nothing behind: the cells, the staged texts, the names, the
/// change log and what can be undone are as they were before it.
pub proof fn law_failed_action_leaves_nothing<E: WorkbookEngine>(
    b: Book,
    id: u32,
    h: Seq<EngineEvent<E>>,
    logged: bool,
    name: Seq<char>,
    acted: Seq<EngineEvent<E>>,
    reason: Seq<char>,
)
    requires
        acts(after_begin(h, logged, name, Ok(())), acted),
    ensures
        ({
            let k = book(
                b,
                id,
                acted.push(EngineEvent::ActionAbort { reason }),
                h.len() as int,
            );
            &&& same_cells(k, b)
            &&& k.stored == b.stored
            &&& k.changes == b.changes
            &&& k.steps == b.steps
        }),
{
    broadcast use lemma_book_push;

    let begun = after_begin(h, logged, name, Ok(()));
    assert(book(b, id, begun, h.len() as int).saved is Some);
    lemma_action_book(b, id, h, begun, acted);
}

} // verus!
