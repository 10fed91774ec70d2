//! What the calls to an engine leave behind, where the engine keeps what it is given.
//!
//! A book is what such an engine holds: contents of cells, staged formula texts, sheets
//! of the store and names. What a formula comes to is left to the engine.

use crate::engine::{cell_at, CellRef, EngineEvent, NameScope, NamedDefinition, WorkbookEngine};
use crate::laws_staged::{text_at, with_text, Texts};
use crate::laws_undo::{with_content, Content, Contents};
use crate::store::{after_capacity, after_mirror, CapacityReplies, MirrorReplies};
use crate::value::LiteralValue;
use vstd::prelude::*;

verus! {

/// What an open transaction goes back to when it is aborted.
pub struct Saved {
    pub logged: bool,
    pub contents: Contents,
    pub changes: nat,
}

/// What an engine holds.
pub struct Book {
    pub contents: Contents,
    pub texts: Texts,
    /// The sheets of the store.
    pub stored: Set<Seq<char>>,
    pub names: Map<(NameScope, Seq<char>), NamedDefinition>,
    /// How many changes the log holds of transactions.
    pub changes: nat,
    /// How many transactions can be undone.
    pub steps: nat,
    pub saved: Option<Saved>,
    /// Whether each question for a sheet of the store was answered with what is held.
    pub told: bool,
}

/// The book with another content for a cell.
pub open spec fn put_content(b: Book, cell: CellRef, content: Content) -> Book {
    Book { contents: with_content(b.contents, cell, content), ..b }
}

/// The book with another content for a cell that an open transaction sets.
pub open spec fn put_in_transaction(b: Book, cell: CellRef, content: Content) -> Book {
    Book {
        contents: with_content(b.contents, cell, content),
        changes: if b.saved is Some && b.saved->0.logged {
            b.changes + 1
        } else {
            b.changes
        },
        ..b
    }
}

/// The book with a name.
pub open spec fn put_name(
    b: Book,
    scope: NameScope,
    name: Seq<char>,
    definition: NamedDefinition,
) -> Book {
    Book { names: b.names.insert((scope, name), definition), ..b }
}

/// The book without a name.
pub open spec fn drop_name(b: Book, scope: NameScope, name: Seq<char>) -> Book {
    Book { names: b.names.remove((scope, name)), ..b }
}

/// The book after one more call, where the sheet that is edited has the id `id`.
pub open spec fn kept<E: WorkbookEngine>(b: Book, id: u32, e: EngineEvent<E>) -> Book {
    match e {
        EngineEvent::SetCellValue { sheet, row, col, value, reply } => if reply is Ok {
            put_content(b, cell_at(id, row, col), (Some(value), None))
        } else {
            b
        },
        EngineEvent::SetCellFormula { sheet, row, col, tree, reply } => if reply is Ok {
            put_content(b, cell_at(id, row, col), (None, Some(tree)))
        } else {
            b
        },
        EngineEvent::EditSetValue { cell, value } => put_content(b, cell, (Some(value), None)),
        EngineEvent::EditSetValueWithOldState { cell, value, old_value, old_formula } =>
            put_content(b, cell, (Some(value), None)),
        EngineEvent::EditSetFormula { cell, tree } => put_content(b, cell, (None, Some(tree))),
        EngineEvent::EditSetFormulaWithOldState { cell, tree, old_value, old_formula } =>
            put_content(b, cell, (None, Some(tree))),
        EngineEvent::StageFormulaText { sheet, row, col, formula } => Book {
            texts: with_text(b.texts, (sheet, row, col), Some(formula)),
            ..b
        },
        EngineEvent::ClearStagedFormulaText { sheet, row, col } => Book {
            texts: with_text(b.texts, (sheet, row, col), None),
            ..b
        },
        EngineEvent::HasStoreSheet { sheet, reply } => Book {
            told: b.told && reply == b.stored.contains(sheet),
            ..b
        },
        EngineEvent::PushStoreSheet { sheet, chunk_rows } => Book {
            stored: b.stored.insert(sheet),
            ..b
        },
        EngineEvent::EditDefineName { name, definition, scope, reply } => if reply is Ok {
            put_name(b, scope, name, definition)
        } else {
            b
        },
        EngineEvent::EditUpdateName { name, definition, scope, reply } => if reply is Ok {
            put_name(b, scope, name, definition)
        } else {
            b
        },
        EngineEvent::EditDeleteName { name, scope, reply } => if reply is Ok {
            drop_name(b, scope, name)
        } else {
            b
        },
        EngineEvent::DefineName { name, definition, scope, reply } => if reply is Ok {
            put_name(b, scope, name, definition)
        } else {
            b
        },
        EngineEvent::UpdateName { name, definition, scope, reply } => if reply is Ok {
            put_name(b, scope, name, definition)
        } else {
            b
        },
        EngineEvent::DeleteName { name, scope, reply } => if reply is Ok {
            drop_name(b, scope, name)
        } else {
            b
        },
        EngineEvent::TxSetValue { sheet, row, col, value, reply } => if reply is Ok {
            put_in_transaction(b, cell_at(id, row, col), (Some(value), None))
        } else {
            b
        },
        EngineEvent::TxSetFormula { sheet, row, col, tree, reply } => if reply is Ok {
            put_in_transaction(b, cell_at(id, row, col), (None, Some(tree)))
        } else {
            b
        },
        EngineEvent::ActionBegin { logged, name, reply } => if reply is Ok {
            Book {
                saved: Some(Saved { logged, contents: b.contents, changes: b.changes }),
                ..b
            }
        } else {
            b
        },
        EngineEvent::ActionAbort { reason } => match b.saved {
            Some(s) => Book { contents: s.contents, changes: s.changes, saved: None, ..b },
            None => b,
        },
        EngineEvent::ActionCommit { reply } => match b.saved {
            Some(s) => Book {
                steps: if reply is Ok && s.logged {
                    b.steps + 1
                } else {
                    b.steps
                },
                saved: None,
                ..b
            },
            None => b,
        },
        EngineEvent::PushActionJournal => Book { steps: b.steps + 1, ..b },
        _ => b,
    }
}

/// What the calls of `h` behind the first `from` make of the book `b`.
pub open spec fn book<E: WorkbookEngine>(
    b: Book,
    id: u32,
    h: Seq<EngineEvent<E>>,
    from: int,
) -> Book
    decreases h.len(),
{
    if h.len() <= from || h.len() == 0 {
        b
    } else {
        kept(book(b, id, h.drop_last(), from), id, h.last())
    }
}

/// One more call adds to what the others made.
pub broadcast proof fn lemma_book_push<E: WorkbookEngine>(
    b: Book,
    id: u32,
    h: Seq<EngineEvent<E>>,
    e: EngineEvent<E>,
    from: int,
)
    requires
        h.len() >= from,
    ensures
        #[trigger] book(b, id, h.push(e), from) == kept(book(b, id, h, from), id, e),
{
    assert(h.push(e).drop_last() =~= h);
}

/// Whether two books hold the same in their cells, and the same names.
pub open spec fn same_cells(a: Book, b: Book) -> bool {
    a.contents == b.contents && a.texts == b.texts && a.names == b.names
}

/// Making room changes no cell, and the sheet is there afterwards.
pub proof fn lemma_capacity_book<E: WorkbookEngine>(
    b: Book,
    id: u32,
    h: Seq<EngineEvent<E>>,
    from: int,
    sheet: Seq<char>,
    rows: int,
    cols: int,
    r: CapacityReplies,
)
    requires
        h.len() >= from,
    ensures
        ({
            let before = book(b, id, h, from);
            let after = book(b, id, after_capacity(h, sheet, rows, cols, r), from);
            &&& after_capacity(h, sheet, rows, cols, r).len() >= from
            &&& same_cells(after, before)
            &&& after.told ==> after.stored.contains(sheet)
            &&& before.stored.contains(sheet) ==> after.stored.contains(sheet)
        }),
{
    broadcast use lemma_book_push;

}

/// Laying a value into the overlay changes no cell.
pub proof fn lemma_mirror_book<E: WorkbookEngine>(
    b: Book,
    id: u32,
    h: Seq<EngineEvent<E>>,
    from: int,
    sheet: Seq<char>,
    row: u32,
    col: u32,
    value: LiteralValue,
    r: MirrorReplies,
)
    requires
        h.len() >= from,
    ensures
        ({
            let before = book(b, id, h, from);
            let after = book(b, id, after_mirror(h, sheet, row, col, value, r), from);
            &&& after_mirror(h, sheet, row, col, value, r).len() >= from
            &&& same_cells(after, before)
            &&& before.stored.contains(sheet) ==> after.stored.contains(sheet)
            &&& after.told ==> before.told
        }),
{
    broadcast use lemma_book_push;

    lemma_capacity_book(
        b,
        id,
        h.push(EngineEvent::Flags { reply: r.flags }),
        from,
        sheet,
        crate::store::store_index(row) + 1,
        crate::store::store_index(col) + 1,
        r.capacity,
    );
}

/// The formula that a cell shows: its staged text, else what the graph holds.
pub open spec fn book_formula(
    b: Book,
    id: u32,
    sheet: Seq<char>,
    row: u32,
    col: u32,
) -> Option<Seq<char>> {
    match text_at(b.texts, (sheet, row, col)) {
        Some(text) => Some(text),
        None => match (b.contents)(cell_at(id, row, col)).1 {
            Some(tree) => Some(crate::formula::printed_tree(tree)),
            None => None,
        },
    }
}

} // verus!
