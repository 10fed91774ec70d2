//! Laws on addresses and on the names that stand for them.

use crate::address::RangeAddress;
use crate::cells::ran;
use crate::engine::{
    CellRef, EngineEvent, NameScope, NamedDefinition, NamedEntry, WorkbookEngine,
};
use crate::error::IoError;
use crate::laws_spot::{has_room, lemma_room_made, lemma_room_push, room, Room};
use crate::laws_workbook::{hands_on, hands_on_edit};
use crate::names::{
    corners_resolve, definition_resolves, entries_resolve,
    law_local_name_must_be_sole, local_name_resolves, name_deletion_run, name_place,
    name_resolves, named_range_run, sheet_names_resolve, sole_address, AddressReplies, NameEdit,
    NameReplies, NamedRangeScope,
};
use crate::store::after_capacity;
use crate::workbook::Workbook;
use vstd::prelude::*;

verus! {

/// An address is made of coordinates that count from one, the first no later than the last;
/// it holds them as they were given. Its height and width count both ends.
pub proof fn law_addresses_hold_their_coordinates(
    sheet: &str,
    start_row: u32,
    start_col: u32,
    end_row: u32,
    end_col: u32,
    r: Result<RangeAddress, &'static str>,
    height: u32,
    width: u32,
)
    requires
        call_ensures(RangeAddress::new, (sheet, start_row, start_col, end_row, end_col), r),
        r is Ok ==> call_ensures(RangeAddress::height, (&r->Ok_0,), height),
        r is Ok ==> call_ensures(RangeAddress::width, (&r->Ok_0,), width),
    ensures
        r is Ok <==> 1 <= start_row <= end_row && 1 <= start_col <= end_col,
        r is Ok ==> r->Ok_0.sheet@ == sheet@ && r->Ok_0.start_row == start_row
            && r->Ok_0.start_col == start_col && r->Ok_0.end_row == end_row && r->Ok_0.end_col
            == end_col,
        r is Ok ==> start_row + height == end_row + 1 && start_col + width == end_col + 1,
        r is Err && start_row >= 1 && start_col >= 1 && end_row >= 1 && end_col >= 1
            ==> r->Err_0@ == "Range must be ordered: start <= end"@,
        r is Err && !(start_row >= 1 && start_col >= 1 && end_row >= 1 && end_col >= 1)
            ==> r->Err_0@ == "Row and column indices must be 1-based"@,
{
}

/// Whether a definition stands for an address of the sheet `id`: a cell for an address of
/// one cell, and a range from its first to its last cell for any other, with coordinates
/// that count from zero.
pub open spec fn stands_for(definition: NamedDefinition, id: u32, address: RangeAddress) -> bool {
    let single = address.start_row == address.end_row && address.start_col == address.end_col;
    match definition {
        NamedDefinition::Cell(cell) => single && is_cell(
            cell,
            id,
            address.start_row,
            address.start_col,
        ),
        NamedDefinition::Range { start, end } => !single && is_cell(
            start,
            id,
            address.start_row,
            address.start_col,
        ) && is_cell(end, id, address.end_row, address.end_col),
        _ => false,
    }
}

/// Whether a cell of the graph is the one at a row and a column that count from one.
pub open spec fn is_cell(cell: CellRef, id: u32, row: u32, col: u32) -> bool {
    cell.sheet_id == id && cell.row + 1 == row && cell.col + 1 == col
}

/// Whether the sheet `sheet` has the id `id` by every answer in `g` behind the first
/// `from`.
pub open spec fn has_id<E: WorkbookEngine>(
    g: Seq<EngineEvent<E>>,
    from: int,
    sheet: Seq<char>,
    id: u32,
) -> bool {
    forall|i: int|
        from <= i < g.len() ==> match #[trigger] g[i] {
            EngineEvent::SheetId { name, reply } => name == sheet && reply is Some ==> reply->0
                == id,
            EngineEvent::AddSheet { name, reply } => name == sheet && reply is Ok ==> reply->Ok_0
                == id,
            _ => true,
        }
}

/// The call of `g` that edits a name: the last one, or that before the end of an edit.
pub open spec fn name_call<E: WorkbookEngine>(g: Seq<EngineEvent<E>>, logged: bool) -> EngineEvent<
    E,
> {
    if logged {
        g[g.len() - 2]
    } else {
        g.last()
    }
}

/// Whether a name was edited in an open edit where the change log is on.
pub open spec fn in_an_edit<E: WorkbookEngine>(g: Seq<EngineEvent<E>>, logged: bool) -> bool {
    logged ==> g.len() >= 3 && g[g.len() - 3] is EditBegin && g.last() is EditEnd
}

/// Whether a call names `name` with a definition for `address` and the scope `scope`, anew
/// or in place of another, and was answered with `r`.
pub open spec fn names_address<E: WorkbookEngine>(
    e: EngineEvent<E>,
    logged: bool,
    anew: bool,
    name: Seq<char>,
    id: u32,
    address: RangeAddress,
    scope: NamedRangeScope,
    r: Result<(), IoError>,
) -> bool {
    let known = if scope is Workbook {
        NameScope::Workbook
    } else {
        NameScope::Sheet(id)
    };
    match e {
        EngineEvent::EditDefineName { name: n, definition, scope: s, reply } => logged && anew && n
            == name && stands_for(definition, id, address) && s == known && hands_on_edit(
            reply,
            r,
        ),
        EngineEvent::EditUpdateName { name: n, definition, scope: s, reply } => logged && !anew
            && n == name && stands_for(definition, id, address) && s == known && hands_on_edit(
            reply,
            r,
        ),
        EngineEvent::DefineName { name: n, definition, scope: s, reply } => !logged && anew && n
            == name && stands_for(definition, id, address) && s == known && hands_on(reply, r),
        EngineEvent::UpdateName { name: n, definition, scope: s, reply } => !logged && !anew && n
            == name && stands_for(definition, id, address) && s == known && hands_on(reply, r),
        _ => false,
    }
}

/// Whether `r` is the refusal of a workbook with the text `text`.
pub open spec fn refuses_with(r: Result<(), IoError>, text: Seq<char>) -> bool {
    r is Err && r->Err_0 is Backend && r->Err_0->backend@ == "workbook"@ && r->Err_0->message@
        == text
}

/// Whether a naming of `address` led from `h` to `g` with the answer `r`.
pub open spec fn named_so<E: WorkbookEngine>(
    h: Seq<EngineEvent<E>>,
    g: Seq<EngineEvent<E>>,
    logged: bool,
    anew: bool,
    name: Seq<char>,
    id: u32,
    address: RangeAddress,
    scope: NamedRangeScope,
    z: Room,
    r: Result<(), IoError>,
) -> bool {
    let n = h.len() as int;
    let end = room(z, address.sheet@, g, n);
    &&& g.len() > n
    &&& g[n] is SheetId
    &&& g[n]->SheetId_name == address.sheet@
    &&& g[n]->SheetId_reply is None ==> g.len() > n + 1 && g[n + 1] is AddSheet && g[n
        + 1]->AddSheet_name == address.sheet@
    &&& if g[n]->SheetId_reply is None && g[n + 1]->AddSheet_reply is Err {
        g.len() == n + 2 && refuses_with(r, "Sheet not found"@)
    } else {
        &&& in_an_edit(g, logged)
        &&& names_address(name_call(g, logged), logged, anew, name, id, address, scope, r)
        &&& end.truth ==> has_room(z, end, address.end_row as int, address.end_col as int)
    }
}

proof fn lemma_named_so<E: WorkbookEngine>(
    h: Seq<EngineEvent<E>>,
    logged: bool,
    edit: NameEdit,
    name: Seq<char>,
    id: u32,
    address: RangeAddress,
    scope: NamedRangeScope,
    place: AddressReplies,
    replies: NameReplies,
    z: Room,
    g: Seq<EngineEvent<E>>,
    r: Result<(), IoError>,
)
    requires
        1 <= address.start_row <= address.end_row,
        1 <= address.start_col <= address.end_col,
        ran(g, r) == named_range_run(h, logged, edit, name, address, scope, place, replies),
        has_id(g, h.len() as int, address.sheet@, id),
    ensures
        named_so(h, g, logged, edit is Define, name, id, address, scope, z, r),
{
    let n = h.len() as int;
    let sheet = address.sheet@;
    let asked = h.push(EngineEvent::SheetId { name: sheet, reply: place.found });
    let there = if place.found is Some {
        asked
    } else {
        asked.push(EngineEvent::AddSheet { name: sheet, reply: place.added })
    };
    let (rows, columns) = (address.end_row as int, address.end_col as int);
    let placed = after_capacity(there, sheet, rows, columns, place.capacity);
    lemma_prefix(there, sheet, rows, columns, place.capacity);
    lemma_placed(z, h, sheet, place, rows, columns);
    if place.found is Some || place.added is Ok {
        let the_id = if place.found is Some {
            place.found->0
        } else {
            place.added->Ok_0
        };
        assert(g[n] == there[n]);
        if place.found is None {
            assert(g[n + 1] == there[n + 1]);
        }
        assert(the_id == id);
        let definition = crate::names::definition_of(id, address);
        let known = crate::names::scope_of(scope, id);
        let run = crate::names::name_edit_run(
            placed,
            logged,
            edit,
            name,
            definition,
            known,
            replies,
        );
        assert(g == run.history);
        lemma_name_room(z, placed, sheet, n, logged, edit, name, definition, known, replies);
    } else {
        assert(g == there);
    }
}

proof fn lemma_placed<E: WorkbookEngine>(
    z: Room,
    h: Seq<EngineEvent<E>>,
    sheet: Seq<char>,
    place: AddressReplies,
    rows: int,
    columns: int,
)
    requires
        0 <= rows <= u32::MAX,
        0 <= columns <= u32::MAX,
    ensures
        ({
            let asked = h.push(EngineEvent::SheetId { name: sheet, reply: place.found });
            let there = if place.found is Some {
                asked
            } else {
                asked.push(EngineEvent::AddSheet { name: sheet, reply: place.added })
            };
            let placed = after_capacity(there, sheet, rows, columns, place.capacity);
            let end = room(z, sheet, placed, h.len() as int);
            end.truth ==> has_room(z, end, rows, columns)
        }),
{
    let n = h.len() as int;
    let asked = h.push(EngineEvent::SheetId { name: sheet, reply: place.found });
    let there = if place.found is Some {
        asked
    } else {
        asked.push(EngineEvent::AddSheet { name: sheet, reply: place.added })
    };
    assert(room(z, sheet, there, n) == z) by {
        broadcast use lemma_room_push;

    }
    lemma_room_made(z, there, sheet, n, rows, columns, place.capacity);
}

proof fn lemma_name_room<E: WorkbookEngine>(
    z: Room,
    placed: Seq<EngineEvent<E>>,
    sheet: Seq<char>,
    from: int,
    logged: bool,
    edit: NameEdit,
    name: Seq<char>,
    definition: NamedDefinition,
    scope: NameScope,
    replies: NameReplies,
)
    requires
        0 <= from <= placed.len(),
    ensures
        room(
            z,
            sheet,
            crate::names::name_edit_run(
                placed,
                logged,
                edit,
                name,
                definition,
                scope,
                replies,
            ).history,
            from,
        ) == room(z, sheet, placed, from),
{
    broadcast use lemma_room_push;

}

proof fn lemma_prefix<E: WorkbookEngine>(
    h: Seq<EngineEvent<E>>,
    sheet: Seq<char>,
    rows: int,
    columns: int,
    r: crate::store::CapacityReplies,
)
    ensures
        after_capacity(h, sheet, rows, columns, r).len() >= h.len(),
        forall|i: int|
            0 <= i < h.len() ==> #[trigger] after_capacity(h, sheet, rows, columns, r)[i] == h[i],
{
}

/// A name is defined, or made to stand for another range, in the engine: under the name and
/// in the scope that were given, for the cell or the range that the address tells. The
/// sheet of the address is looked up, added where it is unknown, and given room for the
/// address; where it cannot be added, that is refused.
pub proof fn law_names_stand_for_their_addresses<E: WorkbookEngine>(
    name: &str,
    address: &RangeAddress,
    scope: NamedRangeScope,
    id: u32,
    z: Room,
    r: Result<(), IoError>,
)
    requires
        1 <= address.start_row <= address.end_row,
        1 <= address.start_col <= address.end_col,
    ensures
        forall|wb: &mut Workbook<E>| #[trigger]
            call_ensures(Workbook::<E>::define_named_range, (wb, name, address, scope), r)
                && has_id(
                (*final(wb)).history(),
                (*wb).history().len() as int,
                address.sheet@,
                id,
            ) ==> named_so(
                (*wb).history(),
                (*final(wb)).history(),
                (*wb).logged(),
                true,
                name@,
                id,
                *address,
                scope,
                z,
                r,
            ),
        forall|wb: &mut Workbook<E>| #[trigger]
            call_ensures(Workbook::<E>::update_named_range, (wb, name, address, scope), r)
                && has_id(
                (*final(wb)).history(),
                (*wb).history().len() as int,
                address.sheet@,
                id,
            ) ==> named_so(
                (*wb).history(),
                (*final(wb)).history(),
                (*wb).logged(),
                false,
                name@,
                id,
                *address,
                scope,
                z,
                r,
            ),
{
    assert forall|wb: &mut Workbook<E>| #[trigger]
        call_ensures(Workbook::<E>::define_named_range, (wb, name, address, scope), r) && has_id(
            (*final(wb)).history(),
            (*wb).history().len() as int,
            address.sheet@,
            id,
        ) implies named_so(
        (*wb).history(),
        (*final(wb)).history(),
        (*wb).logged(),
        true,
        name@,
        id,
        *address,
        scope,
        z,
        r,
    ) by {
        let (place, replies) = choose|place: AddressReplies, replies: NameReplies|
            ran((*final(wb)).history(), r) == #[trigger] named_range_run(
                (*wb).history(),
                (*wb).logged(),
                NameEdit::Define,
                name@,
                *address,
                scope,
                place,
                replies,
            );
        lemma_named_so(
            (*wb).history(),
            (*wb).logged(),
            NameEdit::Define,
            name@,
            id,
            *address,
            scope,
            place,
            replies,
            z,
            (*final(wb)).history(),
            r,
        );
    }
    assert forall|wb: &mut Workbook<E>| #[trigger]
        call_ensures(Workbook::<E>::update_named_range, (wb, name, address, scope), r) && has_id(
            (*final(wb)).history(),
            (*wb).history().len() as int,
            address.sheet@,
            id,
        ) implies named_so(
        (*wb).history(),
        (*final(wb)).history(),
        (*wb).logged(),
        false,
        name@,
        id,
        *address,
        scope,
        z,
        r,
    ) by {
        let (place, replies) = choose|place: AddressReplies, replies: NameReplies|
            ran((*final(wb)).history(), r) == #[trigger] named_range_run(
                (*wb).history(),
                (*wb).logged(),
                NameEdit::Update,
                name@,
                *address,
                scope,
                place,
                replies,
            );
        lemma_named_so(
            (*wb).history(),
            (*wb).logged(),
            NameEdit::Update,
            name@,
            id,
            *address,
            scope,
            place,
            replies,
            z,
            (*final(wb)).history(),
            r,
        );
    }
}

/// Whether a call deletes `name` from the scope `scope`, and was answered with `r`.
pub open spec fn deletes_name<E: WorkbookEngine>(
    e: EngineEvent<E>,
    logged: bool,
    name: Seq<char>,
    scope: NameScope,
    r: Result<(), IoError>,
) -> bool {
    match e {
        EngineEvent::EditDeleteName { name: n, scope: s, reply } => logged && n == name && s
            == scope && hands_on_edit(reply, r),
        EngineEvent::DeleteName { name: n, scope: s, reply } => !logged && n == name && s == scope
            && hands_on(reply, r),
        _ => false,
    }
}

/// A name is deleted in the engine, from the whole workbook or from the sheet that is
/// named. A scope of a sheet takes the name of a sheet that the graph knows, else the
/// deletion is refused and nothing done.
pub proof fn law_names_are_deleted_from_their_scope<E: WorkbookEngine>(
    name: &str,
    scope: NamedRangeScope,
    sheet: Option<&str>,
    r: Result<(), IoError>,
)
    ensures
        forall|wb: &mut Workbook<E>| #[trigger]
            call_ensures(Workbook::<E>::delete_named_range, (wb, name, scope, sheet), r) ==> {
                let h = (*wb).history();
                let g = (*final(wb)).history();
                let n = h.len() as int;
                let logged = (*wb).logged();
                let calls = if logged {
                    3int
                } else {
                    1
                };
                &&& scope is Workbook ==> g.len() == n + calls && in_an_edit(g, logged)
                    && deletes_name(name_call(g, logged), logged, name@, NameScope::Workbook, r)
                &&& scope is Sheet && sheet is None ==> g == h && refuses_with(
                    r,
                    "Sheet scope requires a sheet name"@,
                )
                &&& scope is Sheet && sheet is Some ==> {
                    &&& g.len() > n
                    &&& g[n] is SheetId
                    &&& g[n]->SheetId_name == (sheet->0)@
                    &&& match g[n]->SheetId_reply {
                        None => g.len() == n + 1 && refuses_with(r, "Sheet not found"@),
                        Some(id) => g.len() == n + 1 + calls && in_an_edit(g, logged)
                            && deletes_name(
                            name_call(g, logged),
                            logged,
                            name@,
                            NameScope::Sheet(id),
                            r,
                        ),
                    }
                }
            },
{
    assert forall|wb: &mut Workbook<E>| #[trigger]
        call_ensures(Workbook::<E>::delete_named_range, (wb, name, scope, sheet), r) implies {
        let h = (*wb).history();
        let g = (*final(wb)).history();
        let n = h.len() as int;
        let logged = (*wb).logged();
        let calls = if logged {
            3int
        } else {
            1
        };
        &&& scope is Workbook ==> g.len() == n + calls && in_an_edit(g, logged) && deletes_name(
            name_call(g, logged),
            logged,
            name@,
            NameScope::Workbook,
            r,
        )
        &&& scope is Sheet && sheet is None ==> g == h && refuses_with(
            r,
            "Sheet scope requires a sheet name"@,
        )
        &&& scope is Sheet && sheet is Some ==> {
            &&& g.len() > n
            &&& g[n] is SheetId
            &&& g[n]->SheetId_name == (sheet->0)@
            &&& match g[n]->SheetId_reply {
                None => g.len() == n + 1 && refuses_with(r, "Sheet not found"@),
                Some(id) => g.len() == n + 1 + calls && in_an_edit(g, logged) && deletes_name(
                    name_call(g, logged),
                    logged,
                    name@,
                    NameScope::Sheet(id),
                    r,
                ),
            }
        }
    } by {
        let (found, replies) = choose|found: Option<u32>, replies: NameReplies|
            ran((*final(wb)).history(), r) == #[trigger] name_deletion_run(
                (*wb).history(),
                (*wb).logged(),
                name@,
                scope,
                crate::names::hint_view(sheet),
                found,
                replies,
            );
    }
}

/// Whether `r` is the address that a definition tells, where sheets have the names
/// `names`: that of its cell, or of its range within one sheet, with coordinates that count
/// from one. There is none for a range across sheets or backwards, for a literal and for a
/// formula, nor where a coordinate has no successor.
pub open spec fn tells_address(
    definition: NamedDefinition,
    names: spec_fn(u32) -> Seq<char>,
    r: Option<RangeAddress>,
) -> bool {
    match definition {
        NamedDefinition::Cell(cell) => if cell.row < u32::MAX && cell.col < u32::MAX {
            &&& r is Some
            &&& r->0.sheet@ == names(cell.sheet_id)
            &&& is_cell(cell, cell.sheet_id, r->0.start_row, r->0.start_col)
            &&& is_cell(cell, cell.sheet_id, r->0.end_row, r->0.end_col)
        } else {
            r is None
        },
        NamedDefinition::Range { start, end } => if start.sheet_id == end.sheet_id && start.row
            <= end.row < u32::MAX && start.col <= end.col < u32::MAX {
            &&& r is Some
            &&& r->0.sheet@ == names(start.sheet_id)
            &&& is_cell(start, start.sheet_id, r->0.start_row, r->0.start_col)
            &&& is_cell(end, start.sheet_id, r->0.end_row, r->0.end_col)
        } else {
            r is None
        },
        _ => r is None,
    }
}

/// Whether `engine` knows these names, those of the whole workbook and those of its sheets,
/// and calls its sheets by `names`.
pub open spec fn knows_names<E: WorkbookEngine>(
    engine: E,
    global: Seq<NamedEntry>,
    local: Seq<NamedEntry>,
    names: spec_fn(u32) -> Seq<char>,
) -> bool {
    &&& forall|r: Vec<NamedEntry>| #[trigger]
        call_ensures(E::named_ranges, (&engine,), r) ==> r@ == global
    &&& forall|r: Vec<NamedEntry>| #[trigger]
        call_ensures(E::sheet_named_ranges, (&engine,), r) ==> r@ == local
    &&& forall|id: u32, r: String| #[trigger]
        call_ensures(E::sheet_name, (&engine, id), r) ==> r@ == names(id)
}

proof fn lemma_tells<E: WorkbookEngine>(
    engine: E,
    global: Seq<NamedEntry>,
    local: Seq<NamedEntry>,
    names: spec_fn(u32) -> Seq<char>,
    definition: NamedDefinition,
    r: Option<RangeAddress>,
)
    requires
        knows_names(engine, global, local, names),
        definition_resolves(engine, definition, r),
    ensures
        tells_address(definition, names, r),
{
    match crate::names::corners(definition) {
        None => {},
        Some((start, end)) => {
            assert(corners_resolve(engine, start, end, r));
            let sheet = choose|sheet: String| #[trigger]
                call_ensures(E::sheet_name, (&engine, start.sheet_id), sheet)
                    && crate::names::is_address(sheet@, start, end, r);
            assert(sheet@ == names(start.sheet_id));
        },
    }
}

proof fn lemma_place(entries: Seq<NamedEntry>, name: Seq<char>, n: int)
    requires
        0 <= n <= entries.len(),
    ensures
        0 <= name_place(entries, name, n) <= n,
        forall|i: int|
            0 <= i < name_place(entries, name, n) ==> (#[trigger] entries[i]).name@ != name,
        name_place(entries, name, n) < n ==> entries[name_place(entries, name, n)].name@ == name,
    decreases n,
{
    if n > 0 {
        lemma_place(entries, name, n - 1);
    }
}

/// A name is found by the first entry of that name for the whole workbook. Only where there
/// is none do the sheets count: the address of the one entry of that name that tells one,
/// and none where two do.
pub proof fn law_names_are_found<E: WorkbookEngine>(
    wb: Workbook<E>,
    name: &str,
    global: Seq<NamedEntry>,
    local: Seq<NamedEntry>,
    names: spec_fn(u32) -> Seq<char>,
    r: Option<RangeAddress>,
    i: int,
    j: int,
    a: Option<RangeAddress>,
    b: Option<RangeAddress>,
)
    requires
        knows_names(wb.host().engine(), global, local, names),
        call_ensures(Workbook::<E>::named_range_address, (&wb, name), r),
    ensures
        0 <= i < global.len() && global[i].name@ == name@ && (forall|k: int|
            0 <= k < i ==> (#[trigger] global[k]).name@ != name@) ==> tells_address(
            global[i].definition,
            names,
            r,
        ),
        (forall|k: int| 0 <= k < global.len() ==> (#[trigger] global[k]).name@ != name@) ==> {
            &&& r is Some ==> exists|k: int|
                0 <= k < local.len() && (#[trigger] local[k]).name@ == name@ && tells_address(
                    local[k].definition,
                    names,
                    r,
                )
            &&& 0 <= i < local.len() && local[i].name@ == name@ && a is Some && tells_address(
                local[i].definition,
                names,
                a,
            ) && (forall|k: int|
                0 <= k < local.len() && k != i && (#[trigger] local[k]).name@ == name@
                    ==> tells_address(local[k].definition, names, None)) ==> tells_address(
                local[i].definition,
                names,
                r,
            )
            &&& 0 <= i < j < local.len() && local[i].name@ == name@ && local[j].name@ == name@ && a
                is Some && b is Some && tells_address(local[i].definition, names, a)
                && tells_address(local[j].definition, names, b) ==> r is None
        },
{
    let engine = wb.host().engine();
    let entries = choose|entries: Vec<NamedEntry>| #[trigger]
        call_ensures(E::named_ranges, (&engine,), entries) && name_resolves(
            engine,
            name@,
            entries@,
            r,
        );
    let n = global.len() as int;
    let place = name_place(global, name@, n);
    lemma_place(global, name@, n);
    if place < n {
        lemma_tells(engine, global, local, names, global[place].definition, r);
        if 0 <= i < n && global[i].name@ == name@ && (forall|k: int|
            0 <= k < i ==> (#[trigger] global[k]).name@ != name@) {
            if place < i {
                assert(global[place].name@ != name@);
            }
            assert(i == place);
        }
    } else {
        assert(local_name_resolves(engine, name@, r));
        let found = choose|found: Vec<NamedEntry>| #[trigger]
            call_ensures(E::sheet_named_ranges, (&engine,), found) && sheet_names_resolve(
                engine,
                name@,
                found@,
                r,
            );
        let addresses = choose|addresses: Seq<Option<RangeAddress>>| #[trigger]
            entries_resolve(engine, name@, local, addresses) && addresses.len() == local.len() && r
                == sole_address(addresses);
        assert forall|k: int| 0 <= k < local.len() && (#[trigger] local[k]).name@ == name@ implies
            tells_address(local[k].definition, names, addresses[k]) by {
            lemma_tells(engine, global, local, names, local[k].definition, addresses[k]);
        }
        if r is Some {
            let k = lemma_sole_is_one(addresses);
            assert(local[k].name@ == name@);
        }
        if 0 <= i < local.len() && local[i].name@ == name@ && a is Some && tells_address(
            local[i].definition,
            names,
            a,
        ) {
            assert(addresses[i] is Some);
            law_local_name_must_be_sole(addresses, i);
            if forall|k: int|
                0 <= k < local.len() && k != i && (#[trigger] local[k]).name@ == name@
                    ==> tells_address(local[k].definition, names, None) {
                assert forall|k: int| 0 <= k < addresses.len() && k != i implies (
                #[trigger] addresses[k]) is None by {
                    if local[k].name@ == name@ {
                        assert(tells_address(local[k].definition, names, None));
                    }
                }
            }
            if i < j < local.len() && local[j].name@ == name@ && b is Some && tells_address(
                local[j].definition,
                names,
                b,
            ) {
                assert(addresses[j] is Some);
            }
        }
    }
}

proof fn lemma_sole_is_one(addresses: Seq<Option<RangeAddress>>) -> (k: int)
    requires
        sole_address(addresses) is Some,
    ensures
        0 <= k < addresses.len(),
        addresses[k] == sole_address(addresses),
{
    lemma_last_is_one(addresses)
}

proof fn lemma_last_is_one(addresses: Seq<Option<RangeAddress>>) -> (k: int)
    requires
        crate::names::last_address(addresses) is Some,
    ensures
        0 <= k < addresses.len(),
        addresses[k] == crate::names::last_address(addresses),
    decreases addresses.len(),
{
    if addresses.last() is Some {
        addresses.len() - 1
    } else {
        let k = lemma_last_is_one(addresses.drop_last());
        k
    }
}

} // verus!
