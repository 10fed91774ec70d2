//! Named ranges.

use crate::address::{one_based, ordered, RangeAddress};
use crate::cells::{failed, ran, Run};
use crate::engine::{
    cell_at, CellRef, EngineEvent, NameScope, NamedDefinition, NamedEntry, WorkbookEngine,
};
use crate::error::{
    backend_error, editor_backend_outcome, engine_outcome, io_view, EditorError, ExcelError,
    IoError, IoErrorView,
};
use crate::host::Host;
use crate::store::{after_capacity, CapacityReplies};
use crate::text::same_text;
use vstd::prelude::*;

verus! {

/// Where a name is to be known.
#[derive(Clone, Copy, Debug, PartialEq, Eq, Structural)]
pub enum NamedRangeScope {
    Workbook,
    Sheet,
}

/// What the engine answers when the sheet of an address is looked up or else added.
pub struct AddressReplies {
    pub found: Option<u32>,
    pub added: Result<u32, ExcelError>,
    pub capacity: CapacityReplies,
}

/// The id of the sheet of an address.
pub open spec fn address_sheet(replies: AddressReplies) -> Option<u32> {
    match (replies.found, replies.added) {
        (Some(id), _) => Some(id),
        (None, Ok(id)) => Some(id),
        (None, Err(_)) => None,
    }
}

/// The history `h` after the sheet of an address was looked up, added where it is
/// unknown, and given room for the address.
pub open spec fn after_address<E: WorkbookEngine>(
    h: Seq<EngineEvent<E>>,
    address: RangeAddress,
    replies: AddressReplies,
) -> Seq<EngineEvent<E>> {
    let asked = h.push(EngineEvent::SheetId { name: address.sheet@, reply: replies.found });
    let there = if replies.found is Some {
        asked
    } else {
        asked.push(EngineEvent::AddSheet { name: address.sheet@, reply: replies.added })
    };
    if address_sheet(replies) is Some {
        after_capacity(
            there,
            address.sheet@,
            address.end_row as int,
            address.end_col as int,
            replies.capacity,
        )
    } else {
        there
    }
}

/// What a name for `address` stands for: a cell where the address is a single one.
pub open spec fn definition_of(sheet_id: u32, address: RangeAddress) -> NamedDefinition {
    let start = cell_at(sheet_id, address.start_row, address.start_col);
    let end = cell_at(sheet_id, address.end_row, address.end_col);
    if start == end {
        NamedDefinition::Cell(start)
    } else {
        NamedDefinition::Range { start, end }
    }
}

/// Where a name for a range of the sheet `sheet_id` is known.
pub open spec fn scope_of(scope: NamedRangeScope, sheet_id: u32) -> NameScope {
    match scope {
        NamedRangeScope::Workbook => NameScope::Workbook,
        NamedRangeScope::Sheet => NameScope::Sheet(sheet_id),
    }
}

/// The refusal for want of a sheet.
pub open spec fn sheet_not_found() -> IoErrorView {
    backend_error("workbook"@, "Sheet not found"@)
}

/// What the engine answers when a name is defined, redefined or deleted: `logged`
/// through the change log, `plain` otherwise.
pub struct NameReplies {
    pub logged: Result<(), EditorError>,
    pub plain: Result<(), ExcelError>,
}

/// What is done to a name.
#[derive(Clone, Copy, PartialEq, Eq, Structural)]
pub enum NameEdit {
    Define,
    Update,
}

/// Where the definition of a name leads.
pub open spec fn name_edit_run<E: WorkbookEngine>(
    h: Seq<EngineEvent<E>>,
    logged: bool,
    edit: NameEdit,
    name: Seq<char>,
    definition: NamedDefinition,
    scope: NameScope,
    replies: NameReplies,
) -> Run<E> {
    if logged {
        let event = match edit {
            NameEdit::Define => EngineEvent::EditDefineName {
                name,
                definition,
                scope,
                reply: replies.logged,
            },
            NameEdit::Update => EngineEvent::EditUpdateName {
                name,
                definition,
                scope,
                reply: replies.logged,
            },
        };
        Run {
            history: h.push(EngineEvent::EditBegin).push(event).push(EngineEvent::EditEnd),
            outcome: editor_backend_outcome(replies.logged),
        }
    } else {
        let event = match edit {
            NameEdit::Define => EngineEvent::DefineName {
                name,
                definition,
                scope,
                reply: replies.plain,
            },
            NameEdit::Update => EngineEvent::UpdateName {
                name,
                definition,
                scope,
                reply: replies.plain,
            },
        };
        Run { history: h.push(event), outcome: engine_outcome(replies.plain) }
    }
}

/// Where the definition of a name for `address` leads.
pub open spec fn named_range_run<E: WorkbookEngine>(
    h: Seq<EngineEvent<E>>,
    logged: bool,
    edit: NameEdit,
    name: Seq<char>,
    address: RangeAddress,
    scope: NamedRangeScope,
    place: AddressReplies,
    replies: NameReplies,
) -> Run<E> {
    let placed = after_address(h, address, place);
    match address_sheet(place) {
        None => failed(placed, sheet_not_found()),
        Some(id) => name_edit_run(
            placed,
            logged,
            edit,
            name,
            definition_of(id, address),
            scope_of(scope, id),
            replies,
        ),
    }
}

/// The history `h` after a scope was looked up: a sheet is looked up only where the
/// scope is a sheet and one is named.
pub open spec fn after_scope<E: WorkbookEngine>(
    h: Seq<EngineEvent<E>>,
    scope: NamedRangeScope,
    sheet: Option<Seq<char>>,
    found: Option<u32>,
) -> Seq<EngineEvent<E>> {
    match (scope, sheet) {
        (NamedRangeScope::Sheet, Some(name)) => h.push(
            EngineEvent::SheetId { name, reply: found },
        ),
        _ => h,
    }
}

/// The scope that a hint comes to.
pub open spec fn hinted_scope(
    scope: NamedRangeScope,
    sheet: Option<Seq<char>>,
    found: Option<u32>,
) -> Result<NameScope, IoErrorView> {
    match scope {
        NamedRangeScope::Workbook => Ok(NameScope::Workbook),
        NamedRangeScope::Sheet => match (sheet, found) {
            (None, _) => Err(backend_error("workbook"@, "Sheet scope requires a sheet name"@)),
            (Some(_), None) => Err(sheet_not_found()),
            (Some(_), Some(id)) => Ok(NameScope::Sheet(id)),
        },
    }
}

/// Where the deletion of a name leads.
pub open spec fn name_deletion_run<E: WorkbookEngine>(
    h: Seq<EngineEvent<E>>,
    logged: bool,
    name: Seq<char>,
    scope: NamedRangeScope,
    sheet: Option<Seq<char>>,
    found: Option<u32>,
    replies: NameReplies,
) -> Run<E> {
    let asked = after_scope(h, scope, sheet, found);
    match hinted_scope(scope, sheet, found) {
        Err(e) => failed(asked, e),
        Ok(scope) => if logged {
            Run {
                history: asked.push(EngineEvent::EditBegin).push(
                    EngineEvent::EditDeleteName { name, scope, reply: replies.logged },
                ).push(EngineEvent::EditEnd),
                outcome: editor_backend_outcome(replies.logged),
            }
        } else {
            Run {
                history: asked.push(
                    EngineEvent::DeleteName { name, scope, reply: replies.plain },
                ),
                outcome: engine_outcome(replies.plain),
            }
        },
    }
}

fn workbook_refusal(text: &str) -> (e: IoError)
    ensures
        e@ == backend_error("workbook"@, text@),
{
    IoError::from_backend("workbook", text.to_owned())
}

/// The text of an optional string slice.
pub open spec fn hint_view(sheet: Option<&str>) -> Option<Seq<char>> {
    match sheet {
        Some(s) => Some(s@),
        None => None,
    }
}

/// See [`definition_of`].
pub fn define_address(sheet_id: u32, address: &RangeAddress) -> (d: NamedDefinition)
    ensures
        d == definition_of(sheet_id, *address),
{
    let start = CellRef::from_excel(sheet_id, address.start_row, address.start_col);
    let end = CellRef::from_excel(sheet_id, address.end_row, address.end_col);
    if start.row == end.row && start.col == end.col {
        NamedDefinition::Cell(start)
    } else {
        NamedDefinition::Range { start, end }
    }
}

impl<E: WorkbookEngine> Host<E> {
    /// The id of the sheet of an address, see [`after_address`].
    fn ensure_sheet_for_address(&mut self, address: &RangeAddress) -> (r: (
        Option<u32>,
        Ghost<AddressReplies>,
    ))
        ensures
            r.0 == address_sheet(r.1@),
            final(self).history() == after_address(old(self).history(), *address, r.1@),
    {
        let ghost mut replies: AddressReplies = arbitrary();
        let found = self.sheet_id(&address.sheet);
        proof {
            replies.found = found;
        }
        let id = match found {
            Some(id) => id,
            None => {
                let added = self.add_sheet(&address.sheet);
                proof {
                    replies.added = added;
                }
                match added {
                    Ok(id) => id,
                    Err(_) => {
                        return (None, Ghost(replies));
                    },
                }
            },
        };
        let capacity = self.ensure_arrow_sheet_capacity(
            &address.sheet,
            address.end_row as usize,
            address.end_col as usize,
        );
        proof {
            replies.capacity = capacity@;
        }
        (Some(id), Ghost(replies))
    }

    /// Defines or redefines a name for an address, see [`named_range_run`].
    pub(crate) fn edit_named_range(
        &mut self,
        logged: bool,
        edit: NameEdit,
        name: &str,
        address: &RangeAddress,
        scope: NamedRangeScope,
    ) -> (r: (Result<(), IoError>, Ghost<(AddressReplies, NameReplies)>))
        ensures
            ran(final(self).history(), r.0) == named_range_run(
                old(self).history(),
                logged,
                edit,
                name@,
                *address,
                scope,
                r.1@.0,
                r.1@.1,
            ),
    {
        let (found, place) = self.ensure_sheet_for_address(address);
        let ghost mut replies: NameReplies = arbitrary();
        let sheet_id = match found {
            Some(id) => id,
            None => {
                return (Err(workbook_refusal("Sheet not found")), Ghost((place@, replies)));
            },
        };
        let scope = match scope {
            NamedRangeScope::Workbook => NameScope::Workbook,
            NamedRangeScope::Sheet => NameScope::Sheet(sheet_id),
        };
        let definition = define_address(sheet_id, address);
        if logged {
            self.edit_begin();
            let reply = match edit {
                NameEdit::Define => self.edit_define_name(name, &definition, scope),
                NameEdit::Update => self.edit_update_name(name, &definition, scope),
            };
            self.edit_end();
            proof {
                replies.logged = reply;
            }
            (IoError::editor_backend_result(reply), Ghost((place@, replies)))
        } else {
            let reply = match edit {
                NameEdit::Define => self.define_name(name, &definition, scope),
                NameEdit::Update => self.update_name(name, &definition, scope),
            };
            proof {
                replies.plain = reply;
            }
            (IoError::engine_result(reply), Ghost((place@, replies)))
        }
    }

    /// The scope that a hint comes to, see [`hinted_scope`].
    fn name_scope_from_hint(&mut self, scope: NamedRangeScope, sheet: Option<&str>) -> (r: (
        Result<NameScope, IoError>,
        Ghost<Option<u32>>,
    ))
        ensures
            io_view(r.0) == hinted_scope(scope, hint_view(sheet), r.1@),
            final(self).history() == after_scope(
                old(self).history(),
                scope,
                hint_view(sheet),
                r.1@,
            ),
    {
        match scope {
            NamedRangeScope::Workbook => (Ok(NameScope::Workbook), Ghost(None)),
            NamedRangeScope::Sheet => match sheet {
                None => (
                    Err(workbook_refusal("Sheet scope requires a sheet name")),
                    Ghost(None),
                ),
                Some(name) => {
                    let found = self.sheet_id(name);
                    match found {
                        None => (Err(workbook_refusal("Sheet not found")), Ghost(found)),
                        Some(id) => (Ok(NameScope::Sheet(id)), Ghost(found)),
                    }
                },
            },
        }
    }

    /// Deletes a name, see [`name_deletion_run`].
    pub(crate) fn remove_named_range(
        &mut self,
        logged: bool,
        name: &str,
        scope: NamedRangeScope,
        sheet: Option<&str>,
    ) -> (r: (Result<(), IoError>, Ghost<(Option<u32>, NameReplies)>))
        ensures
            ran(final(self).history(), r.0) == name_deletion_run(
                old(self).history(),
                logged,
                name@,
                scope,
                hint_view(sheet),
                r.1@.0,
                r.1@.1,
            ),
    {
        let (hinted, found) = self.name_scope_from_hint(scope, sheet);
        let ghost mut replies: NameReplies = arbitrary();
        let scope = match hinted {
            Ok(scope) => scope,
            Err(e) => {
                return (Err(e), Ghost((found@, replies)));
            },
        };
        if logged {
            self.edit_begin();
            let reply = self.edit_delete_name(name, scope);
            self.edit_end();
            proof {
                replies.logged = reply;
            }
            (IoError::editor_backend_result(reply), Ghost((found@, replies)))
        } else {
            let reply = self.delete_name(name, scope);
            proof {
                replies.plain = reply;
            }
            (IoError::engine_result(reply), Ghost((found@, replies)))
        }
    }
}

/// Whether `r` is the address from `start` to `end`, counted from zero, of the sheet
/// `sheet`. There is none where the end comes before the start or a coordinate has
/// no successor.
pub open spec fn is_address(
    sheet: Seq<char>,
    start: CellRef,
    end: CellRef,
    r: Option<RangeAddress>,
) -> bool {
    if start.row < u32::MAX && start.col < u32::MAX && end.row < u32::MAX && end.col < u32::MAX
        && start.row <= end.row && start.col <= end.col {
        r is Some && r->0.spans(
            sheet,
            (start.row + 1) as u32,
            (start.col + 1) as u32,
            (end.row + 1) as u32,
            (end.col + 1) as u32,
        )
    } else {
        r is None
    }
}

/// The address from `start` to `end`, see [`is_address`].
pub fn address_between(sheet: &str, start: CellRef, end: CellRef) -> (r: Option<RangeAddress>)
    ensures
        is_address(sheet@, start, end, r),
{
    if start.row == u32::MAX || start.col == u32::MAX || end.row == u32::MAX || end.col
        == u32::MAX {
        return None;
    }
    match RangeAddress::new(sheet, start.row + 1, start.col + 1, end.row + 1, end.col + 1) {
        Ok(address) => Some(address),
        Err(_) => None,
    }
}

/// The sheet and the corners of the range that a definition stands for. A range
/// across sheets, a literal and a formula stand for none.
pub open spec fn corners(definition: NamedDefinition) -> Option<(CellRef, CellRef)> {
    match definition {
        NamedDefinition::Cell(cell) => Some((cell, cell)),
        NamedDefinition::Range { start, end } => if start.sheet_id == end.sheet_id {
            Some((start, end))
        } else {
            None
        },
        NamedDefinition::Literal => None,
        NamedDefinition::Formula => None,
    }
}

/// See [`corners`].
pub fn definition_corners(definition: &NamedDefinition) -> (r: Option<(CellRef, CellRef)>)
    ensures
        r == corners(*definition),
{
    match definition {
        NamedDefinition::Cell(cell) => Some((*cell, *cell)),
        NamedDefinition::Range { start, end } => {
            if start.sheet_id != end.sheet_id {
                return None;
            }
            Some((*start, *end))
        },
        NamedDefinition::Literal => None,
        NamedDefinition::Formula => None,
    }
}

/// Whether the corners come to the address `r` under the sheet name that `engine`
/// gave.
pub open spec fn corners_resolve<E: WorkbookEngine>(
    engine: E,
    start: CellRef,
    end: CellRef,
    r: Option<RangeAddress>,
) -> bool {
    exists|sheet: String| #[trigger]
        call_ensures(E::sheet_name, (&engine, start.sheet_id), sheet) && is_address(
            sheet@,
            start,
            end,
            r,
        )
}

/// Whether `definition` comes to the address `r` under the sheet names of `engine`.
pub open spec fn definition_resolves<E: WorkbookEngine>(
    engine: E,
    definition: NamedDefinition,
    r: Option<RangeAddress>,
) -> bool {
    match corners(definition) {
        None => r is None,
        Some((start, end)) => corners_resolve(engine, start, end, r),
    }
}

/// The address that a definition stands for, see [`definition_resolves`].
pub fn named_definition_to_address<E: WorkbookEngine>(engine: &E, definition: &NamedDefinition) -> (r:
    Option<RangeAddress>)
    ensures
        definition_resolves(*engine, *definition, r),
{
    match definition_corners(definition) {
        None => None,
        Some((start, end)) => {
            let sheet = engine.sheet_name(start.sheet_id);
            let r = address_between(&sheet, start, end);
            assert(call_ensures(E::sheet_name, (engine, start.sheet_id), sheet));
            r
        },
    }
}

/// The number of addresses in a list.
pub open spec fn address_count(addresses: Seq<Option<RangeAddress>>) -> nat
    decreases addresses.len(),
{
    if addresses.len() == 0 {
        0
    } else {
        address_count(addresses.drop_last()) + if addresses.last() is Some {
            1nat
        } else {
            0
        }
    }
}

/// The last address in a list.
pub open spec fn last_address(addresses: Seq<Option<RangeAddress>>) -> Option<RangeAddress>
    decreases addresses.len(),
{
    if addresses.len() == 0 {
        None
    } else if addresses.last() is Some {
        addresses.last()
    } else {
        last_address(addresses.drop_last())
    }
}

/// The only address in a list; none where there are several.
pub open spec fn sole_address(addresses: Seq<Option<RangeAddress>>) -> Option<RangeAddress> {
    if address_count(addresses) == 1 {
        last_address(addresses)
    } else {
        None
    }
}

/// The place of the first of the first `n` entries that is called `name`, or `n`.
pub open spec fn name_place(entries: Seq<NamedEntry>, name: Seq<char>, n: int) -> int
    decreases n,
{
    if n <= 0 {
        0
    } else {
        let before = name_place(entries, name, n - 1);
        if before < n - 1 {
            before
        } else if entries[n - 1].name@ == name {
            n - 1
        } else {
            n
        }
    }
}

/// Whether `addresses` are what the entries called `name` come to, and nothing for
/// each other entry.
pub open spec fn entries_resolve<E: WorkbookEngine>(
    engine: E,
    name: Seq<char>,
    entries: Seq<NamedEntry>,
    addresses: Seq<Option<RangeAddress>>,
) -> bool {
    forall|i: int|
        0 <= i < addresses.len() ==> if (#[trigger] entries[i]).name@ == name {
            definition_resolves(engine, entries[i].definition, addresses[i])
        } else {
            addresses[i] is None
        }
}

/// Whether `r` is what the names known in single sheets come to.
pub open spec fn sheet_names_resolve<E: WorkbookEngine>(
    engine: E,
    name: Seq<char>,
    entries: Seq<NamedEntry>,
    r: Option<RangeAddress>,
) -> bool {
    exists|addresses: Seq<Option<RangeAddress>>| #[trigger]
        entries_resolve(engine, name, entries, addresses) && addresses.len() == entries.len() && r
            == sole_address(addresses)
}

/// Whether some list of the names known in single sheets comes to `r`.
pub open spec fn local_name_resolves<E: WorkbookEngine>(
    engine: E,
    name: Seq<char>,
    r: Option<RangeAddress>,
) -> bool {
    exists|entries: Vec<NamedEntry>| #[trigger]
        call_ensures(E::sheet_named_ranges, (&engine,), entries) && sheet_names_resolve(
            engine,
            name,
            entries@,
            r,
        )
}

/// Whether the name comes to `r`, given the names known in the whole workbook: the
/// first of that name decides, and only where there is none do the sheets.
pub open spec fn name_resolves<E: WorkbookEngine>(
    engine: E,
    name: Seq<char>,
    entries: Seq<NamedEntry>,
    r: Option<RangeAddress>,
) -> bool {
    let place = name_place(entries, name, entries.len() as int);
    if place < entries.len() {
        definition_resolves(engine, entries[place].definition, r)
    } else {
        local_name_resolves(engine, name, r)
    }
}

fn find_sheet_name<E: WorkbookEngine>(engine: &E, name: &str) -> (r: Option<RangeAddress>)
    ensures
        local_name_resolves(*engine, name@, r),
{
    let entries = engine.sheet_named_ranges();
    assert(call_ensures(E::sheet_named_ranges, (engine,), entries));
    let ghost mut addresses: Seq<Option<RangeAddress>> = Seq::empty();
    let mut resolved: Option<RangeAddress> = None;
    let mut ambiguous = false;
    let mut i: usize = 0;
    while i < entries.len()
        invariant
            i <= entries@.len(),
            addresses.len() == i,
            entries_resolve(*engine, name@, entries@, addresses),
            ambiguous == (address_count(addresses) > 1),
            resolved == last_address(addresses),
            resolved is None <==> address_count(addresses) == 0,
        decreases entries@.len() - i,
    {
        let mut found: Option<RangeAddress> = None;
        if same_text(&entries[i].name, name) {
            found = named_definition_to_address(engine, &entries[i].definition);
        }
        proof {
            let grown = addresses.push(found);
            assert(grown.drop_last() =~= addresses);
            assert forall|j: int| 0 <= j < grown.len() implies if (#[trigger] entries@[j]).name@
                == name@ {
                definition_resolves(*engine, entries@[j].definition, grown[j])
            } else {
                grown[j] is None
            } by {
                if j < i {
                    assert(grown[j] == addresses[j]);
                }
            }
            addresses = grown;
        }
        if found.is_some() {
            if resolved.is_some() {
                ambiguous = true;
            }
            resolved = found;
        }
        i += 1;
    }
    let r = if ambiguous {
        None
    } else {
        resolved
    };
    assert(sheet_names_resolve(*engine, name@, entries@, r)) by {
        assert(entries_resolve(*engine, name@, entries@, addresses));
    }
    r
}

/// The address of a name known in the whole workbook, else of one known in exactly
/// one sheet.
pub fn find_named_range<E: WorkbookEngine>(engine: &E, name: &str) -> (r: Option<RangeAddress>)
    ensures
        exists|entries: Vec<NamedEntry>| #[trigger]
            call_ensures(E::named_ranges, (engine,), entries) && name_resolves(
                *engine,
                name@,
                entries@,
                r,
            ),
{
    let entries = engine.named_ranges();
    assert(call_ensures(E::named_ranges, (engine,), entries));
    let mut i: usize = 0;
    while i < entries.len()
        invariant
            i <= entries@.len(),
            name_place(entries@, name@, i as int) == i,
            call_ensures(E::named_ranges, (engine,), entries),
        decreases entries@.len() - i,
    {
        if same_text(&entries[i].name, name) {
            proof {
                lemma_name_place(entries@, name@, i as int, entries@.len() as int);
            }
            return named_definition_to_address(engine, &entries[i].definition);
        }
        i += 1;
    }
    find_sheet_name(engine, name)
}

proof fn lemma_name_place(entries: Seq<NamedEntry>, name: Seq<char>, k: int, n: int)
    requires
        0 <= k < n <= entries.len(),
        name_place(entries, name, k) == k,
        entries[k].name@ == name,
    ensures
        name_place(entries, name, n) == k,
    decreases n,
{
    if k + 1 < n {
        lemma_name_place(entries, name, k, n - 1);
    }
}

/// A name gives back the address that it was defined for: what the definition of a
/// proper address stands for is that address, under the name of its sheet.
pub proof fn law_name_gives_address_back(
    sheet_id: u32,
    address: RangeAddress,
    found: Option<RangeAddress>,
)
    requires
        one_based(address.start_row, address.start_col, address.end_row, address.end_col),
        ordered(address.start_row, address.start_col, address.end_row, address.end_col),
        ({
            let (start, end) = corners(definition_of(sheet_id, address))->0;
            is_address(address.sheet@, start, end, found)
        }),
    ensures
        corners(definition_of(sheet_id, address)) is Some,
        ({
            let (start, end) = corners(definition_of(sheet_id, address))->0;
            start.sheet_id == sheet_id && end.sheet_id == sheet_id
        }),
        found is Some,
        found->0.spans(
            address.sheet@,
            address.start_row,
            address.start_col,
            address.end_row,
            address.end_col,
        ),
{
}

/// A name known in two sheets stands for no address, one known in a single sheet for
/// that of this sheet.
pub proof fn law_local_name_must_be_sole(addresses: Seq<Option<RangeAddress>>, i: int)
    requires
        0 <= i < addresses.len(),
        addresses[i] is Some,
    ensures
        (forall|j: int| 0 <= j < addresses.len() && j != i ==> (#[trigger] addresses[j]) is None)
            ==> sole_address(addresses) == addresses[i],
        (exists|j: int| 0 <= j < addresses.len() && j != i && (#[trigger] addresses[j]) is Some)
            ==> sole_address(addresses) is None,
    decreases addresses.len(),
{
    let rest = addresses.drop_last();
    let last = addresses.len() - 1;
    if i < last {
        assert(rest[i] == addresses[i]);
        law_local_name_must_be_sole(rest, i);
        lemma_some_counts(rest, i);
        if forall|j: int| 0 <= j < addresses.len() && j != i ==> (#[trigger] addresses[j]) is None {
            assert forall|j: int| 0 <= j < rest.len() && j != i implies (#[trigger] rest[j]) is None by {
                assert(rest[j] == addresses[j]);
            }
            assert(addresses[last] is None);
        }
        if exists|j: int| 0 <= j < addresses.len() && j != i && (#[trigger] addresses[j]) is Some {
            let j = choose|j: int|
                0 <= j < addresses.len() && j != i && (#[trigger] addresses[j]) is Some;
            if j < last {
                assert(rest[j] is Some);
                lemma_two_count(rest, i, j);
            }
        }
    } else {
        if forall|j: int| 0 <= j < addresses.len() && j != i ==> (#[trigger] addresses[j]) is None {
            assert forall|j: int| 0 <= j < rest.len() implies (#[trigger] rest[j]) is None by {
                assert(rest[j] == addresses[j]);
            }
            lemma_none_counts(rest);
        }
        if exists|j: int| 0 <= j < addresses.len() && j != i && (#[trigger] addresses[j]) is Some {
            let j = choose|j: int|
                0 <= j < addresses.len() && j != i && (#[trigger] addresses[j]) is Some;
            assert(rest[j] is Some);
            lemma_some_counts(rest, j);
        }
    }
}

proof fn lemma_none_counts(addresses: Seq<Option<RangeAddress>>)
    requires
        forall|j: int| 0 <= j < addresses.len() ==> (#[trigger] addresses[j]) is None,
    ensures
        address_count(addresses) == 0,
    decreases addresses.len(),
{
    if addresses.len() > 0 {
        assert forall|j: int| 0 <= j < addresses.drop_last().len() implies (
        #[trigger] addresses.drop_last()[j]) is None by {
            assert(addresses.drop_last()[j] == addresses[j]);
        }
        assert(addresses.last() is None);
        lemma_none_counts(addresses.drop_last());
    }
}

proof fn lemma_some_counts(addresses: Seq<Option<RangeAddress>>, i: int)
    requires
        0 <= i < addresses.len(),
        addresses[i] is Some,
    ensures
        address_count(addresses) >= 1,
    decreases addresses.len(),
{
    if i < addresses.len() - 1 {
        assert(addresses.drop_last()[i] == addresses[i]);
        lemma_some_counts(addresses.drop_last(), i);
    }
}

proof fn lemma_two_count(addresses: Seq<Option<RangeAddress>>, i: int, j: int)
    requires
        0 <= i < addresses.len(),
        0 <= j < addresses.len(),
        i != j,
        addresses[i] is Some,
        addresses[j] is Some,
    ensures
        address_count(addresses) >= 2,
    decreases addresses.len(),
{
    let rest = addresses.drop_last();
    let last = addresses.len() - 1;
    if i == last {
        assert(rest[j] == addresses[j]);
        lemma_some_counts(rest, j);
    } else if j == last {
        assert(rest[i] == addresses[i]);
        lemma_some_counts(rest, i);
    } else {
        assert(rest[i] == addresses[i] && rest[j] == addresses[j]);
        lemma_two_count(rest, i, j);
    }
}

} // verus!
