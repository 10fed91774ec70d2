//! WASM modules in files: which files of a directory hold modules, and what becomes of
//! the modules read from them. The reading itself is left to the caller.

use crate::engine::WorkbookEngine;
use crate::error::{error_of, ErrorView, ExcelError, ExcelErrorKind};
use crate::manifest::{value_error_with, WasmModuleInfo, WasmModuleManifest};
use crate::text::{
    ascii_upper, bytes_before, lemma_bytes_irreflexive, lemma_bytes_transitive, order_of_bytes,
    same_text, TextOrder,
};
use crate::wasm::{inspection, module_manifest, ManifestDecoder, WasmPluginManager};
use crate::workbook::Workbook;
use vstd::prelude::*;

verus! {

/// A file and what the reading of it gave: its bytes, or the reason why it failed.
pub struct ModuleFile {
    pub path: String,
    pub content: Result<Vec<u8>, String>,
}

/// What the listing of a directory tells of one entry.
pub enum DirectoryEntry {
    /// The listing failed at this entry.
    Unreadable { reason: String },
    /// A file by the bytes of its name, with its extension where it has one that is
    /// text.
    File { name: Vec<u8>, extension: Option<String> },
    /// Anything but a file.
    Other,
}

/// What came of the listing of a directory.
pub enum DirectoryListing {
    /// There is no directory of that name.
    Missing,
    /// The directory cannot be listed.
    Unreadable { reason: String },
    /// The entries, in the order in which they came.
    Entries { entries: Vec<DirectoryEntry> },
}

/// Whether `extension` is that of a WASM binary: `wasm` in letters of either case.
pub open spec fn is_wasm_extension(extension: Seq<char>) -> bool {
    ascii_upper(extension) == "WASM"@
}

/// Whether an entry is a WASM binary.
pub open spec fn is_wasm_file(entry: DirectoryEntry) -> bool {
    match entry {
        DirectoryEntry::File { name, extension } => match extension {
            Some(text) => is_wasm_extension(text@),
            None => false,
        },
        _ => false,
    }
}

/// The name of a file.
pub open spec fn file_name(entry: DirectoryEntry) -> Seq<u8> {
    match entry {
        DirectoryEntry::File { name, extension } => name@,
        _ => Seq::empty(),
    }
}

/// Whether the file at place `i` comes before the one at place `j`: by their names, and
/// files of one name as they are listed.
pub open spec fn file_before(entries: Seq<DirectoryEntry>, i: int, j: int) -> bool {
    ||| bytes_before(file_name(entries[i]), file_name(entries[j]))
    ||| file_name(entries[i]) == file_name(entries[j]) && i < j
}

/// Whether `places` are those of the WASM binaries among the first `n` entries, in
/// ascending order of the files.
pub open spec fn collects(entries: Seq<DirectoryEntry>, n: int, places: Seq<usize>) -> bool {
    &&& forall|k: int|
        0 <= k < places.len() ==> (#[trigger] places[k]) < n && is_wasm_file(
            entries[places[k] as int],
        )
    &&& forall|i: int|
        0 <= i < n && #[trigger] is_wasm_file(entries[i]) ==> places.contains(i as usize)
    &&& forall|a: int, b: int|
        0 <= a < b < places.len() ==> file_before(
            entries,
            (#[trigger] places[a]) as int,
            (#[trigger] places[b]) as int,
        )
}

/// The place of the first of the entries from `i` on that the listing failed at.
pub open spec fn first_unreadable(entries: Seq<DirectoryEntry>, i: int) -> Option<int>
    decreases entries.len() - i,
{
    if i < 0 || i >= entries.len() {
        None
    } else if entries[i] is Unreadable {
        Some(i)
    } else {
        first_unreadable(entries, i + 1)
    }
}

/// The value error whose message is `lead`, a path, a colon and a reason.
pub open spec fn path_error(lead: Seq<char>, path: Seq<char>, reason: Seq<char>) -> ErrorView {
    error_of(ExcelErrorKind::Value, lead + (path + ": "@ + reason))
}

/// See [`path_error`].
pub fn path_failure(lead: &str, path: &str, reason: &str) -> (e: ExcelError)
    ensures
        e@ == path_error(lead@, path@, reason@),
{
    let mut rest = path.to_owned();
    rest.append(": ");
    rest.append(reason);
    value_error_with(lead, &rest)
}

/// The error of a file that could not be read.
pub open spec fn file_error(path: Seq<char>, reason: Seq<char>) -> ErrorView {
    path_error("Failed to read WASM module file "@, path, reason)
}

/// Why nothing can be collected from the directory `dir`, if so.
pub open spec fn listing_fault(dir: Seq<char>, listing: DirectoryListing) -> Option<ErrorView> {
    match listing {
        DirectoryListing::Missing => Some(
            error_of(
                ExcelErrorKind::Value,
                "WASM module directory does not exist or is not a directory: "@ + dir,
            ),
        ),
        DirectoryListing::Unreadable { reason } => Some(
            path_error("Failed to read WASM module directory "@, dir, reason@),
        ),
        DirectoryListing::Entries { entries } => match first_unreadable(entries@, 0) {
            Some(i) => Some(
                path_error(
                    "Failed to iterate WASM module directory "@,
                    dir,
                    entries@[i]->Unreadable_reason@,
                ),
            ),
            None => None,
        },
    }
}

/// The entries of a listing.
pub open spec fn listed_entries(listing: DirectoryListing) -> Seq<DirectoryEntry> {
    match listing {
        DirectoryListing::Entries { entries } => entries@,
        _ => Seq::empty(),
    }
}

/// Whether an entry is a WASM binary.
fn entry_is_wasm_file(entry: &DirectoryEntry) -> (r: bool)
    ensures
        r == is_wasm_file(*entry),
{
    match entry {
        DirectoryEntry::File { name: _, extension: Some(text) } => same_text(
            &text.as_str().to_ascii_uppercase(),
            "WASM",
        ),
        _ => false,
    }
}

/// Whether the file at place `i` comes before the one at place `j` by its name.
fn name_before(entries: &Vec<DirectoryEntry>, i: usize, j: usize) -> (r: bool)
    requires
        i < entries@.len(),
        j < entries@.len(),
    ensures
        r == bytes_before(file_name(entries@[i as int]), file_name(entries@[j as int])),
        !r ==> file_name(entries@[i as int]) == file_name(entries@[j as int]) || bytes_before(
            file_name(entries@[j as int]),
            file_name(entries@[i as int]),
        ),
{
    match (&entries[i], &entries[j]) {
        (
            DirectoryEntry::File { name: a, extension: _ },
            DirectoryEntry::File { name: b, extension: _ },
        ) => {
            match order_of_bytes(a.as_slice(), b.as_slice()) {
                TextOrder::Before => true,
                _ => false,
            }
        },
        (_, DirectoryEntry::File { name: b, extension: _ }) => b.len() > 0,
        _ => false,
    }
}

/// Puts the WASM binary at place `i` among those collected before it.
fn put_in_order(entries: &Vec<DirectoryEntry>, i: usize, places: &mut Vec<usize>)
    requires
        i < entries@.len(),
        is_wasm_file(entries@[i as int]),
        collects(entries@, i as int, old(places)@),
    ensures
        collects(entries@, i + 1, final(places)@),
{
    let ghost before = places@;
    let mut p: usize = 0;
    while p < places.len() && !name_before(entries, i, places[p])
        invariant
            i < entries@.len(),
            p <= places@.len(),
            places@ == before,
            collects(entries@, i as int, before),
            forall|a: int|
                0 <= a < p ==> file_before(entries@, (#[trigger] before[a]) as int, i as int),
        decreases places@.len() - p,
    {
        p += 1;
    }
    proof {
        if p < before.len() {
            assert forall|b: int| p <= b < before.len() implies file_before(
                entries@,
                i as int,
                (#[trigger] before[b]) as int,
            ) by {
                if p < b {
                    assert(file_before(entries@, before[p as int] as int, before[b] as int));
                    let x = file_name(entries@[i as int]);
                    let y = file_name(entries@[before[p as int] as int]);
                    let z = file_name(entries@[before[b] as int]);
                    if bytes_before(y, z) {
                        lemma_bytes_transitive(x, y, z);
                    }
                }
            }
        }
    }
    places.insert(p, i);
    proof {
        let after = places@;
        assert(after == before.insert(p as int, i));
        assert forall|k: int| 0 <= k < after.len() implies (#[trigger] after[k]) < i + 1
            && is_wasm_file(entries@[after[k] as int]) by {
            if k < p {
                assert(after[k] == before[k]);
            } else if k > p {
                assert(after[k] == before[k - 1]);
            }
        }
        assert forall|j: int| 0 <= j < i + 1 && #[trigger] is_wasm_file(
            entries@[j],
        ) implies after.contains(j as usize) by {
            if j == i {
                assert(after[p as int] == i);
            } else {
                let k = choose|k: int| 0 <= k < before.len() && before[k] == j as usize;
                assert(before.contains(j as usize));
                if k < p {
                    assert(after[k] == before[k]);
                } else {
                    assert(after[k + 1] == before[k]);
                }
            }
        }
        assert forall|a: int, b: int| 0 <= a < b < after.len() implies file_before(
            entries@,
            (#[trigger] after[a]) as int,
            (#[trigger] after[b]) as int,
        ) by {
            if b < p {
                assert(after[a] == before[a] && after[b] == before[b]);
            } else if a > p {
                assert(after[a] == before[a - 1] && after[b] == before[b - 1]);
            } else if a == p {
                assert(after[b] == before[b - 1]);
            } else if b == p {
                assert(after[a] == before[a]);
            } else {
                assert(after[a] == before[a] && after[b] == before[b - 1]);
            }
        }
    }
}

/// The places of the WASM binaries of a directory among its entries, in ascending order
/// of the files.
pub fn collect_wasm_files_in_dir(dir: &str, listing: &DirectoryListing) -> (r: Result<
    Vec<usize>,
    ExcelError,
>)
    ensures
        match listing_fault(dir@, *listing) {
            Some(e) => r is Err && r->Err_0@ == e,
            None => r is Ok && collects(
                listed_entries(*listing),
                listed_entries(*listing).len() as int,
                r->Ok_0@,
            ),
        },
{
    let entries = match listing {
        DirectoryListing::Missing => {
            return Err(
                value_error_with(
                    "WASM module directory does not exist or is not a directory: ",
                    dir,
                ),
            );
        },
        DirectoryListing::Unreadable { reason } => {
            return Err(path_failure("Failed to read WASM module directory ", dir, reason));
        },
        DirectoryListing::Entries { entries } => entries,
    };
    let mut places: Vec<usize> = Vec::new();
    let mut i: usize = 0;
    while i < entries.len()
        invariant
            i <= entries.len(),
            first_unreadable(entries@, 0) == first_unreadable(entries@, i as int),
            collects(entries@, i as int, places@),
            *listing == (DirectoryListing::Entries { entries: *entries }),
        decreases entries.len() - i,
    {
        if let DirectoryEntry::Unreadable { reason } = &entries[i] {
            return Err(path_failure("Failed to iterate WASM module directory ", dir, reason));
        }
        if entry_is_wasm_file(&entries[i]) {
            put_in_order(entries, i, &mut places);
        }
        i += 1;
    }
    Ok(places)
}

/// No WASM binary is collected twice, and where the files of a directory have different
/// names, as in any file system, their names ascend strictly.
pub proof fn law_collected_files_ascend(
    entries: Seq<DirectoryEntry>,
    places: Seq<usize>,
    a: int,
    b: int,
)
    requires
        collects(entries, entries.len() as int, places),
        0 <= a < b < places.len(),
    ensures
        places[a] != places[b],
        file_name(entries[places[a] as int]) != file_name(entries[places[b] as int])
            ==> bytes_before(
            file_name(entries[places[a] as int]),
            file_name(entries[places[b] as int]),
        ),
{
    assert(file_before(entries, places[a] as int, places[b] as int));
    if places[a] == places[b] {
        lemma_bytes_irreflexive(file_name(entries[places[a] as int]));
    }
}

/// Whether `r` is what the inspection of a file comes to.
pub open spec fn file_inspected<D: ManifestDecoder>(
    decoder: D,
    file: ModuleFile,
    r: Result<WasmModuleInfo, ExcelError>,
) -> bool {
    match file.content {
        Err(reason) => r is Err && r->Err_0@ == file_error(file.path@, reason@),
        Ok(bytes) => bytes_inspected(decoder, bytes@, r),
    }
}

/// Whether `r` is what the inspection of a binary comes to.
pub open spec fn bytes_inspected<D: ManifestDecoder>(
    decoder: D,
    bytes: Seq<u8>,
    r: Result<WasmModuleInfo, ExcelError>,
) -> bool {
    exists|m: Result<WasmModuleManifest, ErrorView>| #[trigger]
        module_manifest(decoder, bytes, m) && inspection(m, bytes.len(), r)
}

/// Whether `r` is what work on `n` files comes to that ended with `outcomes`: one
/// answer for each file up to the first failure, which is then the answer to all.
pub open spec fn gathered(
    outcomes: Seq<Result<WasmModuleInfo, ExcelError>>,
    n: nat,
    r: Result<Vec<WasmModuleInfo>, ExcelError>,
) -> bool {
    match r {
        Ok(infos) => {
            &&& outcomes.len() == n
            &&& infos@.len() == n
            &&& forall|i: int|
                0 <= i < n ==> (#[trigger] outcomes[i]) == Ok::<WasmModuleInfo, ExcelError>(
                    infos@[i],
                )
        },
        Err(e) => {
            &&& 0 < outcomes.len() <= n
            &&& outcomes.last() == Err::<WasmModuleInfo, ExcelError>(e)
            &&& forall|i: int| 0 <= i < outcomes.len() - 1 ==> (#[trigger] outcomes[i]) is Ok
        },
    }
}

/// Whether `outcomes` are what the inspections of the first files came to.
pub open spec fn files_inspected<D: ManifestDecoder>(
    decoder: D,
    files: Seq<ModuleFile>,
    outcomes: Seq<Result<WasmModuleInfo, ExcelError>>,
) -> bool {
    forall|i: int|
        0 <= i < outcomes.len() ==> file_inspected(decoder, files[i], #[trigger] outcomes[i])
}

impl<E: WorkbookEngine> Workbook<E> {
    /// What the manifest of the WASM binary of a file tells of the module. The workbook
    /// stays as it is.
    pub fn inspect_wasm_module_file<D: ManifestDecoder>(
        &self,
        file: &ModuleFile,
        decoder: &D,
    ) -> (r: Result<WasmModuleInfo, ExcelError>)
        ensures
            file_inspected(*decoder, *file, r),
    {
        match &file.content {
            Err(reason) => Err(
                path_failure("Failed to read WASM module file ", &file.path, reason),
            ),
            Ok(bytes) => self.inspect_wasm_module_bytes(bytes.as_slice(), decoder),
        }
    }

    /// What the manifests of the WASM binaries of files tell of their modules, up to the
    /// first failure. The workbook stays as it is.
    pub fn inspect_wasm_modules_dir<D: ManifestDecoder>(
        &self,
        files: &Vec<ModuleFile>,
        decoder: &D,
    ) -> (r: Result<Vec<WasmModuleInfo>, ExcelError>)
        ensures
            exists|outcomes: Seq<Result<WasmModuleInfo, ExcelError>>| #[trigger]
                files_inspected(*decoder, files@, outcomes) && gathered(
                    outcomes,
                    files@.len(),
                    r,
                ),
    {
        let mut infos: Vec<WasmModuleInfo> = Vec::new();
        let ghost mut outcomes: Seq<Result<WasmModuleInfo, ExcelError>> = Seq::empty();
        let mut i: usize = 0;
        while i < files.len()
            invariant
                i <= files.len(),
                files_inspected(*decoder, files@, outcomes),
                gathered(outcomes, i as nat, Ok(infos)),
            decreases files.len() - i,
        {
            let seen = self.inspect_wasm_module_file(&files[i], decoder);
            let ghost before = outcomes;
            proof {
                outcomes = before.push(seen);
                assert forall|k: int| 0 <= k < outcomes.len() implies file_inspected(
                    *decoder,
                    files@[k],
                    #[trigger] outcomes[k],
                ) by {
                    if k < before.len() {
                        assert(outcomes[k] == before[k]);
                    }
                }
                assert(files_inspected(*decoder, files@, outcomes));
            }
            match seen {
                Err(e) => {
                    assert(gathered(outcomes, files@.len(), Err(e)));
                    return Err(e);
                },
                Ok(info) => {
                    infos.push(info);
                },
            }
            i += 1;
        }
        Ok(infos)
    }

    /// Whether `after` and `r` are what the attaching of the module of a file comes to.
    pub open spec fn attaches_file<D: ManifestDecoder>(
        before: Self,
        after: Self,
        file: ModuleFile,
        decoder: D,
        r: Result<WasmModuleInfo, ExcelError>,
    ) -> bool {
        match file.content {
            Err(reason) => {
                &&& after == before
                &&& r is Err
                &&& r->Err_0@ == file_error(file.path@, reason@)
            },
            Ok(bytes) => Self::attaches_bytes(before, after, bytes, decoder, r),
        }
    }

    /// Whether `after` and `r` are what the attaching of a binary under the id of its
    /// manifest comes to.
    pub open spec fn attaches_bytes<D: ManifestDecoder>(
        before: Self,
        after: Self,
        bytes: Vec<u8>,
        decoder: D,
        r: Result<WasmModuleInfo, ExcelError>,
    ) -> bool {
        exists|m: Result<WasmModuleManifest, ErrorView>, slice: &[u8]|
            slice@ == bytes@ && #[trigger] module_manifest(decoder, bytes@, m)
                && #[trigger] WasmPluginManager::<E::Runtime>::attached(
                before.plugins(),
                after.plugins(),
                slice,
                m,
                r,
            )
    }

    /// Attaches the module of a file under the id of its manifest.
    pub fn attach_wasm_module_file<D: ManifestDecoder>(
        &mut self,
        file: &ModuleFile,
        decoder: &D,
    ) -> (r: Result<WasmModuleInfo, ExcelError>)
        requires
            old(self).wf(),
        ensures
            final(self).wf(),
            final(self).idle(*old(self)),
            final(self).functions() == old(self).functions(),
            final(self).plugins().runtime() == old(self).plugins().runtime(),
            Self::attaches_file(*old(self), *final(self), *file, *decoder, r),
    {
        match &file.content {
            Err(reason) => Err(
                path_failure("Failed to read WASM module file ", &file.path, reason),
            ),
            Ok(bytes) => {
                let r = self.attach_inspected_module(bytes.as_slice(), decoder);
                assert(Self::attaches_bytes(*old(self), *self, *bytes, *decoder, r));
                r
            },
        }
    }

    /// Whether `states` are those that the attaching of the first files went through.
    pub open spec fn attaches_files<D: ManifestDecoder>(
        states: Seq<Self>,
        files: Seq<ModuleFile>,
        decoder: D,
        outcomes: Seq<Result<WasmModuleInfo, ExcelError>>,
    ) -> bool {
        &&& states.len() == outcomes.len() + 1
        &&& forall|i: int|
            0 <= i < outcomes.len() ==> Self::attaches_file(
                states[i],
                states[i + 1],
                files[i],
                decoder,
                #[trigger] outcomes[i],
            )
    }

    /// Attaches the modules of files, up to the first failure. What was attached before
    /// it stays.
    pub fn attach_wasm_modules_dir<D: ManifestDecoder>(
        &mut self,
        files: &Vec<ModuleFile>,
        decoder: &D,
    ) -> (r: Result<Vec<WasmModuleInfo>, ExcelError>)
        requires
            old(self).wf(),
        ensures
            final(self).wf(),
            final(self).idle(*old(self)),
            final(self).functions() == old(self).functions(),
            final(self).plugins().runtime() == old(self).plugins().runtime(),
            exists|states: Seq<Self>, outcomes: Seq<Result<WasmModuleInfo, ExcelError>>| #[trigger]
                Self::attaches_files(states, files@, *decoder, outcomes) && states.first()
                    == *old(self) && states.last() == *final(self) && gathered(
                    outcomes,
                    files@.len(),
                    r,
                ),
    {
        let mut infos: Vec<WasmModuleInfo> = Vec::new();
        let ghost mut states: Seq<Self> = seq![*self];
        let ghost mut outcomes: Seq<Result<WasmModuleInfo, ExcelError>> = Seq::empty();
        let mut i: usize = 0;
        while i < files.len()
            invariant
                i <= files.len(),
                self.wf(),
                self.idle(*old(self)),
                self.functions() == old(self).functions(),
                self.plugins().runtime() == old(self).plugins().runtime(),
                Self::attaches_files(states, files@, *decoder, outcomes),
                states.first() == *old(self),
                states.last() == *self,
                gathered(outcomes, i as nat, Ok(infos)),
            decreases files.len() - i,
        {
            let ghost before = outcomes;
            let ghost reached = states;
            let attached = self.attach_wasm_module_file(&files[i], decoder);
            proof {
                outcomes = before.push(attached);
                states = reached.push(*self);
                assert forall|k: int| 0 <= k < outcomes.len() implies Self::attaches_file(
                    states[k],
                    states[k + 1],
                    files@[k],
                    *decoder,
                    #[trigger] outcomes[k],
                ) by {
                    if k < before.len() {
                        assert(outcomes[k] == before[k]);
                    }
                }
                assert(Self::attaches_files(states, files@, *decoder, outcomes));
            }
            match attached {
                Err(e) => {
                    assert(gathered(outcomes, files@.len(), Err(e)));
                    return Err(e);
                },
                Ok(info) => {
                    infos.push(info);
                },
            }
            i += 1;
        }
        Ok(infos)
    }
}

} // verus!
