//! Laws on WASM modules: how they are attached, inspected and detached, how their functions
//! are bound, and how they are found in a directory.

use crate::engine::WorkbookEngine;
use crate::error::{ErrorView, ExcelError, ExcelErrorKind};
use crate::function::{normalize_custom_fn_name, normalized_name, CustomFnOptions};
use crate::laws_registry::{all_have, law_trimming_takes_white_space_only, welcome};
use crate::laws_workbook::one_call;
use crate::manifest::{
    law_manifest_accepted_iff_valid, normalize_wasm_module_id, normalized_module_id,
    valid_manifest, WasmFunctionSpec, WasmModuleInfo, WasmModuleManifest,
};
use crate::module_files::{
    collect_wasm_files_in_dir, collects, first_unreadable, DirectoryEntry, DirectoryListing,
};
use crate::text::{ascii_upper, bytes_before, is_white_space, trimmed, upper_char};
use crate::wasm::{
    decoded_manifest, decodes, faultless, law_single_manifest_section, manifest_section,
    module_manifest, only_manifest, wasm_items, ManifestDecoder, RegisteredWasmModule,
    WasmPluginManager, WasmUdfRuntime,
};
use crate::workbook::{global_is, module_check, wasm_admission, Workbook};
use vstd::prelude::*;

verus! {

/// Whether `manifest` is that of a binary: what its only manifest section decodes to, and
/// valid. The binary has no fault.
pub open spec fn is_manifest_of<D: ManifestDecoder>(
    decoder: D,
    bytes: Seq<u8>,
    manifest: WasmModuleManifest,
) -> bool {
    let items = wasm_items(bytes);
    let n = items.len() as int;
    &&& valid_manifest(manifest)
    &&& forall|i: int| 0 <= i < n ==> !((#[trigger] items[i]) is Invalid)
    &&& exists|k: int, json: Vec<u8>| #[trigger]
        only_manifest(items, n, k) && json@ == items[k]->data && #[trigger] call_ensures(
            D::decode,
            (&decoder, &json),
            Ok(manifest),
        )
}

/// Whether `info` is what a manifest tells of a module of `size` bytes.
pub open spec fn tells_module(
    info: WasmModuleInfo,
    id: Seq<char>,
    manifest: WasmModuleManifest,
    size: nat,
) -> bool {
    &&& info.module_id@ == id
    &&& info.version@ == manifest.module.version@
    &&& info.abi_version == manifest.module.abi
    &&& info.codec_version == manifest.module.codec
    &&& info.function_count == manifest.functions@.len()
    &&& info.module_size_bytes == size
}

proof fn lemma_manifest_of<D: ManifestDecoder>(
    decoder: D,
    bytes: Seq<u8>,
    manifest: WasmModuleManifest,
)
    requires
        module_manifest(decoder, bytes, Ok(manifest)),
    ensures
        is_manifest_of(decoder, bytes, manifest),
{
    let items = wasm_items(bytes);
    let n = items.len() as int;
    law_single_manifest_section(items);
    let json = manifest_section(items)->Ok_0;
    let r: Result<WasmModuleManifest, ErrorView> = Ok(manifest);
    assert(decoded_manifest(decoder, json, r));
    let decoded = choose|decoded: Result<WasmModuleManifest, String>| #[trigger]
        decodes(decoder, json, decoded) && r == crate::wasm::accepted_manifest(decoded);
    law_manifest_accepted_iff_valid(manifest);
    assert(decoded == Ok::<WasmModuleManifest, String>(manifest));
    let text = choose|text: Vec<u8>| text@ == json && #[trigger] call_ensures(
        D::decode,
        (&decoder, &text),
        decoded,
    );
    let k = choose|k: int| #[trigger] only_manifest(items, n, k);
    assert(only_manifest(items, n, k) && text@ == items[k]->data);
    assert(faultless(items, n));
}

/// What an inspection tells of a binary is what its manifest tells.
pub proof fn law_inspections_tell_the_manifest<E: WorkbookEngine, D: ManifestDecoder>(
    wb: Workbook<E>,
    bytes: &[u8],
    decoder: D,
    info: WasmModuleInfo,
)
    requires
        call_ensures(
            Workbook::<E>::inspect_wasm_module_bytes::<D>,
            (&wb, bytes, &decoder),
            Ok(info),
        ),
    ensures
        exists|manifest: WasmModuleManifest| #[trigger]
            is_manifest_of(decoder, bytes@, manifest) && tells_module(
                info,
                manifest.module.id@,
                manifest,
                bytes@.len(),
            ),
{
    let m = choose|m: Result<WasmModuleManifest, ErrorView>| #[trigger]
        module_manifest(decoder, bytes@, m) && crate::wasm::inspection(
            m,
            bytes@.len(),
            Ok(info),
        );
    lemma_manifest_of(decoder, bytes@, m->Ok_0);
}

/// Whether a binary was attached under the id `id`: it is there with its manifest and
/// bytes, was free before, and the runtime was asked once and let it pass. The other
/// modules are as they were.
pub open spec fn attached_so<E: WorkbookEngine, D: ManifestDecoder>(
    before: Workbook<E>,
    after: Workbook<E>,
    id: Seq<char>,
    bytes: Seq<u8>,
    decoder: D,
    info: WasmModuleInfo,
) -> bool {
    let had = before.plugins().modules();
    let has = after.plugins().modules();
    let calls = after.plugins().calls();
    let manifest = has[id].manifest;
    &&& !had.contains_key(id)
    &&& has.contains_key(id)
    &&& has[id].info == info
    &&& has[id].wasm_bytes@ == bytes
    &&& is_manifest_of(decoder, bytes, manifest)
    &&& manifest.module.id@ == id
    &&& tells_module(info, id, manifest, bytes.len())
    &&& calls.len() == before.plugins().calls().len() + 1
    &&& calls.last() is Validate
    &&& calls.last()->Validate_module_id == id
    &&& calls.last()->wasm_bytes == bytes
    &&& calls.last()->manifest == manifest
    &&& calls.last()->Validate_reply is Ok
    &&& forall|other: Seq<char>|
        other != id ==> #[trigger] has.contains_key(other) == had.contains_key(other)
    &&& forall|other: Seq<char>|
        other != id && #[trigger] had.contains_key(other) ==> has[other] == had[other]
}

proof fn lemma_attached_so<E: WorkbookEngine, D: ManifestDecoder>(
    before: Workbook<E>,
    after: Workbook<E>,
    id: Seq<char>,
    bytes: &[u8],
    decoder: D,
    manifest: WasmModuleManifest,
    info: WasmModuleInfo,
)
    requires
        module_manifest(decoder, bytes@, Ok(manifest)),
        manifest.module.id@ == id,
        !before.plugins().modules().dom().contains(id),
        WasmPluginManager::<E::Runtime>::enrolled_after_reply(
            before.plugins(),
            after.plugins(),
            id,
            bytes,
            manifest,
            Ok(info),
        ),
    ensures
        attached_so(before, after, id, bytes@, decoder, info),
{
    lemma_manifest_of(decoder, bytes@, manifest);
    let had = before.plugins().modules();
    let has = after.plugins().modules();
    assert(has.remove(id) == had);
    assert(has.dom() == had.dom().insert(id));
    assert(has.contains_key(id));
    assert forall|other: Seq<char>| other != id implies #[trigger] has.contains_key(other)
        == had.contains_key(other) by {
        assert(has.remove(id).contains_key(other) == has.contains_key(other));
    }
    assert forall|other: Seq<char>| other != id && #[trigger] had.contains_key(other) implies
        has[other] == had[other] by {
        assert(has.remove(id)[other] == has[other]);
    }
}

/// A binary that was attached under an id is there under it, without white space on either
/// side, with the manifest that states the same id. An id that is taken is refused as a
/// name. A refusal leaves the modules as they were.
pub proof fn law_modules_are_attached<E: WorkbookEngine, D: ManifestDecoder>(
    module_id: &str,
    id: String,
    bytes: &[u8],
    decoder: D,
    r: Result<WasmModuleInfo, ExcelError>,
)
    requires
        call_ensures(normalize_wasm_module_id, (module_id,), Ok(id)),
    ensures
        forall|wb: &mut Workbook<E>| #[trigger]
            call_ensures(
                Workbook::<E>::register_wasm_module_bytes::<D>,
                (wb, module_id, bytes, &decoder),
                r,
            ) ==> {
                &&& (*wb).plugins().modules().contains_key(id@) ==> r is Err && r->Err_0@.kind
                    == ExcelErrorKind::Name
                &&& r is Ok ==> attached_so(*wb, *final(wb), id@, bytes@, decoder, r->Ok_0)
                &&& r is Err ==> (*final(wb)).plugins().modules() == (*wb).plugins().modules()
                &&& (*final(wb)).functions() == (*wb).functions()
                &&& (*final(wb)).host() == (*wb).host()
            },
        forall|wb: &mut Workbook<E>| #[trigger]
            call_ensures(
                Workbook::<E>::attach_wasm_module_bytes::<D>,
                (wb, module_id, bytes, &decoder),
                r,
            ) ==> {
                &&& (*wb).plugins().modules().contains_key(id@) ==> r is Err && r->Err_0@.kind
                    == ExcelErrorKind::Name
                &&& r is Ok ==> attached_so(*wb, *final(wb), id@, bytes@, decoder, r->Ok_0)
                &&& r is Err ==> (*final(wb)).plugins().modules() == (*wb).plugins().modules()
                &&& (*final(wb)).functions() == (*wb).functions()
                &&& (*final(wb)).host() == (*wb).host()
            },
{
    assert(normalized_module_id(module_id@) == Ok::<Seq<char>, ErrorView>(id@));
    assert forall|wb: &mut Workbook<E>| #[trigger]
        call_ensures(
            Workbook::<E>::register_wasm_module_bytes::<D>,
            (wb, module_id, bytes, &decoder),
            r,
        ) implies {
        &&& (*wb).plugins().modules().contains_key(id@) ==> r is Err && r->Err_0@.kind
            == ExcelErrorKind::Name
        &&& r is Ok ==> attached_so(*wb, *final(wb), id@, bytes@, decoder, r->Ok_0)
        &&& r is Err ==> (*final(wb)).plugins().modules() == (*wb).plugins().modules()
        &&& (*final(wb)).functions() == (*wb).functions()
        &&& (*final(wb)).host() == (*wb).host()
    } by {
        lemma_attaches(*wb, *final(wb), id@, bytes, decoder, r);
    }
    assert forall|wb: &mut Workbook<E>| #[trigger]
        call_ensures(
            Workbook::<E>::attach_wasm_module_bytes::<D>,
            (wb, module_id, bytes, &decoder),
            r,
        ) implies {
        &&& (*wb).plugins().modules().contains_key(id@) ==> r is Err && r->Err_0@.kind
            == ExcelErrorKind::Name
        &&& r is Ok ==> attached_so(*wb, *final(wb), id@, bytes@, decoder, r->Ok_0)
        &&& r is Err ==> (*final(wb)).plugins().modules() == (*wb).plugins().modules()
        &&& (*final(wb)).functions() == (*wb).functions()
        &&& (*final(wb)).host() == (*wb).host()
    } by {
        lemma_attaches(*wb, *final(wb), id@, bytes, decoder, r);
    }
}

proof fn lemma_attaches<E: WorkbookEngine, D: ManifestDecoder>(
    before: Workbook<E>,
    after: Workbook<E>,
    id: Seq<char>,
    bytes: &[u8],
    decoder: D,
    r: Result<WasmModuleInfo, ExcelError>,
)
    requires
        Workbook::<E>::attaches(before, after, id, bytes, decoder, r),
    ensures
        before.plugins().modules().contains_key(id) ==> r is Err && r->Err_0@.kind
            == ExcelErrorKind::Name,
        r is Ok ==> attached_so(before, after, id, bytes@, decoder, r->Ok_0),
        r is Err ==> after.plugins().modules() == before.plugins().modules(),
{
    if !before.plugins().modules().dom().contains(id) {
        let manifest = choose|manifest: Result<WasmModuleManifest, ErrorView>| #[trigger]
            module_manifest(decoder, bytes@, manifest) && WasmPluginManager::<
                E::Runtime,
            >::registered(before.plugins(), after.plugins(), id, bytes, manifest, r);
        if manifest is Ok && manifest->Ok_0.module.id@ == id {
            let m = manifest->Ok_0;
            assert(WasmPluginManager::<E::Runtime>::enrolled_after_reply(
                before.plugins(),
                after.plugins(),
                id,
                bytes,
                m,
                r,
            ));
            if r is Ok {
                assert(manifest == Ok::<WasmModuleManifest, ErrorView>(m));
                lemma_attached_so(before, after, id, bytes, decoder, m, r->Ok_0);
            }
        }
    }
}

/// A binary that was attached by its manifest is there under the id that the manifest
/// states. A refusal leaves the modules as they were.
pub proof fn law_inspected_modules_are_attached<E: WorkbookEngine, D: ManifestDecoder>(
    bytes: &[u8],
    decoder: D,
    r: Result<WasmModuleInfo, ExcelError>,
)
    ensures
        forall|wb: &mut Workbook<E>| #[trigger]
            call_ensures(
                Workbook::<E>::attach_inspected_module::<D>,
                (wb, bytes, &decoder),
                r,
            ) ==> {
                &&& r is Ok ==> attached_so(
                    *wb,
                    *final(wb),
                    r->Ok_0.module_id@,
                    bytes@,
                    decoder,
                    r->Ok_0,
                )
                &&& r is Err ==> (*final(wb)).plugins().modules() == (*wb).plugins().modules()
                &&& (*final(wb)).functions() == (*wb).functions()
                &&& (*final(wb)).host() == (*wb).host()
            },
{
    assert forall|wb: &mut Workbook<E>| #[trigger]
        call_ensures(
            Workbook::<E>::attach_inspected_module::<D>,
            (wb, bytes, &decoder),
            r,
        ) implies {
        &&& r is Ok ==> attached_so(
            *wb,
            *final(wb),
            r->Ok_0.module_id@,
            bytes@,
            decoder,
            r->Ok_0,
        )
        &&& r is Err ==> (*final(wb)).plugins().modules() == (*wb).plugins().modules()
        &&& (*final(wb)).functions() == (*wb).functions()
        &&& (*final(wb)).host() == (*wb).host()
    } by {
        let manifest = choose|manifest: Result<WasmModuleManifest, ErrorView>| #[trigger]
            module_manifest(decoder, bytes@, manifest) && WasmPluginManager::<
                E::Runtime,
            >::attached((*wb).plugins(), (*final(wb)).plugins(), bytes, manifest, r);
        if manifest is Ok {
            let m = manifest->Ok_0;
            let id = m.module.id@;
            if !(*wb).plugins().modules().dom().contains(id) {
                assert(WasmPluginManager::<E::Runtime>::enrolled_after_reply(
                    (*wb).plugins(),
                    (*final(wb)).plugins(),
                    id,
                    bytes,
                    m,
                    r,
                ));
                if r is Ok {
                    assert(manifest == Ok::<WasmModuleManifest, ErrorView>(m));
                    lemma_attached_so(*wb, *final(wb), id, bytes, decoder, m, r->Ok_0);
                }
            }
        }
    }
}

/// A module is detached where it is there and the runtime lets go of it, which is asked
/// once; only it is. One that is not there is refused as a name, and the runtime not asked.
pub proof fn law_modules_are_detached<E: WorkbookEngine>(
    module_id: &str,
    id: String,
    r: Result<(), ExcelError>,
)
    requires
        call_ensures(normalize_wasm_module_id, (module_id,), Ok(id)),
    ensures
        forall|wb: &mut Workbook<E>| #[trigger]
            call_ensures(Workbook::<E>::unregister_wasm_module, (wb, module_id), r) ==> {
                let had = (*wb).plugins().modules();
                let has = (*final(wb)).plugins().modules();
                let calls = (*final(wb)).plugins().calls();
                &&& had.contains_key(id@) ==> calls.len() == (*wb).plugins().calls().len() + 1
                    && calls.last() is Unregister && calls.last()->Unregister_module_id == id@
                    && calls.last()->Unregister_reply == r
                &&& had.contains_key(id@) && r is Ok ==> has == had.remove(id@)
                &&& had.contains_key(id@) && r is Err ==> has == had
                &&& !had.contains_key(id@) ==> r is Err && r->Err_0@.kind == ExcelErrorKind::Name
                    && has == had && calls == (*wb).plugins().calls()
                &&& (*final(wb)).functions() == (*wb).functions()
                &&& (*final(wb)).host() == (*wb).host()
            },
{
    assert(normalized_module_id(module_id@) == Ok::<Seq<char>, ErrorView>(id@));
}

/// Whether a module declares an export.
pub open spec fn exports(manifest: WasmModuleManifest, export: Seq<char>) -> bool {
    exists|i: int|
        0 <= i < manifest.functions@.len() && (#[trigger] manifest.functions@[i]).export_name@
            == export
}

/// Whether a function of a module can be bound: its module is there, has its codec and
/// declares its export.
pub open spec fn bindable(
    modules: Map<Seq<char>, RegisteredWasmModule>,
    id: Seq<char>,
    spec: WasmFunctionSpec,
) -> bool {
    &&& modules.contains_key(id)
    &&& modules[id].manifest.module.codec == spec.codec_version
    &&& exports(modules[id].manifest, spec.export_name@)
}

/// Whether the runtime binds functions, by all that it answers; without a runtime none is
/// bound.
pub open spec fn always_binds<E: WorkbookEngine>(wb: Workbook<E>, binds: bool) -> bool {
    match wb.plugins().runtime().installed() {
        None => !binds,
        Some(runtime) => forall|r: bool| #[trigger]
            call_ensures(<E::Runtime as WasmUdfRuntime>::can_bind_functions, (&*runtime,), r)
                ==> r == binds,
    }
}

/// A function of a module is registered exactly where a function of that name is welcome,
/// its export is no white space, its module is there with its codec and declares the
/// export, and the runtime binds functions. It is then held under its name with its options
/// and what it is bound to, beside the others as they were, and the engine is told of all
/// of them. A refusal changes nothing.
pub proof fn law_module_functions_are_registered<E: WorkbookEngine>(
    name: &str,
    canonical: String,
    options: CustomFnOptions,
    spec: WasmFunctionSpec,
    module_id: &str,
    id: String,
    r: Result<(), ExcelError>,
    global: bool,
    binds: bool,
    other: Seq<char>,
)
    requires
        call_ensures(normalize_custom_fn_name, (name,), Ok(canonical)),
        module_id@ == spec.module_id@,
        call_ensures(normalize_wasm_module_id, (module_id,), Ok(id)),
        other != canonical@,
    ensures
        forall|wb: &mut Workbook<E>| #[trigger]
            call_ensures(
                Workbook::<E>::register_wasm_function,
                (wb, name, options, spec),
                r,
            ) && all_have((*wb).host().engine(), canonical@, global) && always_binds(*wb, binds)
                ==> bound_so(
                *wb,
                *final(wb),
                canonical@,
                options,
                spec,
                id@,
                r,
                global,
                binds,
                other,
            ),
        forall|wb: &mut Workbook<E>| #[trigger]
            call_ensures(Workbook::<E>::bind_wasm_function, (wb, name, options, spec), r)
                && all_have((*wb).host().engine(), canonical@, global) && always_binds(*wb, binds)
                ==> bound_so(
                *wb,
                *final(wb),
                canonical@,
                options,
                spec,
                id@,
                r,
                global,
                binds,
                other,
            ),
{
    assert(normalized_name(name@) == Ok::<Seq<char>, ErrorView>(canonical@));
    assert(normalized_module_id(module_id@) == Ok::<Seq<char>, ErrorView>(id@));
    assert forall|wb: &mut Workbook<E>| #[trigger]
        call_ensures(Workbook::<E>::register_wasm_function, (wb, name, options, spec), r)
            && all_have((*wb).host().engine(), canonical@, global) && always_binds(
            *wb,
            binds,
        ) implies bound_so(
        *wb,
        *final(wb),
        canonical@,
        options,
        spec,
        id@,
        r,
        global,
        binds,
        other,
    ) by {
        lemma_bound_so(
            *wb,
            *final(wb),
            name@,
            canonical@,
            options,
            spec,
            id@,
            r,
            global,
            binds,
            other,
        );
    }
    assert forall|wb: &mut Workbook<E>| #[trigger]
        call_ensures(Workbook::<E>::bind_wasm_function, (wb, name, options, spec), r) && all_have(
            (*wb).host().engine(),
            canonical@,
            global,
        ) && always_binds(*wb, binds) implies bound_so(
        *wb,
        *final(wb),
        canonical@,
        options,
        spec,
        id@,
        r,
        global,
        binds,
        other,
    ) by {
        lemma_bound_so(
            *wb,
            *final(wb),
            name@,
            canonical@,
            options,
            spec,
            id@,
            r,
            global,
            binds,
            other,
        );
    }
}

/// See [`law_module_functions_are_registered`].
pub open spec fn bound_so<E: WorkbookEngine>(
    before: Workbook<E>,
    after: Workbook<E>,
    canonical: Seq<char>,
    options: CustomFnOptions,
    spec: WasmFunctionSpec,
    id: Seq<char>,
    r: Result<(), ExcelError>,
    global: bool,
    binds: bool,
    other: Seq<char>,
) -> bool {
    let had = before.functions().functions();
    let has = after.functions().functions();
    let g = after.history();
    let entry = has[canonical];
    let blank = forall|i: int|
        0 <= i < spec.export_name@.len() ==> is_white_space(#[trigger] spec.export_name@[i]);
    &&& r is Ok <==> welcome(had, canonical, options, global) && !blank && bindable(
        before.plugins().modules(),
        id,
        spec,
    ) && binds
    &&& r is Ok ==> {
        &&& has.contains_key(canonical)
        &&& entry.info.name@ == canonical
        &&& entry.info.options == options
        &&& entry.function is Wasm
        &&& entry.function->Wasm_0.canonical_name@ == canonical
        &&& entry.function->Wasm_0.options == options
        &&& entry.function->Wasm_0.module_id@ == id
        &&& entry.function->Wasm_0.export_name@ == spec.export_name@
        &&& entry.function->Wasm_0.codec_version == spec.codec_version
        &&& entry.function->Wasm_0.runtime_hint == spec.runtime_hint
        &&& entry.function->Wasm_0.runtime == before.plugins().runtime()
        &&& one_call(before.history(), g)
        &&& g.last() is SetResolver
        &&& g.last()->SetResolver_functions == after.functions()
    }
    &&& has.contains_key(other) == had.contains_key(other)
    &&& had.contains_key(other) ==> has[other] == had[other]
    &&& r is Err ==> has == had && after.host() == before.host()
    &&& after.plugins() == before.plugins()
}

proof fn lemma_bound_so<E: WorkbookEngine>(
    before: Workbook<E>,
    after: Workbook<E>,
    name: Seq<char>,
    canonical: Seq<char>,
    options: CustomFnOptions,
    spec: WasmFunctionSpec,
    id: Seq<char>,
    r: Result<(), ExcelError>,
    global: bool,
    binds: bool,
    other: Seq<char>,
)
    requires
        normalized_name(name) == Ok::<Seq<char>, ErrorView>(canonical),
        normalized_module_id(spec.module_id@) == Ok::<Seq<char>, ErrorView>(id),
        other != canonical,
        all_have(before.host().engine(), canonical, global),
        always_binds(before, binds),
        after.plugins() == before.plugins(),
        Workbook::<E>::registers_wasm(before, after, name, options, spec, r),
    ensures
        bound_so(before, after, canonical, options, spec, id, r, global, binds, other),
{
    let had = before.functions().functions();
    let has = after.functions().functions();
    let modules = before.plugins().modules();
    let at = law_trimming_takes_white_space_only(spec.export_name@);
    let core = trimmed(spec.export_name@);
    if core.len() > 0 {
        assert(core.first() == spec.export_name@[at]);
    }
    let blank = forall|i: int|
        0 <= i < spec.export_name@.len() ==> is_white_space(#[trigger] spec.export_name@[i]);
    assert(blank <==> core.len() == 0);
    if modules.contains_key(id) {
        assert(crate::workbook::declares(modules[id].manifest, spec.export_name@) == exports(
            modules[id].manifest,
            spec.export_name@,
        ));
    }
    assert(module_check(modules, canonical, id, spec) is Ok <==> bindable(modules, id, spec));
    if wasm_admission(had, modules, name, options, spec) is Ok {
        assert(Workbook::<E>::wasm_outcome(before, after, canonical, options, id, spec, r));
        let hidden = choose|hidden: bool| #[trigger]
            before.unhidden(canonical, options, hidden) && if hidden {
                Workbook::<E>::refuses(
                    before,
                    after,
                    r,
                    crate::error::error_of(
                        ExcelErrorKind::Name,
                        crate::registry::function_conflict_message(canonical),
                    ),
                )
            } else {
                Workbook::<E>::wasm_bound(before, after, canonical, options, id, spec, r)
            };
        if !options.allow_override_builtin {
            assert(global_is(before.host().engine(), canonical, hidden));
        }
        if !hidden {
            let bound = choose|bound: bool| #[trigger]
                before.plugins().runtime().binds(bound) && Workbook::<E>::takes_wasm(
                    before,
                    after,
                    canonical,
                    options,
                    id,
                    spec,
                    bound,
                    r,
                );
            assert(bound == binds);
            if r is Ok {
                assert(has.remove(canonical) == had);
                assert(has.remove(canonical).contains_key(other) == has.contains_key(other));
                assert(had.contains_key(other) ==> has.remove(canonical)[other] == has[other]);
            }
        }
    }
}

/// Whether an entry is a file whose extension is that of WASM binaries, whatever the case
/// of its letters.
pub open spec fn is_binary(entry: DirectoryEntry) -> bool {
    match entry {
        DirectoryEntry::File { name, extension } => match extension {
            Some(text) => {
                let e = text@;
                &&& e.len() == 4
                &&& e[0] == 'w' || e[0] == 'W'
                &&& e[1] == 'a' || e[1] == 'A'
                &&& e[2] == 's' || e[2] == 'S'
                &&& e[3] == 'm' || e[3] == 'M'
            },
            None => false,
        },
        _ => false,
    }
}

proof fn lemma_binary(entry: DirectoryEntry)
    ensures
        crate::module_files::is_wasm_file(entry) == is_binary(entry),
{
    reveal_strlit("WASM");
    if let DirectoryEntry::File { name, extension } = entry {
        if let Some(text) = extension {
            let e = text@;
            let u = ascii_upper(e);
            assert(u.len() == e.len());
            assert forall|i: int| 0 <= i < e.len() implies u[i] == upper_char(e[i]) by {}
            if is_binary(entry) {
                assert(u =~= "WASM"@);
            }
            if u == "WASM"@ {
                assert(u[0] == 'W' && u[1] == 'A' && u[2] == 'S' && u[3] == 'M');
            }
        }
    }
}

proof fn lemma_unreadable(entries: Seq<DirectoryEntry>, i: int)
    requires
        0 <= i <= entries.len(),
    ensures
        first_unreadable(entries, i) is None <==> forall|k: int|
            i <= k < entries.len() ==> !((#[trigger] entries[k]) is Unreadable),
        first_unreadable(entries, i) is Some ==> i <= first_unreadable(entries, i)->0
            < entries.len() && entries[first_unreadable(entries, i)->0] is Unreadable,
    decreases entries.len() - i,
{
    if i < entries.len() {
        lemma_unreadable(entries, i + 1);
    }
}

/// The WASM binaries of a directory are collected exactly where the directory is there, can
/// be read, and so can each of its entries. They are then all of its files with that
/// extension, each once, by their names.
pub proof fn law_binaries_are_collected(
    dir: &str,
    listing: DirectoryListing,
    r: Result<Vec<usize>, ExcelError>,
)
    requires
        call_ensures(collect_wasm_files_in_dir, (dir, &listing), r),
    ensures
        r is Ok <==> listing is Entries && forall|i: int|
            0 <= i < listing->entries@.len() ==> !((#[trigger] listing->entries@[i])
                is Unreadable),
        r is Err ==> r->Err_0@.kind == ExcelErrorKind::Value,
        r is Ok ==> forall|k: int|
            0 <= k < (r->Ok_0)@.len() ==> (#[trigger] (r->Ok_0)@[k]) < listing->entries@.len()
                && is_binary(listing->entries@[(r->Ok_0)@[k] as int]),
        r is Ok ==> forall|i: int|
            0 <= i < listing->entries@.len() && is_binary(#[trigger] listing->entries@[i])
                ==> (r->Ok_0)@.contains(i as usize),
        r is Ok ==> forall|a: int, b: int|
            0 <= a < b < (r->Ok_0)@.len() ==> {
                let x = listing->entries@[(#[trigger] (r->Ok_0)@[a]) as int];
                let y = listing->entries@[(#[trigger] (r->Ok_0)@[b]) as int];
                bytes_before(x->File_name@, y->File_name@) || x->File_name@ == y->File_name@
                    && (r->Ok_0)@[a] < (r->Ok_0)@[b]
            },
{
    if let DirectoryListing::Entries { entries } = listing {
        lemma_unreadable(entries@, 0);
        if r is Ok {
            let places = (r->Ok_0)@;
            assert(collects(entries@, entries@.len() as int, places));
            assert forall|k: int| 0 <= k < places.len() implies (#[trigger] places[k])
                < entries@.len() && is_binary(entries@[places[k] as int]) by {
                lemma_binary(entries@[places[k] as int]);
            }
            assert forall|i: int|
                0 <= i < entries@.len() && is_binary(#[trigger] entries@[i]) implies
                places.contains(i as usize) by {
                lemma_binary(entries@[i]);
            }
            assert forall|a: int, b: int| 0 <= a < b < places.len() implies {
                let x = entries@[(#[trigger] places[a]) as int];
                let y = entries@[(#[trigger] places[b]) as int];
                bytes_before(x->File_name@, y->File_name@) || x->File_name@ == y->File_name@
                    && places[a] < places[b]
            } by {
                assert(is_binary(entries@[places[a] as int]));
                assert(is_binary(entries@[places[b] as int]));
            }
        }
    }
}

} // verus!
