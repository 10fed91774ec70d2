//! Laws on calls that are made twice: where the decoder, the engine and the runtime repeat
//! their answers, a call and its other name come to the same.

use crate::engine::WorkbookEngine;
use crate::error::{error_of, excel_view, ErrorView, ExcelError, ExcelErrorKind};
use crate::function::{CustomFnInfo, CustomFnOptions};
use crate::manifest::{
    normalized_module_id, WasmFunctionSpec, WasmModuleInfo, WasmModuleManifest,
};
use crate::module_files::{
    bytes_inspected, file_inspected, files_inspected, gathered, ModuleFile,
};
use crate::registry::{
    function_conflict_message, FunctionRegistry, RegisteredCustomFn, WorkbookFunction,
};
use crate::runtime::{RuntimeCall, RuntimeSlot};
use crate::text::trimmed;
use crate::text_map::{has_key, lemma_map_entry, lemma_same_keys, map_of};
use crate::wasm::{
    decodes, inspection, lemma_accepted_id, module_manifest, ManifestDecoder,
    RegisteredWasmModule, WasmPluginManager, WasmUdfRuntime,
};
use crate::workbook::{global_is, wasm_admission, Workbook};
use vstd::prelude::*;

verus! {

/// Whether two answers of a decoder say the same.
pub open spec fn same_decoding(
    a: Result<WasmModuleManifest, String>,
    b: Result<WasmModuleManifest, String>,
) -> bool {
    match (a, b) {
        (Ok(m), Ok(n)) => m == n,
        (Err(s), Err(t)) => s@ == t@,
        _ => false,
    }
}

/// Whether a decoder repeats its answers.
pub open spec fn steady_decoder<D: ManifestDecoder>(decoder: D) -> bool {
    forall|
        json: Seq<u8>,
        a: Result<WasmModuleManifest, String>,
        b: Result<WasmModuleManifest, String>,
    | #[trigger]
        decodes(decoder, json, a) && #[trigger] decodes(decoder, json, b) ==> same_decoding(a, b)
}

/// Whether a runtime repeats its answers on modules and on the binding of functions.
pub open spec fn steady_runtime<R: WasmUdfRuntime>(runtime: RuntimeSlot<R>) -> bool {
    &&& forall|
        id: Seq<char>,
        s: &[u8],
        t: &[u8],
        manifest: WasmModuleManifest,
        a: Result<(), ExcelError>,
        b: Result<(), ExcelError>,
    |
        s@ == t@ && #[trigger] runtime.validates(id, s, manifest, a)
            && #[trigger] runtime.validates(id, t, manifest, b) ==> a == b
    &&& forall|a: bool, b: bool| #[trigger]
        runtime.binds(a) && #[trigger] runtime.binds(b) ==> a == b
}

/// Whether an engine repeats its answers on functions known to every workbook.
pub open spec fn steady_engine<E: WorkbookEngine>(engine: E) -> bool {
    forall|name: Seq<char>, a: bool, b: bool| #[trigger]
        global_is(engine, name, a) && #[trigger] global_is(engine, name, b) ==> a == b
}

/// Whether the same is told of two modules.
pub open spec fn same_info(a: WasmModuleInfo, b: WasmModuleInfo) -> bool {
    &&& a.module_id@ == b.module_id@
    &&& a.version@ == b.version@
    &&& a.abi_version == b.abi_version
    &&& a.codec_version == b.codec_version
    &&& a.function_count == b.function_count
    &&& a.module_size_bytes == b.module_size_bytes
}

/// Whether two results on a module say the same.
pub open spec fn same_outcome(
    a: Result<WasmModuleInfo, ExcelError>,
    b: Result<WasmModuleInfo, ExcelError>,
) -> bool {
    match (a, b) {
        (Ok(x), Ok(y)) => same_info(x, y),
        (Err(x), Err(y)) => x@ == y@,
        _ => false,
    }
}

/// Whether two attached modules are the same.
pub open spec fn same_module(a: RegisteredWasmModule, b: RegisteredWasmModule) -> bool {
    &&& same_info(a.info, b.info)
    &&& a.manifest == b.manifest
    &&& a.wasm_bytes@ == b.wasm_bytes@
}

/// Whether two managers hold the same modules, and asked the same of the runtime.
pub open spec fn same_modules<R: WasmUdfRuntime>(
    a: WasmPluginManager<R>,
    b: WasmPluginManager<R>,
) -> bool {
    &&& a.modules().dom() == b.modules().dom()
    &&& forall|id: Seq<char>| #[trigger]
        a.modules().dom().contains(id) ==> same_module(a.modules()[id], b.modules()[id])
    &&& a.calls() == b.calls()
}

/// Whether two registered functions are the same.
pub open spec fn same_function<H, R>(
    a: RegisteredCustomFn<H, R>,
    b: RegisteredCustomFn<H, R>,
) -> bool {
    &&& same_fn_info(a.info, b.info)
    &&& match (a.function, b.function) {
        (WorkbookFunction::Custom(f), WorkbookFunction::Custom(g)) => {
            &&& f.canonical_name@ == g.canonical_name@
            &&& f.options == g.options
            &&& f.handler == g.handler
        },
        (WorkbookFunction::Wasm(f), WorkbookFunction::Wasm(g)) => {
            &&& f.canonical_name@ == g.canonical_name@
            &&& f.options == g.options
            &&& f.module_id@ == g.module_id@
            &&& f.export_name@ == g.export_name@
            &&& f.codec_version == g.codec_version
            &&& f.runtime_hint == g.runtime_hint
            &&& f.runtime == g.runtime
        },
        _ => false,
    }
}

/// Whether two functions are listed alike.
pub open spec fn same_fn_info(a: CustomFnInfo, b: CustomFnInfo) -> bool {
    a.name@ == b.name@ && a.options == b.options
}

/// Whether two registries hold the same functions.
pub open spec fn same_functions<H, R>(
    a: FunctionRegistry<H, R>,
    b: FunctionRegistry<H, R>,
) -> bool {
    &&& a.functions().dom() == b.functions().dom()
    &&& forall|name: Seq<char>| #[trigger]
        a.functions().dom().contains(name) ==> same_function(
            a.functions()[name],
            b.functions()[name],
        )
}

proof fn lemma_one_manifest<D: ManifestDecoder>(
    decoder: D,
    bytes: Seq<u8>,
    a: Result<WasmModuleManifest, ErrorView>,
    b: Result<WasmModuleManifest, ErrorView>,
)
    requires
        steady_decoder(decoder),
        module_manifest(decoder, bytes, a),
        module_manifest(decoder, bytes, b),
    ensures
        a == b,
{
}

/// Inspecting a binary twice comes to the same.
pub proof fn law_inspections_repeat<D: ManifestDecoder>(
    decoder: D,
    bytes: Seq<u8>,
    first: Result<WasmModuleInfo, ExcelError>,
    second: Result<WasmModuleInfo, ExcelError>,
)
    requires
        steady_decoder(decoder),
        bytes_inspected(decoder, bytes, first),
        bytes_inspected(decoder, bytes, second),
    ensures
        same_outcome(first, second),
{
    let m = choose|m: Result<WasmModuleManifest, ErrorView>| #[trigger]
        module_manifest(decoder, bytes, m) && inspection(m, bytes.len(), first);
    let n = choose|n: Result<WasmModuleManifest, ErrorView>| #[trigger]
        module_manifest(decoder, bytes, n) && inspection(n, bytes.len(), second);
    lemma_one_manifest(decoder, bytes, m, n);
}

/// Inspecting a file is inspecting its bytes; one that cannot be read is a value error.
pub proof fn law_file_inspection_is_that_of_its_bytes<D: ManifestDecoder>(
    decoder: D,
    file: ModuleFile,
    r: Result<WasmModuleInfo, ExcelError>,
    of_bytes: Result<WasmModuleInfo, ExcelError>,
)
    requires
        steady_decoder(decoder),
        file_inspected(decoder, file, r),
        file.content is Ok ==> bytes_inspected(decoder, (file.content->Ok_0)@, of_bytes),
    ensures
        file.content is Ok ==> same_outcome(r, of_bytes),
        file.content is Err ==> r is Err && (r->Err_0)@.kind == ExcelErrorKind::Value,
{
    if file.content is Ok {
        law_inspections_repeat(decoder, (file.content->Ok_0)@, r, of_bytes);
    }
}

/// Inspecting the files of a directory is inspecting each: it succeeds exactly where each
/// does, with what each tells, in the order of the files; else it fails as the first does
/// that fails.
pub proof fn law_directory_inspection_is_that_of_its_files<D: ManifestDecoder>(
    decoder: D,
    files: Seq<ModuleFile>,
    outcomes: Seq<Result<WasmModuleInfo, ExcelError>>,
    r: Result<Vec<WasmModuleInfo>, ExcelError>,
    singles: Seq<Result<WasmModuleInfo, ExcelError>>,
)
    requires
        steady_decoder(decoder),
        files_inspected(decoder, files, outcomes),
        gathered(outcomes, files.len(), r),
        singles.len() == files.len(),
        files_inspected(decoder, files, singles),
    ensures
        r is Ok <==> forall|i: int| 0 <= i < singles.len() ==> (#[trigger] singles[i]) is Ok,
        match r {
            Ok(infos) => {
                &&& infos@.len() == files.len()
                &&& forall|i: int|
                    0 <= i < files.len() ==> same_info(
                        #[trigger] infos@[i],
                        singles[i]->Ok_0,
                    )
            },
            Err(e) => {
                let k = outcomes.len() - 1;
                &&& 0 <= k < files.len()
                &&& singles[k] is Err
                &&& (singles[k]->Err_0)@ == e@
                &&& forall|i: int| 0 <= i < k ==> (#[trigger] singles[i]) is Ok
            },
        },
{
    assert forall|i: int| 0 <= i < outcomes.len() implies same_outcome(
        #[trigger] outcomes[i],
        singles[i],
    ) by {
        assert(file_inspected(decoder, files[i], outcomes[i]));
        assert(file_inspected(decoder, files[i], singles[i]));
        if files[i].content is Ok {
            law_inspections_repeat(
                decoder,
                (files[i].content->Ok_0)@,
                outcomes[i],
                singles[i],
            );
        }
    }
    match r {
        Ok(infos) => {
            assert forall|i: int| 0 <= i < singles.len() implies (#[trigger] singles[i])
                is Ok by {
                assert(same_outcome(outcomes[i], singles[i]));
            }
            assert forall|i: int| 0 <= i < files.len() implies same_info(
                #[trigger] infos@[i],
                singles[i]->Ok_0,
            ) by {
                assert(same_outcome(outcomes[i], singles[i]));
            }
        },
        Err(e) => {
            let k = outcomes.len() - 1;
            assert(same_outcome(outcomes[k], singles[k]));
            assert forall|i: int| 0 <= i < k implies (#[trigger] singles[i]) is Ok by {
                assert(same_outcome(outcomes[i], singles[i]));
            }
        },
    }
}

proof fn lemma_enrolled_alike<R: WasmUdfRuntime>(
    before: WasmPluginManager<R>,
    a: WasmPluginManager<R>,
    b: WasmPluginManager<R>,
    id: Seq<char>,
    s: &[u8],
    t: &[u8],
    manifest: WasmModuleManifest,
    r: Result<WasmModuleInfo, ExcelError>,
    q: Result<WasmModuleInfo, ExcelError>,
)
    requires
        steady_runtime(before.runtime()),
        s@ == t@,
        WasmPluginManager::enrolled_after_reply(before, a, id, s, manifest, r),
        WasmPluginManager::enrolled_after_reply(before, b, id, t, manifest, q),
    ensures
        same_outcome(r, q),
        same_modules(a, b),
{
    let x = choose|x: Result<(), ExcelError>| #[trigger]
        before.runtime().validates(id, s, manifest, x) && a.calls() == before.calls().push(
            RuntimeCall::Validate { module_id: id, wasm_bytes: s@, manifest, reply: x },
        ) && WasmPluginManager::enrolled(before, a, id, s@, manifest, x, r);
    let y = choose|y: Result<(), ExcelError>| #[trigger]
        before.runtime().validates(id, t, manifest, y) && b.calls() == before.calls().push(
            RuntimeCall::Validate { module_id: id, wasm_bytes: t@, manifest, reply: y },
        ) && WasmPluginManager::enrolled(before, b, id, t@, manifest, y, q);
    assert(x == y);
    if r is Ok {
        assert(a.modules().dom() =~= b.modules().dom());
        assert forall|k: Seq<char>| #[trigger] a.modules().dom().contains(k) implies same_module(
            a.modules()[k],
            b.modules()[k],
        ) by {
            if k != id {
                assert(a.modules().remove(id)[k] == a.modules()[k]);
                assert(b.modules().remove(id)[k] == b.modules()[k]);
            }
        }
    }
}

/// Attaching bytes is another name of registering them: from the same state, and under ids
/// that differ in surrounding white space alone, both come to the same result and the same
/// modules, and ask the same of the runtime.
pub proof fn law_attaching_bytes_is_registering_bytes<E: WorkbookEngine, D: ManifestDecoder>(
    before: Workbook<E>,
    attached: Workbook<E>,
    other: Workbook<E>,
    registered: Workbook<E>,
    attach_id: Seq<char>,
    register_id: Seq<char>,
    wasm_bytes: &[u8],
    decoder: D,
    r: Result<WasmModuleInfo, ExcelError>,
    q: Result<WasmModuleInfo, ExcelError>,
)
    requires
        before.plugins() == other.plugins(),
        trimmed(attach_id) == trimmed(register_id),
        steady_decoder(decoder),
        steady_runtime(before.plugins().runtime()),
        Workbook::attaches_trimmed(before, attached, attach_id, wasm_bytes, decoder, r),
        Workbook::attaches_trimmed(other, registered, register_id, wasm_bytes, decoder, q),
    ensures
        same_outcome(r, q),
        same_modules(attached.plugins(), registered.plugins()),
        trimmed(attach_id).len() == 0 ==> r is Err && (r->Err_0)@.kind == ExcelErrorKind::Value,
{
    match normalized_module_id(attach_id) {
        Err(_) => {
        },
        Ok(id) => {
            lemma_registered_alike(
                before,
                attached,
                other,
                registered,
                id,
                wasm_bytes,
                wasm_bytes,
                decoder,
                r,
                q,
            );
        },
    }
}

proof fn lemma_registered_alike<E: WorkbookEngine, D: ManifestDecoder>(
    before: Workbook<E>,
    attached: Workbook<E>,
    other: Workbook<E>,
    registered: Workbook<E>,
    id: Seq<char>,
    s: &[u8],
    t: &[u8],
    decoder: D,
    r: Result<WasmModuleInfo, ExcelError>,
    q: Result<WasmModuleInfo, ExcelError>,
)
    requires
        before.plugins() == other.plugins(),
        s@ == t@,
        steady_decoder(decoder),
        steady_runtime(before.plugins().runtime()),
        Workbook::attaches(before, attached, id, s, decoder, r),
        Workbook::attaches(other, registered, id, t, decoder, q),
    ensures
        same_outcome(r, q),
        same_modules(attached.plugins(), registered.plugins()),
{
    let held = before.plugins();
    if !held.modules().dom().contains(id) {
        let m = choose|m: Result<WasmModuleManifest, ErrorView>| #[trigger]
            module_manifest(decoder, s@, m) && WasmPluginManager::registered(
                held,
                attached.plugins(),
                id,
                s,
                m,
                r,
            );
        let n = choose|n: Result<WasmModuleManifest, ErrorView>| #[trigger]
            module_manifest(decoder, t@, n) && WasmPluginManager::registered(
                held,
                registered.plugins(),
                id,
                t,
                n,
                q,
            );
        lemma_one_manifest(decoder, s@, m, n);
        if m is Ok && (m->Ok_0).module.id@ == id {
            lemma_enrolled_alike(
                held,
                attached.plugins(),
                registered.plugins(),
                id,
                s,
                t,
                m->Ok_0,
                r,
                q,
            );
        }
    }
}

/// Attaching the module of a file is registering its bytes under the id that an inspection
/// of them finds, which is that of the manifest: from the same state both come to the same
/// result and the same modules. Where that succeeds, the inspection told the same of the
/// module, and it is attached under that id; where it fails, the modules are as they were.
pub proof fn law_attaching_a_file_is_registering_its_bytes<E: WorkbookEngine, D: ManifestDecoder>(
    before: Workbook<E>,
    attached: Workbook<E>,
    other: Workbook<E>,
    registered: Workbook<E>,
    file: ModuleFile,
    wasm_bytes: &[u8],
    decoder: D,
    seen: WasmModuleInfo,
    r: Result<WasmModuleInfo, ExcelError>,
    q: Result<WasmModuleInfo, ExcelError>,
)
    requires
        before.plugins() == other.plugins(),
        file.content is Ok,
        (file.content->Ok_0)@ == wasm_bytes@,
        steady_decoder(decoder),
        steady_runtime(before.plugins().runtime()),
        bytes_inspected(decoder, wasm_bytes@, Ok(seen)),
        Workbook::attaches_file(before, attached, file, decoder, r),
        Workbook::attaches_trimmed(
            other,
            registered,
            seen.module_id@,
            wasm_bytes,
            decoder,
            q,
        ),
    ensures
        same_outcome(r, q),
        same_modules(attached.plugins(), registered.plugins()),
        r is Ok ==> same_info(r->Ok_0, seen) && attached.plugins().modules().dom().contains(
            seen.module_id@,
        ) && attached.plugins().modules()[seen.module_id@].info == r->Ok_0,
        r is Err ==> attached.plugins().modules() == before.plugins().modules(),
{
    let bytes = file.content->Ok_0;
    let held = before.plugins();
    let (m, slice) = choose|m: Result<WasmModuleManifest, ErrorView>, slice: &[u8]|
        slice@ == bytes@ && #[trigger] module_manifest(decoder, bytes@, m)
            && #[trigger] WasmPluginManager::<E::Runtime>::attached(
            held,
            attached.plugins(),
            slice,
            m,
            r,
        );
    let n = choose|n: Result<WasmModuleManifest, ErrorView>| #[trigger]
        module_manifest(decoder, wasm_bytes@, n) && inspection(n, wasm_bytes@.len(), Ok(seen));
    lemma_one_manifest(decoder, wasm_bytes@, m, n);
    let manifest = m->Ok_0;
    let id = manifest.module.id@;
    lemma_accepted_id(decoder, wasm_bytes@, manifest);
    if !held.modules().dom().contains(id) {
        let k = choose|k: Result<WasmModuleManifest, ErrorView>| #[trigger]
            module_manifest(decoder, wasm_bytes@, k) && WasmPluginManager::registered(
                held,
                registered.plugins(),
                id,
                wasm_bytes,
                k,
                q,
            );
        lemma_one_manifest(decoder, wasm_bytes@, m, k);
        lemma_enrolled_alike(
            held,
            attached.plugins(),
            registered.plugins(),
            id,
            slice,
            wasm_bytes,
            manifest,
            r,
            q,
        );
    }
}

/// Binding a WASM function is another name of registering it: from the same state both come
/// to the same result and the same functions.
pub proof fn law_binding_is_registering<E: WorkbookEngine>(
    before: Workbook<E>,
    bound: Workbook<E>,
    other: Workbook<E>,
    registered: Workbook<E>,
    name: Seq<char>,
    options: CustomFnOptions,
    spec: WasmFunctionSpec,
    r: Result<(), ExcelError>,
    q: Result<(), ExcelError>,
)
    requires
        before.functions() == other.functions(),
        before.plugins() == other.plugins(),
        before.host() == other.host(),
        steady_engine(before.host().engine()),
        steady_runtime(before.plugins().runtime()),
        Workbook::registers_wasm(before, bound, name, options, spec, r),
        Workbook::registers_wasm(other, registered, name, options, spec, q),
    ensures
        excel_view(r) == excel_view(q),
        same_functions(bound.functions(), registered.functions()),
{
    let held = before.functions().functions();
    match wasm_admission(held, before.plugins().modules(), name, options, spec) {
        Err(_) => {
        },
        Ok((canonical, module_id)) => {
            let g = choose|g: bool| #[trigger]
                before.unhidden(canonical, options, g) && if g {
                    Workbook::refuses(
                        before,
                        bound,
                        r,
                        error_of(
                            ExcelErrorKind::Name,
                            function_conflict_message(canonical),
                        ),
                    )
                } else {
                    Workbook::wasm_bound(before, bound, canonical, options, module_id, spec, r)
                };
            let h = choose|h: bool| #[trigger]
                other.unhidden(canonical, options, h) && if h {
                    Workbook::refuses(
                        other,
                        registered,
                        q,
                        error_of(
                            ExcelErrorKind::Name,
                            function_conflict_message(canonical),
                        ),
                    )
                } else {
                    Workbook::wasm_bound(other, registered, canonical, options, module_id, spec, q)
                };
            assert(g == h);
            if !g {
                let a = choose|a: bool| #[trigger]
                    before.plugins().runtime().binds(a) && Workbook::takes_wasm(
                        before,
                        bound,
                        canonical,
                        options,
                        module_id,
                        spec,
                        a,
                        r,
                    );
                let b = choose|b: bool| #[trigger]
                    other.plugins().runtime().binds(b) && Workbook::takes_wasm(
                        other,
                        registered,
                        canonical,
                        options,
                        module_id,
                        spec,
                        b,
                        q,
                    );
                assert(a == b);
                if a {
                    let x = bound.functions().functions();
                    let y = registered.functions().functions();
                    assert(x.dom() =~= y.dom());
                    assert forall|k: Seq<char>| #[trigger]
                        x.dom().contains(k) implies same_function(x[k], y[k]) by {
                        if k != canonical {
                            assert(x.remove(canonical)[k] == x[k]);
                            assert(y.remove(canonical)[k] == y[k]);
                        }
                    }
                }
            }
        },
    }
}

/// The same modules are listed alike, in the same order.
pub proof fn law_same_modules_are_listed_alike<R: WasmUdfRuntime>(
    a: WasmPluginManager<R>,
    b: WasmPluginManager<R>,
)
    requires
        a.wf(),
        b.wf(),
        same_modules(a, b),
    ensures
        a.entries().len() == b.entries().len(),
        forall|i: int|
            0 <= i < a.entries().len() ==> same_info(
                (#[trigger] a.entries()[i]).1.info,
                b.entries()[i].1.info,
            ),
{
    a.lemma_wf();
    b.lemma_wf();
    assert forall|key: Seq<char>| has_key(a.entries(), key) == has_key(b.entries(), key) by {
        assert(map_of(a.entries()).dom().contains(key) == map_of(b.entries()).dom().contains(key));
    }
    lemma_same_keys(a.entries(), b.entries());
    assert forall|i: int| 0 <= i < a.entries().len() implies same_info(
        (#[trigger] a.entries()[i]).1.info,
        b.entries()[i].1.info,
    ) by {
        lemma_map_entry(a.entries(), i);
        lemma_map_entry(b.entries(), i);
        assert(a.modules().dom().contains(a.entries()[i].0));
    }
}

/// The same functions are listed alike, in the same order.
pub proof fn law_same_functions_are_listed_alike<H, R>(
    a: FunctionRegistry<H, R>,
    b: FunctionRegistry<H, R>,
)
    requires
        a.wf(),
        b.wf(),
        same_functions(a, b),
    ensures
        a.entries().len() == b.entries().len(),
        forall|i: int|
            0 <= i < a.entries().len() ==> same_fn_info(
                (#[trigger] a.entries()[i]).1.info,
                b.entries()[i].1.info,
            ),
{
    a.lemma_wf();
    b.lemma_wf();
    assert forall|key: Seq<char>| has_key(a.entries(), key) == has_key(b.entries(), key) by {
        assert(map_of(a.entries()).dom().contains(key) == map_of(b.entries()).dom().contains(key));
    }
    lemma_same_keys(a.entries(), b.entries());
    assert forall|i: int| 0 <= i < a.entries().len() implies same_fn_info(
        (#[trigger] a.entries()[i]).1.info,
        b.entries()[i].1.info,
    ) by {
        lemma_map_entry(a.entries(), i);
        lemma_map_entry(b.entries(), i);
        assert(a.functions().dom().contains(a.entries()[i].0));
    }
}

} // verus!
