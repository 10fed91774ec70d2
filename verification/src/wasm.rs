//! WASM function modules: finding the manifest in a binary, the runtime that
//! calls into a module, and the modules attached to a workbook.

use crate::error::{error_of, excel_view, ErrorView, ExcelError, ExcelErrorKind};
use crate::manifest::{
    manifest_check, normalize_wasm_module_id, normalized_module_id, validate_wasm_manifest,
    value_error, value_error_with, WasmModuleInfo, WasmModuleManifest, WasmRuntimeHint,
    WASM_MANIFEST_SECTION_V1,
};
use crate::runtime::{RuntimeCall, RuntimeHost, RuntimeSlot};
use crate::text::{decimal, push_decimal, same_text};
use crate::text_map::{ascending, lemma_map_entry, map_of, TextMap};
use crate::value::LiteralValue;
use std::sync::Arc;
use vstd::prelude::*;
use vstd::slice::slice_to_vec;
use vstd::string::*;

verus! {

/// One item of a WASM binary, in the order in which a parser meets them.
#[derive(Debug, Clone, PartialEq, Eq)]
pub enum ModuleItem {
    /// A custom section.
    Custom { name: String, data: Vec<u8> },
    /// Anything else that is well formed.
    Other,
    /// A fault, with the parser's words for it.
    Invalid(String),
}

/// A [`ModuleItem`] with its texts and bytes as sequences.
pub enum ItemView {
    Custom { name: Seq<char>, data: Seq<u8> },
    Other,
    Invalid(Seq<char>),
}

impl View for ModuleItem {
    type V = ItemView;

    open spec fn view(&self) -> ItemView {
        match self {
            ModuleItem::Custom { name, data } => ItemView::Custom { name: name@, data: data@ },
            ModuleItem::Other => ItemView::Other,
            ModuleItem::Invalid(text) => ItemView::Invalid(text@),
        }
    }
}

/// The items of a list as plain values.
pub open spec fn items_view(items: Seq<ModuleItem>) -> Seq<ItemView> {
    items.map_values(|item: ModuleItem| item@)
}

/// The items that `wasmparser` meets in `bytes`.
pub uninterp spec fn wasm_items(bytes: Seq<u8>) -> Seq<ItemView>;

/// `wasmparser::Parser::parse_all`, from offset zero: the payloads of a binary in
/// order, up to its end or to the first fault. A custom section is given by its
/// name and data, any other payload only as such, and a fault by its text. All of
/// it is a function of the bytes.
#[verifier::external_body]
fn module_items(bytes: &[u8]) -> (r: Vec<ModuleItem>)
    ensures
        items_view(r@) == wasm_items(bytes@),
{
    wasmparser::Parser::new(0).parse_all(bytes).map(
        |item| match item {
            Ok(wasmparser::Payload::CustomSection(section)) => ModuleItem::Custom {
                name: section.name().to_owned(),
                data: section.data().to_vec(),
            },
            Ok(_) => ModuleItem::Other,
            Err(err) => ModuleItem::Invalid(err.to_string()),
        },
    ).collect()
}

/// The manifest section among the first `n` items: the first fault or second
/// manifest section ends the search with an error.
pub open spec fn manifest_among(items: Seq<ItemView>, n: int) -> Result<Option<Seq<u8>>, ErrorView>
    decreases n,
{
    if n <= 0 {
        Ok(None)
    } else {
        match manifest_among(items, n - 1) {
            Err(e) => Err(e),
            Ok(found) => match items[n - 1] {
                ItemView::Invalid(text) => Err(
                    error_of(ExcelErrorKind::Value, "Invalid WASM module bytes: "@ + text),
                ),
                ItemView::Other => Ok(found),
                ItemView::Custom { name, data } => if name != WASM_MANIFEST_SECTION_V1@ {
                    Ok(found)
                } else if found is Some {
                    Err(
                        error_of(
                            ExcelErrorKind::Value,
                            "WASM module has multiple formualizer manifest custom sections"@,
                        ),
                    )
                } else {
                    Ok(Some(data))
                },
            },
        }
    }
}

/// The manifest section of a binary with the items `items`.
pub open spec fn manifest_section(items: Seq<ItemView>) -> Result<Seq<u8>, ErrorView> {
    match manifest_among(items, items.len() as int) {
        Err(e) => Err(e),
        Ok(Some(data)) => Ok(data),
        Ok(None) => Err(
            error_of(
                ExcelErrorKind::Value,
                "WASM module is missing required custom section: "@ + WASM_MANIFEST_SECTION_V1@,
            ),
        ),
    }
}

/// Bytes or an error as plain values.
pub open spec fn bytes_view(r: Result<Vec<u8>, ExcelError>) -> Result<Seq<u8>, ErrorView> {
    match r {
        Ok(bytes) => Ok(bytes@),
        Err(e) => Err(e@),
    }
}

proof fn lemma_search_ends(items: Seq<ItemView>, k: int, n: int)
    requires
        0 <= k <= n,
        manifest_among(items, k) is Err,
    ensures
        manifest_among(items, n) == manifest_among(items, k),
    decreases n,
{
    if k < n {
        lemma_search_ends(items, k, n - 1);
    }
}

/// The manifest section among the items of a binary, see [`manifest_section`].
pub fn manifest_section_of(items: Vec<ModuleItem>) -> (r: Result<Vec<u8>, ExcelError>)
    ensures
        bytes_view(r) == manifest_section(items_view(items@)),
{
    let ghost views = items_view(items@);
    let mut found: Option<Vec<u8>> = None;
    let mut i: usize = 0;
    while i < items.len()
        invariant
            i <= items@.len(),
            views == items_view(items@),
            views.len() == items@.len(),
            match found {
                Some(data) => manifest_among(views, i as int) == Ok::<Option<Seq<u8>>, ErrorView>(
                    Some(data@),
                ),
                None => manifest_among(views, i as int) == Ok::<Option<Seq<u8>>, ErrorView>(None),
            },
        decreases items@.len() - i,
    {
        assert(views[i as int] == items@[i as int]@);
        match &items[i] {
            ModuleItem::Invalid(text) => {
                proof {
                    lemma_search_ends(views, i + 1, views.len() as int);
                }
                return Err(value_error_with("Invalid WASM module bytes: ", text));
            },
            ModuleItem::Other => {},
            ModuleItem::Custom { name, data } => {
                if same_text(name, WASM_MANIFEST_SECTION_V1) {
                    if found.is_some() {
                        proof {
                            lemma_search_ends(views, i + 1, views.len() as int);
                        }
                        return Err(
                            value_error(
                                "WASM module has multiple formualizer manifest custom sections",
                            ),
                        );
                    }
                    found = Some(slice_to_vec(data.as_slice()));
                }
            },
        }
        i += 1;
    }
    match found {
        Some(data) => Ok(data),
        None => Err(
            value_error_with(
                "WASM module is missing required custom section: ",
                WASM_MANIFEST_SECTION_V1,
            ),
        ),
    }
}

/// The bytes of the manifest section of a WASM binary.
pub fn extract_wasm_manifest_json_from_module(wasm_bytes: &[u8]) -> (r: Result<Vec<u8>, ExcelError>)
    ensures
        bytes_view(r) == manifest_section(wasm_items(wasm_bytes@)),
{
    manifest_section_of(module_items(wasm_bytes))
}

/// Reads a manifest out of its JSON text.
pub trait ManifestDecoder {
    /// The manifest that `json` holds, or why it holds none.
    fn decode(&self, json: &Vec<u8>) -> Result<WasmModuleManifest, String>;
}

/// Whether `decoder` answered `decoded` for the text `json`.
pub open spec fn decodes<D: ManifestDecoder>(
    decoder: D,
    json: Seq<u8>,
    decoded: Result<WasmModuleManifest, String>,
) -> bool {
    exists|text: Vec<u8>| text@ == json && #[trigger] call_ensures(
        D::decode,
        (&decoder, &text),
        decoded,
    )
}

/// The manifest that a decoder's answer comes to: it must be valid.
pub open spec fn accepted_manifest(decoded: Result<WasmModuleManifest, String>) -> Result<
    WasmModuleManifest,
    ErrorView,
> {
    match decoded {
        Err(text) => Err(
            error_of(ExcelErrorKind::Value, "Failed to parse WASM manifest JSON: "@ + text@),
        ),
        Ok(manifest) => match manifest_check(manifest) {
            Err(e) => Err(e),
            Ok(_) => Ok(manifest),
        },
    }
}

/// See [`accepted_manifest`].
pub fn accept_decoded_manifest(decoded: Result<WasmModuleManifest, String>) -> (r: Result<
    WasmModuleManifest,
    ExcelError,
>)
    ensures
        excel_view(r) == accepted_manifest(decoded),
{
    match decoded {
        Err(text) => Err(value_error_with("Failed to parse WASM manifest JSON: ", &text)),
        Ok(manifest) => match validate_wasm_manifest(&manifest) {
            Err(e) => Err(e),
            Ok(_) => Ok(manifest),
        },
    }
}

/// Whether the text `json` comes to the manifest `r`, as `decoder` reads it.
pub open spec fn decoded_manifest<D: ManifestDecoder>(
    decoder: D,
    json: Seq<u8>,
    r: Result<WasmModuleManifest, ErrorView>,
) -> bool {
    exists|decoded: Result<WasmModuleManifest, String>| #[trigger]
        decodes(decoder, json, decoded) && r == accepted_manifest(decoded)
}

/// The valid manifest that `bytes` hold.
pub fn parse_wasm_manifest_json<D: ManifestDecoder>(bytes: &Vec<u8>, decoder: &D) -> (r: Result<
    WasmModuleManifest,
    ExcelError,
>)
    ensures
        decoded_manifest(*decoder, bytes@, excel_view(r)),
{
    let decoded = decoder.decode(bytes);
    assert(decodes(*decoder, bytes@, decoded));
    accept_decoded_manifest(decoded)
}

/// Whether the manifest of the binary `bytes` is what `r` says, as `decoder` reads
/// its manifest section.
pub open spec fn module_manifest<D: ManifestDecoder>(
    decoder: D,
    bytes: Seq<u8>,
    r: Result<WasmModuleManifest, ErrorView>,
) -> bool {
    match manifest_section(wasm_items(bytes)) {
        Err(e) => r == Err::<WasmModuleManifest, ErrorView>(e),
        Ok(json) => decoded_manifest(decoder, json, r),
    }
}

/// The valid manifest of a WASM binary.
pub fn read_module_manifest<D: ManifestDecoder>(wasm_bytes: &[u8], decoder: &D) -> (r: Result<
    WasmModuleManifest,
    ExcelError,
>)
    ensures
        module_manifest(*decoder, wasm_bytes@, excel_view(r)),
{
    match extract_wasm_manifest_json_from_module(wasm_bytes) {
        Err(e) => Err(e),
        Ok(json) => parse_wasm_manifest_json(&json, decoder),
    }
}

/// What is listed of the module `module_id` of `size` bytes with `manifest`.
pub open spec fn is_module_info(
    info: WasmModuleInfo,
    module_id: Seq<char>,
    size: nat,
    manifest: WasmModuleManifest,
) -> bool {
    &&& info.module_id@ == module_id
    &&& info.version@ == manifest.module.version@
    &&& info.abi_version == manifest.module.abi
    &&& info.codec_version == manifest.module.codec
    &&& info.function_count == manifest.functions@.len()
    &&& info.module_size_bytes == size
}

/// See [`is_module_info`].
pub fn wasm_module_info_from_manifest(
    module_id: String,
    module_size_bytes: usize,
    manifest: &WasmModuleManifest,
) -> (info: WasmModuleInfo)
    ensures
        is_module_info(info, module_id@, module_size_bytes as nat, *manifest),
{
    WasmModuleInfo {
        module_id,
        version: manifest.module.version.clone(),
        abi_version: manifest.module.abi,
        codec_version: manifest.module.codec,
        function_count: manifest.functions.len(),
        module_size_bytes,
    }
}

/// What a reading of the manifest of a binary of `size` bytes tells of the module.
pub open spec fn inspection(
    manifest: Result<WasmModuleManifest, ErrorView>,
    size: nat,
    r: Result<WasmModuleInfo, ExcelError>,
) -> bool {
    match (manifest, r) {
        (Err(e), Err(error)) => error@ == e,
        (Ok(m), Ok(info)) => is_module_info(info, m.module.id@, size, m),
        _ => false,
    }
}

/// What the manifest of a WASM binary tells of the module.
pub fn inspect_module<D: ManifestDecoder>(wasm_bytes: &[u8], decoder: &D) -> (r: Result<
    WasmModuleInfo,
    ExcelError,
>)
    ensures
        exists|m: Result<WasmModuleManifest, ErrorView>| #[trigger]
            module_manifest(*decoder, wasm_bytes@, m) && inspection(m, wasm_bytes@.len(), r),
{
    let manifest = read_module_manifest(wasm_bytes, decoder);
    let ghost m = excel_view(manifest);
    assert(module_manifest(*decoder, wasm_bytes@, m));
    match manifest {
        Err(e) => Err(e),
        Ok(manifest) => {
            proof {
                lemma_accepted_id(*decoder, wasm_bytes@, manifest);
            }
            match normalize_wasm_module_id(&manifest.module.id) {
                Err(e) => Err(e),
                Ok(module_id) => Ok(
                    wasm_module_info_from_manifest(module_id, wasm_bytes.len(), &manifest),
                ),
            }
        },
    }
}

/// The id of an accepted manifest stands without surrounding white space.
pub proof fn lemma_accepted_id<D: ManifestDecoder>(
    decoder: D,
    bytes: Seq<u8>,
    manifest: WasmModuleManifest,
)
    requires
        module_manifest(decoder, bytes, Ok(manifest)),
    ensures
        normalized_module_id(manifest.module.id@) == Ok::<Seq<char>, ErrorView>(
            manifest.module.id@,
        ),
{
}

/// Runs the functions of WASM modules.
pub trait WasmUdfRuntime: Send + Sync {
    /// Whether functions can be bound to modules now.
    fn can_bind_functions(&self) -> (r: bool)
        default_ensures
            r,
    {
        true
    }

    /// Whether the module can be run.
    fn validate_module(
        &self,
        _module_id: &str,
        _wasm_bytes: &[u8],
        _manifest: &WasmModuleManifest,
    ) -> (r: Result<(), ExcelError>)
        default_ensures
            r is Ok,
    {
        Ok(())
    }

    /// Lets go of the module.
    fn unregister_module(&self, _module_id: &str) -> (r: Result<(), ExcelError>)
        default_ensures
            r is Ok,
    {
        Ok(())
    }

    /// Calls an export of a module.
    fn invoke(
        &self,
        module_id: &str,
        export_name: &str,
        function_name: &str,
        codec_version: u32,
        args: &[LiteralValue],
        runtime_hint: Option<&WasmRuntimeHint>,
    ) -> Result<LiteralValue, ExcelError>;
}

/// What is said where no runtime is installed.
pub open spec fn pending_message(
    function_name: Seq<char>,
    module_id: Seq<char>,
    export_name: Seq<char>,
    codec_version: u32,
) -> Seq<char> {
    "WASM plugin runtime integration is pending for "@ + function_name + " (module_id="@ + module_id
        + ", export_name="@ + export_name + ", codec_version="@ + decimal(codec_version as nat)
        + ")"@
}

/// The error of [`pending_message`].
pub fn pending_error(
    function_name: &str,
    module_id: &str,
    export_name: &str,
    codec_version: u32,
) -> (e: ExcelError)
    ensures
        e@ == error_of(
            ExcelErrorKind::NImpl,
            pending_message(function_name@, module_id@, export_name@, codec_version),
        ),
{
    let mut text = "WASM plugin runtime integration is pending for ".to_owned();
    text.append(function_name);
    text.append(" (module_id=");
    text.append(module_id);
    text.append(", export_name=");
    text.append(export_name);
    text.append(", codec_version=");
    push_decimal(&mut text, codec_version as u64);
    text.append(")");
    ExcelError::new(ExcelErrorKind::NImpl).with_message(text)
}

/// Stands in while no runtime is installed: takes modules, binds no function.
#[derive(Debug, Clone, Copy)]
pub struct PendingWasmRuntime;

impl WasmUdfRuntime for PendingWasmRuntime {
    fn can_bind_functions(&self) -> (r: bool)
        ensures
            !r,
    {
        false
    }

    fn invoke(
        &self,
        module_id: &str,
        export_name: &str,
        function_name: &str,
        codec_version: u32,
        _args: &[LiteralValue],
        _runtime_hint: Option<&WasmRuntimeHint>,
    ) -> (r: Result<LiteralValue, ExcelError>)
        ensures
            excel_view(r) == Err::<LiteralValue, ErrorView>(
                error_of(
                    ExcelErrorKind::NImpl,
                    pending_message(function_name@, module_id@, export_name@, codec_version),
                ),
            ),
    {
        Err(pending_error(function_name, module_id, export_name, codec_version))
    }
}

/// A module attached to a workbook.
pub struct RegisteredWasmModule {
    pub info: WasmModuleInfo,
    pub manifest: WasmModuleManifest,
    pub wasm_bytes: Vec<u8>,
}

/// Whether `module` is a sound entry for the id `id`.
pub open spec fn sound_module(id: Seq<char>, module: RegisteredWasmModule) -> bool {
    &&& module.manifest.module.id@ == id
    &&& manifest_check(module.manifest) is Ok
    &&& is_module_info(module.info, id, module.wasm_bytes@.len(), module.manifest)
}

/// What is said of a module id that is taken.
pub open spec fn module_taken_message(id: Seq<char>) -> Seq<char> {
    "WASM module "@ + id + " is already registered"@
}

/// What is said of a module id that is unknown.
pub open spec fn module_unknown_message(id: Seq<char>) -> Seq<char> {
    "WASM module "@ + id + " is not registered"@
}

/// What is said of a manifest that speaks of another module.
pub open spec fn module_mismatch_message(requested: Seq<char>, found: Seq<char>) -> Seq<char> {
    "WASM manifest module id mismatch: requested "@ + requested + ", manifest "@ + found
}

/// The error of a module id that is taken.
pub fn taken_module_error(module_id: &str) -> (e: ExcelError)
    ensures
        e@ == error_of(ExcelErrorKind::Name, module_taken_message(module_id@)),
{
    let mut text = "WASM module ".to_owned();
    text.append(module_id);
    text.append(" is already registered");
    ExcelError::new(ExcelErrorKind::Name).with_message(text)
}

/// The name error of [`module_unknown_message`].
pub fn unknown_module_error(module_id: &str) -> (e: ExcelError)
    ensures
        e@ == error_of(ExcelErrorKind::Name, module_unknown_message(module_id@)),
{
    let mut text = "WASM module ".to_owned();
    text.append(module_id);
    text.append(" is not registered");
    ExcelError::new(ExcelErrorKind::Name).with_message(text)
}

/// The modules of a workbook, and the runtime that runs them.
pub struct WasmPluginManager<R> {
    modules: TextMap<RegisteredWasmModule>,
    runtime: RuntimeHost<R>,
}

impl<R: WasmUdfRuntime> WasmPluginManager<R> {
    /// The attached modules by id.
    pub closed spec fn modules(&self) -> Map<Seq<char>, RegisteredWasmModule> {
        self.modules@
    }

    /// The attached modules in ascending order of their ids.
    pub closed spec fn entries(&self) -> Seq<(Seq<char>, RegisteredWasmModule)> {
        self.modules.entries()
    }

    /// The runtime.
    pub closed spec fn runtime(&self) -> RuntimeSlot<R> {
        self.runtime.slot()
    }

    /// The calls that showed the runtime a module or asked it to let go of one, in order.
    pub closed spec fn calls(&self) -> Seq<RuntimeCall> {
        self.runtime.calls()
    }

    /// Whether the modules are as in `before`, and the runtime was not asked since.
    pub open spec fn undisturbed(&self, before: Self) -> bool {
        &&& self.modules() == before.modules()
        &&& self.calls() == before.calls()
    }

    /// Each entry is sound, and the ids ascend.
    pub closed spec fn wf(&self) -> bool {
        &&& self.modules.wf()
        &&& forall|id: Seq<char>| #[trigger]
            self.modules@.dom().contains(id) ==> sound_module(id, self.modules@[id])
    }

    /// What well-formedness gives.
    pub proof fn lemma_wf(&self)
        requires
            self.wf(),
        ensures
            ascending(self.entries()),
            self.modules() == map_of(self.entries()),
            forall|id: Seq<char>| #[trigger]
                self.modules().dom().contains(id) ==> sound_module(id, self.modules()[id]),
    {
    }

    /// No module, no runtime.
    pub fn new() -> (m: WasmPluginManager<R>)
        ensures
            m.wf(),
            m.modules() == Map::<Seq<char>, RegisteredWasmModule>::empty(),
            m.runtime().installed() is None,
            m.calls() == Seq::<RuntimeCall>::empty(),
    {
        WasmPluginManager { modules: TextMap::new(), runtime: RuntimeHost::new() }
    }

    /// Installs a runtime.
    pub fn set_runtime(&mut self, runtime: Arc<R>)
        requires
            old(self).wf(),
        ensures
            final(self).wf(),
            final(self).undisturbed(*old(self)),
            final(self).runtime().installed() == Some(runtime),
    {
        self.runtime.install(runtime);
    }

    /// A hold on the runtime.
    pub fn share_runtime(&self) -> (r: RuntimeSlot<R>)
        ensures
            r == self.runtime(),
    {
        self.runtime.share()
    }

    /// The attached modules, in ascending order of their ids.
    pub fn list_module_infos(&self) -> (r: Vec<WasmModuleInfo>)
        requires
            self.wf(),
        ensures
            r@.len() == self.entries().len(),
            forall|i: int|
                0 <= i < r@.len() ==> (#[trigger] r@[i]) == self.entries()[i].1.info,
            ascending(self.entries()),
            self.modules() == map_of(self.entries()),
    {
        let mut infos: Vec<WasmModuleInfo> = Vec::new();
        let mut i: usize = 0;
        while i < self.modules.len()
            invariant
                self.wf(),
                i <= self.modules.entries().len(),
                infos@.len() == i,
                forall|j: int|
                    0 <= j < i ==> (#[trigger] infos@[j]) == self.modules.entries()[j].1.info,
            decreases self.modules.entries().len() - i,
        {
            let registered = self.modules.value(i);
            proof {
                lemma_map_entry(self.modules.entries(), i as int);
                assert(self.modules@.dom().contains(self.modules.entries()[i as int].0));
                assert(sound_module(self.modules.entries()[i as int].0, *registered));
            }
            infos.push(
                WasmModuleInfo {
                    module_id: registered.info.module_id.clone(),
                    version: registered.info.version.clone(),
                    abi_version: registered.info.abi_version,
                    codec_version: registered.info.codec_version,
                    function_count: registered.info.function_count,
                    module_size_bytes: registered.wasm_bytes.len(),
                },
            );
            i += 1;
        }
        infos
    }

    /// The module `module_id`.
    pub fn get(&self, module_id: &str) -> (r: Option<&RegisteredWasmModule>)
        requires
            self.wf(),
        ensures
            match r {
                Some(m) => self.modules().dom().contains(module_id@) && *m
                    == self.modules()[module_id@],
                None => !self.modules().dom().contains(module_id@),
            },
    {
        self.modules.get(module_id)
    }

    /// Whether `r` and `after` are what the release of a registered module comes to
    /// where the runtime answers `reply`.
    pub open spec fn released(
        before: Self,
        after: Self,
        module_id: Seq<char>,
        reply: Result<(), ExcelError>,
        r: Result<(), ExcelError>,
    ) -> bool {
        &&& r == reply
        &&& after.calls() == before.calls().push(RuntimeCall::Unregister { module_id, reply })
        &&& after.modules() == if reply is Ok {
            before.modules().remove(module_id)
        } else {
            before.modules()
        }
    }

    /// Detaches the module `module_id`. It stays where the runtime holds on to it.
    pub fn unregister_module(&mut self, module_id: &str) -> (r: Result<(), ExcelError>)
        requires
            old(self).wf(),
        ensures
            final(self).wf(),
            final(self).runtime() == old(self).runtime(),
            if old(self).modules().dom().contains(module_id@) {
                exists|reply: Result<(), ExcelError>| #[trigger]
                    old(self).runtime().releases(module_id@, reply) && Self::released(
                        *old(self),
                        *final(self),
                        module_id@,
                        reply,
                        r,
                    )
            } else {
                &&& final(self).undisturbed(*old(self))
                &&& excel_view(r) == Err::<(), ErrorView>(
                    error_of(ExcelErrorKind::Name, module_unknown_message(module_id@)),
                )
            },
    {
        let registered = match self.modules.remove(module_id) {
            Some(registered) => registered,
            None => {
                return Err(unknown_module_error(module_id));
            },
        };
        let reply = self.runtime.unregister_module(module_id);
        assert(old(self).runtime().releases(module_id@, reply));
        if reply.is_err() {
            self.modules.insert(module_id.to_owned(), registered);
            assert(self.modules@ =~= old(self).modules@);
        }
        reply
    }

    /// Whether `r` and `after` are what the registration of a valid manifest comes to
    /// where the runtime answers `reply`.
    pub open spec fn enrolled(
        before: Self,
        after: Self,
        module_id: Seq<char>,
        wasm_bytes: Seq<u8>,
        manifest: WasmModuleManifest,
        reply: Result<(), ExcelError>,
        r: Result<WasmModuleInfo, ExcelError>,
    ) -> bool {
        match (reply, r) {
            (Err(e), Err(error)) => error == e && after.modules() == before.modules(),
            (Ok(_), Ok(info)) => {
                &&& is_module_info(info, module_id, wasm_bytes.len(), manifest)
                &&& after.modules().dom() == before.modules().dom().insert(module_id)
                &&& after.modules().remove(module_id) == before.modules()
                &&& after.modules()[module_id].info == info
                &&& after.modules()[module_id].manifest == manifest
                &&& after.modules()[module_id].wasm_bytes@ == wasm_bytes
            },
            _ => false,
        }
    }

    /// Whether `r` and `after` are what the registration of a binary comes to whose
    /// manifest reads as `manifest`.
    pub open spec fn registered(
        before: Self,
        after: Self,
        module_id: Seq<char>,
        wasm_bytes: &[u8],
        manifest: Result<WasmModuleManifest, ErrorView>,
        r: Result<WasmModuleInfo, ExcelError>,
    ) -> bool {
        match manifest {
            Err(e) => after.undisturbed(before) && r is Err && r->Err_0@ == e,
            Ok(m) => if m.module.id@ != module_id {
                &&& after.undisturbed(before)
                &&& r is Err
                &&& r->Err_0@ == error_of(
                    ExcelErrorKind::Value,
                    module_mismatch_message(module_id, m.module.id@),
                )
            } else {
                Self::enrolled_after_reply(before, after, module_id, wasm_bytes, m, r)
            },
        }
    }

    /// Whether some answer of the runtime leads to `r` and `after`.
    pub open spec fn enrolled_after_reply(
        before: Self,
        after: Self,
        module_id: Seq<char>,
        wasm_bytes: &[u8],
        manifest: WasmModuleManifest,
        r: Result<WasmModuleInfo, ExcelError>,
    ) -> bool {
        exists|reply: Result<(), ExcelError>| #[trigger]
            before.runtime().validates(module_id, wasm_bytes, manifest, reply) && after.calls()
                == before.calls().push(
                RuntimeCall::Validate { module_id, wasm_bytes: wasm_bytes@, manifest, reply },
            ) && Self::enrolled(
                before,
                after,
                module_id,
                wasm_bytes@,
                manifest,
                reply,
                r,
            )
    }

    /// Attaches a binary under the id `requested_module_id`, which must be free and
    /// the one that its manifest states. The runtime may refuse it.
    pub fn register_module_bytes<D: ManifestDecoder>(
        &mut self,
        requested_module_id: &str,
        wasm_bytes: &[u8],
        decoder: &D,
    ) -> (r: Result<WasmModuleInfo, ExcelError>)
        requires
            old(self).wf(),
        ensures
            final(self).wf(),
            final(self).runtime() == old(self).runtime(),
            if old(self).modules().dom().contains(requested_module_id@) {
                &&& final(self).undisturbed(*old(self))
                &&& r is Err
                &&& r->Err_0@ == error_of(
                    ExcelErrorKind::Name,
                    module_taken_message(requested_module_id@),
                )
            } else {
                exists|manifest: Result<WasmModuleManifest, ErrorView>| #[trigger]
                    module_manifest(*decoder, wasm_bytes@, manifest) && Self::registered(
                        *old(self),
                        *final(self),
                        requested_module_id@,
                        wasm_bytes,
                        manifest,
                        r,
                    )
            },
    {
        if self.modules.contains_key(requested_module_id) {
            return Err(taken_module_error(requested_module_id));
        }
        let read = read_module_manifest(wasm_bytes, decoder);
        let ghost seen = excel_view(read);
        assert(module_manifest(*decoder, wasm_bytes@, seen));
        let manifest = match read {
            Ok(manifest) => manifest,
            Err(e) => {
                return Err(e);
            },
        };
        if !same_text(&manifest.module.id, requested_module_id) {
            let mut text = "WASM manifest module id mismatch: requested ".to_owned();
            text.append(requested_module_id);
            text.append(", manifest ");
            text.append(&manifest.module.id);
            return Err(ExcelError::new(ExcelErrorKind::Value).with_message(text));
        }
        self.enroll(requested_module_id, wasm_bytes, manifest)
    }

    /// Whether `r` and `after` are what the attaching of a binary comes to whose manifest
    /// reads as `manifest`, under the id that the manifest states.
    pub open spec fn attached(
        before: Self,
        after: Self,
        wasm_bytes: &[u8],
        manifest: Result<WasmModuleManifest, ErrorView>,
        r: Result<WasmModuleInfo, ExcelError>,
    ) -> bool {
        match manifest {
            Err(e) => after.undisturbed(before) && r is Err && r->Err_0@ == e,
            Ok(m) => if before.modules().dom().contains(m.module.id@) {
                &&& after.undisturbed(before)
                &&& r is Err
                &&& r->Err_0@ == error_of(
                    ExcelErrorKind::Name,
                    module_taken_message(m.module.id@),
                )
            } else {
                Self::enrolled_after_reply(before, after, m.module.id@, wasm_bytes, m, r)
            },
        }
    }

    /// Attaches a binary under the id that its manifest states, which must be free. The
    /// runtime may refuse it.
    pub fn attach_module_bytes<D: ManifestDecoder>(
        &mut self,
        wasm_bytes: &[u8],
        decoder: &D,
    ) -> (r: Result<WasmModuleInfo, ExcelError>)
        requires
            old(self).wf(),
        ensures
            final(self).wf(),
            final(self).runtime() == old(self).runtime(),
            exists|manifest: Result<WasmModuleManifest, ErrorView>| #[trigger]
                module_manifest(*decoder, wasm_bytes@, manifest) && Self::attached(
                    *old(self),
                    *final(self),
                    wasm_bytes,
                    manifest,
                    r,
                ),
    {
        let read = read_module_manifest(wasm_bytes, decoder);
        let ghost seen = excel_view(read);
        assert(module_manifest(*decoder, wasm_bytes@, seen));
        let manifest = match read {
            Ok(manifest) => manifest,
            Err(e) => {
                return Err(e);
            },
        };
        let module_id = manifest.module.id.clone();
        if self.modules.contains_key(&module_id) {
            return Err(taken_module_error(&module_id));
        }
        self.enroll(&module_id, wasm_bytes, manifest)
    }

    /// Attaches a binary with a valid manifest, unless the runtime refuses it.
    fn enroll(
        &mut self,
        module_id: &str,
        wasm_bytes: &[u8],
        manifest: WasmModuleManifest,
    ) -> (r: Result<WasmModuleInfo, ExcelError>)
        requires
            old(self).wf(),
            !old(self).modules().dom().contains(module_id@),
            manifest.module.id@ == module_id@,
            manifest_check(manifest) is Ok,
        ensures
            final(self).wf(),
            final(self).runtime() == old(self).runtime(),
            Self::enrolled_after_reply(
                *old(self),
                *final(self),
                module_id@,
                wasm_bytes,
                manifest,
                r,
            ),
    {
        let reply = self.runtime.validate_module(module_id, wasm_bytes, &manifest);
        assert(self.runtime().validates(module_id@, wasm_bytes, manifest, reply));
        match reply {
            Ok(_) => {},
            Err(e) => {
                return Err(e);
            },
        }
        let info = wasm_module_info_from_manifest(
            module_id.to_owned(),
            wasm_bytes.len(),
            &manifest,
        );
        let kept = WasmModuleInfo {
            module_id: info.module_id.clone(),
            version: info.version.clone(),
            abi_version: info.abi_version,
            codec_version: info.codec_version,
            function_count: info.function_count,
            module_size_bytes: info.module_size_bytes,
        };
        self.modules.insert(
            module_id.to_owned(),
            RegisteredWasmModule { info: kept, manifest, wasm_bytes: slice_to_vec(wasm_bytes) },
        );
        assert(self.modules@.remove(module_id@) =~= old(self).modules@);
        Ok(info)
    }
}

/// Whether item `i` is a manifest section.
pub open spec fn is_manifest_item(items: Seq<ItemView>, i: int) -> bool {
    items[i] is Custom && items[i]->name == WASM_MANIFEST_SECTION_V1@
}

/// Whether the first `n` items hold no fault.
pub open spec fn faultless(items: Seq<ItemView>, n: int) -> bool {
    forall|i: int| 0 <= i < n ==> !((#[trigger] items[i]) is Invalid)
}

/// Whether item `k` is the only manifest section of the first `n` items.
pub open spec fn only_manifest(items: Seq<ItemView>, n: int, k: int) -> bool {
    &&& 0 <= k < n
    &&& is_manifest_item(items, k)
    &&& forall|i: int| 0 <= i < n && i != k ==> !#[trigger] is_manifest_item(items, i)
}

proof fn lemma_manifest_among(items: Seq<ItemView>, n: int)
    requires
        0 <= n <= items.len(),
    ensures
        match manifest_among(items, n) {
            Err(_) => !faultless(items, n) || exists|i: int, j: int|
                0 <= i < j < n && #[trigger] is_manifest_item(items, i)
                    && #[trigger] is_manifest_item(items, j),
            Ok(None) => faultless(items, n) && forall|i: int|
                0 <= i < n ==> !#[trigger] is_manifest_item(items, i),
            Ok(Some(data)) => faultless(items, n) && exists|k: int| #[trigger]
                only_manifest(items, n, k) && items[k]->data == data,
        },
    decreases n,
{
    if n > 0 {
        lemma_manifest_among(items, n - 1);
        match manifest_among(items, n - 1) {
            Err(_) => {
                if !faultless(items, n - 1) {
                    let i = choose|i: int| 0 <= i < n - 1 && (#[trigger] items[i]) is Invalid;
                    assert(items[i] is Invalid);
                } else {
                    let (i, j) = choose|i: int, j: int|
                        0 <= i < j < n - 1 && #[trigger] is_manifest_item(items, i)
                            && #[trigger] is_manifest_item(items, j);
                    assert(is_manifest_item(items, i) && is_manifest_item(items, j));
                }
            },
            Ok(None) => {
                if is_manifest_item(items, n - 1) {
                    assert(only_manifest(items, n, n - 1));
                } else if items[n - 1] is Invalid {
                    assert(!faultless(items, n));
                }
            },
            Ok(Some(data)) => {
                let k = choose|k: int| #[trigger]
                    only_manifest(items, n - 1, k) && items[k]->data == data;
                if is_manifest_item(items, n - 1) {
                    assert(is_manifest_item(items, k));
                } else if items[n - 1] is Invalid {
                    assert(!faultless(items, n));
                } else {
                    assert(only_manifest(items, n, k));
                }
            },
        }
    }
}

/// A binary has a manifest exactly when it is faultless and has a single manifest
/// section; the manifest is the data of that section.
pub proof fn law_single_manifest_section(items: Seq<ItemView>)
    ensures
        manifest_section(items) is Ok <==> faultless(items, items.len() as int) && exists|k: int|
            #[trigger] only_manifest(items, items.len() as int, k),
        forall|k: int|
            manifest_section(items) is Ok && #[trigger] only_manifest(items, items.len() as int, k)
                ==> manifest_section(items)->Ok_0 == items[k]->data,
{
    lemma_manifest_among(items, items.len() as int);
}

} // verus!
