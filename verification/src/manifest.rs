//! Manifests of WASM function modules: their content and its validation.

use crate::error::{error_of, excel_view, ErrorView, ExcelError, ExcelErrorKind};
use crate::function::{
    arity_inverted, canonical_name, inverted_arity_text, inverted_message, name_view,
    normalize_custom_fn_name, normalized_name,
};
use crate::text::{decimal, push_decimal, same_text, trimmed};
use crate::text_map::TextMap;
use std::collections::{BTreeMap, BTreeSet};
use vstd::prelude::*;
use vstd::string::*;

verus! {

pub const WASM_MANIFEST_SCHEMA_V1: &'static str = "formualizer.udf.module/v1";

pub const WASM_MANIFEST_SECTION_V1: &'static str = "formualizer.udf.manifest.v1";

pub const WASM_ABI_VERSION_V1: u32 = 1;

pub const WASM_CODEC_VERSION_V1: u32 = 1;

/// Limits asked of the runtime for the calls of a function.
#[derive(Debug, Clone, Copy, PartialEq, Eq, Structural)]
pub struct WasmRuntimeHint {
    pub fuel_limit: Option<u64>,
    pub memory_limit_bytes: Option<u64>,
}

impl Default for WasmRuntimeHint {
    fn default() -> (h: WasmRuntimeHint)
        ensures
            h.fuel_limit is None,
            h.memory_limit_bytes is None,
    {
        WasmRuntimeHint { fuel_limit: None, memory_limit_bytes: None }
    }
}

/// Where the code of a WASM function stands, and how it is called.
#[derive(Debug, Clone, PartialEq, Eq)]
pub struct WasmFunctionSpec {
    pub module_id: String,
    pub export_name: String,
    pub codec_version: u32,
    pub runtime_hint: Option<WasmRuntimeHint>,
    pub reserved: BTreeMap<String, String>,
}

impl WasmFunctionSpec {
    /// The export `export_name` of the module `module_id`, without a hint.
    pub fn new(module_id: &str, export_name: &str, codec_version: u32) -> (spec: WasmFunctionSpec)
        ensures
            spec.module_id@ == module_id@,
            spec.export_name@ == export_name@,
            spec.codec_version == codec_version,
            spec.runtime_hint is None,
            spec.reserved@ == Map::<String, String>::empty(),
    {
        WasmFunctionSpec {
            module_id: module_id.to_owned(),
            export_name: export_name.to_owned(),
            codec_version,
            runtime_hint: None,
            reserved: BTreeMap::new(),
        }
    }
}

/// A function needs a module and an export, neither of them blank.
pub open spec fn wasm_spec_check(spec: WasmFunctionSpec) -> Result<(), ErrorView> {
    if trimmed(spec.module_id@).len() == 0 {
        Err(error_of(ExcelErrorKind::Value, "WASM function module_id cannot be empty"@))
    } else if trimmed(spec.export_name@).len() == 0 {
        Err(error_of(ExcelErrorKind::Value, "WASM function export_name cannot be empty"@))
    } else {
        Ok(())
    }
}

/// See [`wasm_spec_check`].
pub fn validate_wasm_spec(spec: &WasmFunctionSpec) -> (r: Result<(), ExcelError>)
    ensures
        excel_view(r) == wasm_spec_check(*spec),
{
    if spec.module_id.as_str().trim().is_empty() {
        return Err(value_error("WASM function module_id cannot be empty"));
    }
    if spec.export_name.as_str().trim().is_empty() {
        return Err(value_error("WASM function export_name cannot be empty"));
    }
    Ok(())
}

/// The value error with the message `text`.
pub fn value_error(text: &str) -> (e: ExcelError)
    ensures
        e@ == error_of(ExcelErrorKind::Value, text@),
{
    ExcelError::new(ExcelErrorKind::Value).with_message(text.to_owned())
}

/// What is listed of a registered module.
#[derive(Debug, Clone, PartialEq, Eq)]
pub struct WasmModuleInfo {
    pub module_id: String,
    pub version: String,
    pub abi_version: u32,
    pub codec_version: u32,
    pub function_count: usize,
    pub module_size_bytes: usize,
}

/// The manifest of a module.
#[derive(Debug, Clone, PartialEq, Eq)]
pub struct WasmModuleManifest {
    pub schema: String,
    pub module: WasmManifestModule,
    pub functions: Vec<WasmManifestFunction>,
}

/// The module that a manifest describes.
#[derive(Debug, Clone, PartialEq, Eq)]
pub struct WasmManifestModule {
    pub id: String,
    pub version: String,
    pub abi: u32,
    pub codec: u32,
}

/// A function that a manifest offers.
#[derive(Debug, Clone, PartialEq, Eq)]
pub struct WasmManifestFunction {
    pub id: u32,
    pub name: String,
    pub aliases: Vec<String>,
    pub export_name: String,
    pub min_args: usize,
    pub max_args: Option<usize>,
    pub volatile: bool,
    pub deterministic: bool,
    pub thread_safe: bool,
    pub params: Vec<WasmManifestParam>,
    pub returns: Option<WasmManifestReturn>,
}

/// A parameter of a manifest function.
#[derive(Debug, Clone, PartialEq, Eq)]
pub struct WasmManifestParam {
    pub name: String,
    pub kinds: Vec<String>,
}

/// The result of a manifest function.
#[derive(Debug, Clone, PartialEq, Eq)]
pub struct WasmManifestReturn {
    pub kinds: Vec<String>,
}

/// What a manifest says of a function that it leaves undescribed: deterministic.
pub fn default_true() -> (r: bool)
    ensures
        r,
{
    true
}

/// The id of a module, trimmed, or the error where nothing is left of it.
pub open spec fn normalized_module_id(module_id: Seq<char>) -> Result<Seq<char>, ErrorView> {
    if trimmed(module_id).len() == 0 {
        Err(error_of(ExcelErrorKind::Value, "WASM module_id cannot be empty"@))
    } else {
        Ok(trimmed(module_id))
    }
}

/// See [`normalized_module_id`].
pub fn normalize_wasm_module_id(module_id: &str) -> (r: Result<String, ExcelError>)
    ensures
        name_view(r) == normalized_module_id(module_id@),
{
    let trimmed_id = module_id.trim();
    if trimmed_id.is_empty() {
        return Err(value_error("WASM module_id cannot be empty"));
    }
    Ok(trimmed_id.to_owned())
}

/// Whether `f` goes by the canonical name `name`.
pub open spec fn goes_by(f: WasmManifestFunction, name: Seq<char>) -> bool {
    canonical_name(f.name@) == name || alias_before(f, f.aliases@.len() as int, name)
}

/// Whether one of the first `n` aliases of `f` has the canonical name `name`.
pub open spec fn alias_before(f: WasmManifestFunction, n: int, name: Seq<char>) -> bool {
    exists|j: int| 0 <= j < n && #[trigger] canonical_name(f.aliases@[j]@) == name
}

/// Whether one of the first `n` functions goes by `name`.
pub open spec fn name_taken(fs: Seq<WasmManifestFunction>, n: int, name: Seq<char>) -> bool {
    exists|j: int| 0 <= j < n && goes_by(#[trigger] fs[j], name)
}

/// Whether one of the first `n` functions has the id `id`.
pub open spec fn id_taken(fs: Seq<WasmManifestFunction>, n: int, id: u32) -> bool {
    exists|j: int| 0 <= j < n && #[trigger] fs[j].id == id
}

/// Whether one of the first `n` functions has the export `export`.
pub open spec fn export_taken(fs: Seq<WasmManifestFunction>, n: int, export: Seq<char>) -> bool {
    exists|j: int| 0 <= j < n && #[trigger] fs[j].export_name@ == export
}

/// The alias at position `a` of function `k` must be a name that nothing before
/// it goes by.
pub open spec fn alias_check(fs: Seq<WasmManifestFunction>, k: int, a: int) -> Result<
    (),
    ErrorView,
> {
    let alias = fs[k].aliases@[a]@;
    match normalized_name(alias) {
        Err(e) => Err(e),
        Ok(name) => if name_taken(fs, k, name) || canonical_name(fs[k].name@) == name
            || alias_before(fs[k], a, name) {
            Err(
                error_of(
                    ExcelErrorKind::Value,
                    "Duplicate WASM function alias: "@ + alias,
                ),
            )
        } else {
            Ok(())
        },
    }
}

/// The first `n` aliases of function `k`, in order.
pub open spec fn aliases_check(fs: Seq<WasmManifestFunction>, k: int, n: int) -> Result<
    (),
    ErrorView,
>
    decreases n,
{
    if n <= 0 {
        Ok(())
    } else {
        match aliases_check(fs, k, n - 1) {
            Err(e) => Err(e),
            Ok(_) => alias_check(fs, k, n - 1),
        }
    }
}

/// Function `k` against those before it: its id, its export, its name and its
/// bounds are checked in this order, then its aliases.
pub open spec fn function_check(fs: Seq<WasmManifestFunction>, k: int) -> Result<(), ErrorView> {
    let f = fs[k];
    if id_taken(fs, k, f.id) {
        Err(
            error_of(
                ExcelErrorKind::Value,
                "Duplicate WASM manifest function id "@ + decimal(f.id as nat),
            ),
        )
    } else if trimmed(f.export_name@).len() == 0 {
        Err(
            error_of(
                ExcelErrorKind::Value,
                "WASM function "@ + decimal(f.id as nat) + " has empty export name"@,
            ),
        )
    } else if export_taken(fs, k, f.export_name@) {
        Err(
            error_of(ExcelErrorKind::Value, "Duplicate WASM export name: "@ + f.export_name@),
        )
    } else {
        match normalized_name(f.name@) {
            Err(e) => Err(e),
            Ok(name) => if name_taken(fs, k, name) {
                Err(
                    error_of(
                        ExcelErrorKind::Value,
                        "Duplicate WASM function name or alias: "@ + f.name@,
                    ),
                )
            } else if arity_inverted(f.min_args, f.max_args) {
                Err(
                    error_of(
                        ExcelErrorKind::Value,
                        inverted_message(
                            "Invalid WASM function arity for "@,
                            f.name@,
                            f.min_args,
                            f.max_args->0,
                        ),
                    ),
                )
            } else {
                aliases_check(fs, k, f.aliases@.len() as int)
            },
        }
    }
}

/// The first `n` functions, in order: the error of the first that is refused.
pub open spec fn functions_check(fs: Seq<WasmManifestFunction>, n: int) -> Result<(), ErrorView>
    decreases n,
{
    if n <= 0 {
        Ok(())
    } else {
        match functions_check(fs, n - 1) {
            Err(e) => Err(e),
            Ok(_) => function_check(fs, n - 1),
        }
    }
}

/// What is said of a module version that is not the supported one.
pub open spec fn version_message(what: Seq<char>, found: u32, expected: u32) -> Seq<char> {
    "Unsupported WASM "@ + what + " version "@ + decimal(found as nat) + " (expected "@ + decimal(
        expected as nat,
    ) + ")"@
}

/// The header of a manifest: its schema and the module that it describes.
pub open spec fn header_check(m: WasmModuleManifest) -> Result<(), ErrorView> {
    if m.schema@ != WASM_MANIFEST_SCHEMA_V1@ {
        Err(
            error_of(ExcelErrorKind::Value, "Unsupported WASM manifest schema: "@ + m.schema@),
        )
    } else {
        match normalized_module_id(m.module.id@) {
            Err(e) => Err(e),
            Ok(id) => if id != m.module.id@ {
                Err(
                    error_of(
                        ExcelErrorKind::Value,
                        "WASM manifest module.id must not have leading/trailing whitespace"@,
                    ),
                )
            } else if trimmed(m.module.version@).len() == 0 {
                Err(
                    error_of(
                        ExcelErrorKind::Value,
                        "WASM manifest module.version cannot be empty"@,
                    ),
                )
            } else if m.module.abi != WASM_ABI_VERSION_V1 {
                Err(
                    error_of(
                        ExcelErrorKind::NImpl,
                        version_message("ABI"@, m.module.abi, WASM_ABI_VERSION_V1),
                    ),
                )
            } else if m.module.codec != WASM_CODEC_VERSION_V1 {
                Err(
                    error_of(
                        ExcelErrorKind::NImpl,
                        version_message("codec"@, m.module.codec, WASM_CODEC_VERSION_V1),
                    ),
                )
            } else if m.functions@.len() == 0 {
                Err(
                    error_of(
                        ExcelErrorKind::Value,
                        "WASM manifest must define at least one function"@,
                    ),
                )
            } else {
                Ok(())
            },
        }
    }
}

/// A manifest is refused for the first fault of its header, else for the first
/// fault of its functions.
pub open spec fn manifest_check(m: WasmModuleManifest) -> Result<(), ErrorView> {
    match header_check(m) {
        Err(e) => Err(e),
        Ok(_) => functions_check(m.functions@, m.functions@.len() as int),
    }
}

fn version_text(what: &str, found: u32, expected: u32) -> (r: String)
    ensures
        r@ == version_message(what@, found, expected),
{
    let mut text = "Unsupported WASM ".to_owned();
    text.append(what);
    text.append(" version ");
    push_decimal(&mut text, found as u64);
    text.append(" (expected ");
    push_decimal(&mut text, expected as u64);
    text.append(")");
    text
}

/// The value error whose message is `lead` followed by `rest`.
pub fn value_error_with(lead: &str, rest: &str) -> (e: ExcelError)
    ensures
        e@ == error_of(ExcelErrorKind::Value, lead@ + rest@),
{
    let mut text = lead.to_owned();
    text.append(rest);
    ExcelError::new(ExcelErrorKind::Value).with_message(text)
}

fn validate_header(manifest: &WasmModuleManifest) -> (r: Result<(), ExcelError>)
    ensures
        excel_view(r) == header_check(*manifest),
{
    if !same_text(&manifest.schema, WASM_MANIFEST_SCHEMA_V1) {
        return Err(value_error_with("Unsupported WASM manifest schema: ", &manifest.schema));
    }
    let module_id = match normalize_wasm_module_id(&manifest.module.id) {
        Ok(id) => id,
        Err(e) => {
            return Err(e);
        },
    };
    if !same_text(&module_id, &manifest.module.id) {
        return Err(
            value_error("WASM manifest module.id must not have leading/trailing whitespace"),
        );
    }
    if manifest.module.version.as_str().trim().is_empty() {
        return Err(value_error("WASM manifest module.version cannot be empty"));
    }
    if manifest.module.abi != WASM_ABI_VERSION_V1 {
        return Err(
            ExcelError::new(ExcelErrorKind::NImpl).with_message(
                version_text("ABI", manifest.module.abi, WASM_ABI_VERSION_V1),
            ),
        );
    }
    if manifest.module.codec != WASM_CODEC_VERSION_V1 {
        return Err(
            ExcelError::new(ExcelErrorKind::NImpl).with_message(
                version_text("codec", manifest.module.codec, WASM_CODEC_VERSION_V1),
            ),
        );
    }
    if manifest.functions.is_empty() {
        return Err(value_error("WASM manifest must define at least one function"));
    }
    Ok(())
}

fn note_id(ids: &mut BTreeSet<u32>, id: u32) -> (fresh: bool)
    ensures
        final(ids)@ == old(ids)@.insert(id),
        fresh == !old(ids)@.contains(id),
{
    broadcast use vstd::laws_cmp::group_laws_cmp;

    ids.insert(id)
}

fn note_text(texts: &mut TextMap<()>, text: String) -> (fresh: bool)
    requires
        old(texts).wf(),
    ensures
        final(texts).wf(),
        final(texts)@.dom() == old(texts)@.dom().insert(text@),
        fresh == !old(texts)@.dom().contains(text@),
{
    let fresh = !texts.contains_key(&text);
    texts.insert(text, ());
    fresh
}

/// See [`manifest_check`].
pub fn validate_wasm_manifest(manifest: &WasmModuleManifest) -> (r: Result<(), ExcelError>)
    ensures
        excel_view(r) == manifest_check(*manifest),
{
    match validate_header(manifest) {
        Ok(_) => {},
        Err(e) => {
            return Err(e);
        },
    }
    let mut function_ids: BTreeSet<u32> = BTreeSet::new();
    let mut export_names: TextMap<()> = TextMap::new();
    let mut names_and_aliases: TextMap<()> = TextMap::new();
    let ghost fs = manifest.functions@;
    let mut k: usize = 0;
    while k < manifest.functions.len()
        invariant
            k <= manifest.functions@.len(),
            fs == manifest.functions@,
            header_check(*manifest) is Ok,
            functions_check(fs, k as int) is Ok,
            export_names.wf(),
            names_and_aliases.wf(),
            forall|id: u32| #[trigger] function_ids@.contains(id) == id_taken(fs, k as int, id),
            forall|x: Seq<char>|
                #[trigger] export_names@.dom().contains(x) == export_taken(fs, k as int, x),
            forall|x: Seq<char>|
                #[trigger] names_and_aliases@.dom().contains(x) == name_taken(fs, k as int, x),
        decreases manifest.functions@.len() - k,
    {
        let function = &manifest.functions[k];
        proof {
            lemma_first_error(fs, k as int, fs.len() as int);
        }
        if !note_id(&mut function_ids, function.id) {
            let mut text = "Duplicate WASM manifest function id ".to_owned();
            push_decimal(&mut text, function.id as u64);
            return Err(ExcelError::new(ExcelErrorKind::Value).with_message(text));
        }
        if function.export_name.as_str().trim().is_empty() {
            let mut text = "WASM function ".to_owned();
            push_decimal(&mut text, function.id as u64);
            text.append(" has empty export name");
            return Err(ExcelError::new(ExcelErrorKind::Value).with_message(text));
        }
        if !note_text(&mut export_names, function.export_name.clone()) {
            return Err(value_error_with("Duplicate WASM export name: ", &function.export_name));
        }
        let canonical = match normalize_custom_fn_name(&function.name) {
            Ok(name) => name,
            Err(e) => {
                return Err(e);
            },
        };
        if !note_text(&mut names_and_aliases, canonical) {
            return Err(
                value_error_with("Duplicate WASM function name or alias: ", &function.name),
            );
        }
        if let Some(max_args) = function.max_args {
            if max_args < function.min_args {
                return Err(
                    ExcelError::new(ExcelErrorKind::Value).with_message(
                        inverted_arity_text(
                            "Invalid WASM function arity for ",
                            &function.name,
                            function.min_args,
                            max_args,
                        ),
                    ),
                );
            }
        }
        match note_aliases(&mut names_and_aliases, &manifest.functions, k) {
            Ok(_) => {},
            Err(e) => {
                return Err(e);
            },
        }
        proof {
            assert forall|id: u32| #[trigger] function_ids@.contains(id) == id_taken(fs, k + 1, id) by {
                assert(fs[k as int].id == function.id);
                if id_taken(fs, k as int, id) {
                    let j = choose|j: int| 0 <= j < k && #[trigger] fs[j].id == id;
                    assert(fs[j].id == id);
                }
            }
            assert forall|x: Seq<char>|
                #[trigger] export_names@.dom().contains(x) == export_taken(fs, k + 1, x) by {
                assert(fs[k as int].export_name@ == function.export_name@);
                if export_taken(fs, k as int, x) {
                    let j = choose|j: int| 0 <= j < k && #[trigger] fs[j].export_name@ == x;
                    assert(fs[j].export_name@ == x);
                }
            }
        }
        k += 1;
    }
    Ok(())
}

proof fn lemma_first_error(fs: Seq<WasmManifestFunction>, k: int, n: int)
    requires
        0 <= k < n,
        functions_check(fs, k) is Ok,
    ensures
        function_check(fs, k) is Err ==> functions_check(fs, n) == function_check(fs, k),
    decreases n,
{
    if k + 1 < n {
        lemma_first_error(fs, k, n - 1);
    }
}

proof fn lemma_first_alias_error(fs: Seq<WasmManifestFunction>, k: int, a: int, n: int)
    requires
        0 <= a < n,
        aliases_check(fs, k, a) is Ok,
    ensures
        alias_check(fs, k, a) is Err ==> aliases_check(fs, k, n) == alias_check(fs, k, a),
    decreases n,
{
    if a + 1 < n {
        lemma_first_alias_error(fs, k, a, n - 1);
    }
}

fn note_aliases(
    names: &mut TextMap<()>,
    functions: &Vec<WasmManifestFunction>,
    k: usize,
) -> (r: Result<(), ExcelError>)
    requires
        k < functions@.len(),
        old(names).wf(),
        forall|x: Seq<char>|
            #[trigger] old(names)@.dom().contains(x) == (name_taken(functions@, k as int, x)
                || canonical_name(functions@[k as int].name@) == x),
    ensures
        final(names).wf(),
        excel_view(r) == aliases_check(
            functions@,
            k as int,
            functions@[k as int].aliases@.len() as int,
        ),
        r is Ok ==> forall|x: Seq<char>|
            #[trigger] final(names)@.dom().contains(x) == name_taken(functions@, k + 1, x),
{
    let function = &functions[k];
    let ghost fs = functions@;
    let ghost f = fs[k as int];
    let mut a: usize = 0;
    while a < function.aliases.len()
        invariant
            k < functions@.len(),
            fs == functions@,
            f == fs[k as int],
            *function == f,
            a <= f.aliases@.len(),
            names.wf(),
            aliases_check(fs, k as int, a as int) is Ok,
            forall|x: Seq<char>|
                #[trigger] names@.dom().contains(x) == (name_taken(fs, k as int, x) || canonical_name(f.name@)
                    == x || alias_before(f, a as int, x)),
        decreases f.aliases@.len() - a,
    {
        let alias = &function.aliases[a];
        proof {
            lemma_first_alias_error(fs, k as int, a as int, f.aliases@.len() as int);
        }
        let canonical = match normalize_custom_fn_name(alias) {
            Ok(name) => name,
            Err(e) => {
                return Err(e);
            },
        };
        if !note_text(names, canonical) {
            return Err(value_error_with("Duplicate WASM function alias: ", alias));
        }
        proof {
            assert forall|x: Seq<char>| #[trigger]
                alias_before(f, a + 1, x) == (alias_before(f, a as int, x) || canonical_name(
                    alias@,
                ) == x) by {
                assert(canonical_name(f.aliases@[a as int]@) == canonical_name(alias@));
                if alias_before(f, a as int, x) {
                    let j = choose|j: int|
                        0 <= j < a && #[trigger] canonical_name(f.aliases@[j]@) == x;
                    assert(canonical_name(f.aliases@[j]@) == x);
                }
            }
        }
        a += 1;
    }
    proof {
        assert forall|x: Seq<char>| names@.dom().contains(x) == name_taken(fs, k + 1, x) by {
            assert(goes_by(fs[k as int], x) == (canonical_name(f.name@) == x || alias_before(
                f,
                f.aliases@.len() as int,
                x,
            )));
            if name_taken(fs, k as int, x) {
                let j = choose|j: int| 0 <= j < k && goes_by(#[trigger] fs[j], x);
                assert(goes_by(fs[j], x));
            }
        }
    }
    Ok(())
}

/// The names of a function in order: its own at position zero, then its aliases.
pub open spec fn label(f: WasmManifestFunction, i: int) -> Seq<char> {
    if i == 0 {
        f.name@
    } else {
        f.aliases@[i - 1]@
    }
}

/// Whether `fs[k]` has a name at position `i`.
pub open spec fn has_label(fs: Seq<WasmManifestFunction>, k: int, i: int) -> bool {
    0 <= k < fs.len() && 0 <= i <= fs[k].aliases@.len()
}

/// What makes the functions of a manifest valid, whatever their order.
pub open spec fn valid_functions(fs: Seq<WasmManifestFunction>) -> bool {
    &&& forall|k: int, l: int|
        0 <= k < fs.len() && 0 <= l < fs.len() && k != l ==> (#[trigger] fs[k]).id
            != (#[trigger] fs[l]).id && fs[k].export_name@ != fs[l].export_name@
    &&& forall|k: int|
        0 <= k < fs.len() ==> trimmed((#[trigger] fs[k]).export_name@).len() > 0 && !arity_inverted(
            fs[k].min_args,
            fs[k].max_args,
        )
    &&& forall|k: int, i: int| #[trigger]
        has_label(fs, k, i) ==> trimmed(label(fs[k], i)).len() > 0
    &&& forall|k: int, i: int, l: int, j: int| #[trigger]
        has_label(fs, k, i) && #[trigger] has_label(fs, l, j) && (k != l || i != j)
            ==> canonical_name(label(fs[k], i)) != canonical_name(label(fs[l], j))
}

/// What makes a manifest valid.
pub open spec fn valid_manifest(m: WasmModuleManifest) -> bool {
    &&& m.schema@ == WASM_MANIFEST_SCHEMA_V1@
    &&& trimmed(m.module.id@) == m.module.id@
    &&& m.module.id@.len() > 0
    &&& trimmed(m.module.version@).len() > 0
    &&& m.module.abi == WASM_ABI_VERSION_V1
    &&& m.module.codec == WASM_CODEC_VERSION_V1
    &&& m.functions@.len() > 0
    &&& valid_functions(m.functions@)
}

proof fn lemma_taken_label(fs: Seq<WasmManifestFunction>, n: int, name: Seq<char>)
    requires
        0 <= n <= fs.len(),
    ensures
        name_taken(fs, n, name) <==> exists|l: int, j: int| #[trigger]
            has_label(fs, l, j) && l < n && canonical_name(label(fs[l], j)) == name,
{
    if name_taken(fs, n, name) {
        let l = choose|l: int| 0 <= l < n && goes_by(#[trigger] fs[l], name);
        if canonical_name(fs[l].name@) == name {
            assert(has_label(fs, l, 0));
        } else {
            let j = choose|j: int|
                0 <= j < fs[l].aliases@.len() && #[trigger] canonical_name(fs[l].aliases@[j]@)
                    == name;
            assert(has_label(fs, l, j + 1));
        }
    }
    if exists|l: int, j: int| #[trigger]
        has_label(fs, l, j) && l < n && canonical_name(label(fs[l], j)) == name {
        let (l, j) = choose|l: int, j: int| #[trigger]
            has_label(fs, l, j) && l < n && canonical_name(label(fs[l], j)) == name;
        if j > 0 {
            assert(canonical_name(fs[l].aliases@[j - 1]@) == name);
        }
        assert(goes_by(fs[l], name));
    }
}

/// Whether the names of function `k` up to position `n` are no blank ones and
/// differ from one another and from those of earlier functions.
spec fn labels_fresh(fs: Seq<WasmManifestFunction>, k: int, n: int) -> bool {
    forall|i: int| #[trigger]
        has_label(fs, k, i) && i <= n ==> trimmed(label(fs[k], i)).len() > 0 && (forall|
            l: int,
            j: int,
        | #[trigger]
            has_label(fs, l, j) && (l < k || (l == k && j < i)) ==> canonical_name(
                label(fs[l], j),
            ) != canonical_name(label(fs[k], i)))
}

proof fn lemma_aliases_ok(fs: Seq<WasmManifestFunction>, k: int, n: int)
    requires
        0 <= k < fs.len(),
        0 <= n <= fs[k].aliases@.len(),
        labels_fresh(fs, k, 0),
    ensures
        aliases_check(fs, k, n) is Ok <==> labels_fresh(fs, k, n),
    decreases n,
{
    if n > 0 {
        lemma_aliases_ok(fs, k, n - 1);
        let name = canonical_name(label(fs[k], n));
        lemma_taken_label(fs, k, name);
        assert(has_label(fs, k, n));
        if aliases_check(fs, k, n) is Ok {
            assert forall|l: int, j: int| #[trigger]
                has_label(fs, l, j) && (l < k || (l == k && j < n)) implies canonical_name(
                label(fs[l], j),
            ) != name by {
                if l == k && j > 0 {
                    assert(canonical_name(fs[k].aliases@[j - 1]@) == canonical_name(
                        label(fs[l], j),
                    ));
                }
            }
        }
        if labels_fresh(fs, k, n) {
            assert(has_label(fs, k, 0));
            if alias_before(fs[k], n - 1, name) {
                let j = choose|j: int|
                    0 <= j < n - 1 && #[trigger] canonical_name(fs[k].aliases@[j]@) == name;
                assert(has_label(fs, k, j + 1));
            }
        }
    }
}

/// Whether function `k` is valid beside those before it.
spec fn fresh_function(fs: Seq<WasmManifestFunction>, k: int) -> bool {
    &&& !id_taken(fs, k, fs[k].id)
    &&& !export_taken(fs, k, fs[k].export_name@)
    &&& trimmed(fs[k].export_name@).len() > 0
    &&& !arity_inverted(fs[k].min_args, fs[k].max_args)
    &&& labels_fresh(fs, k, fs[k].aliases@.len() as int)
}

proof fn lemma_function_ok(fs: Seq<WasmManifestFunction>, k: int)
    requires
        0 <= k < fs.len(),
    ensures
        function_check(fs, k) is Ok <==> fresh_function(fs, k),
{
    let n = fs[k].aliases@.len() as int;
    assert(has_label(fs, k, 0));
    lemma_taken_label(fs, k, canonical_name(fs[k].name@));
    if function_check(fs, k) is Ok || labels_fresh(fs, k, n) {
        assert(labels_fresh(fs, k, 0));
        lemma_aliases_ok(fs, k, n);
    }
}

proof fn lemma_functions_ok(fs: Seq<WasmManifestFunction>, n: int)
    requires
        0 <= n <= fs.len(),
    ensures
        functions_check(fs, n) is Ok <==> forall|k: int|
            0 <= k < n ==> #[trigger] fresh_function(fs, k),
    decreases n,
{
    if n > 0 {
        lemma_functions_ok(fs, n - 1);
        lemma_function_ok(fs, n - 1);
    }
}

/// A manifest is accepted exactly when it is valid: among other things no two
/// functions share an id or an export, and no two names or aliases are the same
/// but for ASCII case and surrounding white space.
pub proof fn law_manifest_accepted_iff_valid(m: WasmModuleManifest)
    ensures
        manifest_check(m) is Ok <==> valid_manifest(m),
{
    let fs = m.functions@;
    lemma_functions_ok(fs, fs.len() as int);
    if functions_check(fs, fs.len() as int) is Ok {
        assert forall|k: int, l: int|
            0 <= k < fs.len() && 0 <= l < fs.len() && k != l implies (#[trigger] fs[k]).id
            != (#[trigger] fs[l]).id && fs[k].export_name@ != fs[l].export_name@ by {
            assert(fresh_function(fs, k));
            assert(fresh_function(fs, l));
        }
        assert forall|k: int| 0 <= k < fs.len() implies trimmed(
            (#[trigger] fs[k]).export_name@,
        ).len() > 0 && !arity_inverted(fs[k].min_args, fs[k].max_args) by {
            assert(fresh_function(fs, k));
        }
        assert forall|k: int, i: int| #[trigger] has_label(fs, k, i) implies trimmed(
            label(fs[k], i),
        ).len() > 0 by {
            assert(fresh_function(fs, k));
        }
        assert forall|k: int, i: int, l: int, j: int| #[trigger]
            has_label(fs, k, i) && #[trigger] has_label(fs, l, j) && (k != l || i
                != j) implies canonical_name(label(fs[k], i)) != canonical_name(
            label(fs[l], j),
        ) by {
            assert(fresh_function(fs, k));
            assert(fresh_function(fs, l));
        }
    }
    if valid_functions(fs) {
        assert forall|k: int| 0 <= k < fs.len() implies #[trigger] fresh_function(fs, k) by {
            assert(fs[k] == fs[k]);
        }
    }
}

} // verus!
