//! The functions of a workbook: those of the caller's own code, and those bound to
//! WASM modules.

use crate::error::{error_of, excel_view, ErrorView, ExcelError, ExcelErrorKind};
use crate::function::{
    arity_check, caps_of, canonical_name, call_result, fnv_hash, function_caps, finish_call,
    normalize_custom_fn_name, normalized_name, prepare_call, prepared, stable_fn_salt,
    CallArguments, CallOutcome, CustomFnInfo, CustomFnOptions, FunctionCaps,
};
use crate::manifest::WasmRuntimeHint;
use crate::runtime::RuntimeSlot;
use crate::text::ascii_upper;
use crate::text_map::{ascending, map_of, TextMap};
use crate::value::LiteralValue;
use crate::wasm::WasmUdfRuntime;
use std::sync::Arc;
use vstd::prelude::*;
use vstd::string::*;
use vstd::utf8::*;

verus! {

/// The caller's code behind a custom function.
pub trait CustomFnHandler: Send + Sync {
    /// The result for the arguments `args`.
    fn call(&self, args: &[LiteralValue]) -> Result<LiteralValue, ExcelError>;

    /// The results for many rows of arguments at once, where that is supported.
    fn call_batch(&self, _rows: &[Vec<LiteralValue>]) -> (r: Option<
        Result<LiteralValue, ExcelError>,
    >)
        default_ensures
            r is None,
    {
        None
    }
}

/// A function of the caller's own code.
pub struct WorkbookCustomFunction<H> {
    pub canonical_name: String,
    pub options: CustomFnOptions,
    pub handler: Arc<H>,
}

/// A function bound to an export of a WASM module.
pub struct WorkbookWasmFunction<R> {
    pub canonical_name: String,
    pub options: CustomFnOptions,
    pub module_id: String,
    pub export_name: String,
    pub codec_version: u32,
    pub runtime_hint: Option<WasmRuntimeHint>,
    pub runtime: RuntimeSlot<R>,
}

/// A function of a workbook.
pub enum WorkbookFunction<H, R> {
    Custom(WorkbookCustomFunction<H>),
    Wasm(WorkbookWasmFunction<R>),
}

impl<H, R> WorkbookFunction<H, R> {
    /// The name under which the function is registered.
    pub open spec fn name_text(&self) -> Seq<char> {
        match self {
            WorkbookFunction::Custom(f) => f.canonical_name@,
            WorkbookFunction::Wasm(f) => f.canonical_name@,
        }
    }

    /// The options of the function.
    pub open spec fn options_of(&self) -> CustomFnOptions {
        match self {
            WorkbookFunction::Custom(f) => f.options,
            WorkbookFunction::Wasm(f) => f.options,
        }
    }

    /// What is said where the code behind the function panics.
    pub open spec fn panic_text(&self) -> Seq<char> {
        match self {
            WorkbookFunction::Custom(_) => "Custom function callback panicked"@,
            WorkbookFunction::Wasm(_) => "WASM function runtime panicked"@,
        }
    }

    /// How the results of the function may be cached.
    pub fn caps(&self) -> (r: FunctionCaps)
        ensures
            r == caps_of(self.options_of()),
    {
        match self {
            WorkbookFunction::Custom(f) => function_caps(&f.options),
            WorkbookFunction::Wasm(f) => function_caps(&f.options),
        }
    }

    /// The name under which the engine reports the function.
    pub fn name(&self) -> (r: &'static str)
        ensures
            r@ == match self {
                WorkbookFunction::Custom(_) => "__WORKBOOK_CUSTOM__"@,
                WorkbookFunction::Wasm(_) => "__WORKBOOK_WASM__"@,
            },
    {
        match self {
            WorkbookFunction::Custom(_) => "__WORKBOOK_CUSTOM__",
            WorkbookFunction::Wasm(_) => "__WORKBOOK_WASM__",
        }
    }

    /// The salt that tells the function from others.
    pub fn function_salt(&self) -> (r: u64)
        ensures
            r == fnv_hash(encode_utf8(self.name_text())),
    {
        match self {
            WorkbookFunction::Custom(f) => stable_fn_salt(&f.canonical_name),
            WorkbookFunction::Wasm(f) => stable_fn_salt(&f.canonical_name),
        }
    }

    /// The first step of a call: the arguments, checked and evaluated.
    pub fn prepare<A: CallArguments>(&self, args: &A) -> (r: Result<Vec<LiteralValue>, ExcelError>)
        ensures
            exists|count: usize| #[trigger]
                call_ensures(A::count, (args,), count) && prepared(
                    *args,
                    self.name_text(),
                    self.options_of(),
                    count,
                    r,
                ),
    {
        match self {
            WorkbookFunction::Custom(f) => prepare_call(&f.canonical_name, &f.options, args),
            WorkbookFunction::Wasm(f) => prepare_call(&f.canonical_name, &f.options, args),
        }
    }

    /// The last step of a call: its result, from how the code behind it came back.
    pub fn finish(&self, outcome: CallOutcome) -> (r: Result<LiteralValue, ExcelError>)
        ensures
            excel_view(r) == call_result(outcome, self.panic_text()),
    {
        match self {
            WorkbookFunction::Custom(_) => finish_call(
                outcome,
                "Custom function callback panicked",
            ),
            WorkbookFunction::Wasm(_) => finish_call(outcome, "WASM function runtime panicked"),
        }
    }
}

impl<H: CustomFnHandler, R: WasmUdfRuntime> WorkbookFunction<H, R> {
    /// Whether the code behind the function answered `r` for `args`.
    pub open spec fn answers(
        &self,
        args: &[LiteralValue],
        r: Result<LiteralValue, ExcelError>,
    ) -> bool {
        match self {
            WorkbookFunction::Custom(f) => call_ensures(H::call, (&*f.handler, args), r),
            WorkbookFunction::Wasm(f) => f.runtime.invokes(
                f.module_id@,
                f.export_name@,
                f.canonical_name@,
                f.codec_version,
                args,
                f.runtime_hint,
                r,
            ),
        }
    }

    /// The middle step of a call: the code behind the function, which may panic.
    pub fn invoke(&self, args: &[LiteralValue]) -> (r: Result<LiteralValue, ExcelError>)
        ensures
            self.answers(args, r),
    {
        match self {
            WorkbookFunction::Custom(f) => f.handler.call(args),
            WorkbookFunction::Wasm(f) => f.runtime.invoke(
                &f.module_id,
                &f.export_name,
                &f.canonical_name,
                f.codec_version,
                args,
                &f.runtime_hint,
            ),
        }
    }
}

/// A registered function with what is listed of it.
pub struct RegisteredCustomFn<H, R> {
    pub info: CustomFnInfo,
    pub function: WorkbookFunction<H, R>,
}

impl<H, R: WasmUdfRuntime> RegisteredCustomFn<H, R> {
    /// A second hold on the same function.
    pub fn share(&self) -> (r: RegisteredCustomFn<H, R>)
        ensures
            r == *self,
    {
        let info = CustomFnInfo { name: self.info.name.clone(), options: self.info.options };
        let function = match &self.function {
            WorkbookFunction::Custom(f) => WorkbookFunction::Custom(
                WorkbookCustomFunction {
                    canonical_name: f.canonical_name.clone(),
                    options: f.options,
                    handler: f.handler.clone(),
                },
            ),
            WorkbookFunction::Wasm(f) => WorkbookFunction::Wasm(
                WorkbookWasmFunction {
                    canonical_name: f.canonical_name.clone(),
                    options: f.options,
                    module_id: f.module_id.clone(),
                    export_name: f.export_name.clone(),
                    codec_version: f.codec_version,
                    runtime_hint: f.runtime_hint,
                    runtime: f.runtime.share(),
                },
            ),
        };
        RegisteredCustomFn { info, function }
    }
}

/// Whether `entry` is a sound entry under the name `name`.
pub open spec fn sound_entry<H, R>(name: Seq<char>, entry: RegisteredCustomFn<H, R>) -> bool {
    &&& normalized_name(name) == Ok::<Seq<char>, ErrorView>(name)
    &&& entry.info.name@ == name
    &&& entry.function.name_text() == name
    &&& entry.function.options_of() == entry.info.options
    &&& arity_check(name, entry.info.options) is Ok
}

/// What is said of a name that is taken.
pub open spec fn function_taken_message(name: Seq<char>) -> Seq<char> {
    "Custom function "@ + name + " is already registered"@
}

/// What is said of a name that is unknown.
pub open spec fn function_unknown_message(name: Seq<char>) -> Seq<char> {
    "Custom function "@ + name + " is not registered"@
}

/// What is said of a name that every workbook knows.
pub open spec fn function_conflict_message(name: Seq<char>) -> Seq<char> {
    "Custom function "@ + name
        + " conflicts with a global function; set allow_override_builtin=true to override"@
}

/// The name error about the custom function `name` that ends in `rest`.
pub fn function_error(name: &str, rest: &str) -> (e: ExcelError)
    ensures
        e@ == error_of(ExcelErrorKind::Name, "Custom function "@ + name@ + rest@),
{
    let mut text = "Custom function ".to_owned();
    text.append(name);
    text.append(rest);
    ExcelError::new(ExcelErrorKind::Name).with_message(text)
}

/// The functions of a workbook by name.
pub struct FunctionRegistry<H, R> {
    functions: TextMap<RegisteredCustomFn<H, R>>,
}

impl<H, R> FunctionRegistry<H, R> {
    /// The functions by name.
    pub closed spec fn functions(&self) -> Map<Seq<char>, RegisteredCustomFn<H, R>> {
        self.functions@
    }

    /// The functions in ascending order of their names.
    pub closed spec fn entries(&self) -> Seq<(Seq<char>, RegisteredCustomFn<H, R>)> {
        self.functions.entries()
    }

    /// The function that a formula means by `name` in the namespace `ns`: only the empty
    /// one holds functions of the workbook, and case is ignored.
    pub open spec fn meant(&self, ns: Seq<char>, name: Seq<char>) -> Option<
        RegisteredCustomFn<H, R>,
    > {
        if ns.len() == 0 && self.functions().dom().contains(ascii_upper(name)) {
            Some(self.functions()[ascii_upper(name)])
        } else {
            None
        }
    }

    /// Each entry is sound, and the names ascend.
    pub closed spec fn wf(&self) -> bool {
        &&& self.functions.wf()
        &&& forall|name: Seq<char>| #[trigger]
            self.functions@.dom().contains(name) ==> sound_entry(name, self.functions@[name])
    }

    /// What well-formedness gives.
    pub proof fn lemma_wf(&self)
        requires
            self.wf(),
        ensures
            ascending(self.entries()),
            self.functions() == map_of(self.entries()),
            forall|name: Seq<char>| #[trigger]
                self.functions().dom().contains(name) ==> sound_entry(
                    name,
                    self.functions()[name],
                ),
    {
    }

    /// No function.
    pub fn new() -> (r: FunctionRegistry<H, R>)
        ensures
            r.wf(),
            r.functions() == Map::<Seq<char>, RegisteredCustomFn<H, R>>::empty(),
    {
        FunctionRegistry { functions: TextMap::new() }
    }

    /// Whether a function is called `name`.
    pub fn contains(&self, name: &str) -> (r: bool)
        requires
            self.wf(),
        ensures
            r == self.functions().dom().contains(name@),
    {
        self.functions.contains_key(name)
    }

    /// See [`FunctionRegistry::meant`].
    pub fn find(&self, ns: &str, name: &str) -> (r: Option<&RegisteredCustomFn<H, R>>)
        requires
            self.wf(),
        ensures
            match r {
                Some(entry) => self.meant(ns@, name@) == Some(*entry),
                None => self.meant(ns@, name@) is None,
            },
    {
        if ns.is_empty() {
            let key = name.to_ascii_uppercase();
            self.functions.get(&key)
        } else {
            None
        }
    }

    /// Adds a function.
    pub fn insert(&mut self, name: String, entry: RegisteredCustomFn<H, R>)
        requires
            old(self).wf(),
            sound_entry(name@, entry),
        ensures
            final(self).wf(),
            final(self).functions() == old(self).functions().insert(name@, entry),
    {
        self.functions.insert(name, entry);
    }

    /// What the removal of the function `name` comes to.
    pub open spec fn removal(
        functions: Map<Seq<char>, RegisteredCustomFn<H, R>>,
        name: Seq<char>,
    ) -> Result<Map<Seq<char>, RegisteredCustomFn<H, R>>, ErrorView> {
        match normalized_name(name) {
            Err(e) => Err(e),
            Ok(canonical) => if functions.dom().contains(canonical) {
                Ok(functions.remove(canonical))
            } else {
                Err(error_of(ExcelErrorKind::Name, function_unknown_message(canonical)))
            },
        }
    }

    /// Removes the function `name`, case and surrounding white space ignored.
    pub fn unregister(&mut self, name: &str) -> (r: Result<(), ExcelError>)
        requires
            old(self).wf(),
        ensures
            final(self).wf(),
            match Self::removal(old(self).functions(), name@) {
                Ok(functions) => r is Ok && final(self).functions() == functions,
                Err(e) => r is Err && r->Err_0@ == e && final(self).functions()
                    == old(self).functions(),
            },
    {
        let canonical = match normalize_custom_fn_name(name) {
            Ok(canonical) => canonical,
            Err(e) => {
                return Err(e);
            },
        };
        if self.functions.remove(&canonical).is_none() {
            return Err(function_error(&canonical, " is not registered"));
        }
        Ok(())
    }

    /// What is known of the functions, in ascending order of their names.
    pub fn list(&self) -> (r: Vec<CustomFnInfo>)
        requires
            self.wf(),
        ensures
            r@.len() == self.entries().len(),
            forall|i: int| 0 <= i < r@.len() ==> (#[trigger] r@[i]) == self.entries()[i].1.info,
            ascending(self.entries()),
            self.functions() == map_of(self.entries()),
    {
        let mut infos: Vec<CustomFnInfo> = Vec::new();
        let mut i: usize = 0;
        while i < self.functions.len()
            invariant
                i <= self.functions.entries().len(),
                infos@.len() == i,
                forall|j: int|
                    0 <= j < i ==> (#[trigger] infos@[j]) == self.functions.entries()[j].1.info,
            decreases self.functions.entries().len() - i,
        {
            let registered = self.functions.value(i);
            infos.push(
                CustomFnInfo {
                    name: registered.info.name.clone(),
                    options: registered.info.options,
                },
            );
            i += 1;
        }
        infos
    }
}

impl<H, R: WasmUdfRuntime> FunctionRegistry<H, R> {
    /// The same functions once more.
    pub fn copied(&self) -> (r: FunctionRegistry<H, R>)
        requires
            self.wf(),
        ensures
            r.wf(),
            r.functions() == self.functions(),
            r.entries() == self.entries(),
    {
        let mut functions: TextMap<RegisteredCustomFn<H, R>> = TextMap::new();
        let mut i: usize = 0;
        while i < self.functions.len()
            invariant
                self.wf(),
                functions.wf(),
                i <= self.functions.entries().len(),
                functions.entries() == self.functions.entries().take(i as int),
            decreases self.functions.entries().len() - i,
        {
            functions.push(self.functions.key(i).clone(), self.functions.value(i).share());
            assert(functions.entries() =~= self.functions.entries().take(i + 1));
            i += 1;
        }
        assert(functions.entries() =~= self.functions.entries());
        assert(functions@ == self.functions@);
        FunctionRegistry { functions }
    }
}

} // verus!
