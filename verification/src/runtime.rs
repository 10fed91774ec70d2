//! The runtime that runs the WASM modules of a workbook, and the record of the modules
//! that it was shown and asked to let go of.

use crate::error::{error_of, excel_view, ErrorView, ExcelError, ExcelErrorKind};
use crate::manifest::{WasmModuleManifest, WasmRuntimeHint};
use crate::value::LiteralValue;
use crate::wasm::{pending_message, PendingWasmRuntime, WasmUdfRuntime};
use std::sync::Arc;
use vstd::prelude::*;

verus! {

/// A hint by value.
pub open spec fn hint_of(hint: Option<&WasmRuntimeHint>) -> Option<WasmRuntimeHint> {
    match hint {
        Some(h) => Some(*h),
        None => None,
    }
}

/// The runtime of a workbook: one that was installed, or else the one that stands in.
pub struct RuntimeSlot<R> {
    installed: Option<Arc<R>>,
}

impl<R: WasmUdfRuntime> RuntimeSlot<R> {
    /// The runtime, where one was installed.
    pub closed spec fn installed(self) -> Option<Arc<R>> {
        self.installed
    }

    /// A second hold on the same runtime.
    pub fn share(&self) -> (r: RuntimeSlot<R>)
        ensures
            r == *self,
    {
        match &self.installed {
            None => RuntimeSlot { installed: None },
            Some(rt) => RuntimeSlot { installed: Some(rt.clone()) },
        }
    }

    /// Whether the runtime answered `r` when asked to bind functions.
    pub open spec fn binds(self, r: bool) -> bool {
        match self.installed() {
            None => !r,
            Some(rt) => call_ensures(R::can_bind_functions, (&*rt,), r),
        }
    }

    /// Whether the runtime answered `r` when shown the module.
    pub open spec fn validates(
        self,
        module_id: Seq<char>,
        wasm_bytes: &[u8],
        manifest: WasmModuleManifest,
        r: Result<(), ExcelError>,
    ) -> bool {
        match self.installed() {
            None => r is Ok,
            Some(rt) => exists|id: &str| id@ == module_id && #[trigger]
                call_ensures(R::validate_module, (&*rt, id, wasm_bytes, &manifest), r),
        }
    }

    /// Whether the runtime answered `r` when asked to let go of the module.
    pub open spec fn releases(self, module_id: Seq<char>, r: Result<(), ExcelError>) -> bool {
        match self.installed() {
            None => r is Ok,
            Some(rt) => exists|id: &str| id@ == module_id && #[trigger]
                call_ensures(R::unregister_module, (&*rt, id), r),
        }
    }

    /// Whether the runtime answered `r` when an export was called.
    pub open spec fn invokes(
        self,
        module_id: Seq<char>,
        export_name: Seq<char>,
        function_name: Seq<char>,
        codec_version: u32,
        args: &[LiteralValue],
        runtime_hint: Option<WasmRuntimeHint>,
        r: Result<LiteralValue, ExcelError>,
    ) -> bool {
        match self.installed() {
            None => excel_view(r) == Err::<LiteralValue, ErrorView>(
                error_of(
                    ExcelErrorKind::NImpl,
                    pending_message(function_name, module_id, export_name, codec_version),
                ),
            ),
            Some(rt) => exists|
                id: &str,
                export: &str,
                name: &str,
                hint: Option<&WasmRuntimeHint>,
            |
                id@ == module_id && export@ == export_name && name@ == function_name && hint_of(
                    hint,
                ) == runtime_hint && #[trigger] call_ensures(
                    R::invoke,
                    (&*rt, id, export, name, codec_version, args, hint),
                    r,
                ),
        }
    }

    /// Calls an export of a module, see [`RuntimeSlot::invokes`].
    pub fn invoke(
        &self,
        module_id: &str,
        export_name: &str,
        function_name: &str,
        codec_version: u32,
        args: &[LiteralValue],
        runtime_hint: &Option<WasmRuntimeHint>,
    ) -> (r: Result<LiteralValue, ExcelError>)
        ensures
            self.invokes(
                module_id@,
                export_name@,
                function_name@,
                codec_version,
                args,
                *runtime_hint,
                r,
            ),
    {
        let hint = match runtime_hint {
            Some(hint) => Some(hint),
            None => None,
        };
        match &self.installed {
            None => PendingWasmRuntime.invoke(
                module_id,
                export_name,
                function_name,
                codec_version,
                args,
                hint,
            ),
            Some(rt) => {
                let r = rt.invoke(
                    module_id,
                    export_name,
                    function_name,
                    codec_version,
                    args,
                    hint,
                );
                assert(hint_of(hint) == *runtime_hint);
                r
            },
        }
    }

    /// Whether functions can be bound now.
    pub fn can_bind_functions(&self) -> (r: bool)
        ensures
            self.binds(r),
    {
        match &self.installed {
            None => PendingWasmRuntime.can_bind_functions(),
            Some(rt) => rt.can_bind_functions(),
        }
    }

    fn validate_module(
        &self,
        module_id: &str,
        wasm_bytes: &[u8],
        manifest: &WasmModuleManifest,
    ) -> (r: Result<(), ExcelError>)
        ensures
            self.validates(module_id@, wasm_bytes, *manifest, r),
    {
        match &self.installed {
            None => PendingWasmRuntime.validate_module(module_id, wasm_bytes, manifest),
            Some(rt) => rt.validate_module(module_id, wasm_bytes, manifest),
        }
    }

    fn unregister_module(&self, module_id: &str) -> (r: Result<(), ExcelError>)
        ensures
            self.releases(module_id@, r),
    {
        match &self.installed {
            None => PendingWasmRuntime.unregister_module(module_id),
            Some(rt) => rt.unregister_module(module_id),
        }
    }
}

/// A call that shows the runtime a module, or asks it to let go of one, with its answer.
pub enum RuntimeCall {
    Validate {
        module_id: Seq<char>,
        wasm_bytes: Seq<u8>,
        manifest: WasmModuleManifest,
        reply: Result<(), ExcelError>,
    },
    Unregister { module_id: Seq<char>, reply: Result<(), ExcelError> },
}

/// A runtime and the record of such calls.
pub struct RuntimeHost<R> {
    slot: RuntimeSlot<R>,
    calls: Ghost<Seq<RuntimeCall>>,
}

impl<R: WasmUdfRuntime> RuntimeHost<R> {
    /// The runtime.
    pub closed spec fn slot(&self) -> RuntimeSlot<R> {
        self.slot
    }

    /// The calls made so far, in order, of this runtime and of those before it.
    pub closed spec fn calls(&self) -> Seq<RuntimeCall> {
        self.calls@
    }

    /// No runtime, no call.
    pub fn new() -> (h: RuntimeHost<R>)
        ensures
            h.slot().installed() is None,
            h.calls() == Seq::<RuntimeCall>::empty(),
    {
        RuntimeHost { slot: RuntimeSlot { installed: None }, calls: Ghost(Seq::empty()) }
    }

    /// Installs a runtime.
    pub fn install(&mut self, runtime: Arc<R>)
        ensures
            final(self).slot().installed() == Some(runtime),
            final(self).calls() == old(self).calls(),
    {
        self.slot = RuntimeSlot { installed: Some(runtime) };
    }

    /// A hold on the runtime.
    pub fn share(&self) -> (r: RuntimeSlot<R>)
        ensures
            r == self.slot(),
    {
        self.slot.share()
    }

    /// Shows the runtime a module.
    pub fn validate_module(
        &mut self,
        module_id: &str,
        wasm_bytes: &[u8],
        manifest: &WasmModuleManifest,
    ) -> (r: Result<(), ExcelError>)
        ensures
            final(self).slot() == old(self).slot(),
            old(self).slot().validates(module_id@, wasm_bytes, *manifest, r),
            final(self).calls() == old(self).calls().push(
                RuntimeCall::Validate {
                    module_id: module_id@,
                    wasm_bytes: wasm_bytes@,
                    manifest: *manifest,
                    reply: r,
                },
            ),
    {
        let r = self.slot.validate_module(module_id, wasm_bytes, manifest);
        proof {
            self.calls@ = self.calls@.push(
                RuntimeCall::Validate {
                    module_id: module_id@,
                    wasm_bytes: wasm_bytes@,
                    manifest: *manifest,
                    reply: r,
                },
            );
        }
        r
    }

    /// Asks the runtime to let go of a module.
    pub fn unregister_module(&mut self, module_id: &str) -> (r: Result<(), ExcelError>)
        ensures
            final(self).slot() == old(self).slot(),
            old(self).slot().releases(module_id@, r),
            final(self).calls() == old(self).calls().push(
                RuntimeCall::Unregister { module_id: module_id@, reply: r },
            ),
    {
        let r = self.slot.unregister_module(module_id);
        proof {
            self.calls@ = self.calls@.push(
                RuntimeCall::Unregister { module_id: module_id@, reply: r },
            );
        }
        r
    }
}

} // verus!
