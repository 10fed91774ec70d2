//! What formulas of a workbook find outside the engine: its functions, and nothing else.

use crate::error::{error_of, excel_view, ErrorView, ExcelError, ExcelErrorExtra, ExcelErrorKind};
use crate::registry::{FunctionRegistry, RegisteredCustomFn};
use crate::value::LiteralValue;
use std::sync::Arc;
use vstd::prelude::*;
use vstd::string::*;

verus! {

/// The bare error of code `kind`.
pub open spec fn bare_error(kind: ExcelErrorKind) -> ErrorView {
    ErrorView { kind, message: None, context: None, extra: ExcelErrorExtra::Nothing }
}

/// A function that a formula names.
pub enum FoundFunction<'a, H, R, G> {
    /// One of the workbook's own.
    Own(&'a RegisteredCustomFn<H, R>),
    /// One that every workbook knows.
    Global(G),
}

/// Resolves what formulas refer to. Cells, ranges, names and tables are the engine's
/// own matter; functions of the workbook come before those known to every workbook. It
/// holds the functions as they stand when it is made: the engine gets another one whenever
/// they change.
pub struct WBResolver<H, R> {
    functions: Arc<FunctionRegistry<H, R>>,
}

impl<H, R> WBResolver<H, R> {
    /// The functions of the workbook.
    pub closed spec fn functions(&self) -> FunctionRegistry<H, R> {
        *self.functions
    }

    #[verifier::type_invariant]
    spec fn sound(self) -> bool {
        self.functions.wf()
    }

    /// A resolver for the functions `functions`.
    pub fn new(functions: Arc<FunctionRegistry<H, R>>) -> (r: WBResolver<H, R>)
        requires
            functions.wf(),
        ensures
            r.functions() == *functions,
    {
        WBResolver { functions }
    }

    /// Cells are resolved by the engine.
    pub fn resolve_cell_reference(&self, _sheet: Option<&str>, _row: u32, _col: u32) -> (r: Result<
        LiteralValue,
        ExcelError,
    >)
        ensures
            excel_view(r) == Err::<LiteralValue, ErrorView>(bare_error(ExcelErrorKind::NImpl)),
    {
        Err(ExcelError::new(ExcelErrorKind::NImpl))
    }

    /// Ranges are resolved by the engine.
    pub fn resolve_range_reference(
        &self,
        _sheet: Option<&str>,
        _start: (Option<u32>, Option<u32>),
        _end: (Option<u32>, Option<u32>),
    ) -> (r: Result<Vec<Vec<LiteralValue>>, ExcelError>)
        ensures
            excel_view(r) == Err::<Vec<Vec<LiteralValue>>, ErrorView>(
                bare_error(ExcelErrorKind::NImpl),
            ),
    {
        Err(ExcelError::new(ExcelErrorKind::NImpl))
    }

    /// A name that the engine does not know is undefined.
    pub fn resolve_named_range_reference(&self, name: &str) -> (r: Result<
        Vec<Vec<LiteralValue>>,
        ExcelError,
    >)
        ensures
            excel_view(r) == Err::<Vec<Vec<LiteralValue>>, ErrorView>(
                error_of(ExcelErrorKind::Name, "Undefined name: "@ + name@),
            ),
    {
        let mut text = "Undefined name: ".to_owned();
        text.append(name);
        Err(ExcelError::new(ExcelErrorKind::Name).with_message(text))
    }

    /// Tables are resolved by the engine.
    pub fn resolve_table_reference(&self, _table: &str) -> (r: Result<
        Vec<Vec<LiteralValue>>,
        ExcelError,
    >)
        ensures
            excel_view(r) == Err::<Vec<Vec<LiteralValue>>, ErrorView>(
                bare_error(ExcelErrorKind::NImpl),
            ),
    {
        Err(ExcelError::new(ExcelErrorKind::NImpl))
    }

    /// The function that `name` means in the namespace `ns`, where `global` is what the
    /// registry known to every workbook answers for them: the workbook's own function
    /// where it has one, which only the empty namespace holds, else `global`.
    pub fn get_function<G>(&self, ns: &str, name: &str, global: Option<G>) -> (r: Option<
        FoundFunction<'_, H, R, G>,
    >)
        ensures
            match self.functions().meant(ns@, name@) {
                Some(own) => r matches Some(FoundFunction::Own(entry)) && *entry == own,
                None => match global {
                    Some(g) => r matches Some(FoundFunction::Global(found)) && found == g,
                    None => r is None,
                },
            },
    {
        proof {
            use_type_invariant(self);
        }
        match self.functions.find(ns, name) {
            Some(entry) => Some(FoundFunction::Own(entry)),
            None => match global {
                Some(g) => Some(FoundFunction::Global(g)),
                None => None,
            },
        }
    }
}

impl<H, R> Default for WBResolver<H, R> {
    /// A resolver without functions.
    fn default() -> (r: WBResolver<H, R>)
        ensures
            r.functions().functions() == Map::<Seq<char>, RegisteredCustomFn<H, R>>::empty(),
    {
        WBResolver::new(Arc::new(FunctionRegistry::new()))
    }
}

} // verus!
