//! Laws on the functions of a workbook: their names, their registration and their calls.

use crate::config::EvalConfig;
use crate::engine::{flags_of, WorkbookEngine};
use crate::error::{ExcelError, ExcelErrorKind};
use crate::function::{
    normalize_custom_fn_name, normalized_name, prepared, validate_call_arity, validate_custom_arity,
    CallArguments, CallOutcome, CustomFnInfo, CustomFnOptions, FunctionCaps,
};
use crate::laws_values::comes_from;
use crate::laws_workbook::one_call;
use crate::manifest::normalize_wasm_module_id;
use crate::registry::{sound_entry, CustomFnHandler, RegisteredCustomFn, WorkbookFunction};
use crate::resolver::{FoundFunction, WBResolver};
use crate::text::{
    ascii_upper, bytes_before, decimal, is_white_space, lemma_text_irreflexive, order_of,
    push_decimal, text_before, trimmed, trimmed_end, trimmed_start, upper_char, TextOrder,
};
use crate::text_map::{ascending, has_key, key_position, map_of};
use crate::value::LiteralValue;
use crate::wasm::WasmUdfRuntime;
use crate::workbook::{global_is, Workbook};
use std::sync::Arc;
use vstd::prelude::*;
use vstd::utf8::encode_utf8;

verus! {

/// The number that decimal digits stand for.
pub open spec fn number_of(digits: Seq<char>) -> nat
    decreases digits.len(),
{
    if digits.len() == 0 {
        0
    } else {
        number_of(digits.drop_last()) * 10 + (digits.last() as u32 - '0' as u32) as nat
    }
}

/// The numeral of a number is made of digits, stands for the number, and does not start
/// with a zero but for zero itself.
pub proof fn law_numerals_stand_for_their_numbers(n: nat)
    ensures
        number_of(decimal(n)) == n,
        decimal(n).len() > 0,
        n > 0 ==> decimal(n)[0] != '0',
        forall|i: int| 0 <= i < decimal(n).len() ==> '0' <= #[trigger] decimal(n)[i] <= '9',
    decreases n,
{
    if n < 10 {
        assert(decimal(n).drop_last() =~= Seq::empty());
        assert(number_of(decimal(n).drop_last()) == 0);
    } else {
        law_numerals_stand_for_their_numbers(n / 10);
        assert(decimal(n).drop_last() =~= decimal(n / 10));
    }
}

/// A number is appended to a text as its numeral.
pub proof fn law_numbers_are_appended(n: u64)
    ensures
        forall|out: &mut String| #[trigger]
            call_ensures(push_decimal, (out, n), ()) ==> exists|digits: Seq<char>|
                (*final(out))@ == (*out)@ + digits && number_of(digits) == n && digits.len() > 0,
{
    law_numerals_stand_for_their_numbers(n as nat);
    assert forall|out: &mut String| #[trigger] call_ensures(push_decimal, (out, n), ()) implies
        exists|digits: Seq<char>|
        (*final(out))@ == (*out)@ + digits && number_of(digits) == n && digits.len() > 0 by {
        let digits = decimal(n as nat);
        assert((*final(out))@ == (*out)@ + digits);
        assert(number_of(digits) == n);
    }
}

/// Whether `u` is the character `c` with an ASCII letter in upper case.
pub open spec fn is_upper(c: char, u: char) -> bool {
    if 'a' <= c <= 'z' {
        u as int + 32 == c as int
    } else {
        u == c
    }
}

/// Whether `core` is what is left of `text` without white space on either side.
pub open spec fn is_core(text: Seq<char>, core: Seq<char>, at: int) -> bool {
    &&& 0 <= at
    &&& at + core.len() <= text.len()
    &&& core == text.subrange(at, at + core.len())
    &&& forall|i: int|
        0 <= i < text.len() && !(at <= i < at + core.len()) ==> is_white_space(#[trigger] text[i])
    &&& core.len() > 0 ==> !is_white_space(core.first()) && !is_white_space(core.last())
}

proof fn lemma_trim_start(s: Seq<char>) -> (at: int)
    ensures
        0 <= at <= s.len(),
        trimmed_start(s) == s.subrange(at, s.len() as int),
        forall|i: int| 0 <= i < at ==> is_white_space(#[trigger] s[i]),
        at < s.len() ==> !is_white_space(s[at]),
    decreases s.len(),
{
    if s.len() > 0 && is_white_space(s.first()) {
        let rest = s.drop_first();
        let at = lemma_trim_start(rest) + 1;
        assert(trimmed_start(s) =~= s.subrange(at, s.len() as int));
        assert forall|i: int| 0 <= i < at implies is_white_space(#[trigger] s[i]) by {
            if i > 0 {
                assert(s[i] == rest[i - 1]);
            }
        }
        at
    } else {
        assert(s.subrange(0, s.len() as int) =~= s);
        0
    }
}

proof fn lemma_trim_end(s: Seq<char>) -> (n: int)
    ensures
        0 <= n <= s.len(),
        trimmed_end(s) == s.subrange(0, n),
        forall|i: int| n <= i < s.len() ==> is_white_space(#[trigger] s[i]),
        n > 0 ==> !is_white_space(s[n - 1]),
    decreases s.len(),
{
    if s.len() > 0 && is_white_space(s.last()) {
        let rest = s.drop_last();
        let n = lemma_trim_end(rest);
        assert(trimmed_end(s) =~= s.subrange(0, n));
        assert forall|i: int| n <= i < s.len() implies is_white_space(#[trigger] s[i]) by {
            if i < rest.len() {
                assert(s[i] == rest[i]);
            }
        }
        n
    } else {
        assert(s.subrange(0, s.len() as int) =~= s);
        s.len() as int
    }
}

/// What is trimmed of a text is the white space on either side, and nothing else.
pub proof fn law_trimming_takes_white_space_only(text: Seq<char>) -> (at: int)
    ensures
        is_core(text, trimmed(text), at),
{
    let at = lemma_trim_start(text);
    let rest = trimmed_start(text);
    let n = lemma_trim_end(rest);
    let core = trimmed(text);
    assert(core =~= text.subrange(at, at + n));
    assert forall|i: int| 0 <= i < text.len() && !(at <= i < at + core.len()) implies
        is_white_space(#[trigger] text[i]) by {
        if i >= at {
            assert(text[i] == rest[i - at]);
        }
    }
    if n > 0 {
        assert(core.first() == text[at]);
        assert(core.last() == rest[n - 1]);
    }
    at
}

/// The name of a function is taken without white space on either side and with its ASCII
/// letters in upper case; one of white space only is refused as a name.
pub proof fn law_function_names_are_normalized(name: &str, r: Result<String, ExcelError>)
    requires
        call_ensures(normalize_custom_fn_name, (name,), r),
    ensures
        r is Err <==> forall|i: int| 0 <= i < name@.len() ==> is_white_space(#[trigger] name@[i]),
        r is Err ==> r->Err_0@.kind == ExcelErrorKind::Name && r->Err_0@.message
            == Some("Function name cannot be empty"@),
        r is Ok ==> exists|core: Seq<char>, at: int| #[trigger]
            is_core(name@, core, at) && is_name(core, (r->Ok_0)@),
{
    let at = law_trimming_takes_white_space_only(name@);
    let core = trimmed(name@);
    if r is Ok {
        assert(core.len() > 0);
        assert(is_core(name@, core, at));
        assert(is_white_space(name@[at]) == is_white_space(core.first()));
        assert(is_name(core, (r->Ok_0)@));
    } else {
        assert(core.len() == 0);
    }
}

/// Whether `upper` is `core` with its ASCII letters in upper case.
pub open spec fn is_name(core: Seq<char>, upper: Seq<char>) -> bool {
    &&& upper.len() == core.len()
    &&& forall|i: int| 0 <= i < core.len() ==> is_upper(core[i], #[trigger] upper[i])
}

/// The id of a module is taken without white space on either side, and otherwise as it is;
/// one of white space only is refused.
pub proof fn law_module_ids_are_trimmed(id: &str, r: Result<String, ExcelError>)
    requires
        call_ensures(normalize_wasm_module_id, (id,), r),
    ensures
        r is Err <==> forall|i: int| 0 <= i < id@.len() ==> is_white_space(#[trigger] id@[i]),
        r is Err ==> r->Err_0@.kind == ExcelErrorKind::Value && r->Err_0@.message
            == Some("WASM module_id cannot be empty"@),
        r is Ok ==> exists|at: int| #[trigger] is_core(id@, (r->Ok_0)@, at),
{
    let at = law_trimming_takes_white_space_only(id@);
    let core = trimmed(id@);
    if r is Ok {
        assert(is_core(id@, (r->Ok_0)@, at));
        assert(is_white_space(id@[at]) == is_white_space(core.first()));
    } else {
        assert(core.len() == 0);
    }
}

/// Bounds on the number of arguments are refused exactly where the upper one is below the
/// lower one.
pub proof fn law_bounds_must_be_in_order(
    name: &str,
    options: CustomFnOptions,
    r: Result<(), ExcelError>,
)
    requires
        call_ensures(validate_custom_arity, (name, &options), r),
    ensures
        r is Err <==> options.max_args is Some && options.max_args->0 < options.min_args,
        r is Err ==> r->Err_0@.kind == ExcelErrorKind::Value,
{
}

/// A function that is not told how it may be called takes any number of arguments, is
/// deterministic, not volatile, not safe across threads, and overrides nothing.
pub proof fn law_functions_are_deterministic_unless_told(options: CustomFnOptions)
    requires
        call_ensures(CustomFnOptions::default, (), options),
    ensures
        options.min_args == 0,
        options.max_args is None,
        !options.volatile,
        !options.thread_safe,
        options.deterministic,
        !options.allow_override_builtin,
{
}

/// Whether the engine says of every function called `name` that all workbooks have it, or
/// of none.
pub open spec fn all_have<E: WorkbookEngine>(engine: E, name: Seq<char>, global: bool) -> bool {
    forall|key: &str, r: bool| #[trigger]
        call_ensures(E::has_global_function, (&engine, key), r) && key@ == name ==> r == global
}

/// Whether nothing is left to be said against a function under the name `name`.
pub open spec fn welcome<H, R>(
    functions: Map<Seq<char>, RegisteredCustomFn<H, R>>,
    name: Seq<char>,
    options: CustomFnOptions,
    global: bool,
) -> bool {
    &&& !(options.max_args is Some && options.max_args->0 < options.min_args)
    &&& !functions.contains_key(name)
    &&& options.allow_override_builtin || !global
}

/// A function is registered exactly where its name is one, its bounds are in order, the
/// name is free in the workbook, and no function of all workbooks has it or it may be
/// overridden. It is then held under its name with its options and its code, beside the
/// others as they were, and the engine is told of all of them. A refusal changes nothing.
pub proof fn law_functions_are_registered<E: WorkbookEngine>(
    name: &str,
    canonical: String,
    options: CustomFnOptions,
    handler: Arc<E::Handler>,
    r: Result<(), ExcelError>,
    global: bool,
    other: Seq<char>,
)
    requires
        call_ensures(normalize_custom_fn_name, (name,), Ok(canonical)),
        other != canonical@,
    ensures
        forall|wb: &mut Workbook<E>| #[trigger]
            call_ensures(
                Workbook::<E>::register_custom_function,
                (wb, name, options, handler),
                r,
            ) && all_have((*wb).host().engine(), canonical@, global) ==> {
                let before = (*wb).functions().functions();
                let after = (*final(wb)).functions().functions();
                let g = (*final(wb)).history();
                let entry = after[canonical@];
                &&& r is Ok <==> welcome(before, canonical@, options, global)
                &&& r is Ok ==> {
                    &&& after.contains_key(canonical@)
                    &&& entry.info.name@ == canonical@
                    &&& entry.info.options == options
                    &&& entry.function is Custom
                    &&& entry.function->Custom_0.canonical_name@ == canonical@
                    &&& entry.function->Custom_0.options == options
                    &&& entry.function->Custom_0.handler == handler
                    &&& one_call((*wb).history(), g)
                    &&& g.last() is SetResolver
                    &&& g.last()->SetResolver_functions == (*final(wb)).functions()
                }
                &&& after.contains_key(other) == before.contains_key(other)
                &&& before.contains_key(other) ==> after[other] == before[other]
                &&& r is Err ==> after == before && (*final(wb)).host() == (*wb).host()
                &&& r is Err ==> r->Err_0@.kind == if options.max_args is Some
                    && options.max_args->0 < options.min_args {
                    ExcelErrorKind::Value
                } else {
                    ExcelErrorKind::Name
                }
            },
{
    assert(normalized_name(name@) == Ok::<Seq<char>, crate::error::ErrorView>(canonical@));
    assert forall|wb: &mut Workbook<E>| #[trigger]
        call_ensures(
            Workbook::<E>::register_custom_function,
            (wb, name, options, handler),
            r,
        ) && all_have((*wb).host().engine(), canonical@, global) implies {
        let before = (*wb).functions().functions();
        let after = (*final(wb)).functions().functions();
        let g = (*final(wb)).history();
        let entry = after[canonical@];
        &&& r is Ok <==> welcome(before, canonical@, options, global)
        &&& r is Ok ==> {
            &&& after.contains_key(canonical@)
            &&& entry.info.name@ == canonical@
            &&& entry.info.options == options
            &&& entry.function is Custom
            &&& entry.function->Custom_0.canonical_name@ == canonical@
            &&& entry.function->Custom_0.options == options
            &&& entry.function->Custom_0.handler == handler
            &&& one_call((*wb).history(), g)
            &&& g.last() is SetResolver
            &&& g.last()->SetResolver_functions == (*final(wb)).functions()
        }
        &&& after.contains_key(other) == before.contains_key(other)
        &&& before.contains_key(other) ==> after[other] == before[other]
        &&& r is Err ==> after == before && (*final(wb)).host() == (*wb).host()
        &&& r is Err ==> r->Err_0@.kind == if options.max_args is Some && options.max_args->0
            < options.min_args {
            ExcelErrorKind::Value
        } else {
            ExcelErrorKind::Name
        }
    } by {
        let before = (*wb).functions().functions();
        let after = (*final(wb)).functions().functions();
        if crate::workbook::admission(before, name@, options) is Ok {
            assert(Workbook::<E>::custom_outcome(
                *wb,
                *final(wb),
                canonical@,
                options,
                handler,
                r,
            ));
            let hidden = choose|hidden: bool| #[trigger]
                (*wb).unhidden(canonical@, options, hidden) && if hidden {
                    Workbook::<E>::refuses(
                        *wb,
                        *final(wb),
                        r,
                        crate::error::error_of(
                            ExcelErrorKind::Name,
                            crate::registry::function_conflict_message(canonical@),
                        ),
                    )
                } else {
                    Workbook::<E>::takes_custom(
                        *wb,
                        *final(wb),
                        canonical@,
                        options,
                        handler,
                        r,
                    )
                };
            if !options.allow_override_builtin {
                assert(global_is((*wb).host().engine(), canonical@, hidden));
            }
            if r is Ok {
                assert(after.remove(canonical@) == before);
                assert(after.remove(canonical@).contains_key(other) == after.contains_key(other));
                assert(before.contains_key(other) ==> after.remove(canonical@)[other]
                    == after[other]);
            }
        }
    }
}

/// A function is unregistered exactly where its name is registered; the others stay, and
/// the engine is told of them. A refusal changes nothing.
pub proof fn law_functions_are_unregistered<E: WorkbookEngine>(
    name: &str,
    canonical: String,
    r: Result<(), ExcelError>,
)
    requires
        call_ensures(normalize_custom_fn_name, (name,), Ok(canonical)),
    ensures
        forall|wb: &mut Workbook<E>| #[trigger]
            call_ensures(Workbook::<E>::unregister_custom_function, (wb, name), r) ==> {
                let before = (*wb).functions().functions();
                let after = (*final(wb)).functions().functions();
                let g = (*final(wb)).history();
                &&& r is Ok <==> before.contains_key(canonical@)
                &&& r is Ok ==> after == before.remove(canonical@) && one_call((*wb).history(), g)
                    && g.last() is SetResolver && g.last()->SetResolver_functions
                    == (*final(wb)).functions()
                &&& r is Err ==> after == before && (*final(wb)).host() == (*wb).host()
                    && r->Err_0@.kind == ExcelErrorKind::Name
            },
{
    assert(normalized_name(name@) == Ok::<Seq<char>, crate::error::ErrorView>(canonical@));
}

/// A name of white space only names no function: nothing is registered or unregistered.
pub proof fn law_blank_names_are_refused<E: WorkbookEngine>(
    name: &str,
    options: CustomFnOptions,
    handler: Arc<E::Handler>,
    r: Result<(), ExcelError>,
)
    requires
        forall|i: int| 0 <= i < name@.len() ==> is_white_space(#[trigger] name@[i]),
    ensures
        forall|wb: &mut Workbook<E>| #[trigger]
            call_ensures(
                Workbook::<E>::register_custom_function,
                (wb, name, options, handler),
                r,
            ) ==> r is Err && r->Err_0@.kind == ExcelErrorKind::Name
                && (*final(wb)).functions() == (*wb).functions() && (*final(wb)).host()
                == (*wb).host(),
        forall|wb: &mut Workbook<E>| #[trigger]
            call_ensures(Workbook::<E>::unregister_custom_function, (wb, name), r) ==> r is Err
                && r->Err_0@.kind == ExcelErrorKind::Name && (*final(wb)).functions()
                == (*wb).functions() && (*final(wb)).host() == (*wb).host(),
{
    let at = law_trimming_takes_white_space_only(name@);
    let core = trimmed(name@);
    if core.len() > 0 {
        assert(core.first() == name@[at]);
    }
}

/// A formula means the function of the workbook whose name is the one it uses, but for the
/// case of ASCII letters, and only outside any namespace; else it means the one that all
/// workbooks have.
pub proof fn law_formulas_find_functions_by_name<H, R, G>(
    resolver: WBResolver<H, R>,
    ns: &str,
    name: &str,
    upper: Seq<char>,
    global: Option<G>,
    r: Option<FoundFunction<'_, H, R, G>>,
)
    requires
        is_name(name@, upper),
        call_ensures(WBResolver::<H, R>::get_function::<G>, (&resolver, ns, name, global), r),
    ensures
        ns@.len() == 0 && resolver.functions().functions().contains_key(upper) ==> r is Some
            && r->0 is Own && *(r->0->Own_0) == resolver.functions().functions()[upper],
        ns@.len() > 0 || !resolver.functions().functions().contains_key(upper) ==> match global {
            Some(g) => r is Some && r->0 is Global && r->0->Global_0 == g,
            None => r is None,
        },
{
    lemma_upper(name@, upper);
}

proof fn lemma_upper(name: Seq<char>, upper: Seq<char>)
    requires
        is_name(name, upper),
    ensures
        ascii_upper(name) == upper,
{
    assert forall|i: int| 0 <= i < name.len() implies upper_char(name[i]) == upper[i] by {
        assert(is_upper(name[i], upper[i]));
        assert(is_upper(name[i], upper_char(name[i])));
    }
    assert(ascii_upper(name) =~= upper);
}

/// The workbook finds its own functions as formulas do.
pub proof fn law_workbook_finds_its_functions<E: WorkbookEngine>(
    wb: Workbook<E>,
    ns: &str,
    name: &str,
    upper: Seq<char>,
    r: Option<&RegisteredCustomFn<E::Handler, E::Runtime>>,
)
    requires
        is_name(name@, upper),
        call_ensures(Workbook::<E>::find_function, (&wb, ns, name), r),
    ensures
        r is Some <==> ns@.len() == 0 && wb.functions().functions().contains_key(upper),
        r is Some ==> *(r->0) == wb.functions().functions()[upper],
{
    lemma_upper(name@, upper);
}

/// A function shows the caching that its options allow, one name for each kind of function,
/// and, where its code panicked, says so in the words of its kind.
pub proof fn law_functions_show_their_kind<H, R>(
    f: WorkbookFunction<H, R>,
    caps: FunctionCaps,
    name: &'static str,
    panicked: Result<LiteralValue, ExcelError>,
)
    requires
        call_ensures(WorkbookFunction::<H, R>::caps, (&f,), caps),
        call_ensures(WorkbookFunction::<H, R>::name, (&f,), name),
        call_ensures(WorkbookFunction::<H, R>::finish, (&f, CallOutcome::Panicked), panicked),
    ensures
        f is Custom ==> name@ == "__WORKBOOK_CUSTOM__"@ && caps.volatile
            == f->Custom_0.options.volatile && caps.pure == (f->Custom_0.options.deterministic
            && !f->Custom_0.options.volatile),
        f is Wasm ==> name@ == "__WORKBOOK_WASM__"@ && caps.volatile == f->Wasm_0.options.volatile
            && caps.pure == (f->Wasm_0.options.deterministic && !f->Wasm_0.options.volatile),
        panicked is Err,
        panicked->Err_0@.kind == ExcelErrorKind::Value,
        panicked->Err_0@.message == Some(
            if f is Custom {
                "Custom function callback panicked"@
            } else {
                "WASM function runtime panicked"@
            },
        ),
{
}

/// The code behind a function is called with the arguments that it is given: the caller's
/// own code, or the export of its module in the runtime, by the codec and the hint that it
/// was registered with. Without a runtime the call is not implemented.
pub proof fn law_functions_call_their_code<H: CustomFnHandler, R: WasmUdfRuntime>(
    f: WorkbookFunction<H, R>,
    args: &[LiteralValue],
    r: Result<LiteralValue, ExcelError>,
)
    requires
        call_ensures(WorkbookFunction::<H, R>::invoke, (&f, args), r),
    ensures
        f is Custom ==> call_ensures(H::call, (&*f->Custom_0.handler, args), r),
        f is Wasm && f->Wasm_0.runtime.installed() is None ==> r is Err && r->Err_0@.kind
            == ExcelErrorKind::NImpl,
        f is Wasm && f->Wasm_0.runtime.installed() is Some ==> exists|
            id: &str,
            export: &str,
            name: &str,
            hint: Option<&crate::manifest::WasmRuntimeHint>,
        |
            #[trigger] call_ensures(
                R::invoke,
                (
                    &*(f->Wasm_0.runtime.installed()->0),
                    id,
                    export,
                    name,
                    f->Wasm_0.codec_version,
                    args,
                    hint,
                ),
                r,
            ) && id@ == f->Wasm_0.module_id@ && export@ == f->Wasm_0.export_name@ && name@
                == f->Wasm_0.canonical_name@ && match f->Wasm_0.runtime_hint {
                Some(h) => hint is Some && *(hint->0) == h,
                None => hint is None,
            },
{
    if f is Wasm && f->Wasm_0.runtime.installed() is Some {
        let w = f->Wasm_0;
        assert(w.runtime.invokes(
            w.module_id@,
            w.export_name@,
            w.canonical_name@,
            w.codec_version,
            args,
            w.runtime_hint,
            r,
        ));
        let (id, export, name, hint) = choose|
            id: &str,
            export: &str,
            name: &str,
            hint: Option<&crate::manifest::WasmRuntimeHint>,
        |
            id@ == w.module_id@ && export@ == w.export_name@ && name@ == w.canonical_name@
                && crate::runtime::hint_of(hint) == w.runtime_hint && #[trigger] call_ensures(
                R::invoke,
                (
                    &*(w.runtime.installed()->0),
                    id,
                    export,
                    name,
                    w.codec_version,
                    args,
                    hint,
                ),
                r,
            );
    }
}

/// A function gets as many arguments as it takes, in order and as they were evaluated; a
/// call with fewer or more is a value error.
pub proof fn law_functions_take_their_arguments<H, R, A: CallArguments>(
    f: WorkbookFunction<H, R>,
    args: A,
    r: Result<Vec<LiteralValue>, ExcelError>,
    count: usize,
)
    requires
        call_ensures(WorkbookFunction::<H, R>::prepare::<A>, (&f, &args), r),
        forall|n: usize| #[trigger] call_ensures(A::count, (&args,), n) ==> n == count,
    ensures
        ({
            let options = if f is Custom {
                f->Custom_0.options
            } else {
                f->Wasm_0.options
            };
            &&& count < options.min_args || options.max_args is Some && count > options.max_args->0
                ==> r is Err && r->Err_0@.kind == ExcelErrorKind::Value
            &&& r is Ok ==> (r->Ok_0)@.len() == count && forall|i: int|
                0 <= i < count ==> #[trigger] comes_from(args, i, (r->Ok_0)@[i])
        }),
{
    let n = choose|n: usize| #[trigger]
        call_ensures(A::count, (&args,), n) && prepared(
            args,
            f.name_text(),
            f.options_of(),
            n,
            r,
        );
    if r is Ok {
        let values = (r->Ok_0)@;
        assert forall|i: int| 0 <= i < count implies #[trigger] comes_from(args, i, values[i]) by {
            assert(crate::function::argument_is(args, i, values[i]));
            let arg = choose|arg: crate::function::EvaluatedArg| #[trigger]
                call_ensures(A::evaluate, (&args, i as usize), Ok(arg))
                    && crate::function::argument_of(arg) == values[i];
            assert(crate::laws_values::handed_over(arg, values[i]));
        }
    }
}

/// One byte string comes before another exactly where it is a proper beginning of it, or has
/// the lower byte at the first place where they differ.
pub proof fn law_bytes_are_ordered_by_their_first_difference(a: Seq<u8>, b: Seq<u8>)
    ensures
        bytes_before(a, b) <==> exists|n: int| #[trigger] differ_first(a, b, n),
    decreases a.len(),
{
    if a.len() > 0 && b.len() > 0 && a[0] == b[0] {
        let (x, y) = (a.drop_first(), b.drop_first());
        law_bytes_are_ordered_by_their_first_difference(x, y);
        if exists|n: int| #[trigger] differ_first(x, y, n) {
            let n = choose|n: int| #[trigger] differ_first(x, y, n);
            assert forall|i: int| 0 <= i < n + 1 implies #[trigger] a[i] == b[i] by {
                if i > 0 {
                    assert(x[i - 1] == y[i - 1]);
                }
            }
            assert(differ_first(a, b, n + 1));
        }
        if exists|n: int| #[trigger] differ_first(a, b, n) {
            let n = choose|n: int| #[trigger] differ_first(a, b, n);
            assert forall|i: int| 0 <= i < n - 1 implies #[trigger] x[i] == y[i] by {
                assert(a[i + 1] == b[i + 1]);
            }
            assert(differ_first(x, y, n - 1));
        }
    } else if bytes_before(a, b) {
        assert(differ_first(a, b, 0));
    } else if exists|n: int| #[trigger] differ_first(a, b, n) {
        let n = choose|n: int| #[trigger] differ_first(a, b, n);
        if n > 0 {
            assert(a[0] == b[0]);
        }
    }
}

/// Whether `a` and `b` are the same up to `n`, where `a` ends or has the lower byte.
pub open spec fn differ_first(a: Seq<u8>, b: Seq<u8>, n: int) -> bool {
    &&& 0 <= n <= a.len()
    &&& n < b.len()
    &&& forall|i: int| 0 <= i < n ==> #[trigger] a[i] == b[i]
    &&& n == a.len() || a[n] < b[n]
}

/// Texts are compared by the bytes of their encoding.
pub proof fn law_texts_are_ordered_by_their_bytes(a: &str, b: &str, r: TextOrder)
    requires
        call_ensures(order_of, (a, b), r),
    ensures
        r is Same <==> a@ == b@,
        r is Before <==> exists|n: int| #[trigger]
            differ_first(encode_utf8(a@), encode_utf8(b@), n),
        r is After <==> exists|n: int| #[trigger]
            differ_first(encode_utf8(b@), encode_utf8(a@), n),
{
    law_bytes_are_ordered_by_their_first_difference(encode_utf8(a@), encode_utf8(b@));
    law_bytes_are_ordered_by_their_first_difference(encode_utf8(b@), encode_utf8(a@));
}

/// The functions of a workbook are listed each once, by their names.
pub proof fn law_functions_are_listed_by_name<E: WorkbookEngine>(
    wb: Workbook<E>,
    r: Vec<CustomFnInfo>,
    name: Seq<char>,
)
    requires
        wb.wf(),
        call_ensures(Workbook::<E>::list_custom_functions, (&wb,), r),
    ensures
        forall|i: int, j: int|
            0 <= i < j < r@.len() ==> exists|n: int| #[trigger]
                differ_first(
                    encode_utf8((#[trigger] r@[i]).name@),
                    encode_utf8((#[trigger] r@[j]).name@),
                    n,
                ),
        wb.functions().functions().contains_key(name) <==> exists|i: int|
            0 <= i < r@.len() && (#[trigger] r@[i]).name@ == name,
        forall|i: int|
            0 <= i < r@.len() ==> (#[trigger] r@[i])
                == wb.functions().functions()[r@[i].name@].info,
{
    let registry = wb.functions();
    registry.lemma_wf();
    let entries = registry.entries();
    assert forall|i: int| 0 <= i < r@.len() implies entries[i].0 == (#[trigger] r@[i]).name@
        && r@[i] == registry.functions()[r@[i].name@].info by {
        assert(r@[i] == entries[i].1.info);
        lemma_entry(entries, i);
        assert(registry.functions().dom().contains(entries[i].0));
        assert(sound_entry(entries[i].0, registry.functions()[entries[i].0]));
    }
    assert forall|i: int, j: int| 0 <= i < j < r@.len() implies exists|n: int| #[trigger]
        differ_first(
            encode_utf8((#[trigger] r@[i]).name@),
            encode_utf8((#[trigger] r@[j]).name@),
            n,
        ) by {
        assert(text_before(entries[i].0, entries[j].0));
        law_bytes_are_ordered_by_their_first_difference(
            encode_utf8(r@[i].name@),
            encode_utf8(r@[j].name@),
        );
    }
    if registry.functions().contains_key(name) {
        assert(has_key(entries, name));
        let i = choose|i: int| 0 <= i < entries.len() && #[trigger] entries[i].0 == name;
        assert(r@[i].name@ == name);
    }
    if exists|i: int| 0 <= i < r@.len() && (#[trigger] r@[i]).name@ == name {
        let i = choose|i: int| 0 <= i < r@.len() && (#[trigger] r@[i]).name@ == name;
        assert(entries[i].0 == name);
        assert(has_key(entries, name));
    }
}

proof fn lemma_entry<V>(entries: Seq<(Seq<char>, V)>, i: int)
    requires
        ascending(entries),
        0 <= i < entries.len(),
    ensures
        map_of(entries).dom().contains(entries[i].0),
        map_of(entries)[entries[i].0] == entries[i].1,
{
    let key = entries[i].0;
    assert(has_key(entries, key));
    let j = key_position(entries, key);
    assert(0 <= j < entries.len() && entries[j].0 == key);
    if j < i {
        assert(text_before(entries[j].0, entries[i].0));
        lemma_text_irreflexive(key);
    } else if i < j {
        assert(text_before(entries[i].0, entries[j].0));
        lemma_text_irreflexive(key);
    }
}

/// What is said of a wrong number of arguments: the function, its bound, and how many there
/// were.
pub proof fn law_arity_errors_name_the_bound(
    name: &str,
    options: CustomFnOptions,
    provided: usize,
    r: Result<(), ExcelError>,
)
    requires
        call_ensures(validate_call_arity, (name, &options, provided), r),
    ensures
        provided < options.min_args ==> r is Err && r->Err_0@.message == Some(
            name@ + " expects at least "@ + decimal(options.min_args as nat)
                + " argument(s), got "@ + decimal(provided as nat),
        ),
        provided >= options.min_args && options.max_args is Some && provided
            > options.max_args->0 ==> r is Err && r->Err_0@.message == Some(
            name@ + " expects at most "@ + decimal(options.max_args->0 as nat)
                + " argument(s), got "@ + decimal(provided as nat),
        ),
{
}

/// What the operations of a workbook depend on of the settings is what the settings say.
pub proof fn law_flags_are_those_of_the_settings<S>(config: EvalConfig<S>)
    ensures
        flags_of(config).defer_graph_building == config.defer_graph_building,
        flags_of(config).arrow_storage_enabled == config.arrow_storage_enabled,
        flags_of(config).delta_overlay_enabled == config.delta_overlay_enabled,
        flags_of(config).date_system == config.date_system,
{
}

} // verus!
