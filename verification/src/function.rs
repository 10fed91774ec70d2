//! Custom functions: names, options, arity, hashing salt, and the steps of a
//! call around the caller's own code.

use crate::error::{error_of, excel_view, ErrorView, ExcelError, ExcelErrorKind};
use crate::text::{
    ascii_upper, decimal, is_white_space, push_decimal, trimmed, trimmed_end, trimmed_start,
    upper_char,
};
use crate::value::{scalar_of, unwrap_scalar_array, LiteralValue};
use vstd::prelude::*;
use vstd::string::*;
use vstd::utf8::*;

verus! {

/// A result with its text and its error as plain values.
pub open spec fn name_view(r: Result<String, ExcelError>) -> Result<Seq<char>, ErrorView> {
    match r {
        Ok(s) => Ok(s@),
        Err(e) => Err(e@),
    }
}

/// The name under which the function `name` is known: trimmed, in upper case.
pub open spec fn canonical_name(name: Seq<char>) -> Seq<char> {
    ascii_upper(trimmed(name))
}

/// The canonical name of `name`, or the error where nothing is left of it.
pub open spec fn normalized_name(name: Seq<char>) -> Result<Seq<char>, ErrorView> {
    if trimmed(name).len() == 0 {
        Err(error_of(ExcelErrorKind::Name, "Function name cannot be empty"@))
    } else {
        Ok(canonical_name(name))
    }
}

/// See [`normalized_name`].
pub fn normalize_custom_fn_name(name: &str) -> (r: Result<String, ExcelError>)
    ensures
        name_view(r) == normalized_name(name@),
{
    let trimmed_name = name.trim();
    if trimmed_name.is_empty() {
        return Err(
            ExcelError::new(ExcelErrorKind::Name).with_message(
                "Function name cannot be empty".to_owned(),
            ),
        );
    }
    Ok(trimmed_name.to_ascii_uppercase())
}

/// How a custom function may be called and cached.
#[derive(Debug, Clone, Copy, PartialEq, Eq, Structural)]
pub struct CustomFnOptions {
    pub min_args: usize,
    pub max_args: Option<usize>,
    pub volatile: bool,
    pub thread_safe: bool,
    pub deterministic: bool,
    pub allow_override_builtin: bool,
}

/// Any number of arguments; deterministic; no override of a builtin.
pub open spec fn default_options() -> CustomFnOptions {
    CustomFnOptions {
        min_args: 0,
        max_args: None,
        volatile: false,
        thread_safe: false,
        deterministic: true,
        allow_override_builtin: false,
    }
}

impl Default for CustomFnOptions {
    fn default() -> (o: CustomFnOptions)
        ensures
            o == default_options(),
    {
        CustomFnOptions {
            min_args: 0,
            max_args: None,
            volatile: false,
            thread_safe: false,
            deterministic: true,
            allow_override_builtin: false,
        }
    }
}

/// A registered function as it is listed.
#[derive(Debug, Clone, PartialEq, Eq)]
pub struct CustomFnInfo {
    pub name: String,
    pub options: CustomFnOptions,
}

/// Whether an upper bound on the number of arguments lies below the lower one.
pub open spec fn arity_inverted(min_args: usize, max_args: Option<usize>) -> bool {
    max_args matches Some(max) && max < min_args
}

/// What is said of inverted bounds: `lead`, the function's name, both bounds.
pub open spec fn inverted_message(
    lead: Seq<char>,
    name: Seq<char>,
    min_args: usize,
    max_args: usize,
) -> Seq<char> {
    lead + name + ": max_args ("@ + decimal(max_args as nat) + ") < min_args ("@ + decimal(
        min_args as nat,
    ) + ")"@
}

/// See [`inverted_message`].
pub fn inverted_arity_text(lead: &str, name: &str, min_args: usize, max_args: usize) -> (r: String)
    ensures
        r@ == inverted_message(lead@, name@, min_args, max_args),
{
    let mut text = lead.to_owned();
    text.append(name);
    text.append(": max_args (");
    push_decimal(&mut text, max_args as u64);
    text.append(") < min_args (");
    push_decimal(&mut text, min_args as u64);
    text.append(")");
    text
}

/// Refuses options whose argument bounds are inverted.
pub open spec fn arity_check(name: Seq<char>, options: CustomFnOptions) -> Result<(), ErrorView> {
    if arity_inverted(options.min_args, options.max_args) {
        Err(
            error_of(
                ExcelErrorKind::Value,
                inverted_message(
                    "Invalid arity for "@,
                    name,
                    options.min_args,
                    options.max_args->0,
                ),
            ),
        )
    } else {
        Ok(())
    }
}

/// See [`arity_check`].
pub fn validate_custom_arity(name: &str, options: &CustomFnOptions) -> (r: Result<(), ExcelError>)
    ensures
        excel_view(r) == arity_check(name@, *options),
{
    if let Some(max_args) = options.max_args {
        if max_args < options.min_args {
            return Err(
                ExcelError::new(ExcelErrorKind::Value).with_message(
                    inverted_arity_text("Invalid arity for ", name, options.min_args, max_args),
                ),
            );
        }
    }
    Ok(())
}

/// One step of the 64-bit FNV-1a hash.
pub open spec fn fnv_step(hash: u64, byte: u8) -> u64 {
    (((hash ^ (byte as u64)) as nat * 0x100000001b3nat) % 0x1_0000_0000_0000_0000nat) as u64
}

/// The 64-bit FNV-1a hash of `bytes`.
pub open spec fn fnv_hash(bytes: Seq<u8>) -> u64 {
    bytes.fold_left(0xcbf29ce484222325u64, |hash: u64, byte: u8| fnv_step(hash, byte))
}

/// The salt of the function `name`: the FNV-1a hash of its UTF-8 bytes, the same
/// in every process.
pub fn stable_fn_salt(name: &str) -> (r: u64)
    ensures
        r == fnv_hash(encode_utf8(name@)),
{
    let bytes = name.as_bytes();
    let mut hash: u64 = 0xcbf29ce484222325;
    let mut i: usize = 0;
    assert(bytes@.take(0) =~= Seq::empty());
    while i < bytes.len()
        invariant
            i <= bytes.len(),
            hash == fnv_hash(bytes@.take(i as int)),
        decreases bytes.len() - i,
    {
        assert(bytes@.take(i + 1).drop_last() =~= bytes@.take(i as int));
        hash = (hash ^ (bytes[i] as u64)).wrapping_mul(0x100000001b3);
        i += 1;
    }
    assert(bytes@.take(i as int) =~= bytes@);
    hash
}

/// What a function says of a call with too few arguments.
pub open spec fn too_few_message(name: Seq<char>, min_args: usize, provided: usize) -> Seq<char> {
    name + " expects at least "@ + decimal(min_args as nat) + " argument(s), got "@ + decimal(
        provided as nat,
    )
}

/// What a function says of a call with too many arguments.
pub open spec fn too_many_message(name: Seq<char>, max_args: usize, provided: usize) -> Seq<char> {
    name + " expects at most "@ + decimal(max_args as nat) + " argument(s), got "@ + decimal(
        provided as nat,
    )
}

/// Whether the function `name` with `options` takes `provided` arguments.
pub open spec fn call_arity(name: Seq<char>, options: CustomFnOptions, provided: usize) -> Result<
    (),
    ErrorView,
> {
    if provided < options.min_args {
        Err(
            error_of(
                ExcelErrorKind::Value,
                too_few_message(name, options.min_args, provided),
            ),
        )
    } else if options.max_args matches Some(max) && provided > max {
        Err(
            error_of(
                ExcelErrorKind::Value,
                too_many_message(name, options.max_args->0, provided),
            ),
        )
    } else {
        Ok(())
    }
}

/// See [`call_arity`].
pub fn validate_call_arity(name: &str, options: &CustomFnOptions, provided: usize) -> (r: Result<
    (),
    ExcelError,
>)
    ensures
        excel_view(r) == call_arity(name@, *options, provided),
{
    if provided < options.min_args {
        let mut text = name.to_owned();
        text.append(" expects at least ");
        push_decimal(&mut text, options.min_args as u64);
        text.append(" argument(s), got ");
        push_decimal(&mut text, provided as u64);
        return Err(ExcelError::new(ExcelErrorKind::Value).with_message(text));
    }
    if let Some(max) = options.max_args {
        if provided > max {
            let mut text = name.to_owned();
            text.append(" expects at most ");
            push_decimal(&mut text, max as u64);
            text.append(" argument(s), got ");
            push_decimal(&mut text, provided as u64);
            return Err(ExcelError::new(ExcelErrorKind::Value).with_message(text));
        }
    }
    Ok(())
}

/// How the results of a function may be cached.
#[derive(Debug, Clone, Copy, PartialEq, Eq, Structural)]
pub struct FunctionCaps {
    pub volatile: bool,
    pub pure: bool,
}

/// A volatile function is never pure; any other is pure where it is deterministic.
pub open spec fn caps_of(options: CustomFnOptions) -> FunctionCaps {
    FunctionCaps {
        volatile: options.volatile,
        pure: !options.volatile && options.deterministic,
    }
}

/// See [`caps_of`].
pub fn function_caps(options: &CustomFnOptions) -> (r: FunctionCaps)
    ensures
        r == caps_of(*options),
{
    let mut caps = FunctionCaps { volatile: false, pure: false };
    if options.volatile {
        caps.volatile = true;
    } else if options.deterministic {
        caps.pure = true;
    }
    caps
}

/// An argument as the engine evaluates it.
#[derive(Debug, PartialEq)]
pub enum EvaluatedArg {
    Value(LiteralValue),
    Range(Vec<Vec<LiteralValue>>),
}

/// The value that an evaluated argument is handed over as: a range becomes an
/// array, or its only value where it has just one.
pub open spec fn argument_of(arg: EvaluatedArg) -> LiteralValue {
    match arg {
        EvaluatedArg::Value(v) => v,
        EvaluatedArg::Range(rows) => scalar_of(LiteralValue::Array(rows)),
    }
}

/// The arguments of a call, each evaluated on demand.
pub trait CallArguments {
    /// The number of arguments.
    fn count(&self) -> usize;

    /// Evaluates the argument at position `index`.
    fn evaluate(&self, index: usize) -> Result<EvaluatedArg, ExcelError>;
}

/// See [`argument_of`].
pub fn materialize_arg(arg: EvaluatedArg) -> (r: LiteralValue)
    ensures
        r == argument_of(arg),
{
    match arg {
        EvaluatedArg::Value(v) => v,
        EvaluatedArg::Range(rows) => unwrap_scalar_array(LiteralValue::Array(rows)),
    }
}

/// Whether the argument at position `i` evaluated to `value`.
pub open spec fn argument_is<A: CallArguments>(args: A, i: int, value: LiteralValue) -> bool {
    exists|arg: EvaluatedArg| #[trigger]
        call_ensures(A::evaluate, (&args, i as usize), Ok(arg)) && argument_of(arg) == value
}

/// Whether the first arguments evaluated to `values`.
pub open spec fn evaluated<A: CallArguments>(args: A, values: Seq<LiteralValue>) -> bool {
    forall|i: int| 0 <= i < values.len() ==> argument_is(args, i, #[trigger] values[i])
}

/// Whether the argument after `values` fails with `error`.
pub open spec fn evaluation_stops<A: CallArguments>(
    args: A,
    values: Seq<LiteralValue>,
    error: ExcelError,
) -> bool {
    evaluated(args, values) && call_ensures(
        A::evaluate,
        (&args, values.len() as usize),
        Err(error),
    )
}

/// Whether `r` is what `count` arguments of a call of the function `name` come to.
pub open spec fn prepared<A: CallArguments>(
    args: A,
    name: Seq<char>,
    options: CustomFnOptions,
    count: usize,
    r: Result<Vec<LiteralValue>, ExcelError>,
) -> bool {
    match (call_arity(name, options, count), r) {
        (Err(e), Err(error)) => error@ == e,
        (Err(_), Ok(_)) => false,
        (Ok(_), Ok(values)) => values@.len() == count && evaluated(args, values@),
        (Ok(_), Err(error)) => exists|done: Seq<LiteralValue>|
            done.len() < count && #[trigger] evaluation_stops(args, done, error),
    }
}

/// The arguments of a call of the function `name`, ready to be handed over.
///
/// The number of arguments is checked before any is evaluated. They are
/// evaluated in order, up to the first that fails, whose error is returned.
pub fn prepare_call<A: CallArguments>(
    name: &str,
    options: &CustomFnOptions,
    args: &A,
) -> (r: Result<
    Vec<LiteralValue>,
    ExcelError,
>)
    ensures
        exists|count: usize| #[trigger]
            call_ensures(A::count, (args,), count) && prepared(*args, name@, *options, count, r),
{
    let count = args.count();
    match validate_call_arity(name, options, count) {
        Ok(_) => {},
        Err(e) => {
            return Err(e);
        },
    }
    let mut values: Vec<LiteralValue> = Vec::new();
    let mut i: usize = 0;
    while i < count
        invariant
            i <= count,
            values@.len() == i,
            evaluated(*args, values@),
            call_ensures(A::count, (args,), count),
            call_arity(name@, *options, count) is Ok,
        decreases count - i,
    {
        match args.evaluate(i) {
            Ok(arg) => {
                let ghost done = values@;
                values.push(materialize_arg(arg));
                proof {
                    assert(argument_is(*args, i as int, values@[i as int]));
                    assert forall|j: int| 0 <= j < values@.len() implies argument_is(
                        *args,
                        j,
                        #[trigger] values@[j],
                    ) by {
                        if j < i {
                            assert(done[j] == values@[j]);
                        }
                    }
                }
            },
            Err(e) => {
                assert(evaluation_stops(*args, values@, e));
                return Err(e);
            },
        }
        i += 1;
    }
    Ok(values)
}

/// How the code behind a function came back.
#[derive(Debug, PartialEq)]
pub enum CallOutcome {
    Returned(Result<LiteralValue, ExcelError>),
    Panicked,
}

/// The result of a call: a one-by-one array counts as its value, and a panic as
/// the value error `panic_message`.
pub open spec fn call_result(outcome: CallOutcome, panic_message: Seq<char>) -> Result<
    LiteralValue,
    ErrorView,
> {
    match outcome {
        CallOutcome::Returned(Ok(value)) => Ok(scalar_of(value)),
        CallOutcome::Returned(Err(e)) => Err(e@),
        CallOutcome::Panicked => Err(error_of(ExcelErrorKind::Value, panic_message)),
    }
}

/// See [`call_result`].
pub fn finish_call(outcome: CallOutcome, panic_message: &str) -> (r: Result<
    LiteralValue,
    ExcelError,
>)
    ensures
        excel_view(r) == call_result(outcome, panic_message@),
{
    match outcome {
        CallOutcome::Returned(Ok(value)) => Ok(unwrap_scalar_array(value)),
        CallOutcome::Returned(Err(e)) => Err(e),
        CallOutcome::Panicked => Err(
            ExcelError::new(ExcelErrorKind::Value).with_message(panic_message.to_owned()),
        ),
    }
}

proof fn lemma_trimmed_start(s: Seq<char>)
    ensures
        trimmed_start(s).len() > 0 ==> !is_white_space(trimmed_start(s)[0]),
    decreases s.len(),
{
    if s.len() > 0 && is_white_space(s.first()) {
        lemma_trimmed_start(s.drop_first());
    }
}

proof fn lemma_trimmed_end(s: Seq<char>)
    ensures
        trimmed_end(s).len() <= s.len(),
        trimmed_end(s) =~= s.take(trimmed_end(s).len() as int),
        trimmed_end(s).len() > 0 ==> !is_white_space(trimmed_end(s).last()),
    decreases s.len(),
{
    if s.len() > 0 && is_white_space(s.last()) {
        lemma_trimmed_end(s.drop_last());
    }
}

proof fn lemma_trimmed(s: Seq<char>)
    ensures
        trimmed(s).len() > 0 ==> !is_white_space(trimmed(s)[0])
            && !is_white_space(trimmed(s).last()),
{
    lemma_trimmed_start(s);
    lemma_trimmed_end(trimmed_start(s));
}

proof fn lemma_upper_char(c: char)
    ensures
        is_white_space(upper_char(c)) == is_white_space(c),
        upper_char(upper_char(c)) == upper_char(c),
{
}

/// The canonical name of a canonical name is that name: normalising twice gives
/// what normalising once gives.
pub proof fn law_canonical_name_idempotent(name: Seq<char>)
    ensures
        canonical_name(canonical_name(name)) == canonical_name(name),
        normalized_name(name) is Ok ==> normalized_name(canonical_name(name)) == normalized_name(
            name,
        ),
{
    let t = trimmed(name);
    let u = ascii_upper(t);
    lemma_trimmed(name);
    if t.len() > 0 {
        lemma_upper_char(t[0]);
        lemma_upper_char(t.last());
    }
    assert(trimmed(u) == u);
    assert forall|i: int| 0 <= i < u.len() implies #[trigger] ascii_upper(u)[i] == u[i] by {
        lemma_upper_char(t[i]);
    }
    assert(ascii_upper(u) =~= u);
}

/// Names that differ only in ASCII case and in surrounding white space are one
/// name.
pub proof fn law_names_ignore_case(a: Seq<char>, b: Seq<char>)
    requires
        ascii_upper(trimmed(a)) == ascii_upper(trimmed(b)),
    ensures
        normalized_name(a) == normalized_name(b),
{
    assert(ascii_upper(trimmed(a)).len() == trimmed(a).len());
    assert(ascii_upper(trimmed(b)).len() == trimmed(b).len());
}

} // verus!
