//! Laws on values: how they are laid down, handed over and given back.

use crate::engine::{EngineEvent, WorkbookEngine};
use crate::error::{ExcelError, ExcelErrorKind};
use crate::function::{
    finish_call, function_caps, materialize_arg, prepare_call, prepared, stable_fn_salt,
    validate_call_arity, CallArguments, CallOutcome, CustomFnOptions, EvaluatedArg, FunctionCaps,
};
use crate::store::{after_mirror, MirrorReplies};
use crate::value::{
    overlay_value, unwrap_scalar_array, DateSystem, DateTimeValue, DateValue, LiteralValue,
    OverlayValue, TimeValue,
};
use vstd::prelude::*;
use vstd::utf8::encode_utf8;

verus! {

/// Whether `laid` tells the value `value` under the date system `system`: a day and a
/// moment their day, their time and that system; a time of day and a length of time their
/// whole seconds; an error its kind; anything else itself.
pub open spec fn tells(laid: OverlayValue, value: LiteralValue, system: DateSystem) -> bool {
    &&& laid is Empty <==> value is Empty
    &&& laid is Pending <==> value is Pending
    &&& laid is Integer <==> value is Int
    &&& laid is Number <==> value is Number
    &&& laid is Boolean <==> value is Boolean
    &&& laid is Text <==> value is Text
    &&& laid is Error <==> value is Error || value is Array
    &&& laid is DateTime <==> value is Date || value is DateTime || value is Time
    &&& laid is Duration <==> value is Duration
    &&& value matches LiteralValue::Int(i) ==> laid->Integer_0 == i
    &&& value matches LiteralValue::Number(n) ==> laid->Number_0 == n
    &&& value matches LiteralValue::Boolean(b) ==> laid->Boolean_0 == b
    &&& value matches LiteralValue::Text(s) ==> laid->Text_0@ == s@
    &&& value matches LiteralValue::Error(e) ==> laid->Error_0 == e.kind
    &&& value is Array ==> laid->Error_0 == ExcelErrorKind::Value
    &&& value matches LiteralValue::Date(d) ==> tells_moment(laid, d, 0, 0, system)
    &&& value matches LiteralValue::DateTime(m) ==> tells_moment(
        laid,
        m.date,
        m.time.seconds_from_midnight,
        m.time.nanosecond,
        system,
    )
    &&& value matches LiteralValue::Time(t) ==> laid->DateTime_0 is DayFraction
        && laid->DateTime_0->seconds == t.seconds_from_midnight
    &&& value matches LiteralValue::Duration(d) ==> laid->Duration_seconds == d.seconds
}

/// Whether `laid` is a moment of the day `day` in the date system `system`.
pub open spec fn tells_moment(
    laid: OverlayValue,
    day: DateValue,
    seconds: u32,
    nanosecond: u32,
    system: DateSystem,
) -> bool {
    &&& laid is DateTime
    &&& laid->DateTime_0 is Moment
    &&& laid->DateTime_0->system == system
    &&& laid->DateTime_0->moment.date.days_from_ce == day.days_from_ce
    &&& laid->DateTime_0->moment.time.seconds_from_midnight == seconds
    &&& laid->DateTime_0->moment.time.nanosecond == nanosecond
}

/// What is laid for a value tells the value.
pub proof fn law_laid_values_tell_the_value(
    value: LiteralValue,
    system: DateSystem,
    laid: OverlayValue,
)
    requires
        call_ensures(overlay_value, (&value, system), laid),
    ensures
        tells(laid, value, system),
{
}

/// A day is laid as the moment at which it begins: a day and the moment of its midnight
/// come to the same under one date system, and to different values under two; so do two
/// moments of different times, and two days.
pub proof fn law_days_are_laid_as_their_midnight(
    day: DateValue,
    other_day: DateValue,
    time: TimeValue,
    system: DateSystem,
    other_system: DateSystem,
    of_day: OverlayValue,
    of_midnight: OverlayValue,
    of_moment: OverlayValue,
    of_other_day: OverlayValue,
    elsewhere: OverlayValue,
    moment_elsewhere: OverlayValue,
)
    requires
        call_ensures(overlay_value, (&LiteralValue::Date(day), system), of_day),
        call_ensures(
            overlay_value,
            (
                &LiteralValue::DateTime(
                    DateTimeValue {
                        date: day,
                        time: TimeValue { seconds_from_midnight: 0, nanosecond: 0 },
                    },
                ),
                system,
            ),
            of_midnight,
        ),
        call_ensures(
            overlay_value,
            (&LiteralValue::DateTime(DateTimeValue { date: day, time }), system),
            of_moment,
        ),
        call_ensures(overlay_value, (&LiteralValue::Date(other_day), system), of_other_day),
        call_ensures(overlay_value, (&LiteralValue::Date(day), other_system), elsewhere),
        call_ensures(
            overlay_value,
            (&LiteralValue::DateTime(DateTimeValue { date: day, time }), other_system),
            moment_elsewhere,
        ),
    ensures
        of_day == of_midnight,
        of_day == of_moment <==> time.seconds_from_midnight == 0 && time.nanosecond == 0,
        of_day == of_other_day <==> day == other_day,
        of_day == elsewhere <==> system == other_system,
        of_moment == moment_elsewhere <==> system == other_system,
{
}

/// Two values that are laid alike, whatever the date systems, are the same but for what the
/// overlay cannot hold: which of a day and its midnight, what is less than a second of a
/// time or a length of time, what an error says, and what an array holds.
pub proof fn law_laid_values_are_told_apart(
    a: LiteralValue,
    b: LiteralValue,
    system: DateSystem,
    other: DateSystem,
    laid: OverlayValue,
)
    requires
        call_ensures(overlay_value, (&a, system), laid),
        call_ensures(overlay_value, (&b, other), laid),
    ensures
        a is Empty || a is Pending || a is Int || a is Number || a is Boolean ==> a == b,
        a is Text ==> b is Text && a->Text_0@ == b->Text_0@,
        a is Time ==> b is Time && a->Time_0.seconds_from_midnight
            == b->Time_0.seconds_from_midnight,
        a is Duration ==> b is Duration && a->Duration_0.seconds == b->Duration_0.seconds,
        a is DateTime && b is DateTime ==> a == b && system == other,
        a is Date && b is Date ==> a == b && system == other,
        a is Error && b is Error ==> a->Error_0.kind == b->Error_0.kind,
{
}

/// Where the store has a place for a cell, a value of the cell is laid there last, by the
/// date system in force: the place is that of the row, counted from zero, and of the
/// column, counted from zero.
pub proof fn law_values_are_laid_in_their_cell<E: WorkbookEngine>(
    h: Seq<EngineEvent<E>>,
    sheet: Seq<char>,
    row: u32,
    col: u32,
    value: LiteralValue,
    replies: MirrorReplies,
)
    requires
        row >= 1,
        col >= 1,
        replies.flags.arrow_storage_enabled,
        replies.flags.delta_overlay_enabled,
        replies.place is Some,
        replies.chunk_there,
    ensures
        lays_last(
            after_mirror(h, sheet, row, col, value, replies),
            sheet,
            row,
            col,
            value,
            replies,
        ),
        after_mirror(h, sheet, row, col, value, replies).len() >= h.len() + 3,
{
}

/// Whether the last calls of `g` lay `value` into the place that the store has for a cell.
pub open spec fn lays_last<E: WorkbookEngine>(
    g: Seq<EngineEvent<E>>,
    sheet: Seq<char>,
    row: u32,
    col: u32,
    value: LiteralValue,
    replies: MirrorReplies,
) -> bool {
    &&& g.len() >= 3
    &&& g[g.len() - 3] is ChunkOfRow
    &&& g[g.len() - 3]->ChunkOfRow_sheet == sheet
    &&& g[g.len() - 3]->row0 == row - 1
    &&& g[g.len() - 3]->ChunkOfRow_reply == replies.place
    &&& replies.place is Some
    &&& g.last() is SetOverlay
    &&& g.last()->SetOverlay_sheet == sheet
    &&& g.last()->SetOverlay_col0 == col - 1
    &&& g.last()->SetOverlay_chunk == (replies.place->0).0
    &&& g.last()->offset == (replies.place->0).1
    &&& tells(g.last()->SetOverlay_value, value, replies.flags.date_system)
}

/// Only an array of one row with one value counts as that value; any other array, and
/// whatever is no array, passes unchanged.
pub proof fn law_only_single_cells_are_unwrapped(value: LiteralValue, r: LiteralValue)
    requires
        call_ensures(unwrap_scalar_array, (value,), r),
    ensures
        !(value is Array) ==> r == value,
        value is Array && value->Array_0@.len() != 1 ==> r == value,
        value is Array && value->Array_0@.len() == 1 && value->Array_0@[0]@.len() != 1 ==> r
            == value,
        value is Array && value->Array_0@.len() == 1 && value->Array_0@[0]@.len() == 1 ==> r
            == value->Array_0@[0]@[0],
{
}

/// An argument that is a value is handed over as it is, and a range as the array of its
/// rows, or as its value where it has just one.
pub open spec fn handed_over(arg: EvaluatedArg, value: LiteralValue) -> bool {
    match arg {
        EvaluatedArg::Value(v) => value == v,
        EvaluatedArg::Range(rows) => if rows@.len() != 1 {
            value == LiteralValue::Array(rows)
        } else if rows@[0]@.len() != 1 {
            value == LiteralValue::Array(rows)
        } else {
            value == rows@[0]@[0]
        },
    }
}

/// See [`handed_over`].
pub proof fn law_arguments_are_handed_over(arg: EvaluatedArg, value: LiteralValue)
    requires
        call_ensures(materialize_arg, (arg,), value),
    ensures
        handed_over(arg, value),
{
}

/// A call with as many arguments as its function takes gets each of them, in order, as it
/// was evaluated; with fewer or more it is a value error.
pub proof fn law_calls_get_their_arguments<A: CallArguments>(
    name: &str,
    options: CustomFnOptions,
    args: A,
    r: Result<Vec<LiteralValue>, ExcelError>,
)
    requires
        call_ensures(prepare_call::<A>, (name, &options, &args), r),
    ensures
        exists|count: usize| #[trigger]
            call_ensures(A::count, (&args,), count) && {
                &&& count < options.min_args ==> r is Err && r->Err_0@.kind
                    == ExcelErrorKind::Value
                &&& options.max_args is Some && count > options.max_args->0 ==> r is Err
                    && r->Err_0@.kind == ExcelErrorKind::Value
                &&& r is Ok ==> (r->Ok_0)@.len() == count
                &&& r is Ok ==> forall|i: int|
                    0 <= i < count ==> #[trigger] comes_from(args, i, (r->Ok_0)@[i])
                &&& r is Err && options.min_args <= count && (options.max_args is None || count
                    <= options.max_args->0) ==> exists|i: int|
                    0 <= i < count && #[trigger] call_ensures(
                        A::evaluate,
                        (&args, i as usize),
                        Err(r->Err_0),
                    )
            },
{
    let count = choose|count: usize| #[trigger]
        call_ensures(A::count, (&args,), count) && prepared(args, name@, options, count, r);
    if r is Ok {
        let values = (r->Ok_0)@;
        assert forall|i: int| 0 <= i < count implies #[trigger] comes_from(args, i, values[i]) by {
            assert(crate::function::argument_is(args, i, values[i]));
            let arg = choose|arg: EvaluatedArg| #[trigger]
                call_ensures(A::evaluate, (&args, i as usize), Ok(arg))
                    && crate::function::argument_of(arg) == values[i];
            assert(handed_over(arg, values[i]));
        }
    } else if options.min_args <= count && (options.max_args is None || count
        <= options.max_args->0) {
        let done = choose|done: Seq<LiteralValue>|
            done.len() < count && #[trigger] crate::function::evaluation_stops(
                args,
                done,
                r->Err_0,
            );
        let i = done.len() as int;
        assert(call_ensures(A::evaluate, (&args, i as usize), Err(r->Err_0)));
    }
}

/// Whether `value` is what the argument at position `i` is handed over as.
pub open spec fn comes_from<A: CallArguments>(args: A, i: int, value: LiteralValue) -> bool {
    exists|arg: EvaluatedArg| #[trigger]
        call_ensures(A::evaluate, (&args, i as usize), Ok(arg)) && handed_over(arg, value)
}

/// The number of arguments is accepted exactly within the bounds of the function.
pub proof fn law_arity_is_within_bounds(
    name: &str,
    options: CustomFnOptions,
    provided: usize,
    r: Result<(), ExcelError>,
)
    requires
        call_ensures(validate_call_arity, (name, &options, provided), r),
    ensures
        r is Ok <==> options.min_args <= provided && (options.max_args is None || provided
            <= options.max_args->0),
        r is Err ==> r->Err_0@.kind == ExcelErrorKind::Value,
{
}

/// What the code behind a function gives back is the result of the call, but for an array
/// of one value, which is that value; its error stays, and a panic is a value error with
/// the given message.
pub proof fn law_results_are_given_back(
    outcome: CallOutcome,
    panic_message: &str,
    r: Result<LiteralValue, ExcelError>,
)
    requires
        call_ensures(finish_call, (outcome, panic_message), r),
    ensures
        outcome is Panicked ==> r is Err && r->Err_0@.kind == ExcelErrorKind::Value
            && r->Err_0@.message == Some(panic_message@),
        outcome matches CallOutcome::Returned(Err(e)) ==> r is Err && r->Err_0@ == e@,
        outcome matches CallOutcome::Returned(Ok(value)) ==> {
            &&& r is Ok
            &&& !(value is Array) ==> r->Ok_0 == value
            &&& value is Array && !(value->Array_0@.len() == 1 && value->Array_0@[0]@.len() == 1)
                ==> r->Ok_0 == value
            &&& value is Array && value->Array_0@.len() == 1 && value->Array_0@[0]@.len() == 1
                ==> r->Ok_0 == value->Array_0@[0]@[0]
        },
{
}

/// A function is volatile where it says so, and pure where it is deterministic and not
/// volatile.
pub proof fn law_volatile_functions_are_not_pure(options: CustomFnOptions, caps: FunctionCaps)
    requires
        call_ensures(function_caps, (&options,), caps),
    ensures
        caps.volatile <==> options.volatile,
        caps.pure <==> options.deterministic && !options.volatile,
        !(caps.volatile && caps.pure),
{
}

/// The salt of a name is the same at every call.
pub proof fn law_salts_repeat(name: &str, other: &str, a: u64, b: u64)
    requires
        call_ensures(stable_fn_salt, (name,), a),
        call_ensures(stable_fn_salt, (other,), b),
    ensures
        name@ == other@ ==> a == b,
        encode_utf8(name@).len() == 0 ==> a == 0xcbf29ce484222325,
        encode_utf8(other@).len() > 0 && encode_utf8(other@).drop_last() == encode_utf8(name@)
            ==> b == (((a ^ (encode_utf8(other@).last() as u64)) as nat * 0x100000001b3nat)
            % 0x1_0000_0000_0000_0000nat) as u64,
{
    let bytes = encode_utf8(other@);
    if bytes.len() == 0 {
        assert(bytes =~= Seq::empty());
    }
    if encode_utf8(name@).len() == 0 {
        assert(encode_utf8(name@) =~= Seq::empty());
    }
}

} // verus!
