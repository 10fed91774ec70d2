//! Cell values, and how they are laid down in the value overlay.
//!
//! A floating-point number is held by its IEEE 754 bits and a calendar value by
//! integers, so that a value can be told apart and carried without arithmetic.

use crate::error::{ExcelError, ExcelErrorKind};
use vstd::prelude::*;

verus! {

/// The day that serial number zero stands for.
#[derive(Clone, Copy, Debug, PartialEq, Eq, Structural)]
pub enum DateSystem {
    Excel1900,
    Excel1904,
}

/// A calendar day, counted from the first day of the common era.
#[derive(Clone, Copy, Debug, PartialEq, Eq, Structural)]
pub struct DateValue {
    pub days_from_ce: i32,
}

/// A time of day.
#[derive(Clone, Copy, Debug, PartialEq, Eq, Structural)]
pub struct TimeValue {
    pub seconds_from_midnight: u32,
    pub nanosecond: u32,
}

/// A moment of a calendar day.
#[derive(Clone, Copy, Debug, PartialEq, Eq, Structural)]
pub struct DateTimeValue {
    pub date: DateValue,
    pub time: TimeValue,
}

/// A length of time: whole seconds, rounded toward zero, and the rest.
#[derive(Clone, Copy, Debug, PartialEq, Eq, Structural)]
pub struct DurationValue {
    pub seconds: i64,
    pub subsec_nanos: i32,
}

/// A value of a cell, an argument or a result.
#[derive(Debug, PartialEq)]
pub enum LiteralValue {
    Int(i64),
    /// The bits of a double-precision number.
    Number(u64),
    Text(String),
    Boolean(bool),
    /// Rows of an array result.
    Array(Vec<Vec<LiteralValue>>),
    Date(DateValue),
    DateTime(DateTimeValue),
    Time(TimeValue),
    Duration(DurationValue),
    /// An empty cell or an argument left out.
    Empty,
    /// A value not yet computed.
    Pending,
    Error(ExcelError),
}

/// The value that a single-cell array stands for; any other value as it is.
pub open spec fn scalar_of(value: LiteralValue) -> LiteralValue {
    match value {
        LiteralValue::Array(rows) => if rows@.len() == 1 && rows@[0]@.len() == 1 {
            rows@[0]@[0]
        } else {
            value
        },
        _ => value,
    }
}

/// Single-cell references and one-by-one ranges count as scalars: a one-by-one
/// array becomes its only value, a larger or empty one passes unchanged.
pub fn unwrap_scalar_array(value: LiteralValue) -> (r: LiteralValue)
    ensures
        r == scalar_of(value),
{
    match value {
        LiteralValue::Array(rows) => {
            if rows.len() == 1 && rows[0].len() == 1 {
                let mut rows = rows;
                let mut row = rows.remove(0);
                row.remove(0)
            } else {
                LiteralValue::Array(rows)
            }
        },
        other => other,
    }
}

/// The value that a cell shows: an absent one counts as empty.
pub open spec fn value_or_empty(value: Option<LiteralValue>) -> LiteralValue {
    match value {
        Some(v) => v,
        None => LiteralValue::Empty,
    }
}

/// Where a serial number comes from.
#[derive(Clone, Copy, Debug, PartialEq, Eq, Structural)]
pub enum SerialSource {
    /// The serial number of a moment in a date system.
    Moment { system: DateSystem, moment: DateTimeValue },
    /// Seconds since midnight as a fraction of a day.
    DayFraction { seconds: u32 },
}

/// A value as the overlay of a column chunk holds it.
#[derive(Clone, Debug, PartialEq, Eq)]
pub enum OverlayValue {
    Empty,
    /// The bits of a double-precision number.
    Number(u64),
    /// The double-precision number nearest to an integer.
    Integer(i64),
    Boolean(bool),
    Text(String),
    Error(ExcelErrorKind),
    DateTime(SerialSource),
    /// Whole seconds as a fraction of a day.
    Duration { seconds: i64 },
    Pending,
}

/// Midnight of a calendar day.
pub open spec fn midnight_of(date: DateValue) -> DateTimeValue {
    DateTimeValue { date, time: TimeValue { seconds_from_midnight: 0, nanosecond: 0 } }
}

/// How `value` is laid down in the overlay under the date system `system`.
///
/// A day counts as its midnight, and an array, which no single cell can hold,
/// as a value error.
pub open spec fn overlay_of(value: LiteralValue, system: DateSystem) -> OverlayValue {
    match value {
        LiteralValue::Empty => OverlayValue::Empty,
        LiteralValue::Int(i) => OverlayValue::Integer(i),
        LiteralValue::Number(n) => OverlayValue::Number(n),
        LiteralValue::Boolean(b) => OverlayValue::Boolean(b),
        LiteralValue::Text(s) => OverlayValue::Text(s),
        LiteralValue::Error(e) => OverlayValue::Error(e.kind),
        LiteralValue::Date(d) => OverlayValue::DateTime(
            SerialSource::Moment { system, moment: midnight_of(d) },
        ),
        LiteralValue::DateTime(moment) => OverlayValue::DateTime(
            SerialSource::Moment { system, moment },
        ),
        LiteralValue::Time(t) => OverlayValue::DateTime(
            SerialSource::DayFraction { seconds: t.seconds_from_midnight },
        ),
        LiteralValue::Duration(d) => OverlayValue::Duration { seconds: d.seconds },
        LiteralValue::Pending => OverlayValue::Pending,
        LiteralValue::Array(_) => OverlayValue::Error(ExcelErrorKind::Value),
    }
}

/// See [`overlay_of`].
pub fn overlay_value(value: &LiteralValue, system: DateSystem) -> (r: OverlayValue)
    ensures
        r == overlay_of(*value, system),
{
    match value {
        LiteralValue::Empty => OverlayValue::Empty,
        LiteralValue::Int(i) => OverlayValue::Integer(*i),
        LiteralValue::Number(n) => OverlayValue::Number(*n),
        LiteralValue::Boolean(b) => OverlayValue::Boolean(*b),
        LiteralValue::Text(s) => OverlayValue::Text(s.clone()),
        LiteralValue::Error(e) => OverlayValue::Error(e.kind),
        LiteralValue::Date(d) => OverlayValue::DateTime(
            SerialSource::Moment {
                system,
                moment: DateTimeValue {
                    date: *d,
                    time: TimeValue { seconds_from_midnight: 0, nanosecond: 0 },
                },
            },
        ),
        LiteralValue::DateTime(moment) => OverlayValue::DateTime(
            SerialSource::Moment { system, moment: *moment },
        ),
        LiteralValue::Time(t) => OverlayValue::DateTime(
            SerialSource::DayFraction { seconds: t.seconds_from_midnight },
        ),
        LiteralValue::Duration(d) => OverlayValue::Duration { seconds: d.seconds },
        LiteralValue::Pending => OverlayValue::Pending,
        LiteralValue::Array(_) => OverlayValue::Error(ExcelErrorKind::Value),
    }
}

} // verus!
