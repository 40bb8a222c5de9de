//! Turning decoded parameters into values of the types that a query infers.
use crate::errors::{CoerceSource, Error, ErrorV, NumberSource};
use crate::scalar;
use crate::scalar::{ScalarV, ScalarValue};
use crate::schema;
use crate::schema::{DataType, DataTypeV, IntervalUnit, TimeUnit};
use crate::wire;
use crate::wire::{Interval, UtcTime};
use vstd::prelude::*;

verus! {

/// A floating-point number of a parameter, by what is read of it.
#[derive(Clone, Copy, Debug, PartialEq, Eq, Structural)]
pub struct FloatValue {
    /// The bits of the number in double precision.
    pub bits: u64,
    /// The bits of the number in single precision.
    pub single_bits: u32,
    /// False of infinities and of what is no number.
    pub finite: bool,
    /// The number without its fraction, or the integer next to it.
    pub whole: i64,
    /// True when the number differs from `whole` by rounding at most.
    pub is_whole: bool,
}

/// The model of a result.
pub open spec fn scalar_result(r: Result<ScalarValue, Error>) -> Result<ScalarV, ErrorV> {
    match r {
        Ok(v) => Ok(v@),
        Err(e) => Err(e@),
    }
}

/// The number of parts of a unit in a second.
pub open spec fn per_second(unit: TimeUnit) -> int {
    match unit {
        TimeUnit::Second => 1,
        TimeUnit::Millisecond => 1_000,
        TimeUnit::Microsecond => 1_000_000,
        TimeUnit::Nanosecond => 1_000_000_000,
    }
}

/// The timestamp of a unit.
pub open spec fn timestamp_scalar(
    unit: TimeUnit,
    value: Option<i64>,
    tz: Option<Seq<char>>,
) -> ScalarV {
    match unit {
        TimeUnit::Second => ScalarV::TimestampSecond(value, tz),
        TimeUnit::Millisecond => ScalarV::TimestampMillisecond(value, tz),
        TimeUnit::Microsecond => ScalarV::TimestampMicrosecond(value, tz),
        TimeUnit::Nanosecond => ScalarV::TimestampNanosecond(value, tz),
    }
}

fn make_timestamp(unit: TimeUnit, value: Option<i64>, tz: Option<String>) -> (r: ScalarValue)
    ensures
        r@ == timestamp_scalar(unit, value, schema::opt_text(tz)),
{
    match unit {
        TimeUnit::Second => ScalarValue::TimestampSecond(value, tz),
        TimeUnit::Millisecond => ScalarValue::TimestampMillisecond(value, tz),
        TimeUnit::Microsecond => ScalarValue::TimestampMicrosecond(value, tz),
        TimeUnit::Nanosecond => ScalarValue::TimestampNanosecond(value, tz),
    }
}

fn out_of_range_error(source: NumberSource, value: i64, target: &DataType) -> (r: Error)
    ensures
        r@ == (ErrorV::OutOfRange { source, value, target: target@ }),
{
    Error::OutOfRange { source, value, target: target.copy() }
}

/// True when a number of seconds does not fit 64 bits in the unit of a timestamp
/// type.
pub open spec fn seconds_overflow(value: Option<i64>, target: DataTypeV) -> bool {
    match (value, target) {
        (Some(n), DataTypeV::Timestamp(unit, _)) => !(i64::MIN <= n * per_second(unit)
            <= i64::MAX),
        _ => false,
    }
}

/// The value of the target type that an integer becomes. For a timestamp it is a
/// number of seconds.
pub open spec fn int_scalar(value: Option<i64>, target: DataTypeV) -> Result<ScalarV, ErrorV> {
    match target {
        DataTypeV::Int8 => match value {
            None => Ok(ScalarV::Int8(None)),
            Some(n) => if i8::MIN <= n <= i8::MAX {
                Ok(ScalarV::Int8(Some(n as i8)))
            } else {
                Err(ErrorV::OutOfRange { source: NumberSource::Int, value: n, target })
            },
        },
        DataTypeV::Int16 => match value {
            None => Ok(ScalarV::Int16(None)),
            Some(n) => if i16::MIN <= n <= i16::MAX {
                Ok(ScalarV::Int16(Some(n as i16)))
            } else {
                Err(ErrorV::OutOfRange { source: NumberSource::Int, value: n, target })
            },
        },
        DataTypeV::Int32 => match value {
            None => Ok(ScalarV::Int32(None)),
            Some(n) => if i32::MIN <= n <= i32::MAX {
                Ok(ScalarV::Int32(Some(n as i32)))
            } else {
                Err(ErrorV::OutOfRange { source: NumberSource::Int, value: n, target })
            },
        },
        DataTypeV::UInt8 => match value {
            None => Ok(ScalarV::UInt8(None)),
            Some(n) => if u8::MIN <= n <= u8::MAX {
                Ok(ScalarV::UInt8(Some(n as u8)))
            } else {
                Err(ErrorV::OutOfRange { source: NumberSource::Int, value: n, target })
            },
        },
        DataTypeV::UInt16 => match value {
            None => Ok(ScalarV::UInt16(None)),
            Some(n) => if u16::MIN <= n <= u16::MAX {
                Ok(ScalarV::UInt16(Some(n as u16)))
            } else {
                Err(ErrorV::OutOfRange { source: NumberSource::Int, value: n, target })
            },
        },
        DataTypeV::UInt32 => match value {
            None => Ok(ScalarV::UInt32(None)),
            Some(n) => if u32::MIN <= n <= u32::MAX {
                Ok(ScalarV::UInt32(Some(n as u32)))
            } else {
                Err(ErrorV::OutOfRange { source: NumberSource::Int, value: n, target })
            },
        },
        DataTypeV::UInt64 => match value {
            None => Ok(ScalarV::UInt64(None)),
            Some(n) => if u64::MIN <= n <= u64::MAX {
                Ok(ScalarV::UInt64(Some(n as u64)))
            } else {
                Err(ErrorV::OutOfRange { source: NumberSource::Int, value: n, target })
            },
        },
        DataTypeV::Int64 => Ok(ScalarV::Int64(value)),
        DataTypeV::Float32 => Ok(
            ScalarV::Float32(
                match value {
                    Some(n) => Some(wire::int_f32_bits(n)),
                    None => None,
                },
            ),
        ),
        DataTypeV::Float64 => Ok(
            ScalarV::Float64(
                match value {
                    Some(n) => Some(wire::int_f64_bits(n)),
                    None => None,
                },
            ),
        ),
        DataTypeV::Timestamp(unit, _) => Ok(
            timestamp_scalar(
                unit,
                match value {
                    Some(n) => Some((n * per_second(unit)) as i64),
                    None => None,
                },
                None,
            ),
        ),
        _ => Err(ErrorV::CannotCoerce { source: CoerceSource::Integer, target }),
    }
}

/// Turns an integer into a value of the target type.
pub fn coerce_int_value(value: Option<i64>, target: &DataType) -> (r: Result<ScalarValue, Error>)
    requires
        !seconds_overflow(value, target@),
    ensures
        scalar_result(r) == int_scalar(value, target@),
{
    match target {
        DataType::Int8 => match value {
            None => Ok(ScalarValue::Int8(None)),
            Some(n) => if n >= i8::MIN as i64 && n <= i8::MAX as i64 {
                Ok(ScalarValue::Int8(Some(n as i8)))
            } else {
                Err(out_of_range_error(NumberSource::Int, n, target))
            },
        },
        DataType::Int16 => match value {
            None => Ok(ScalarValue::Int16(None)),
            Some(n) => if n >= i16::MIN as i64 && n <= i16::MAX as i64 {
                Ok(ScalarValue::Int16(Some(n as i16)))
            } else {
                Err(out_of_range_error(NumberSource::Int, n, target))
            },
        },
        DataType::Int32 => match value {
            None => Ok(ScalarValue::Int32(None)),
            Some(n) => if n >= i32::MIN as i64 && n <= i32::MAX as i64 {
                Ok(ScalarValue::Int32(Some(n as i32)))
            } else {
                Err(out_of_range_error(NumberSource::Int, n, target))
            },
        },
        DataType::UInt8 => match value {
            None => Ok(ScalarValue::UInt8(None)),
            Some(n) => if n >= 0 && n <= u8::MAX as i64 {
                Ok(ScalarValue::UInt8(Some(n as u8)))
            } else {
                Err(out_of_range_error(NumberSource::Int, n, target))
            },
        },
        DataType::UInt16 => match value {
            None => Ok(ScalarValue::UInt16(None)),
            Some(n) => if n >= 0 && n <= u16::MAX as i64 {
                Ok(ScalarValue::UInt16(Some(n as u16)))
            } else {
                Err(out_of_range_error(NumberSource::Int, n, target))
            },
        },
        DataType::UInt32 => match value {
            None => Ok(ScalarValue::UInt32(None)),
            Some(n) => if n >= 0 && n <= u32::MAX as i64 {
                Ok(ScalarValue::UInt32(Some(n as u32)))
            } else {
                Err(out_of_range_error(NumberSource::Int, n, target))
            },
        },
        DataType::UInt64 => match value {
            None => Ok(ScalarValue::UInt64(None)),
            Some(n) => if n >= 0 {
                Ok(ScalarValue::UInt64(Some(n as u64)))
            } else {
                Err(out_of_range_error(NumberSource::Int, n, target))
            },
        },
        DataType::Int64 => Ok(ScalarValue::Int64(value)),
        DataType::Float32 => Ok(
            ScalarValue::Float32(
                match value {
                    Some(n) => wire::int_to_single(n),
                    None => None,
                },
            ),
        ),
        DataType::Float64 => Ok(
            ScalarValue::Float64(
                match value {
                    Some(n) => wire::int_to_double(n),
                    None => None,
                },
            ),
        ),
        DataType::Timestamp(unit, _) => {
            let scaled = match value {
                Some(n) => Some(
                    match *unit {
                        TimeUnit::Second => n,
                        TimeUnit::Millisecond => n * 1_000,
                        TimeUnit::Microsecond => n * 1_000_000,
                        TimeUnit::Nanosecond => n * 1_000_000_000,
                    },
                ),
                None => None,
            };
            Ok(make_timestamp(*unit, scaled, None))
        },
        _ => Err(Error::CannotCoerce { source: CoerceSource::Integer, target: target.copy() }),
    }
}

/// The integer that a floating-point number is, if it is one.
pub open spec fn whole_number(f: FloatValue, target: DataTypeV) -> Result<i64, ErrorV> {
    if !f.finite {
        Err(ErrorV::NotFinite { target })
    } else if !f.is_whole {
        Err(ErrorV::OutOfRange { source: NumberSource::Float, value: f.whole, target })
    } else {
        Ok(f.whole)
    }
}

fn checked_float_cast(f: FloatValue, target: &DataType) -> (r: Result<i64, Error>)
    ensures
        match r {
            Ok(n) => whole_number(f, target@) == Ok::<i64, ErrorV>(n),
            Err(e) => whole_number(f, target@) == Err::<i64, ErrorV>(e@),
        },
{
    if !f.finite {
        Err(Error::NotFinite { target: target.copy() })
    } else if !f.is_whole {
        Err(out_of_range_error(NumberSource::Float, f.whole, target))
    } else {
        Ok(f.whole)
    }
}

/// The value of the target type that a floating-point number becomes.
pub open spec fn float_scalar(value: Option<FloatValue>, target: DataTypeV) -> Result<
    ScalarV,
    ErrorV,
> {
    match target {
        DataTypeV::Int8 => match value {
            None => Ok(ScalarV::Int8(None)),
            Some(f) => match whole_number(f, target) {
                Ok(n) => if i8::MIN <= n <= i8::MAX {
                    Ok(ScalarV::Int8(Some(n as i8)))
                } else {
                    Err(ErrorV::OutOfRange { source: NumberSource::Float, value: n, target })
                },
                Err(e) => Err(e),
            },
        },
        DataTypeV::Int16 => match value {
            None => Ok(ScalarV::Int16(None)),
            Some(f) => match whole_number(f, target) {
                Ok(n) => if i16::MIN <= n <= i16::MAX {
                    Ok(ScalarV::Int16(Some(n as i16)))
                } else {
                    Err(ErrorV::OutOfRange { source: NumberSource::Float, value: n, target })
                },
                Err(e) => Err(e),
            },
        },
        DataTypeV::Int32 => match value {
            None => Ok(ScalarV::Int32(None)),
            Some(f) => match whole_number(f, target) {
                Ok(n) => if i32::MIN <= n <= i32::MAX {
                    Ok(ScalarV::Int32(Some(n as i32)))
                } else {
                    Err(ErrorV::OutOfRange { source: NumberSource::Float, value: n, target })
                },
                Err(e) => Err(e),
            },
        },
        DataTypeV::Int64 => match value {
            None => Ok(ScalarV::Int64(None)),
            Some(f) => match whole_number(f, target) {
                Ok(n) => if i64::MIN <= n <= i64::MAX {
                    Ok(ScalarV::Int64(Some(n as i64)))
                } else {
                    Err(ErrorV::OutOfRange { source: NumberSource::Float, value: n, target })
                },
                Err(e) => Err(e),
            },
        },
        DataTypeV::UInt8 => match value {
            None => Ok(ScalarV::UInt8(None)),
            Some(f) => match whole_number(f, target) {
                Ok(n) => if u8::MIN <= n <= u8::MAX {
                    Ok(ScalarV::UInt8(Some(n as u8)))
                } else {
                    Err(ErrorV::OutOfRange { source: NumberSource::Float, value: n, target })
                },
                Err(e) => Err(e),
            },
        },
        DataTypeV::UInt16 => match value {
            None => Ok(ScalarV::UInt16(None)),
            Some(f) => match whole_number(f, target) {
                Ok(n) => if u16::MIN <= n <= u16::MAX {
                    Ok(ScalarV::UInt16(Some(n as u16)))
                } else {
                    Err(ErrorV::OutOfRange { source: NumberSource::Float, value: n, target })
                },
                Err(e) => Err(e),
            },
        },
        DataTypeV::UInt32 => match value {
            None => Ok(ScalarV::UInt32(None)),
            Some(f) => match whole_number(f, target) {
                Ok(n) => if u32::MIN <= n <= u32::MAX {
                    Ok(ScalarV::UInt32(Some(n as u32)))
                } else {
                    Err(ErrorV::OutOfRange { source: NumberSource::Float, value: n, target })
                },
                Err(e) => Err(e),
            },
        },
        DataTypeV::UInt64 => match value {
            None => Ok(ScalarV::UInt64(None)),
            Some(f) => match whole_number(f, target) {
                Ok(n) => if u64::MIN <= n <= u64::MAX {
                    Ok(ScalarV::UInt64(Some(n as u64)))
                } else {
                    Err(ErrorV::OutOfRange { source: NumberSource::Float, value: n, target })
                },
                Err(e) => Err(e),
            },
        },
        DataTypeV::Float32 => Ok(ScalarV::Float32(single_bits(value))),
        DataTypeV::Float64 => Ok(ScalarV::Float64(double_bits(value))),
        _ => Err(ErrorV::CannotCoerce { source: CoerceSource::Float, target }),
    }
}

/// The bits of a number in single precision.
pub open spec fn single_bits(value: Option<FloatValue>) -> Option<u32> {
    match value {
        Some(f) => Some(f.single_bits),
        None => None,
    }
}

/// The bits of a number in double precision.
pub open spec fn double_bits(value: Option<FloatValue>) -> Option<u64> {
    match value {
        Some(f) => Some(f.bits),
        None => None,
    }
}

fn to_single_bits(value: Option<FloatValue>) -> (r: Option<u32>)
    ensures
        r == single_bits(value),
{
    match value {
        Some(f) => Some(f.single_bits),
        None => None,
    }
}

fn to_double_bits(value: Option<FloatValue>) -> (r: Option<u64>)
    ensures
        r == double_bits(value),
{
    match value {
        Some(f) => Some(f.bits),
        None => None,
    }
}

/// Turns a floating-point number into a value of the target type.
pub fn coerce_float_value(value: Option<FloatValue>, target: &DataType) -> (r: Result<
    ScalarValue,
    Error,
>)
    ensures
        scalar_result(r) == float_scalar(value, target@),
{
    match target {
        DataType::Int8 => match value {
            None => Ok(ScalarValue::Int8(None)),
            Some(f) => match checked_float_cast(f, target) {
                Ok(n) => if n >= i8::MIN as i64 && n <= i8::MAX as i64 {
                    Ok(ScalarValue::Int8(Some(n as i8)))
                } else {
                    Err(out_of_range_error(NumberSource::Float, n, target))
                },
                Err(e) => Err(e),
            },
        },
        DataType::Int16 => match value {
            None => Ok(ScalarValue::Int16(None)),
            Some(f) => match checked_float_cast(f, target) {
                Ok(n) => if n >= i16::MIN as i64 && n <= i16::MAX as i64 {
                    Ok(ScalarValue::Int16(Some(n as i16)))
                } else {
                    Err(out_of_range_error(NumberSource::Float, n, target))
                },
                Err(e) => Err(e),
            },
        },
        DataType::Int32 => match value {
            None => Ok(ScalarValue::Int32(None)),
            Some(f) => match checked_float_cast(f, target) {
                Ok(n) => if n >= i32::MIN as i64 && n <= i32::MAX as i64 {
                    Ok(ScalarValue::Int32(Some(n as i32)))
                } else {
                    Err(out_of_range_error(NumberSource::Float, n, target))
                },
                Err(e) => Err(e),
            },
        },
        DataType::Int64 => match value {
            None => Ok(ScalarValue::Int64(None)),
            Some(f) => match checked_float_cast(f, target) {
                Ok(n) => Ok(ScalarValue::Int64(Some(n))),
                Err(e) => Err(e),
            },
        },
        DataType::UInt8 => match value {
            None => Ok(ScalarValue::UInt8(None)),
            Some(f) => match checked_float_cast(f, target) {
                Ok(n) => if n >= 0 && n <= u8::MAX as i64 {
                    Ok(ScalarValue::UInt8(Some(n as u8)))
                } else {
                    Err(out_of_range_error(NumberSource::Float, n, target))
                },
                Err(e) => Err(e),
            },
        },
        DataType::UInt16 => match value {
            None => Ok(ScalarValue::UInt16(None)),
            Some(f) => match checked_float_cast(f, target) {
                Ok(n) => if n >= 0 && n <= u16::MAX as i64 {
                    Ok(ScalarValue::UInt16(Some(n as u16)))
                } else {
                    Err(out_of_range_error(NumberSource::Float, n, target))
                },
                Err(e) => Err(e),
            },
        },
        DataType::UInt32 => match value {
            None => Ok(ScalarValue::UInt32(None)),
            Some(f) => match checked_float_cast(f, target) {
                Ok(n) => if n >= 0 && n <= u32::MAX as i64 {
                    Ok(ScalarValue::UInt32(Some(n as u32)))
                } else {
                    Err(out_of_range_error(NumberSource::Float, n, target))
                },
                Err(e) => Err(e),
            },
        },
        DataType::UInt64 => match value {
            None => Ok(ScalarValue::UInt64(None)),
            Some(f) => match checked_float_cast(f, target) {
                Ok(n) => if n >= 0 {
                    Ok(ScalarValue::UInt64(Some(n as u64)))
                } else {
                    Err(out_of_range_error(NumberSource::Float, n, target))
                },
                Err(e) => Err(e),
            },
        },
        DataType::Float32 => Ok(ScalarValue::Float32(to_single_bits(value))),
        DataType::Float64 => Ok(ScalarValue::Float64(to_double_bits(value))),
        _ => Err(Error::CannotCoerce { source: CoerceSource::Float, target: target.copy() }),
    }
}

/// The nanoseconds since 1970 of a time, where they fit 64 bits.
pub open spec fn nanos_since_epoch(t: UtcTime) -> Option<i64> {
    let seconds: int = if t.seconds < 0 {
        t.seconds + 1
    } else {
        t.seconds as int
    };
    let nanos: int = if t.seconds < 0 {
        t.nanos - 1_000_000_000
    } else {
        t.nanos as int
    };
    if i64::MIN <= seconds * 1_000_000_000 <= i64::MAX && i64::MIN <= seconds * 1_000_000_000
        + nanos <= i64::MAX {
        Some((seconds * 1_000_000_000 + nanos) as i64)
    } else {
        None
    }
}

/// The time since 1970 of a time in a unit. The nanoseconds of a time far away do
/// not fit 64 bits.
pub open spec fn since_epoch(t: UtcTime, unit: TimeUnit) -> Option<i64> {
    match unit {
        TimeUnit::Second => Some(t.seconds),
        TimeUnit::Millisecond => Some((t.seconds * 1_000 + t.nanos / 1_000_000) as i64),
        TimeUnit::Microsecond => Some((t.seconds * 1_000_000 + t.nanos / 1_000) as i64),
        TimeUnit::Nanosecond => nanos_since_epoch(t),
    }
}

/// The time since 1970 of an optional time in a unit.
pub open spec fn opt_since_epoch(t: Option<UtcTime>, unit: TimeUnit) -> Option<i64> {
    match t {
        Some(t) => since_epoch(t, unit),
        None => None,
    }
}

fn time_since_epoch(t: Option<UtcTime>, unit: TimeUnit) -> (r: Option<i64>)
    requires
        t matches Some(t) ==> t.valid(),
    ensures
        r == opt_since_epoch(t, unit),
{
    let t = match t {
        Some(t) => t,
        None => {
            return None;
        },
    };
    match unit {
        TimeUnit::Second => Some(t.seconds),
        TimeUnit::Millisecond => Some(t.seconds * 1_000 + (t.nanos / 1_000_000) as i64),
        TimeUnit::Microsecond => Some(t.seconds * 1_000_000 + (t.nanos / 1_000) as i64),
        TimeUnit::Nanosecond => {
            let seconds: i64 = if t.seconds < 0 {
                t.seconds + 1
            } else {
                t.seconds
            };
            let nanos: i64 = if t.seconds < 0 {
                t.nanos as i64 - 1_000_000_000
            } else {
                t.nanos as i64
            };
            match seconds.checked_mul(1_000_000_000) {
                Some(whole) => whole.checked_add(nanos),
                None => None,
            }
        },
    }
}

/// The value of the target type that a timestamp without time zone becomes.
pub open spec fn timestamp_value(value: Option<UtcTime>, target: DataTypeV) -> Result<
    ScalarV,
    ErrorV,
> {
    match target {
        DataTypeV::Timestamp(unit, _) => Ok(
            timestamp_scalar(unit, opt_since_epoch(value, unit), None),
        ),
        _ => Err(ErrorV::CannotCoerce { source: CoerceSource::Timestamp, target }),
    }
}

/// Turns a timestamp without time zone into a value of the target type.
pub fn coerce_timestamp_value(value: Option<UtcTime>, target: &DataType) -> (r: Result<
    ScalarValue,
    Error,
>)
    requires
        value matches Some(t) ==> t.valid(),
    ensures
        scalar_result(r) == timestamp_value(value, target@),
{
    match target {
        DataType::Timestamp(unit, _) => Ok(
            make_timestamp(*unit, time_since_epoch(value, *unit), None),
        ),
        _ => Err(Error::CannotCoerce { source: CoerceSource::Timestamp, target: target.copy() }),
    }
}

/// The value of the target type that a timestamp with time zone becomes. It has
/// the time zone of the target type.
pub open spec fn timestamptz_value(value: Option<UtcTime>, target: DataTypeV) -> Result<
    ScalarV,
    ErrorV,
> {
    match target {
        DataTypeV::Timestamp(unit, tz) => Ok(
            timestamp_scalar(unit, opt_since_epoch(value, unit), tz),
        ),
        _ => Err(ErrorV::CannotCoerce { source: CoerceSource::TimestampTz, target }),
    }
}

/// Turns a timestamp with time zone into a value of the target type.
pub fn coerce_timestamptz_value(value: Option<UtcTime>, target: &DataType) -> (r: Result<
    ScalarValue,
    Error,
>)
    requires
        value matches Some(t) ==> t.valid(),
    ensures
        scalar_result(r) == timestamptz_value(value, target@),
{
    match target {
        DataType::Timestamp(unit, tz) => Ok(
            make_timestamp(*unit, time_since_epoch(value, *unit), schema::copy_opt_text(tz)),
        ),
        _ => Err(Error::CannotCoerce { source: CoerceSource::TimestampTz, target: target.copy() }),
    }
}

/// True when the nanoseconds of an interval do not fit 64 bits.
pub open spec fn nanos_overflow(value: Option<Interval>) -> bool {
    value matches Some(i) && !(i64::MIN <= i.microseconds * 1_000 <= i64::MAX)
}

/// An interval as months, days and nanoseconds.
pub open spec fn month_day_nano(value: Option<Interval>) -> ScalarV {
    ScalarV::IntervalMonthDayNano(
        match value {
            Some(i) => Some((i.months, i.days, (i.microseconds * 1_000) as i64)),
            None => None,
        },
    )
}

fn to_month_day_nano(value: Option<Interval>) -> (r: ScalarValue)
    requires
        !nanos_overflow(value),
    ensures
        r@ == month_day_nano(value),
{
    ScalarValue::IntervalMonthDayNano(
        match value {
            Some(i) => Some((i.months, i.days, i.microseconds * 1_000)),
            None => None,
        },
    )
}

/// True of the types that an interval becomes months, days and nanoseconds for.
pub open spec fn takes_nanos(target: DataTypeV) -> bool {
    target == DataTypeV::Interval(IntervalUnit::MonthDayNano) || target is Duration
}

/// The value of the target type that an interval becomes.
pub open spec fn interval_value(value: Option<Interval>, target: DataTypeV) -> Result<
    ScalarV,
    ErrorV,
> {
    if takes_nanos(target) {
        Ok(month_day_nano(value))
    } else {
        match target {
            DataTypeV::Interval(IntervalUnit::YearMonth) => match value {
                Some(i) => if i.days != 0 || i.microseconds != 0 {
                    Err(ErrorV::IntervalHasDays)
                } else {
                    Ok(ScalarV::IntervalYearMonth(Some(i.months)))
                },
                None => Ok(ScalarV::IntervalYearMonth(None)),
            },
            DataTypeV::Interval(IntervalUnit::DayTime) => match value {
                Some(i) => if i.months != 0 {
                    Err(ErrorV::IntervalHasMonths)
                } else if i.microseconds as int % 1_000 != 0 {
                    Err(ErrorV::IntervalTooPrecise)
                } else {
                    Ok(
                        ScalarV::IntervalDayTime(
                            Some((i.days, (i.microseconds as int / 1_000) as i32)),
                        ),
                    )
                },
                None => Ok(ScalarV::IntervalDayTime(None)),
            },
            _ => Err(ErrorV::CannotCoerce { source: CoerceSource::Interval, target }),
        }
    }
}

/// Turns an interval into a value of the target type.
pub fn coerce_interval_value(value: Option<Interval>, target: &DataType) -> (r: Result<
    ScalarValue,
    Error,
>)
    requires
        takes_nanos(target@) ==> !nanos_overflow(value),
    ensures
        scalar_result(r) == interval_value(value, target@),
{
    match target {
        DataType::Interval(IntervalUnit::YearMonth) => match value {
            Some(i) => if i.days != 0 || i.microseconds != 0 {
                Err(Error::IntervalHasDays)
            } else {
                Ok(ScalarValue::IntervalYearMonth(Some(i.months)))
            },
            None => Ok(ScalarValue::IntervalYearMonth(None)),
        },
        DataType::Interval(IntervalUnit::DayTime) => match value {
            Some(i) => {
                if i.months != 0 {
                    return Err(Error::IntervalHasMonths);
                }
                if i.microseconds % 1_000 != 0 {
                    return Err(Error::IntervalTooPrecise);
                }
                let millis: i64 = i.microseconds / 1_000;
                assert(millis == i.microseconds as int / 1_000);
                Ok(ScalarValue::IntervalDayTime(Some((i.days, millis as i32))))
            },
            None => Ok(ScalarValue::IntervalDayTime(None)),
        },
        DataType::Interval(IntervalUnit::MonthDayNano) | DataType::Duration(_) => Ok(
            to_month_day_nano(value),
        ),
        _ => Err(Error::CannotCoerce { source: CoerceSource::Interval, target: target.copy() }),
    }
}

} // verus!
