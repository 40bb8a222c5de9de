//! What the decoding of parameters is for: laws over what a parameter holds and the value
//! that it becomes.
use crate::datatypes;
use crate::datatypes::{Builtin, Type, TypeV};
use crate::errors::{CoerceSource, ErrorV, Malformed, NumberSource};
use crate::params;
use crate::params::{BoundV, DecodedV, Portal};
use crate::scalar;
use crate::scalar::ScalarV;
use crate::schema;
use crate::schema::{DataType, DataTypeV, IntervalUnit, TimeUnit};
use crate::text;
use crate::text_laws;
use crate::wire;
use crate::wire::{Decimal, Interval, TimeOfDay, UtcTime};
use vstd::prelude::*;

verus! {

/// The type of a value that is no list.
pub open spec fn scalar_type(v: ScalarV) -> Option<DataTypeV> {
    match v {
        ScalarV::Null => Some(DataTypeV::Null),
        ScalarV::Boolean(_) => Some(DataTypeV::Boolean),
        ScalarV::Int8(_) => Some(DataTypeV::Int8),
        ScalarV::Int16(_) => Some(DataTypeV::Int16),
        ScalarV::Int32(_) => Some(DataTypeV::Int32),
        ScalarV::Int64(_) => Some(DataTypeV::Int64),
        ScalarV::UInt8(_) => Some(DataTypeV::UInt8),
        ScalarV::UInt16(_) => Some(DataTypeV::UInt16),
        ScalarV::UInt32(_) => Some(DataTypeV::UInt32),
        ScalarV::UInt64(_) => Some(DataTypeV::UInt64),
        ScalarV::Date32(_) => Some(DataTypeV::Date32),
        ScalarV::Time32Second(_) => Some(DataTypeV::Time32(TimeUnit::Second)),
        ScalarV::Time32Millisecond(_) => Some(DataTypeV::Time32(TimeUnit::Millisecond)),
        ScalarV::Time64Microsecond(_) => Some(DataTypeV::Time64(TimeUnit::Microsecond)),
        ScalarV::Time64Nanosecond(_) => Some(DataTypeV::Time64(TimeUnit::Nanosecond)),
        ScalarV::IntervalYearMonth(_) => Some(DataTypeV::Interval(IntervalUnit::YearMonth)),
        ScalarV::IntervalDayTime(_) => Some(DataTypeV::Interval(IntervalUnit::DayTime)),
        ScalarV::IntervalMonthDayNano(_) => Some(DataTypeV::Interval(IntervalUnit::MonthDayNano)),
        ScalarV::Float32(_) => Some(DataTypeV::Float32),
        ScalarV::Float64(_) => Some(DataTypeV::Float64),
        ScalarV::Utf8(_) => Some(DataTypeV::Utf8),
        ScalarV::LargeUtf8(_) => Some(DataTypeV::LargeUtf8),
        ScalarV::Utf8View(_) => Some(DataTypeV::Utf8View),
        ScalarV::Binary(_) => Some(DataTypeV::Binary),
        ScalarV::Decimal128(_, p, s) => Some(DataTypeV::Decimal128(p, s)),
        ScalarV::TimestampSecond(_, tz) => Some(DataTypeV::Timestamp(TimeUnit::Second, tz)),
        ScalarV::TimestampMillisecond(_, tz) => Some(
            DataTypeV::Timestamp(TimeUnit::Millisecond, tz),
        ),
        ScalarV::TimestampMicrosecond(_, tz) => Some(
            DataTypeV::Timestamp(TimeUnit::Microsecond, tz),
        ),
        ScalarV::TimestampNanosecond(_, tz) => Some(
            DataTypeV::Timestamp(TimeUnit::Nanosecond, tz),
        ),
        _ => None,
    }
}

/// The integer that a value of an integer type is, or that counts the units of a time.
pub open spec fn count_of(v: ScalarV) -> Option<int> {
    match v {
        ScalarV::Int8(Some(n)) => Some(n as int),
        ScalarV::Int16(Some(n)) => Some(n as int),
        ScalarV::Int32(Some(n)) => Some(n as int),
        ScalarV::Int64(Some(n)) => Some(n as int),
        ScalarV::UInt8(Some(n)) => Some(n as int),
        ScalarV::UInt16(Some(n)) => Some(n as int),
        ScalarV::UInt32(Some(n)) => Some(n as int),
        ScalarV::UInt64(Some(n)) => Some(n as int),
        ScalarV::Time32Second(Some(n)) => Some(n as int),
        ScalarV::Time32Millisecond(Some(n)) => Some(n as int),
        ScalarV::Time64Microsecond(Some(n)) => Some(n as int),
        ScalarV::Time64Nanosecond(Some(n)) => Some(n as int),
        ScalarV::TimestampSecond(Some(n), _) => Some(n as int),
        ScalarV::TimestampMillisecond(Some(n), _) => Some(n as int),
        ScalarV::TimestampMicrosecond(Some(n), _) => Some(n as int),
        ScalarV::TimestampNanosecond(Some(n), _) => Some(n as int),
        _ => None,
    }
}

/// The least and the greatest number of an integer type.
pub open spec fn range_of(t: DataTypeV) -> Option<(int, int)> {
    match t {
        DataTypeV::Int8 => Some((-128, 127)),
        DataTypeV::Int16 => Some((-32_768, 32_767)),
        DataTypeV::Int32 => Some((-2_147_483_648, 2_147_483_647)),
        DataTypeV::Int64 => Some((-9_223_372_036_854_775_808, 9_223_372_036_854_775_807)),
        DataTypeV::UInt8 => Some((0, 255)),
        DataTypeV::UInt16 => Some((0, 65_535)),
        DataTypeV::UInt32 => Some((0, 4_294_967_295)),
        DataTypeV::UInt64 => Some((0, 18_446_744_073_709_551_615)),
        _ => None,
    }
}

/// The nanoseconds of a unit of time.
pub open spec fn nanos_per(unit: TimeUnit) -> int {
    match unit {
        TimeUnit::Second => 1_000_000_000,
        TimeUnit::Millisecond => 1_000_000,
        TimeUnit::Microsecond => 1_000,
        TimeUnit::Nanosecond => 1,
    }
}

/// The number that an integer parameter holds, where it is not null and can be read.
pub open spec fn held_int(b: Builtin, p: BoundV) -> Option<int> {
    match b {
        Builtin::INT2 => match wire::i16_of(p.binary, p.raw) {
            Some(Some(n)) => Some(n as int),
            _ => None,
        },
        Builtin::INT4 => match wire::i32_of(p.binary, p.raw) {
            Some(Some(n)) => Some(n as int),
            _ => None,
        },
        Builtin::INT8 => match wire::i64_of(p.binary, p.raw) {
            Some(Some(n)) => Some(n as int),
            _ => None,
        },
        _ => None,
    }
}

/// True of the values of a type that are a given number, and of the error of a number that
/// the type has not.
pub open spec fn is_number(
    r: Result<Option<ScalarV>, ErrorV>,
    t: DataTypeV,
    n: int,
    source: NumberSource,
) -> bool {
    match range_of(t) {
        Some((lo, hi)) => if lo <= n <= hi {
            r matches Ok(Some(v)) && scalar_type(v) == Some(t) && count_of(v) == Some(n)
        } else {
            r matches Err(ErrorV::OutOfRange { source: s, value, target }) && s == source && value
                == n && target == t
        },
        None => false,
    }
}

/// An integer parameter becomes the same number in the integer type that is inferred for
/// it, and in its own type where none is. A number that the inferred type has not is an
/// error.
pub proof fn law_integers_keep_their_number(b: Builtin, p: BoundV, t: DataTypeV)
    requires
        held_int(b, p) is Some,
        range_of(t) is Some,
    ensures
        is_number(
            params::param_value(TypeV::Builtin(b), p, Some(t)),
            t,
            held_int(b, p)->0,
            NumberSource::Int,
        ),
        is_number(
            params::param_value(TypeV::Builtin(b), p, None),
            match b {
                Builtin::INT2 => DataTypeV::Int16,
                Builtin::INT4 => DataTypeV::Int32,
                _ => DataTypeV::Int64,
            },
            held_int(b, p)->0,
            NumberSource::Int,
        ),
{
}

/// An array of truth values becomes a list of the same truth values, nulls included.
pub proof fn law_bool_arrays_keep_their_items(b: Builtin, p: BoundV, inferred: Option<DataTypeV>)
    requires
        p.raw is Some,
        b is BOOL_ARRAY,
    ensures
        match wire::wire_bools_value(1000, p.binary, p.raw) {
            Some(Some(held)) => params::param_value(TypeV::Builtin(b), p, inferred) matches Ok(
                Some(ScalarV::List(items, item)),
            ) && item == DataTypeV::Boolean && items.len() == held.len() && forall|i: int|
                0 <= i < held.len() ==> match held[i] {
                    Some(x) => #[trigger] items[i] == ScalarV::Boolean(Some(x)),
                    None => items[i] == ScalarV::Boolean(None),
                },
            Some(None) => params::param_value(TypeV::Builtin(b), p, inferred) == Ok::<_, ErrorV>(
                Some(ScalarV::NullList(DataTypeV::Boolean)),
            ),
            None => params::param_value(TypeV::Builtin(b), p, inferred) == Err::<
                Option<ScalarV>,
                ErrorV,
            >(ErrorV::Wire),
        },
{
}

/// An array of 16-bit integers becomes a list of the same integers, nulls included.
pub proof fn law_int2_arrays_keep_their_items(b: Builtin, p: BoundV, inferred: Option<DataTypeV>)
    requires
        p.raw is Some,
        b is INT2_ARRAY,
    ensures
        match wire::wire_i16s_value(1005, p.binary, p.raw) {
            Some(Some(held)) => params::param_value(TypeV::Builtin(b), p, inferred) matches Ok(
                Some(ScalarV::List(items, item)),
            ) && item == DataTypeV::Int16 && items.len() == held.len() && forall|i: int|
                0 <= i < held.len() ==> match held[i] {
                    Some(x) => #[trigger] items[i] == ScalarV::Int16(Some(x)),
                    None => items[i] == ScalarV::Int16(None),
                },
            Some(None) => params::param_value(TypeV::Builtin(b), p, inferred) == Ok::<_, ErrorV>(
                Some(ScalarV::NullList(DataTypeV::Int16)),
            ),
            None => params::param_value(TypeV::Builtin(b), p, inferred) == Err::<
                Option<ScalarV>,
                ErrorV,
            >(ErrorV::Wire),
        },
{
}

/// An array of 32-bit integers becomes a list of the same integers, nulls included.
pub proof fn law_int4_arrays_keep_their_items(b: Builtin, p: BoundV, inferred: Option<DataTypeV>)
    requires
        p.raw is Some,
        b is INT4_ARRAY,
    ensures
        match wire::wire_i32s_value(1007, p.binary, p.raw) {
            Some(Some(held)) => params::param_value(TypeV::Builtin(b), p, inferred) matches Ok(
                Some(ScalarV::List(items, item)),
            ) && item == DataTypeV::Int32 && items.len() == held.len() && forall|i: int|
                0 <= i < held.len() ==> match held[i] {
                    Some(x) => #[trigger] items[i] == ScalarV::Int32(Some(x)),
                    None => items[i] == ScalarV::Int32(None),
                },
            Some(None) => params::param_value(TypeV::Builtin(b), p, inferred) == Ok::<_, ErrorV>(
                Some(ScalarV::NullList(DataTypeV::Int32)),
            ),
            None => params::param_value(TypeV::Builtin(b), p, inferred) == Err::<
                Option<ScalarV>,
                ErrorV,
            >(ErrorV::Wire),
        },
{
}

/// An array of 64-bit integers becomes a list of the same integers, nulls included.
pub proof fn law_int8_arrays_keep_their_items(b: Builtin, p: BoundV, inferred: Option<DataTypeV>)
    requires
        p.raw is Some,
        b is INT8_ARRAY,
    ensures
        match wire::wire_i64s_value(1016, p.binary, p.raw) {
            Some(Some(held)) => params::param_value(TypeV::Builtin(b), p, inferred) matches Ok(
                Some(ScalarV::List(items, item)),
            ) && item == DataTypeV::Int64 && items.len() == held.len() && forall|i: int|
                0 <= i < held.len() ==> match held[i] {
                    Some(x) => #[trigger] items[i] == ScalarV::Int64(Some(x)),
                    None => items[i] == ScalarV::Int64(None),
                },
            Some(None) => params::param_value(TypeV::Builtin(b), p, inferred) == Ok::<_, ErrorV>(
                Some(ScalarV::NullList(DataTypeV::Int64)),
            ),
            None => params::param_value(TypeV::Builtin(b), p, inferred) == Err::<
                Option<ScalarV>,
                ErrorV,
            >(ErrorV::Wire),
        },
{
}

/// An array of texts becomes a list of the same texts, nulls included: a null is no text.
pub proof fn law_text_arrays_keep_their_items(b: Builtin, p: BoundV, inferred: Option<DataTypeV>)
    requires
        p.raw is Some,
        b is TEXT_ARRAY || b is VARCHAR_ARRAY,
    ensures
        match wire::wire_strings_value(
            if b is TEXT_ARRAY {
                1009
            } else {
                1015
            },
            p.binary,
            p.raw,
        ) {
            Some(Some(held)) => params::param_value(TypeV::Builtin(b), p, inferred) matches Ok(
                Some(ScalarV::List(items, item)),
            ) && item == DataTypeV::Utf8 && items.len() == held.len() && forall|i: int|
                0 <= i < held.len() ==> match held[i] {
                    Some(x) => #[trigger] items[i] == ScalarV::Utf8(Some(x)),
                    None => items[i] == ScalarV::Utf8(None),
                },
            Some(None) => params::param_value(TypeV::Builtin(b), p, inferred) == Ok::<_, ErrorV>(
                Some(ScalarV::NullList(DataTypeV::Utf8)),
            ),
            None => params::param_value(TypeV::Builtin(b), p, inferred) == Err::<
                Option<ScalarV>,
                ErrorV,
            >(ErrorV::Wire),
        },
{
}

/// An array of floating-point numbers becomes a list of the same numbers, in the precision
/// of its type, nulls included.
pub proof fn law_float_arrays_keep_their_items(
    b: Builtin,
    p: BoundV,
    inferred: Option<DataTypeV>,
)
    requires
        p.raw is Some,
        p.decoded is Some,
        p.decoded->0 is Floats,
        b is FLOAT4_ARRAY || b is FLOAT8_ARRAY,
    ensures
        params::param_value(TypeV::Builtin(b), p, inferred) matches Ok(
            Some(ScalarV::List(items, item)),
        ) && items.len() == p.decoded->0->Floats_0.len() && item == (if b is FLOAT4_ARRAY {
            DataTypeV::Float32
        } else {
            DataTypeV::Float64
        }) && forall|i: int|
            0 <= i < items.len() ==> match p.decoded->0->Floats_0[i] {
                Some(f) => #[trigger] items[i] == (if b is FLOAT4_ARRAY {
                    ScalarV::Float32(Some(f.single_bits))
                } else {
                    ScalarV::Float64(Some(f.bits))
                }),
                None => scalar::is_null(items[i]) && scalar_type(items[i]) == Some(item),
            },
{
}

/// The intervals that an array holds: in binary form and in plain text as the wire protocol
/// reads them, and in other texts as they are decoded.
pub open spec fn held_intervals(p: BoundV) -> Option<Seq<Option<Interval>>> {
    match p.raw {
        Some(b) => if p.binary && wire::long_elements(b) || !p.binary
            && wire::is_plain_interval_text(b) {
            match wire::wire_intervals_value(1187, p.binary, p.raw) {
                Some(Some(v)) => Some(v),
                _ => None,
            }
        } else if !p.binary {
            match p.decoded {
                Some(DecodedV::Intervals(v)) => Some(v),
                _ => None,
            }
        } else {
            None
        },
        None => None,
    }
}

/// An array of intervals becomes a list of the same intervals, nulls included, unless the
/// nanoseconds of one do not fit.
pub proof fn law_interval_arrays_keep_their_items(p: BoundV, inferred: Option<DataTypeV>)
    requires
        held_intervals(p) is Some,
    ensures
        ({
            let held = held_intervals(p)->0;
            let fits = forall|i: int|
                0 <= i < held.len() ==> ((#[trigger] held[i]) matches Some(x) ==> i64::MIN
                    <= x.microseconds * 1_000 <= i64::MAX);
            let r = params::param_value(TypeV::Builtin(Builtin::INTERVAL_ARRAY), p, inferred);
            let item = DataTypeV::Interval(IntervalUnit::MonthDayNano);
            &&& fits <==> r is Ok
            &&& !fits ==> r == Err::<Option<ScalarV>, ErrorV>(ErrorV::Overflow { target: item })
            &&& r matches Ok(v) ==> v matches Some(ScalarV::List(items, t)) && t == item
                && items.len() == held.len() && forall|i: int|
                0 <= i < held.len() ==> is_month_day_nano(#[trigger] items[i], held[i])
        }),
{
    let held = held_intervals(p)->0;
    if !params::any_overflow(held) {
        assert forall|i: int| 0 <= i < held.len() implies ((#[trigger] held[i]) matches Some(x)
            ==> i64::MIN <= x.microseconds * 1_000 <= i64::MAX) by {
            assert(!crate::coerce::nanos_overflow(held[i]));
        }
    }
}

/// True of the value in months, days and nanoseconds that stands for an interval.
pub open spec fn is_month_day_nano(v: ScalarV, held: Option<Interval>) -> bool {
    match (v, held) {
        (ScalarV::IntervalMonthDayNano(Some((months, days, nanos))), Some(x)) => months
            == x.months && days == x.days && nanos == x.microseconds * 1_000,
        (ScalarV::IntervalMonthDayNano(None), None) => true,
        _ => false,
    }
}

/// A number of seconds becomes the timestamp of that time since 1970, in any unit. One
/// whose count does not fit is an error.
pub proof fn law_integers_are_seconds(b: Builtin, p: BoundV, unit: TimeUnit, tz: Option<Seq<char>>)
    requires
        held_int(b, p) is Some,
    ensures
        ({
            let n = held_int(b, p)->0;
            let t = DataTypeV::Timestamp(unit, tz);
            let r = params::param_value(TypeV::Builtin(b), p, Some(t));
            let count = n * 1_000_000_000 / nanos_per(unit);
            if i64::MIN <= count <= i64::MAX {
                r matches Ok(Some(v)) && scalar_type(v) == Some(DataTypeV::Timestamp(unit, None))
                    && count_of(v) is Some && count_of(v)->0 * nanos_per(unit) == n
                    * 1_000_000_000
            } else {
                r == Err::<Option<ScalarV>, ErrorV>(ErrorV::Overflow { target: t })
            }
        }),
{
    let n = held_int(b, p)->0;
    assert(n * 1_000_000_000 / 1_000_000 == n * 1_000);
    assert(n * 1_000_000_000 / 1_000 == n * 1_000_000);
}

/// An integer parameter becomes the nearest number of a floating-point type, and nothing
/// else that is neither an integer nor a timestamp.
pub proof fn law_integers_and_other_types(b: Builtin, p: BoundV, t: DataTypeV)
    requires
        held_int(b, p) is Some,
        range_of(t) is None,
        !(t is Timestamp),
    ensures
        ({
            let n = held_int(b, p)->0 as i64;
            let r = params::param_value(TypeV::Builtin(b), p, Some(t));
            match t {
                DataTypeV::Float32 => r == Ok::<_, ErrorV>(
                    Some(ScalarV::Float32(Some(wire::int_f32_bits(n)))),
                ),
                DataTypeV::Float64 => r == Ok::<_, ErrorV>(
                    Some(ScalarV::Float64(Some(wire::int_f64_bits(n)))),
                ),
                _ => r == Err::<Option<ScalarV>, ErrorV>(
                    ErrorV::CannotCoerce { source: CoerceSource::Integer, target: t },
                ),
            }
        }),
{
}

/// A null number is a null of the type that is inferred for it.
pub proof fn law_null_numbers_have_the_inferred_type(b: Builtin, p: BoundV, t: DataTypeV)
    requires
        p.raw is None,
        b is INT2 || b is INT4 || b is INT8 || b is FLOAT4 || b is FLOAT8 || b is OID,
        range_of(t) is Some || t is Float32 || t is Float64,
    ensures
        params::param_value(TypeV::Builtin(b), p, Some(t)) matches Ok(Some(v)) && scalar_type(v)
            == Some(t) && scalar::is_null(v),
{
}

/// The type of a null of a Postgres type, where no type is inferred for it.
pub open spec fn null_type(b: Builtin) -> Option<DataTypeV> {
    match b {
        Builtin::BOOL => Some(DataTypeV::Boolean),
        Builtin::CHAR => Some(DataTypeV::Int8),
        Builtin::INT2 => Some(DataTypeV::Int16),
        Builtin::INT4 | Builtin::OID => Some(DataTypeV::Int32),
        Builtin::INT8 => Some(DataTypeV::Int64),
        Builtin::FLOAT4 => Some(DataTypeV::Float32),
        Builtin::FLOAT8 => Some(DataTypeV::Float64),
        Builtin::BYTEA => Some(DataTypeV::Binary),
        Builtin::DATE => Some(DataTypeV::Date32),
        Builtin::TIME => Some(DataTypeV::Time64(TimeUnit::Nanosecond)),
        Builtin::TIMESTAMP | Builtin::TIMESTAMPTZ => Some(
            DataTypeV::Timestamp(TimeUnit::Microsecond, None),
        ),
        Builtin::INTERVAL => Some(DataTypeV::Interval(IntervalUnit::MonthDayNano)),
        Builtin::NUMERIC => Some(DataTypeV::Decimal128(0, 0)),
        Builtin::TEXT | Builtin::VARCHAR => Some(DataTypeV::Utf8),
        _ => None,
    }
}

/// The item type of a null array of a Postgres type.
pub open spec fn null_item_type(b: Builtin) -> Option<DataTypeV> {
    match b {
        Builtin::BOOL_ARRAY => Some(DataTypeV::Boolean),
        Builtin::INT2_ARRAY => Some(DataTypeV::Int16),
        Builtin::INT4_ARRAY => Some(DataTypeV::Int32),
        Builtin::INT8_ARRAY => Some(DataTypeV::Int64),
        Builtin::FLOAT4_ARRAY => Some(DataTypeV::Float32),
        Builtin::FLOAT8_ARRAY => Some(DataTypeV::Float64),
        Builtin::TEXT_ARRAY | Builtin::VARCHAR_ARRAY => Some(DataTypeV::Utf8),
        Builtin::INTERVAL_ARRAY => Some(DataTypeV::Interval(IntervalUnit::MonthDayNano)),
        Builtin::NUMERIC_ARRAY => Some(DataTypeV::Decimal128(38, 0)),
        _ => None,
    }
}

/// A null is a null of its own type where no type is inferred for it, and a null array is a
/// null list of its items whatever is inferred for it. A null decimal or text has the type
/// that is inferred for it.
pub proof fn law_nulls_have_their_types(b: Builtin, p: BoundV, inferred: Option<DataTypeV>)
    requires
        p.raw is None,
    ensures
        ({
            let r = params::param_value(TypeV::Builtin(b), p, inferred);
            &&& inferred is None && null_type(b) is Some ==> (r matches Ok(Some(v))
                && scalar_type(v) == null_type(b) && scalar::is_null(v))
            &&& null_item_type(b) is Some ==> r == Ok::<_, ErrorV>(
                Some(ScalarV::NullList(null_item_type(b)->0)),
            )
            &&& (b is UUID || b is JSON || b is JSONB || b is INET || b is MACADDR)
                && wire::string_of(TypeV::Builtin(b), p.binary, p.raw) is Some ==> r == Ok::<
                _,
                ErrorV,
            >(Some(ScalarV::Utf8(None)))
            &&& b is NUMERIC && inferred is Some ==> (r matches Ok(Some(v)) ==> scalar_type(v)
                == inferred && scalar::is_null(v))
            &&& (b is TEXT || b is VARCHAR) && inferred == Some(DataTypeV::LargeUtf8) ==> r == Ok::<
                _,
                ErrorV,
            >(Some(ScalarV::LargeUtf8(None)))
            &&& (b is TIMESTAMP || b is TIMESTAMPTZ) && inferred is Some ==> (
            inferred->0 matches DataTypeV::Timestamp(unit, zone) ==> (r matches Ok(Some(v))
                && scalar::is_null(v) && scalar_type(v) == Some(
                DataTypeV::Timestamp(
                    unit,
                    if b is TIMESTAMP {
                        None
                    } else {
                        zone
                    },
                ),
            )))
        }),
{
}

/// What cannot be read is refused by the wire protocol, and so is money, for which there is
/// no decoding.
pub proof fn law_unreadable_values_are_errors(b: Builtin, p: BoundV, inferred: Option<DataTypeV>)
    requires
        ({
            ||| b is BOOL && wire::bool_of(p.binary, p.raw) is None
            ||| b is CHAR && wire::i8_of(p.binary, p.raw) is None
            ||| b is BYTEA && wire::bytes_of(p.binary, p.raw) is None
            ||| b is DATE && wire::date_of(p.binary, p.raw) is None
            ||| b is TIME && wire::time_of(p.binary, p.raw) is None
            ||| b is TIMESTAMP && wire::timestamp_of(p.binary, p.raw) is None
            ||| b is TIMESTAMPTZ && wire::timestamptz_of(p.binary, p.raw) is None
            ||| (b is TEXT || b is VARCHAR || b is UUID || b is JSON || b is JSONB || b is INET || b
                is MACADDR) && wire::string_of(TypeV::Builtin(b), p.binary, p.raw) is None
            ||| b is MONEY
        }),
    ensures
        params::param_value(TypeV::Builtin(b), p, inferred) == Err::<Option<ScalarV>, ErrorV>(
            ErrorV::Wire,
        ),
{
}

/// A number that has to be decoded with floating-point arithmetic and is not is an error,
/// and so is an array of such numbers.
pub proof fn law_undecoded_numbers_are_errors(b: Builtin, p: BoundV, inferred: Option<DataTypeV>)
    requires
        p.raw is Some,
        p.decoded is None,
        b is FLOAT4 || b is FLOAT8 || b is FLOAT4_ARRAY || b is FLOAT8_ARRAY || (b is INTERVAL
            || b is INTERVAL_ARRAY) && !p.binary && !wire::is_plain_interval_text(p.raw->0),
    ensures
        params::param_value(TypeV::Builtin(b), p, inferred) == Err::<Option<ScalarV>, ErrorV>(
            ErrorV::Malformed(Malformed::Undecoded),
        ),
{
}

/// The bytes of a parameter that cannot be read are an error, whatever is inferred for it.
pub proof fn law_unreadable_numbers_are_errors(b: Builtin, p: BoundV, inferred: Option<DataTypeV>)
    requires
        b is INT2 || b is INT4 || b is INT8,
        p.raw is Some,
        held_int(b, p) is None,
    ensures
        params::param_value(TypeV::Builtin(b), p, inferred) == Err::<Option<ScalarV>, ErrorV>(
            ErrorV::Wire,
        ),
{
}

/// A floating-point parameter keeps its bits where a floating-point type is inferred for
/// it, or none. Where an integer type is, it becomes the same number, if it is whole and
/// the type has it, and is an error otherwise.
pub proof fn law_floats_keep_their_number(b: Builtin, p: BoundV, t: DataTypeV)
    requires
        b is FLOAT4 || b is FLOAT8,
        p.raw is Some,
        p.decoded is Some,
        p.decoded->0 is Float,
    ensures
        ({
            let f = p.decoded->0->Float_0;
            let r = params::param_value(TypeV::Builtin(b), p, Some(t));
            let own = params::param_value(TypeV::Builtin(b), p, None);
            &&& b is FLOAT4 ==> own == Ok::<_, ErrorV>(Some(ScalarV::Float32(Some(f.single_bits))))
            &&& b is FLOAT8 ==> own == Ok::<_, ErrorV>(Some(ScalarV::Float64(Some(f.bits))))
            &&& t is Float32 ==> r == Ok::<_, ErrorV>(Some(ScalarV::Float32(Some(f.single_bits))))
            &&& t is Float64 ==> r == Ok::<_, ErrorV>(Some(ScalarV::Float64(Some(f.bits))))
            &&& range_of(t) is Some && f.finite && f.is_whole ==> is_number(
                r,
                t,
                f.whole as int,
                NumberSource::Float,
            )
            &&& range_of(t) is Some && !f.finite ==> r == Err::<Option<ScalarV>, ErrorV>(
                ErrorV::NotFinite { target: t },
            )
            &&& range_of(t) is Some && f.finite && !f.is_whole ==> r == Err::<
                Option<ScalarV>,
                ErrorV,
            >(ErrorV::OutOfRange { source: NumberSource::Float, value: f.whole, target: t })
            &&& range_of(t) is None && !(t is Float32) && !(t is Float64) ==> r == Err::<
                Option<ScalarV>,
                ErrorV,
            >(ErrorV::CannotCoerce { source: CoerceSource::Float, target: t })
        }),
{
}

/// A text parameter becomes the text that it holds, as a large text where that is inferred.
pub proof fn law_texts_are_kept(b: Builtin, p: BoundV, inferred: Option<DataTypeV>, s: Seq<char>)
    requires
        b is TEXT || b is VARCHAR || b is UUID || b is JSON || b is JSONB || b is INET || b
            is MACADDR,
        wire::string_of(TypeV::Builtin(b), p.binary, p.raw) == Some(Some(s)),
    ensures
        ({
            let r = params::param_value(TypeV::Builtin(b), p, inferred);
            let large = (b is TEXT || b is VARCHAR) && inferred == Some(DataTypeV::LargeUtf8);
            &&& large ==> r == Ok::<_, ErrorV>(Some(ScalarV::LargeUtf8(Some(s))))
            &&& !large ==> r == Ok::<_, ErrorV>(Some(ScalarV::Utf8(Some(s))))
        }),
{
}

/// Truth values, single bytes, bytes and dates become what they hold, whatever is inferred
/// for them.
pub proof fn law_plain_values_are_kept(p: BoundV, inferred: Option<DataTypeV>)
    ensures
        wire::bool_of(p.binary, p.raw) matches Some(v) ==> params::param_value(
            TypeV::Builtin(Builtin::BOOL),
            p,
            inferred,
        ) == Ok::<_, ErrorV>(Some(ScalarV::Boolean(v))),
        wire::i8_of(p.binary, p.raw) matches Some(v) ==> params::param_value(
            TypeV::Builtin(Builtin::CHAR),
            p,
            inferred,
        ) == Ok::<_, ErrorV>(Some(ScalarV::Int8(v))),
        wire::bytes_of(p.binary, p.raw) matches Some(v) ==> params::param_value(
            TypeV::Builtin(Builtin::BYTEA),
            p,
            inferred,
        ) == Ok::<_, ErrorV>(Some(ScalarV::Binary(v))),
        wire::date_of(p.binary, p.raw) matches Some(v) ==> params::param_value(
            TypeV::Builtin(Builtin::DATE),
            p,
            inferred,
        ) == Ok::<_, ErrorV>(Some(ScalarV::Date32(v))),
{
}

/// The decimal that a `numeric` holds, where it is not null and can be read.
pub open spec fn held_decimal(p: BoundV) -> Option<Decimal> {
    if p.binary && (p.raw matches Some(b) && wire::numeric_too_large(b)) {
        None
    } else {
        match (p.raw, wire::wire_decimal_value(1700, p.binary, p.raw)) {
            (Some(_), Some(Some(d))) => Some(d),
            _ => None,
        }
    }
}

/// The number before the point of a decimal, with its sign.
pub open spec fn whole_of(d: Decimal) -> int {
    if d.negative {
        -d.whole()
    } else {
        d.whole()
    }
}

/// A decimal keeps its digits and its scale where no type is inferred for it. Where an
/// integer of 32 or 64 bits is, it becomes the number before its point, or a null where
/// the type has no such number; a negative one is never unsigned. Where a decimal type is,
/// it gets the scale of the type. Other types it becomes only as a floating-point number.
pub proof fn law_decimals_keep_their_number(p: BoundV, t: DataTypeV)
    requires
        held_decimal(p) is Some,
        held_decimal(p)->0.valid(),
    ensures
        ({
            let d = held_decimal(p)->0;
            let numeric = TypeV::Builtin(Builtin::NUMERIC);
            let r = params::param_value(numeric, p, Some(t));
            &&& params::param_value(numeric, p, None) == Ok::<_, ErrorV>(
                Some(ScalarV::Decimal128OfDigits(d.mantissa, d.scale as i8)),
            )
            &&& t is Int32 || t is Int64 || t is UInt32 || t is UInt64 ==> {
                let range = range_of(t)->0;
                let held = range.0 <= whole_of(d) <= range.1 && !(d.negative && (t is UInt32 || t
                    is UInt64));
                r matches Ok(Some(v)) && scalar_type(v) == Some(t) && if held {
                    count_of(v) == Some(whole_of(d))
                } else {
                    scalar::is_null(v)
                }
            }
            &&& t matches DataTypeV::Decimal128(precision, scale) ==> r == Ok::<_, ErrorV>(
                Some(
                    ScalarV::Decimal128(
                        Some(wire::rescaled(d.negative, d.mantissa, d.scale, scale as u32)),
                        precision,
                        scale,
                    ),
                ),
            )
            &&& t is Float32 ==> r == Ok::<_, ErrorV>(
                Some(ScalarV::Float32(Some(wire::decimal_f32_bits(d.negative, d.mantissa, d.scale)))),
            )
            &&& t is Float64 ==> r == Ok::<_, ErrorV>(
                Some(ScalarV::Float64(Some(wire::decimal_f64_bits(d.negative, d.mantissa, d.scale)))),
            )
            &&& !(t is Int32 || t is Int64 || t is UInt32 || t is UInt64 || t is Decimal128 || t
                is Float32 || t is Float64) ==> r == Err::<Option<ScalarV>, ErrorV>(
                ErrorV::CannotCoerce { source: CoerceSource::Numeric, target: t },
            )
        }),
{
    let d = held_decimal(p)->0;
    vstd::arithmetic::power::lemma_pow_positive(10, d.scale as nat);
    vstd::arithmetic::div_mod::lemma_div_pos_is_pos(
        wire::abs(d.mantissa as int),
        vstd::arithmetic::power::pow(10, d.scale as nat),
    );
}

/// A numeric in binary form with too many zeros before its point is an error.
pub proof fn law_large_numerics_are_errors(p: BoundV, inferred: Option<DataTypeV>)
    requires
        p.binary,
        p.raw matches Some(b) && wire::numeric_too_large(b),
    ensures
        params::param_value(TypeV::Builtin(Builtin::NUMERIC), p, inferred) == Err::<
            Option<ScalarV>,
            _,
        >(ErrorV::Malformed(Malformed::NumericTooLarge)),
{
}

/// An array of decimals becomes a list with an item for each of them, a null for each null.
/// The items are of the item type of the inferred list.
pub proof fn law_decimal_arrays_keep_their_items(p: BoundV, inferred: Option<DataTypeV>)
    requires
        p.raw is Some,
        p.binary ==> wire::small_elements(p.raw->0),
        wire::wire_decimals_value(1231, p.binary, p.raw) matches Some(Some(_)),
    ensures
        ({
            let held = wire::wire_decimals_value(1231, p.binary, p.raw)->0->0;
            let r = params::param_value(TypeV::Builtin(Builtin::NUMERIC_ARRAY), p, inferred);
            &&& r matches Ok(Some(ScalarV::List(items, _))) && items.len() == held.len()
            &&& forall|i: int|
                0 <= i < held.len() ==> {
                    let v = #[trigger] (r->Ok_0->0->List_0)[i];
                    match held[i] {
                        Some(d) => match inferred {
                            Some(DataTypeV::List(f)) => match f.data_type {
                                DataTypeV::Decimal128(precision, scale) => v
                                    == ScalarV::Decimal128(
                                    Some(
                                        wire::rescaled(d.negative, d.mantissa, d.scale, scale as u32),
                                    ),
                                    precision,
                                    scale,
                                ),
                                DataTypeV::UInt64 => v == ScalarV::UInt64(
                                    if !d.negative && d.whole() <= u64::MAX {
                                        Some(d.whole() as u64)
                                    } else {
                                        None
                                    },
                                ),
                                DataTypeV::Float64 => v == ScalarV::Float64(
                                    Some(wire::decimal_f64_bits(d.negative, d.mantissa, d.scale)),
                                ),
                                DataTypeV::Float32 => v == ScalarV::Float32(
                                    Some(wire::decimal_f32_bits(d.negative, d.mantissa, d.scale)),
                                ),
                                _ => v == ScalarV::Decimal128(
                                    Some(wire::rescaled(d.negative, d.mantissa, d.scale, 0)),
                                    38,
                                    0,
                                ),
                            },
                            _ => v == ScalarV::Decimal128OfDigits(d.mantissa, d.scale as i8),
                        },
                        None => scalar::is_null(v),
                    }
                }
            &&& r->Ok_0->0->List_1 == (match inferred {
                Some(DataTypeV::List(f)) => f.data_type,
                _ => DataTypeV::Decimal128(38, 0),
            })
        }),
{
}

/// True of a count of units that is the time of a given number of nanoseconds, rounded down
/// to the unit.
pub open spec fn counts_down_to(count: int, unit: TimeUnit, nanos: int) -> bool {
    count * nanos_per(unit) <= nanos < (count + 1) * nanos_per(unit)
}

/// A timestamp becomes the same time since 1970 in the unit that is inferred for it, rounded
/// down, and in microseconds where none is. Only one with a time zone keeps the time zone of
/// the inferred type. Nanoseconds that do not fit become a null.
pub proof fn law_timestamps_keep_their_time(
    b: Builtin,
    p: BoundV,
    t: UtcTime,
    unit: TimeUnit,
    tz: Option<Seq<char>>,
)
    requires
        t.valid(),
        t.nanos < 1_000_000_000,
        b is TIMESTAMP && wire::timestamp_of(p.binary, p.raw) == Some(Some(t)) || b is TIMESTAMPTZ
            && wire::timestamptz_of(p.binary, p.raw) == Some(Some(t)),
    ensures
        ({
            let nanos = t.seconds * 1_000_000_000 + t.nanos;
            let own = params::param_value(TypeV::Builtin(b), p, None);
            let r = params::param_value(
                TypeV::Builtin(b),
                p,
                Some(DataTypeV::Timestamp(unit, tz)),
            );
            let kept_zone = if b is TIMESTAMPTZ {
                tz
            } else {
                None
            };
            &&& own matches Ok(Some(v)) && scalar_type(v) == Some(
                DataTypeV::Timestamp(TimeUnit::Microsecond, None),
            ) && count_of(v) is Some && counts_down_to(
                count_of(v)->0,
                TimeUnit::Microsecond,
                nanos,
            )
            &&& r matches Ok(Some(v)) && scalar_type(v) == Some(
                DataTypeV::Timestamp(unit, kept_zone),
            ) && if unit == TimeUnit::Nanosecond && !(i64::MIN <= nanos <= i64::MAX) {
                scalar::is_null(v)
            } else {
                count_of(v) is Some && counts_down_to(count_of(v)->0, unit, nanos)
            }
        }),
{
}

/// A timestamp becomes a timestamp only. Where it can be decoded, another type is the error.
pub proof fn law_timestamps_are_timestamps(b: Builtin, p: BoundV, t: DataTypeV)
    requires
        b is TIMESTAMP || b is TIMESTAMPTZ,
        !(t is Timestamp),
    ensures
        ({
            let refused = ErrorV::CannotCoerce {
                source: if b is TIMESTAMP {
                    CoerceSource::Timestamp
                } else {
                    CoerceSource::TimestampTz
                },
                target: t,
            };
            params::param_value(TypeV::Builtin(b), p, Some(t)) matches Err(e) && (e == refused
                || p.raw is Some && e is Wire)
        }),
{
}

/// A time of day becomes the same time since midnight in the unit that is inferred for it,
/// rounded down, and in nanoseconds where none is that it can have.
pub proof fn law_times_keep_their_time(p: BoundV, t: TimeOfDay, inferred: Option<DataTypeV>)
    requires
        t.valid(),
        wire::time_of(p.binary, p.raw) == Some(Some(t)),
    ensures
        ({
            let unit = match inferred {
                Some(DataTypeV::Time32(TimeUnit::Second)) => TimeUnit::Second,
                Some(DataTypeV::Time32(TimeUnit::Millisecond)) => TimeUnit::Millisecond,
                Some(DataTypeV::Time64(TimeUnit::Microsecond)) => TimeUnit::Microsecond,
                _ => TimeUnit::Nanosecond,
            };
            let r = params::param_value(TypeV::Builtin(Builtin::TIME), p, inferred);
            r matches Ok(Some(v)) && scalar_type(v) == Some(
                if unit == TimeUnit::Second || unit == TimeUnit::Millisecond {
                    DataTypeV::Time32(unit)
                } else {
                    DataTypeV::Time64(unit)
                },
            ) && count_of(v) is Some && counts_down_to(
                count_of(v)->0,
                unit,
                t.seconds * 1_000_000_000 + t.nanos,
            )
        }),
{
}

/// The interval that an `interval` in binary form holds.
pub open spec fn held_interval(p: BoundV) -> Option<Interval> {
    match p.raw {
        Some(b) => if p.binary && b.len() >= 16 {
            Some(
                Interval {
                    months: wire::be_signed(b.subrange(12, 16)) as i32,
                    days: wire::be_signed(b.subrange(8, 12)) as i32,
                    microseconds: wire::be_signed(b.subrange(0, 8)) as i64,
                },
            )
        } else if !p.binary && wire::is_plain_interval_text(b) {
            match wire::wire_interval_value(1186, false, p.raw) {
                Some(Some(i)) => Some(i),
                _ => None,
            }
        } else if !p.binary {
            match p.decoded {
                Some(DecodedV::Interval(i)) => Some(i),
                _ => None,
            }
        } else {
            None
        },
        None => None,
    }
}

/// An interval keeps its months, its days and its time. In a type that has no place for one
/// of them, an interval that has it is an error.
pub proof fn law_intervals_keep_their_parts(p: BoundV, inferred: Option<DataTypeV>)
    requires
        held_interval(p) is Some,
    ensures
        ({
            let i = held_interval(p)->0;
            let r = params::param_value(TypeV::Builtin(Builtin::INTERVAL), p, inferred);
            let nanos = inferred is None || inferred == Some(
                DataTypeV::Interval(IntervalUnit::MonthDayNano),
            ) || inferred->0 is Duration;
            &&& nanos ==> if i64::MIN <= i.microseconds * 1_000 <= i64::MAX {
                r matches Ok(Some(v)) && is_month_day_nano(v, Some(i))
            } else {
                r matches Err(ErrorV::Overflow { target }) && target == (match inferred {
                    Some(t) => t,
                    None => DataTypeV::Interval(IntervalUnit::MonthDayNano),
                })
            }
            &&& inferred == Some(DataTypeV::Interval(IntervalUnit::YearMonth)) ==> if i.days == 0
                && i.microseconds == 0 {
                r == Ok::<_, ErrorV>(Some(ScalarV::IntervalYearMonth(Some(i.months))))
            } else {
                r matches Err(ErrorV::IntervalHasDays)
            }
            &&& inferred == Some(DataTypeV::Interval(IntervalUnit::DayTime)) ==> if i.months == 0
                && i.microseconds as int % 1_000 == 0 {
                r matches Ok(Some(ScalarV::IntervalDayTime(Some((days, millis))))) && days == i.days
                    && (i32::MIN * 1_000 <= i.microseconds <= i32::MAX * 1_000 ==> millis * 1_000
                    == i.microseconds)
            } else if i.months != 0 {
                r matches Err(ErrorV::IntervalHasMonths)
            } else {
                r matches Err(ErrorV::IntervalTooPrecise)
            }
            &&& inferred matches Some(t) ==> !(t is Interval || t is Duration) ==> r == Err::<
                Option<ScalarV>,
                _,
            >(ErrorV::CannotCoerce { source: CoerceSource::Interval, target: t })
        }),
{
}

/// An interval in binary form of too few bytes is an error.
pub proof fn law_short_intervals_are_errors(p: BoundV, inferred: Option<DataTypeV>)
    requires
        p.binary,
        p.raw matches Some(b) && b.len() < 16,
    ensures
        params::param_value(TypeV::Builtin(Builtin::INTERVAL), p, inferred) == Err::<
            Option<ScalarV>,
            _,
        >(ErrorV::Malformed(Malformed::IntervalTooShort)),
{
}

/// An array of intervals in binary form with an item of too few bytes is an error.
pub proof fn law_short_items_are_errors(p: BoundV, inferred: Option<DataTypeV>)
    requires
        p.binary,
        p.raw matches Some(b) && !wire::long_elements(b),
    ensures
        params::param_value(TypeV::Builtin(Builtin::INTERVAL_ARRAY), p, inferred) == Err::<
            Option<ScalarV>,
            _,
        >(ErrorV::Malformed(Malformed::IntervalTooShort)),
{
}

/// A null interval is a null of the type that is inferred for it, and one of months, days
/// and nanoseconds otherwise.
pub proof fn law_null_intervals(p: BoundV, inferred: Option<DataTypeV>)
    requires
        p.raw is None,
        inferred matches Some(t) ==> t is Interval || t is Duration,
    ensures
        params::param_value(TypeV::Builtin(Builtin::INTERVAL), p, inferred) == Ok::<_, ErrorV>(
            Some(
                match inferred {
                    Some(DataTypeV::Interval(IntervalUnit::YearMonth)) => ScalarV::IntervalYearMonth(
                        None,
                    ),
                    Some(DataTypeV::Interval(IntervalUnit::DayTime)) => ScalarV::IntervalDayTime(
                        None,
                    ),
                    _ => ScalarV::IntervalMonthDayNano(None),
                },
            ),
        ),
{
}

/// An oid in binary form becomes the number of its four bytes, in the integer type that is
/// inferred for it or in 32 bits. Other lengths are errors.
pub proof fn law_oids_keep_their_number(p: BoundV, t: DataTypeV)
    requires
        p.binary,
        p.raw is Some,
        range_of(t) is Some,
    ensures
        ({
            let b = p.raw->0;
            let oid = TypeV::Builtin(Builtin::OID);
            if b.len() == 4 {
                &&& is_number(
                    params::param_value(oid, p, Some(t)),
                    t,
                    (wire::be_signed(b) as i32) as int,
                    NumberSource::Int,
                )
                &&& params::param_value(oid, p, None) == params::param_value(
                    oid,
                    p,
                    Some(DataTypeV::Int32),
                )
            } else {
                let wrong = ErrorV::Malformed(Malformed::OidLength);
                &&& params::param_value(oid, p, Some(t)) == Err::<Option<ScalarV>, _>(wrong)
                &&& params::param_value(oid, p, None) == Err::<Option<ScalarV>, _>(wrong)
            }
        }),
{
}

/// An oid in text form becomes the number that is written, with white space around it or
/// none. Of a number of more than 32 bits the lowest 32 are kept.
pub proof fn law_oid_texts_keep_their_number(p: BoundV)
    requires
        !p.binary,
        p.raw matches Some(b) && vstd::utf8::valid_utf8(b),
    ensures
        ({
            let s = text::trimmed(vstd::utf8::decode_utf8(p.raw->0));
            let r = params::param_value(TypeV::Builtin(Builtin::OID), p, None);
            match text::int_text(s) {
                Some(n) if i64::MIN <= n <= i64::MAX => r matches Ok(Some(ScalarV::Int32(Some(v))))
                    && (v - n) % 0x1_0000_0000 == 0,
                _ => r == Err::<Option<ScalarV>, _>(ErrorV::Malformed(Malformed::OidText)),
            }
        }),
{
    let s = text::trimmed(vstd::utf8::decode_utf8(p.raw->0));
    if let Some(n) = text::int_text(s) {
        if i64::MIN <= n <= i64::MAX {
            let m = n as i64;
            assert(((m as i32) as i64 - m) % 0x1_0000_0000 == 0) by (bit_vector);
        }
    }
}

/// The vector that a parameter holds: of a binary form, the numbers behind the header.
pub open spec fn held_vector(b: Seq<u8>) -> Option<Seq<u32>> {
    if b.len() >= 8 && wire::be_unsigned(b.subrange(2, 4)) == 0 && b.len() == 4 + 4
        * wire::be_unsigned(b.subrange(0, 2)) {
        Some(
            Seq::new(
                ((b.len() - 4) / 4) as nat,
                |i: int| wire::be_unsigned(b.subrange(4 * i + 4, 4 * i + 8)) as u32,
            ),
        )
    } else {
        None
    }
}

/// True of the value of a vector: a list of its numbers, or one of a fixed size where that
/// is the size that is inferred. Another size than the inferred one is an error.
pub open spec fn is_vector_value(
    r: Result<Option<ScalarV>, ErrorV>,
    numbers: Seq<u32>,
    inferred: Option<DataTypeV>,
) -> bool {
    match inferred {
        Some(DataTypeV::FixedSizeList(f, n)) if n != 0 => if n == numbers.len() {
            r == Ok::<_, ErrorV>(Some(ScalarV::FixedSizeList(*f, n, Some(numbers))))
        } else {
            r == Err::<Option<ScalarV>, _>(
                ErrorV::VectorDimension { expected: n as usize, actual: numbers.len() as usize },
            )
        },
        _ => r matches Ok(Some(ScalarV::List(items, item))) && item is Float32 && items.len()
            == numbers.len() && forall|i: int|
            0 <= i < numbers.len() ==> #[trigger] items[i] == ScalarV::Float32(Some(numbers[i])),
    }
}

/// Bytes are a number with the highest byte first. A signed number is negative where its
/// highest bit is set, by as much as there are numbers of that length.
pub proof fn law_bytes_are_numbers(b: Seq<u8>, x: u8)
    ensures
        wire::be_unsigned(Seq::empty()) == 0,
        wire::be_unsigned(b.push(x)) == wire::be_unsigned(b) * 256 + x,
        b.len() > 0 && b[0] >= 128 ==> wire::be_signed(b) == wire::be_unsigned(b)
            - vstd::arithmetic::power::pow(256, b.len()),
        b.len() == 0 || b[0] < 128 ==> wire::be_signed(b) == wire::be_unsigned(b),
{
    assert(b.push(x).drop_last() == b);
}

proof fn lemma_two_bytes(b: Seq<u8>)
    requires
        b.len() == 2,
    ensures
        wire::be_unsigned(b) == b[0] * 256 + b[1],
{
    let one = b.drop_last();
    assert(one.drop_last().len() == 0);
    assert(wire::be_unsigned(one.drop_last()) == 0);
    assert(wire::be_unsigned(one) == b[0]);
}

/// A vector in binary form becomes a list of the numbers behind its header. Without them it
/// is an error, and so is one of another size than the inferred one.
pub proof fn law_vectors_keep_their_numbers(t: TypeV, p: BoundV, inferred: Option<DataTypeV>)
    requires
        t.spec_oid() == datatypes::PG_VECTOR_TYPE_OID,
        p.binary,
        p.raw is Some,
        inferred matches Some(DataTypeV::FixedSizeList(_, n)) ==> n >= 0,
    ensures
        match held_vector(p.raw->0) {
            Some(numbers) => is_vector_value(
                params::param_value(t, p, inferred),
                numbers,
                inferred,
            ),
            None => params::param_value(t, p, inferred) == Err::<Option<ScalarV>, _>(
                ErrorV::Malformed(
                    if p.raw->0.len() < 4 {
                        Malformed::VectorTooShort
                    } else if !(p.raw->0[2] == 0 && p.raw->0[3] == 0) {
                        Malformed::VectorUnusedWord
                    } else if p.raw->0[0] == 0 && p.raw->0[1] == 0 {
                        Malformed::VectorEmpty
                    } else {
                        Malformed::VectorLength
                    },
                ),
            ),
        },
{
    let b = p.raw->0;
    if b.len() >= 4 {
        lemma_two_bytes(b.subrange(0, 2));
        lemma_two_bytes(b.subrange(2, 4));
    }
    if let Some(numbers) = held_vector(b) {
        assert(params::vector_binary(b)->Ok_0 =~= numbers);
    }
}

/// A vector in text form becomes a list of its numbers, one for each of its items. One of
/// which not every item is a number is an error.
pub proof fn law_vector_texts_keep_their_numbers(
    t: TypeV,
    p: BoundV,
    inferred: Option<DataTypeV>,
    items: Seq<Seq<char>>,
    numbers: Seq<Option<u32>>,
)
    requires
        t.spec_oid() == datatypes::PG_VECTOR_TYPE_OID,
        !p.binary,
        p.raw matches Some(b) && vstd::utf8::valid_utf8(b) && params::vector_text(
            vstd::utf8::decode_utf8(b),
        ) == Ok::<_, Malformed>(items),
        p.decoded == Some(DecodedV::Vector(numbers)),
        numbers.len() == items.len(),
        inferred matches Some(DataTypeV::FixedSizeList(_, n)) ==> n >= 0,
    ensures
        ({
            let r = params::param_value(t, p, inferred);
            let all = forall|i: int| 0 <= i < numbers.len() ==> (#[trigger] numbers[i]) is Some;
            if all {
                is_vector_value(
                    r,
                    Seq::new(numbers.len(), |i: int| numbers[i]->0),
                    inferred,
                )
            } else {
                r == Err::<Option<ScalarV>, _>(ErrorV::Malformed(Malformed::VectorElement))
            }
        }),
{
    assert(numbers.map_values(|o: Option<u32>| o->0) =~= Seq::new(
        numbers.len(),
        |i: int| numbers[i]->0,
    ));
}

/// A null vector is a null list.
pub proof fn law_null_vectors(t: TypeV, p: BoundV, inferred: Option<DataTypeV>)
    requires
        t.spec_oid() == datatypes::PG_VECTOR_TYPE_OID,
        p.raw is None,
    ensures
        params::param_value(t, p, inferred) matches Ok(Some(ScalarV::FixedSizeList(f, n, None)))
            && f.data_type is Float32 && (inferred matches Some(DataTypeV::FixedSizeList(_, m))
            ==> n == m),
{
}

/// A parameter of a type without a decoding of its own is taken for a text. It becomes that
/// text, unless it is written in braces, and nothing at all where it is null.
pub proof fn law_unknown_texts_are_texts(t: TypeV, p: BoundV, inferred: Option<DataTypeV>)
    requires
        t.spec_oid() != datatypes::PG_VECTOR_TYPE_OID,
        t is Custom || t == TypeV::Builtin(Builtin::UNKNOWN),
    ensures
        match wire::string_of(t, p.binary, p.raw) {
            Some(Some(s)) => !(s.len() > 0 && s[0] == '{' && s.last() == '}') ==> params::param_value(
                t,
                p,
                inferred,
            ) == Ok::<_, ErrorV>(Some(ScalarV::Utf8(Some(s)))),
            Some(None) => params::param_value(t, p, inferred) == Ok::<Option<ScalarV>, ErrorV>(
                None,
            ),
            None => params::param_value(t, p, inferred) == Err::<Option<ScalarV>, _>(ErrorV::Wire),
        },
{
}

/// A parameter that is taken for a text, and that is written in braces, becomes the list of
/// the texts that are written there.
pub proof fn law_unknown_lists_are_lists(
    t: TypeV,
    p: BoundV,
    inferred: Option<DataTypeV>,
    items: Seq<Seq<char>>,
)
    requires
        t.spec_oid() != datatypes::PG_VECTOR_TYPE_OID,
        t is Custom || t == TypeV::Builtin(Builtin::UNKNOWN),
        items.len() > 0,
        forall|i: int|
            0 <= i < items.len() ==> (#[trigger] items[i]).len() > 0 && text::is_solid(items[i])
                && text::lacks(items[i], ',') && text::lacks(items[i], '{') && text::lacks(
                items[i],
                '}',
            ),
        wire::string_of(t, p.binary, p.raw) == Some(
            Some(seq!['{'] + text::join_with(items, seq![',']) + seq!['}']),
        ),
    ensures
        params::param_value(t, p, inferred) matches Ok(Some(ScalarV::List(values, item))) && item
            is Utf8 && values.len() == items.len() && forall|i: int|
            0 <= i < items.len() ==> #[trigger] values[i] == ScalarV::Utf8(Some(items[i])),
{
    text_laws::law_array_items(items);
}

/// The values of the parameters are those of each parameter by itself, in order. The error
/// of one is the error of all.
pub proof fn law_values_are_in_order(
    portal: Portal,
    inferred: Seq<Option<&DataType>>,
    server: Seq<Option<&Type>>,
    n: nat,
)
    ensures
        match params::values_of(portal, inferred, server, n) {
            Ok(values) => {
                &&& values.len() <= n
                &&& forall|i: int|
                    0 <= i < n ==> (#[trigger] params::value_at(portal, inferred, server, i)) is Ok
                &&& (forall|i: int|
                    0 <= i < n ==> (#[trigger] params::value_at(portal, inferred, server, i))
                        != Ok::<Option<ScalarV>, ErrorV>(None)) ==> values.len() == n && forall|i: int|
                    0 <= i < n ==> (#[trigger] params::value_at(portal, inferred, server, i))
                        == Ok::<_, ErrorV>(Some(values[i]))
            },
            Err(e) => exists|i: int|
                0 <= i < n && (#[trigger] params::value_at(portal, inferred, server, i)) == Err::<
                    Option<ScalarV>,
                    ErrorV,
                >(e),
        },
    decreases n,
{
    if n > 0 {
        law_values_are_in_order(portal, inferred, server, (n - 1) as nat);
        let last = params::value_at(portal, inferred, server, n - 1);
    }
}

/// Each parameter is decoded by its own bytes, in its own format, as one of the type that
/// the client gave it, or else the server.
pub proof fn law_parameters_are_decoded_by_themselves(
    portal: Portal,
    inferred: Seq<Option<&DataType>>,
    server: Seq<Option<&Type>>,
    i: int,
    t: TypeV,
)
    requires
        0 <= i < portal.parameters@.len(),
        portal.parameter_format.covers(i),
        i < portal.parameter_types@.len(),
        portal.parameter_types@[i] matches Some(x) && x@ == t,
        t.spec_oid() != 705,
    ensures
        ({
            let p = portal.bound(i);
            &&& params::value_at(portal, inferred, server, i) == params::param_value(
                t,
                p,
                if i < inferred.len() {
                    schema::opt_type(inferred[i])
                } else {
                    None
                },
            )
            &&& p.raw == scalar::opt_bytes(portal.parameters@[i])
            &&& p.binary == (portal.parameter_format.at(i) is Binary)
            &&& i < portal.decoded@.len() && portal.decoded@[i] is Some ==> p.decoded == Some(
                portal.decoded@[i]->0@,
            )
        }),
{
}

} // verus!
