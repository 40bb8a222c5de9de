//! Encoding of the values of a result.
use crate::coerce;
use crate::datatypes;
use crate::datatypes::{FieldFormat, FieldInfo, FieldInfoV, PG_CHAR_KEY, PG_OID_ALIAS_KEY};
use crate::errors;
use crate::errors::{Error, Malformed};
use crate::geometry;
use crate::params;
use crate::scalar;
use crate::schema;
use crate::schema::{DataType, DataTypeV, Field, FieldV, IntervalUnit, TimeUnit};
use crate::text;
use crate::wire::{Decimal, Interval, TimeOfDay, UtcTime};
use arrow_array::temporal_conversions::{as_date, as_datetime, as_datetime_with_timezone, as_time};
use arrow_array::timezone::Tz;
use arrow_array::types::{
    Date32Type, Date64Type, Time32MillisecondType, Time32SecondType, Time64MicrosecondType,
    Time64NanosecondType, TimestampMicrosecondType, TimestampMillisecondType,
    TimestampNanosecondType, TimestampSecondType,
};
use chrono::{NaiveTime, Offset, Timelike};
use vstd::prelude::*;
use vstd::string::*;
use vstd::utf8::*;

verus! {

/// A single-precision number: its bits, and the shortest text that stands for it.
#[derive(Debug, PartialEq, Eq)]
pub struct Single {
    pub bits: u32,
    pub text: String,
}

impl Single {
    /// A copy of this number.
    pub fn copy(&self) -> (r: Single)
        ensures
            r == *self,
    {
        Single { bits: self.bits, text: self.text.clone() }
    }
}

/// A time in a time zone: the time, and the zone's offset from UTC in seconds.
#[derive(Clone, Copy, Debug, PartialEq, Eq, Structural)]
pub struct ZonedTime {
    pub utc: UtcTime,
    pub offset: i32,
}

/// The values of a column. Of the columns of nested values only what the encoding
/// reads is held.
#[allow(inconsistent_fields)]
#[derive(Debug, PartialEq, Eq)]
pub enum Column {
    /// A column of nulls of the given length.
    Null(usize),
    Boolean(Vec<Option<bool>>),
    Int8(Vec<Option<i8>>),
    Int16(Vec<Option<i16>>),
    Int32(Vec<Option<i32>>),
    Int64(Vec<Option<i64>>),
    UInt8(Vec<Option<u8>>),
    UInt16(Vec<Option<u16>>),
    UInt32(Vec<Option<u32>>),
    UInt64(Vec<Option<u64>>),
    /// The bits of double-precision numbers.
    Float64(Vec<Option<u64>>),
    Decimal128(Vec<Option<i128>>),
    Date32(Vec<Option<i32>>),
    Date64(Vec<Option<i64>>),
    Time32Second(Vec<Option<i32>>),
    Time32Millisecond(Vec<Option<i32>>),
    Time64Microsecond(Vec<Option<i64>>),
    Time64Nanosecond(Vec<Option<i64>>),
    Float32(Vec<Option<Single>>),
    /// Texts of any of the text types.
    Text(Vec<Option<String>>),
    /// Bytes of any of the binary types.
    Bytes(Vec<Option<Vec<u8>>>),
    /// Timestamps in the unit of the column's type.
    Timestamp(Vec<Option<i64>>),
    /// Durations in the unit of the column's type.
    Duration(Vec<Option<i64>>),
    /// The stored numbers of months. A null has one too.
    IntervalYearMonth { valid: Vec<bool>, months: Vec<i32> },
    /// The stored days and milliseconds. A null has them too.
    IntervalDayTime { valid: Vec<bool>, parts: Vec<(i32, i32)> },
    /// The stored months, days and nanoseconds. A null has them too.
    IntervalMonthDayNano { valid: Vec<bool>, parts: Vec<(i32, i32, i64)> },
    /// Lists: which rows are there, and the numbers of each row of a list of
    /// single-precision numbers.
    List { valid: Vec<bool>, singles: Option<Vec<Vec<Single>>> },
    /// Lists of one size: which rows are there, and the numbers of all rows of a
    /// list of single-precision numbers.
    FixedSizeList { size: usize, valid: Vec<bool>, singles: Option<Vec<Single>> },
    /// Rows of fields: which rows are there.
    Struct { valid: Vec<bool> },
    /// Numbers of rows of a column of values.
    Dictionary { keys: Vec<Option<usize>>, values: Box<Column> },
    /// Values of a type that has no encoding: which rows are there.
    Other { valid: Vec<bool> },
}

/// What is written for a value, or for a null of the value's kind.
#[derive(Debug, PartialEq, Eq)]
pub enum SqlValue {
    Bool(Option<bool>),
    I8(Option<i8>),
    I16(Option<i16>),
    I32(Option<i32>),
    I64(Option<i64>),
    U32(Option<u32>),
    /// The bits of a single-precision number.
    F32(Option<u32>),
    /// The bits of a double-precision number.
    F64(Option<u64>),
    Numeric(Option<Decimal>),
    Text(Option<String>),
    Bytes(Option<Vec<u8>>),
    /// Days since 1970.
    Date(Option<i32>),
    Time(Option<TimeOfDay>),
    Timestamp(Option<UtcTime>),
    TimestampTz(Option<ZonedTime>),
    Interval(Option<Interval>),
    /// A null list.
    NullList,
    /// The list in the last of the rows. Each row before it is one of a dictionary,
    /// and the next one is a row of the dictionary's values.
    List { rows: Vec<usize> },
    /// A null row of fields.
    NullStruct,
    /// The fields in the last of the rows, which are those of a list.
    Struct { rows: Vec<usize> },
    /// The geometry in a row.
    Geometry { row: usize },
}

/// The model of a [`SqlValue`].
#[allow(inconsistent_fields)]
#[verifier::ext_equal]
pub enum SqlV {
    Bool(Option<bool>),
    I8(Option<i8>),
    I16(Option<i16>),
    I32(Option<i32>),
    I64(Option<i64>),
    U32(Option<u32>),
    F32(Option<u32>),
    F64(Option<u64>),
    Numeric(Option<Decimal>),
    Text(Option<Seq<char>>),
    Bytes(Option<Seq<u8>>),
    Date(Option<i32>),
    Time(Option<TimeOfDay>),
    Timestamp(Option<UtcTime>),
    TimestampTz(Option<ZonedTime>),
    Interval(Option<Interval>),
    NullList,
    List { rows: Seq<usize> },
    NullStruct,
    Struct { rows: Seq<usize> },
    Geometry { row: usize },
}

impl View for SqlValue {
    type V = SqlV;

    open spec fn view(&self) -> SqlV {
        match *self {
            SqlValue::Bool(v) => SqlV::Bool(v),
            SqlValue::I8(v) => SqlV::I8(v),
            SqlValue::I16(v) => SqlV::I16(v),
            SqlValue::I32(v) => SqlV::I32(v),
            SqlValue::I64(v) => SqlV::I64(v),
            SqlValue::U32(v) => SqlV::U32(v),
            SqlValue::F32(v) => SqlV::F32(v),
            SqlValue::F64(v) => SqlV::F64(v),
            SqlValue::Numeric(v) => SqlV::Numeric(v),
            SqlValue::Text(v) => SqlV::Text(schema::opt_text(v)),
            SqlValue::Bytes(v) => SqlV::Bytes(scalar::opt_bytes(v)),
            SqlValue::Date(v) => SqlV::Date(v),
            SqlValue::Time(v) => SqlV::Time(v),
            SqlValue::Timestamp(v) => SqlV::Timestamp(v),
            SqlValue::TimestampTz(v) => SqlV::TimestampTz(v),
            SqlValue::Interval(v) => SqlV::Interval(v),
            SqlValue::NullList => SqlV::NullList,
            SqlValue::List { rows } => SqlV::List { rows: rows@ },
            SqlValue::NullStruct => SqlV::NullStruct,
            SqlValue::Struct { rows } => SqlV::Struct { rows: rows@ },
            SqlValue::Geometry { row } => SqlV::Geometry { row },
        }
    }
}

/// Why a value cannot be encoded.
#[derive(Debug)]
pub enum EncodeError {
    /// A type that has no encoding.
    UnsupportedType,
    /// A column that is called one of geometries and has another type or other metadata.
    InvalidGeometry,
    /// A vector column of another type than a list.
    UnsupportedVector,
    /// A vector column whose items are no single-precision numbers.
    VectorItems,
    /// A `"char"` without a character, in binary form.
    EmptyChar,
    /// A time zone that is not known.
    UnknownTimeZone,
    /// A number with more digits behind the point than a decimal can have.
    ScaleTooLarge(u32),
    /// A number that a decimal cannot hold.
    NumericOutOfRange,
    /// The encoder refused the value.
    Refused(Error),
}

/// The model of an [`EncodeError`].
pub enum EncodeErrorV {
    UnsupportedType,
    InvalidGeometry,
    UnsupportedVector,
    VectorItems,
    EmptyChar,
    UnknownTimeZone,
    ScaleTooLarge(u32),
    NumericOutOfRange,
    Refused,
}

impl View for EncodeError {
    type V = EncodeErrorV;

    open spec fn view(&self) -> EncodeErrorV {
        match *self {
            EncodeError::UnsupportedType => EncodeErrorV::UnsupportedType,
            EncodeError::InvalidGeometry => EncodeErrorV::InvalidGeometry,
            EncodeError::UnsupportedVector => EncodeErrorV::UnsupportedVector,
            EncodeError::VectorItems => EncodeErrorV::VectorItems,
            EncodeError::EmptyChar => EncodeErrorV::EmptyChar,
            EncodeError::UnknownTimeZone => EncodeErrorV::UnknownTimeZone,
            EncodeError::ScaleTooLarge(scale) => EncodeErrorV::ScaleTooLarge(scale),
            EncodeError::NumericOutOfRange => EncodeErrorV::NumericOutOfRange,
            EncodeError::Refused(_) => EncodeErrorV::Refused,
        }
    }
}

impl EncodeError {
    /// The SQLSTATE of this error: `22003` for a number that does not fit, and that
    /// of the encoder's own error. The other errors have none.
    pub fn sqlstate(&self) -> (r: Option<&'static str>)
        ensures
            errors::code_view(r) == (match *self {
                EncodeError::ScaleTooLarge(_) | EncodeError::NumericOutOfRange => Some("22003"@),
                EncodeError::Refused(e) => errors::state_of(e@),
                _ => None,
            }),
    {
        match self {
            EncodeError::ScaleTooLarge(_) => Some("22003"),
            EncodeError::NumericOutOfRange => Some("22003"),
            EncodeError::Refused(e) => e.sqlstate(),
            _ => None,
        }
    }
}

/// Something that fields of rows are written to.
pub trait Encoder {
    type Item;

    /// The fields that were written since the last row was taken.
    closed spec fn fields(&self) -> Seq<(SqlV, FieldInfoV)> {
        arbitrary()
    }

    /// True when the field can be written.
    closed spec fn accepts(&self, value: SqlV, pg_field: FieldInfoV) -> bool {
        arbitrary()
    }

    /// The error with which the field is refused.
    closed spec fn refusal(&self, value: SqlV, pg_field: FieldInfoV) -> Error {
        arbitrary()
    }

    /// Writes a field.
    fn encode_field(&mut self, value: SqlValue, pg_field: &FieldInfo) -> (r: Result<(), Error>)
        ensures
            r is Ok <==> old(self).accepts(value@, pg_field@),
            r matches Err(e) ==> e == old(self).refusal(value@, pg_field@),
            r is Ok ==> final(self).fields() == old(self).fields().push((value@, pg_field@)),
    ;

    /// The fields of a row.
    closed spec fn row_fields(row: Self::Item) -> Seq<(SqlV, FieldInfoV)> {
        arbitrary()
    }

    /// Ends a row.
    fn take_row(&mut self) -> (r: Self::Item)
        ensures
            Self::row_fields(r) == old(self).fields(),
            final(self).fields() == Seq::<(SqlV, FieldInfoV)>::empty(),
    ;
}

/// An encoder that keeps what is written.
pub struct FieldCollector {
    written: Vec<(SqlValue, FieldInfo)>,
}

/// The model of written fields.
pub open spec fn written_view(v: Seq<(SqlValue, FieldInfo)>) -> Seq<(SqlV, FieldInfoV)> {
    v.map_values(|f: (SqlValue, FieldInfo)| (f.0@, f.1@))
}

impl FieldCollector {
    /// An encoder that nothing was written to.
    pub fn new() -> (r: FieldCollector)
        ensures
            r.fields() == Seq::<(SqlV, FieldInfoV)>::empty(),
    {
        let r = FieldCollector { written: Vec::new() };
        assert(r.fields() == Seq::<(SqlV, FieldInfoV)>::empty());
        r
    }
}

impl Encoder for FieldCollector {
    type Item = Vec<(SqlValue, FieldInfo)>;

    closed spec fn fields(&self) -> Seq<(SqlV, FieldInfoV)> {
        written_view(self.written@)
    }

    /// Every field.
    open spec fn accepts(&self, value: SqlV, pg_field: FieldInfoV) -> bool {
        true
    }

    fn encode_field(&mut self, value: SqlValue, pg_field: &FieldInfo) -> (r: Result<(), Error>)
    {
        let info = FieldInfo {
            name: pg_field.name.clone(),
            datatype: pg_field.datatype.copy(),
            format: pg_field.format,
        };
        let ghost before = self.written@;
        self.written.push((value, info));
        assert(written_view(self.written@) == written_view(before).push((value@, pg_field@)));
        Ok(())
    }

    /// What was written.
    open spec fn row_fields(row: Vec<(SqlValue, FieldInfo)>) -> Seq<(SqlV, FieldInfoV)> {
        written_view(row@)
    }

    fn take_row(&mut self) -> (r: Self::Item) {
        let mut row: Vec<(SqlValue, FieldInfo)> = Vec::new();
        std::mem::swap(&mut row, &mut self.written);
        assert(written_view(self.written@) == Seq::<(SqlV, FieldInfoV)>::empty());
        row
    }
}

/// True of the dates of chrono, by the days since 1970.
pub open spec fn is_date(days: int) -> bool {
    -96_465_292 <= days <= 95_026_236
}

/// The days since 1970 of a date that is given in days. Nothing where it is too far away.
pub open spec fn date32_days(v: i32) -> Option<i32> {
    if is_date(v as int) {
        Some(v)
    } else {
        None
    }
}

/// The days since 1970 of a date that is given in milliseconds. Nothing where it is too far
/// away.
pub open spec fn date64_days(v: i64) -> Option<i32> {
    let days = v as int / 86_400_000;
    if is_date(days) {
        Some(days as i32)
    } else {
        None
    }
}

/// `as_date` of arrow_array for `Date32`: the date of that many days since 1970,
/// unless it is too far away for chrono.
#[verifier::external_body]
fn date_of_days(v: i32) -> (r: Option<i32>)
    ensures
        r == date32_days(v),
{
    as_date::<Date32Type>(i64::from(v)).map(Date32Type::from_naive_date)
}

/// `as_date` of arrow_array for `Date64`: the date of that many milliseconds since
/// 1970, unless it is too far away for chrono.
#[verifier::external_body]
fn date_of_millis(v: i64) -> (r: Option<i32>)
    ensures
        r == date64_days(v),
{
    as_date::<Date64Type>(v).map(Date32Type::from_naive_date)
}

/// The number of nanoseconds in a part of a second.
pub open spec fn unit_nanos(unit: TimeUnit) -> int {
    match unit {
        TimeUnit::Second => 1_000_000_000,
        TimeUnit::Millisecond => 1_000_000,
        TimeUnit::Microsecond => 1_000,
        TimeUnit::Nanosecond => 1,
    }
}

/// The time of day of a number of parts of a second since midnight, where it is one. Of the
/// whole seconds the lowest 32 bits count.
pub open spec fn time_of_day(unit: TimeUnit, v: i64) -> Option<TimeOfDay> {
    let base = coerce::per_second(unit);
    let seconds = (v as int / base) % 0x1_0000_0000;
    if v < 0 && v as int % base != 0 || seconds >= 86_400 {
        None
    } else {
        Some(
            TimeOfDay {
                seconds: seconds as u32,
                nanos: ((v as int % base) * unit_nanos(unit)) as u32,
            },
        )
    }
}

/// `as_time` of arrow_array for the four time types: the time of day of that many
/// parts of a second since midnight.
#[verifier::external_body]
fn time_of(unit: TimeUnit, v: i64) -> (r: Option<TimeOfDay>)
    requires
        unit is Second || unit is Millisecond ==> i32::MIN <= v <= i32::MAX,
    ensures
        r == time_of_day(unit, v),
{
    let time = match unit {
        TimeUnit::Second => as_time::<Time32SecondType>(v),
        TimeUnit::Millisecond => as_time::<Time32MillisecondType>(v),
        TimeUnit::Microsecond => as_time::<Time64MicrosecondType>(v),
        TimeUnit::Nanosecond => as_time::<Time64NanosecondType>(v),
    };
    let parts = |t: NaiveTime| (t.num_seconds_from_midnight(), t.nanosecond());
    time.map(parts).map(|(seconds, nanos)| TimeOfDay { seconds, nanos })
}

/// The time of a number of parts of a second since 1970. Nothing where it is too far away.
pub open spec fn time_since(unit: TimeUnit, v: i64) -> Option<UtcTime> {
    let nanos = v * unit_nanos(unit);
    let seconds = nanos / 1_000_000_000;
    if is_date(seconds / 86_400) {
        Some(UtcTime { seconds: seconds as i64, nanos: (nanos % 1_000_000_000) as u32 })
    } else {
        None
    }
}

/// `as_datetime` of arrow_array for the four timestamp types: the time of that many
/// parts of a second since 1970, unless it is too far away for chrono.
#[verifier::external_body]
fn datetime_of(unit: TimeUnit, v: i64) -> (r: Option<UtcTime>)
    ensures
        r == time_since(unit, v),
{
    let time = match unit {
        TimeUnit::Second => as_datetime::<TimestampSecondType>(v),
        TimeUnit::Millisecond => as_datetime::<TimestampMillisecondType>(v),
        TimeUnit::Microsecond => as_datetime::<TimestampMicrosecondType>(v),
        TimeUnit::Nanosecond => as_datetime::<TimestampNanosecondType>(v),
    };
    let parts = time.map(|t| (t.and_utc().timestamp(), t.and_utc().timestamp_subsec_nanos()));
    parts.map(|(seconds, nanos)| UtcTime { seconds, nanos })
}

/// The time of a number of parts of a second since 1970 in a time zone, where the
/// zone is known and the time is one.
pub uninterp spec fn zoned_time(unit: TimeUnit, v: i64, tz: Seq<char>) -> Option<
    Option<ZonedTime>,
>;

/// `Tz::from_str` and `as_datetime_with_timezone` of arrow_array for the four
/// timestamp types: the time of that many parts of a second since 1970, with the
/// offset that the zone has then. Nothing where the zone is not known. Which zones
/// there are and what offsets they have is left to the crate.
#[verifier::external_body]
fn datetime_in_zone(unit: TimeUnit, v: i64, tz: &str) -> (r: Option<Option<ZonedTime>>)
    ensures
        r == zoned_time(unit, v, tz@),
        r matches Some(Some(t)) ==> Some(t.utc) == time_since(unit, v),
        r matches Some(None) ==> time_since(unit, v) is None && r is Some,
{
    let tz: Tz = tz.parse().ok()?;
    let time = match unit {
        TimeUnit::Second => as_datetime_with_timezone::<TimestampSecondType>(v, tz),
        TimeUnit::Millisecond => as_datetime_with_timezone::<TimestampMillisecondType>(v, tz),
        TimeUnit::Microsecond => as_datetime_with_timezone::<TimestampMicrosecondType>(v, tz),
        TimeUnit::Nanosecond => as_datetime_with_timezone::<TimestampNanosecondType>(v, tz),
    };
    Some(time.map(|t| ZonedTime {
        utc: UtcTime { seconds: t.timestamp(), nanos: t.timestamp_subsec_nanos() },
        offset: t.offset().fix().local_minus_utc(),
    }))
}

/// What is wrong with a number for a decimal.
#[derive(Clone, Copy, Debug, PartialEq, Eq, Structural)]
pub enum DecimalError {
    ScaleTooLarge(u32),
    OutOfRange,
}

/// `Decimal::try_from_i128_with_scale` of rust_decimal: a decimal of the unscaled
/// value and the scale. The scale can be 28 at most, and is looked at first; the
/// unscaled value can have 96 bits at most.
#[verifier::external_body]
fn try_decimal(value: i128, scale: u32) -> (r: Result<Decimal, DecimalError>)
    ensures
        r == decimal_of(value, scale),
{
    match rust_decimal::Decimal::try_from_i128_with_scale(value, scale) {
        Ok(d) => Ok(Decimal {
            negative: d.is_sign_negative(),
            mantissa: d.mantissa(),
            scale: d.scale(),
        }),
        Err(rust_decimal::Error::ScaleExceedsMaximumPrecision(s)) => Err(
            DecimalError::ScaleTooLarge(s),
        ),
        Err(_) => Err(DecimalError::OutOfRange),
    }
}

/// The decimal of an unscaled value and a scale.
pub open spec fn decimal_of(value: i128, scale: u32) -> Result<Decimal, DecimalError> {
    if scale > 28 {
        Err(DecimalError::ScaleTooLarge(scale))
    } else if -0x1_0000_0000_0000_0000_0000_0000 < value < 0x1_0000_0000_0000_0000_0000_0000 {
        Ok(Decimal { negative: value < 0, mantissa: value, scale })
    } else {
        Err(DecimalError::OutOfRange)
    }
}

impl Column {
    /// The number of rows.
    pub open spec fn rows(self) -> nat {
        match self {
            Column::Null(n) => n as nat,
            Column::Boolean(v) => v@.len(),
            Column::Int8(v) => v@.len(),
            Column::Int16(v) => v@.len(),
            Column::Int32(v) => v@.len(),
            Column::Int64(v) => v@.len(),
            Column::UInt8(v) => v@.len(),
            Column::UInt16(v) => v@.len(),
            Column::UInt32(v) => v@.len(),
            Column::UInt64(v) => v@.len(),
            Column::Float32(v) => v@.len(),
            Column::Float64(v) => v@.len(),
            Column::Decimal128(v) => v@.len(),
            Column::Date32(v) => v@.len(),
            Column::Date64(v) => v@.len(),
            Column::Time32Second(v) => v@.len(),
            Column::Time32Millisecond(v) => v@.len(),
            Column::Time64Microsecond(v) => v@.len(),
            Column::Time64Nanosecond(v) => v@.len(),
            Column::Text(v) => v@.len(),
            Column::Bytes(v) => v@.len(),
            Column::Timestamp(v) => v@.len(),
            Column::Duration(v) => v@.len(),
            Column::IntervalYearMonth { valid, .. } => valid@.len(),
            Column::IntervalDayTime { valid, .. } => valid@.len(),
            Column::IntervalMonthDayNano { valid, .. } => valid@.len(),
            Column::List { valid, .. } => valid@.len(),
            Column::FixedSizeList { valid, .. } => valid@.len(),
            Column::Struct { valid } => valid@.len(),
            Column::Dictionary { keys, .. } => keys@.len(),
            Column::Other { valid } => valid@.len(),
        }
    }

    /// True when the row is marked as null. A column of nulls has no marks.
    pub open spec fn null_at(self, i: int) -> bool {
        match self {
            Column::Null(_) => false,
            Column::Boolean(v) => v@[i] is None,
            Column::Int8(v) => v@[i] is None,
            Column::Int16(v) => v@[i] is None,
            Column::Int32(v) => v@[i] is None,
            Column::Int64(v) => v@[i] is None,
            Column::UInt8(v) => v@[i] is None,
            Column::UInt16(v) => v@[i] is None,
            Column::UInt32(v) => v@[i] is None,
            Column::UInt64(v) => v@[i] is None,
            Column::Float32(v) => v@[i] is None,
            Column::Float64(v) => v@[i] is None,
            Column::Decimal128(v) => v@[i] is None,
            Column::Date32(v) => v@[i] is None,
            Column::Date64(v) => v@[i] is None,
            Column::Time32Second(v) => v@[i] is None,
            Column::Time32Millisecond(v) => v@[i] is None,
            Column::Time64Microsecond(v) => v@[i] is None,
            Column::Time64Nanosecond(v) => v@[i] is None,
            Column::Text(v) => v@[i] is None,
            Column::Bytes(v) => v@[i] is None,
            Column::Timestamp(v) => v@[i] is None,
            Column::Duration(v) => v@[i] is None,
            Column::IntervalYearMonth { valid, .. } => !valid@[i],
            Column::IntervalDayTime { valid, .. } => !valid@[i],
            Column::IntervalMonthDayNano { valid, .. } => !valid@[i],
            Column::List { valid, .. } => !valid@[i],
            Column::FixedSizeList { valid, .. } => !valid@[i],
            Column::Struct { valid } => !valid@[i],
            Column::Dictionary { keys, .. } => keys@[i] is None,
            Column::Other { valid } => !valid@[i],
        }
    }

    /// True when the column can be one of the type.
    pub open spec fn fits(self, t: DataTypeV) -> bool
        decreases self,
    {
        match t {
            DataTypeV::Null => self is Null,
            DataTypeV::Boolean => self is Boolean,
            DataTypeV::Int8 => self is Int8,
            DataTypeV::Int16 => self is Int16,
            DataTypeV::Int32 => self is Int32,
            DataTypeV::Int64 => self is Int64,
            DataTypeV::UInt8 => self is UInt8,
            DataTypeV::UInt16 => self is UInt16,
            DataTypeV::UInt32 => self is UInt32,
            DataTypeV::UInt64 => self is UInt64,
            DataTypeV::Float32 => self is Float32,
            DataTypeV::Float64 => self is Float64,
            DataTypeV::Decimal128(_, _) => self is Decimal128,
            DataTypeV::Date32 => self is Date32,
            DataTypeV::Date64 => self is Date64,
            DataTypeV::Time32(TimeUnit::Second) => self is Time32Second,
            DataTypeV::Time32(TimeUnit::Millisecond) => self is Time32Millisecond,
            DataTypeV::Time64(TimeUnit::Microsecond) => self is Time64Microsecond,
            DataTypeV::Time64(TimeUnit::Nanosecond) => self is Time64Nanosecond,
            DataTypeV::Utf8 | DataTypeV::LargeUtf8 | DataTypeV::Utf8View => self is Text,
            DataTypeV::Binary | DataTypeV::LargeBinary | DataTypeV::BinaryView => self is Bytes,
            DataTypeV::Timestamp(_, _) => self is Timestamp,
            DataTypeV::Duration(_) => self is Duration,
            DataTypeV::Interval(IntervalUnit::YearMonth) => self matches Column::IntervalYearMonth {
                valid,
                months,
            } && months@.len() == valid@.len(),
            DataTypeV::Interval(IntervalUnit::DayTime) => self matches Column::IntervalDayTime {
                valid,
                parts,
            } && parts@.len() == valid@.len(),
            DataTypeV::Interval(
                IntervalUnit::MonthDayNano,
            ) => self matches Column::IntervalMonthDayNano { valid, parts } && parts@.len()
                == valid@.len(),
            DataTypeV::List(_) | DataTypeV::LargeList(_) => self matches Column::List {
                valid,
                singles,
            } && (singles matches Some(rows) ==> rows@.len() == valid@.len()),
            DataTypeV::FixedSizeList(_, _) => self matches Column::FixedSizeList {
                size,
                valid,
                singles,
            } && (singles matches Some(items) ==> items@.len() == size * valid@.len()),
            DataTypeV::Struct(_) => self is Struct,
            DataTypeV::Dictionary(_, value_type) => match self {
                Column::Dictionary { keys, values } => values.fits(*value_type) && forall|i: int|
                    #![trigger keys@[i]]
                    0 <= i < keys@.len() && keys@[i] is Some ==> keys@[i]->0 < values.rows(),
                _ => false,
            },
            _ => self is Other,
        }
    }
}

/// The number of microseconds in a duration, rounded towards zero.
pub open spec fn duration_micros(unit: TimeUnit, v: i64) -> int {
    match unit {
        TimeUnit::Second => v * 1_000_000,
        TimeUnit::Millisecond => v * 1_000,
        TimeUnit::Microsecond => v as int,
        TimeUnit::Nanosecond => toward_zero(v as int, 1_000),
    }
}

/// A quotient, rounded towards zero.
pub open spec fn toward_zero(n: int, d: int) -> int {
    if n < 0 {
        -(-n / d)
    } else {
        n / d
    }
}

/// A column with a row of it: the column of the values that the keys of
/// dictionaries lead to, the rows on the way, and the type. Nothing where a key is
/// null.
pub open spec fn below(c: Column, rows: Seq<usize>, t: DataTypeV) -> Option<
    (Column, Seq<usize>, DataTypeV),
>
    decreases c,
{
    match (c, t) {
        (
            Column::Dictionary { keys, values },
            DataTypeV::Dictionary(_, value_type),
        ) => match keys@[rows.last() as int] {
            Some(key) => below(*values, rows.push(key), *value_type),
            None => None,
        },
        _ => Some((c, rows, t)),
    }
}

/// True when the microseconds of a row's duration fit 64 bits.
pub open spec fn in_reach(c: Column, rows: Seq<usize>, t: DataTypeV) -> bool {
    match below(c, rows, t) {
        Some((Column::Duration(v), path, DataTypeV::Duration(unit))) => v@[path.last() as int]
            matches Some(d) ==> i64::MIN <= duration_micros(unit, d) <= i64::MAX,
        _ => true,
    }
}

/// The scale of a decimal type, as an unsigned number of 32 bits.
pub open spec fn unsigned_scale(s: i8) -> u32 {
    if s < 0 {
        (0x1_0000_0000 + s) as u32
    } else {
        s as u32
    }
}

/// An oid of a number.
pub open spec fn oid_of(v: i32) -> u32 {
    if v < 0 {
        (0x1_0000_0000 + v) as u32
    } else {
        v as u32
    }
}

/// The texts of numbers.
pub open spec fn texts_of(v: Seq<Single>) -> Seq<Seq<char>> {
    v.map_values(|x: Single| x.text@)
}

/// The text of a vector: its numbers in square brackets, with commas between.
pub open spec fn vector_text(items: Seq<Single>) -> Seq<char> {
    seq!['['] + text::join_with(texts_of(items), seq![',']) + seq![']']
}

/// What is written for a row of a vector column.
pub open spec fn vector_value(c: Column, i: int, t: DataTypeV) -> Result<SqlV, EncodeErrorV> {
    if c.null_at(i) {
        Ok(SqlV::Text(None))
    } else {
        match (t, c) {
            (DataTypeV::FixedSizeList(_, _), Column::FixedSizeList { size, singles, .. }) => match singles {
                Some(items) => Ok(
                    SqlV::Text(Some(vector_text(items@.subrange(i * size, i * size + size)))),
                ),
                None => Err(EncodeErrorV::VectorItems),
            },
            (DataTypeV::List(_), Column::List { singles, .. }) => match singles {
                Some(rows) => Ok(SqlV::Text(Some(vector_text(rows@[i]@)))),
                None => Err(EncodeErrorV::VectorItems),
            },
            _ => Err(EncodeErrorV::UnsupportedVector),
        }
    }
}

/// A byte as a signed number.
pub open spec fn signed_byte(b: u8) -> i8 {
    if b < 128 {
        b as i8
    } else {
        (b - 256) as i8
    }
}

/// What is written for a row of a `"char"` column: the text, or in binary form
/// its first byte.
pub open spec fn char_value(cell: Option<Seq<char>>, format: FieldFormat) -> Result<
    SqlV,
    EncodeErrorV,
> {
    match cell {
        None => Ok(SqlV::Text(None)),
        Some(s) => if format == FieldFormat::Text {
            Ok(SqlV::Text(Some(s)))
        } else if s.len() == 0 {
            Err(EncodeErrorV::EmptyChar)
        } else {
            Ok(SqlV::I8(Some(signed_byte(encode_utf8(s)[0]))))
        },
    }
}

/// What is written for a timestamp.
pub open spec fn timestamp_value(v: Option<i64>, unit: TimeUnit, tz: Option<Seq<char>>) -> Result<
    SqlV,
    EncodeErrorV,
> {
    match (v, tz) {
        (None, _) => Ok(SqlV::Timestamp(None)),
        (Some(v), None) => Ok(SqlV::Timestamp(time_since(unit, v))),
        (Some(v), Some(tz)) => match zoned_time(unit, v, tz) {
            Some(t) => Ok(SqlV::TimestampTz(t)),
            None => Err(EncodeErrorV::UnknownTimeZone),
        },
    }
}

/// What is written for a number of a decimal column.
pub open spec fn numeric_value(v: Option<i128>, scale: u32) -> Result<
    Option<Decimal>,
    EncodeErrorV,
> {
    match v {
        None => Ok(None),
        Some(v) => match decimal_of(v, scale) {
            Ok(d) => Ok(Some(d)),
            Err(DecimalError::ScaleTooLarge(s)) => Err(EncodeErrorV::ScaleTooLarge(s)),
            Err(DecimalError::OutOfRange) => Err(EncodeErrorV::NumericOutOfRange),
        },
    }
}

/// What is written for the last of the rows of a column without dictionaries.
/// `Ok(None)` where nothing is.
pub open spec fn plain_value(c: Column, rows: Seq<usize>, t: DataTypeV) -> Result<
    Option<SqlV>,
    EncodeErrorV,
> {
    let i = rows.last() as int;
    match t {
        DataTypeV::Null => Ok(Some(SqlV::I8(None))),
        DataTypeV::Boolean => Ok(Some(SqlV::Bool(c->Boolean_0@[i]))),
        DataTypeV::Int8 => Ok(Some(SqlV::I8(c->Int8_0@[i]))),
        DataTypeV::Int16 => Ok(Some(SqlV::I16(c->Int16_0@[i]))),
        DataTypeV::Int32 => Ok(Some(SqlV::I32(c->Int32_0@[i]))),
        DataTypeV::Int64 => Ok(Some(SqlV::I64(c->Int64_0@[i]))),
        DataTypeV::UInt8 => Ok(
            Some(
                SqlV::I16(
                    match c->UInt8_0@[i] {
                        Some(v) => Some(v as i16),
                        None => None,
                    },
                ),
            ),
        ),
        DataTypeV::UInt16 => Ok(
            Some(
                SqlV::I32(
                    match c->UInt16_0@[i] {
                        Some(v) => Some(v as i32),
                        None => None,
                    },
                ),
            ),
        ),
        DataTypeV::UInt32 => Ok(
            Some(
                SqlV::I64(
                    match c->UInt32_0@[i] {
                        Some(v) => Some(v as i64),
                        None => None,
                    },
                ),
            ),
        ),
        DataTypeV::UInt64 => Ok(
            Some(
                SqlV::Numeric(
                    match c->UInt64_0@[i] {
                        Some(v) => Some(
                            Decimal { negative: false, mantissa: v as i128, scale: 0 },
                        ),
                        None => None,
                    },
                ),
            ),
        ),
        DataTypeV::Float32 => Ok(
            Some(
                SqlV::F32(
                    match c->Float32_0@[i] {
                        Some(v) => Some(v.bits),
                        None => None,
                    },
                ),
            ),
        ),
        DataTypeV::Float64 => Ok(Some(SqlV::F64(c->Float64_0@[i]))),
        DataTypeV::Decimal128(_, s) => match numeric_value(
            c->Decimal128_0@[i],
            unsigned_scale(s),
        ) {
            Ok(d) => Ok(Some(SqlV::Numeric(d))),
            Err(e) => Err(e),
        },
        DataTypeV::Utf8 | DataTypeV::LargeUtf8 | DataTypeV::Utf8View => Ok(
            Some(SqlV::Text(schema::opt_text(c->Text_0@[i]))),
        ),
        DataTypeV::Binary | DataTypeV::LargeBinary | DataTypeV::BinaryView => Ok(
            Some(SqlV::Bytes(scalar::opt_bytes(c->Bytes_0@[i]))),
        ),
        DataTypeV::Date32 => Ok(
            Some(
                SqlV::Date(
                    match c->Date32_0@[i] {
                        Some(v) => date32_days(v),
                        None => None,
                    },
                ),
            ),
        ),
        DataTypeV::Date64 => Ok(
            Some(
                SqlV::Date(
                    match c->Date64_0@[i] {
                        Some(v) => date64_days(v),
                        None => None,
                    },
                ),
            ),
        ),
        DataTypeV::Time32(TimeUnit::Second) => Ok(
            Some(SqlV::Time(short_time(TimeUnit::Second, c->Time32Second_0@[i]))),
        ),
        DataTypeV::Time32(TimeUnit::Millisecond) => Ok(
            Some(SqlV::Time(short_time(TimeUnit::Millisecond, c->Time32Millisecond_0@[i]))),
        ),
        DataTypeV::Time64(TimeUnit::Microsecond) => Ok(
            Some(SqlV::Time(long_time(TimeUnit::Microsecond, c->Time64Microsecond_0@[i]))),
        ),
        DataTypeV::Time64(TimeUnit::Nanosecond) => Ok(
            Some(SqlV::Time(long_time(TimeUnit::Nanosecond, c->Time64Nanosecond_0@[i]))),
        ),
        DataTypeV::Time32(_) | DataTypeV::Time64(_) => Ok(None),
        DataTypeV::Timestamp(unit, tz) => match timestamp_value(c->Timestamp_0@[i], unit, tz) {
            Ok(v) => Ok(Some(v)),
            Err(e) => Err(e),
        },
        DataTypeV::Interval(_) => Ok(Some(SqlV::Interval(Some(stored_interval(c, i))))),
        DataTypeV::Duration(unit) => Ok(
            Some(
                SqlV::Interval(
                    match c->Duration_0@[i] {
                        Some(v) => Some(
                            Interval {
                                months: 0,
                                days: 0,
                                microseconds: duration_micros(unit, v) as i64,
                            },
                        ),
                        None => None,
                    },
                ),
            ),
        ),
        DataTypeV::List(_) | DataTypeV::LargeList(_) | DataTypeV::FixedSizeList(_, _) => Ok(
            Some(
                if c.null_at(i) {
                    SqlV::NullList
                } else {
                    SqlV::List { rows }
                },
            ),
        ),
        DataTypeV::Struct(_) => Ok(
            Some(
                if c.null_at(i) {
                    SqlV::NullStruct
                } else {
                    SqlV::Struct { rows }
                },
            ),
        ),
        _ => Err(EncodeErrorV::UnsupportedType),
    }
}

/// The time of day that is that many nanoseconds after midnight.
pub open spec fn day_time(nanos: int) -> TimeOfDay {
    TimeOfDay { seconds: (nanos / 1_000_000_000) as u32, nanos: (nanos % 1_000_000_000) as u32 }
}

/// The time of day of a cell.
pub open spec fn short_time(unit: TimeUnit, cell: Option<i32>) -> Option<TimeOfDay> {
    match cell {
        Some(v) => time_of_day(unit, v as i64),
        None => None,
    }
}

/// The time of day of a cell.
pub open spec fn long_time(unit: TimeUnit, cell: Option<i64>) -> Option<TimeOfDay> {
    match cell {
        Some(v) => time_of_day(unit, v),
        None => None,
    }
}

/// What is written for a row of a column that has no marks.
pub open spec fn typed_value(c: Column, rows: Seq<usize>, t: DataTypeV) -> Result<
    Option<SqlV>,
    EncodeErrorV,
> {
    match below(c, rows, t) {
        Some((inner, path, value_type)) => plain_value(inner, path, value_type),
        None => Ok(Some(SqlV::I8(None))),
    }
}

/// True of a `"char"` field.
pub open spec fn is_char(f: FieldV) -> bool {
    schema::lookup(f.metadata, PG_CHAR_KEY@) is Some
}

/// True of a field of oids.
pub open spec fn is_oid(f: FieldV) -> bool {
    f.data_type is Int32 && schema::lookup(f.metadata, PG_OID_ALIAS_KEY@) == Some("oid"@)
}

/// What is written for a row of a column. The mark of a geometry goes before that of
/// a vector, that one before that of a `"char"`, and that one before that of an oid,
/// which counts in binary form only. `Ok(None)` where nothing is written.
pub open spec fn value_of(c: Column, idx: usize, f: FieldV, format: FieldFormat) -> Result<
    Option<SqlV>,
    EncodeErrorV,
> {
    let i = idx as int;
    if geometry::geometry(f) is None {
        Err(EncodeErrorV::InvalidGeometry)
    } else if geometry::geometry(f) == Some(true) {
        Ok(Some(SqlV::Geometry { row: idx }))
    } else if datatypes::is_vector(f) {
        written(vector_value(c, i, f.data_type))
    } else if is_char(f) {
        written(
            char_value(
                if c.null_at(i) {
                    None
                } else {
                    schema::opt_text(c->Text_0@[i])
                },
                format,
            ),
        )
    } else if format == FieldFormat::Binary && is_oid(f) {
        Ok(
            Some(
                SqlV::U32(
                    match c->Int32_0@[i] {
                        Some(v) => Some(oid_of(v)),
                        None => None,
                    },
                ),
            ),
        )
    } else {
        typed_value(c, seq![idx], f.data_type)
    }
}

/// A value that is written.
pub open spec fn written(r: Result<SqlV, EncodeErrorV>) -> Result<Option<SqlV>, EncodeErrorV> {
    match r {
        Ok(v) => Ok(Some(v)),
        Err(e) => Err(e),
    }
}

/// The truth value of a row.
fn get_bool_value(column: &Column, idx: usize) -> (r: Option<bool>)
    requires
        column is Boolean,
        idx < column.rows(),
    ensures
        r == column->Boolean_0@[idx as int],
{
    match column {
        Column::Boolean(v) => v[idx],
        _ => None,
    }
}

/// The number of a row.
fn get_i8_value(column: &Column, idx: usize) -> (r: Option<i8>)
    requires
        column is Int8,
        idx < column.rows(),
    ensures
        r == column->Int8_0@[idx as int],
{
    match column {
        Column::Int8(v) => v[idx],
        _ => None,
    }
}

/// The number of a row.
fn get_i16_value(column: &Column, idx: usize) -> (r: Option<i16>)
    requires
        column is Int16,
        idx < column.rows(),
    ensures
        r == column->Int16_0@[idx as int],
{
    match column {
        Column::Int16(v) => v[idx],
        _ => None,
    }
}

/// The number of a row.
fn get_i32_value(column: &Column, idx: usize) -> (r: Option<i32>)
    requires
        column is Int32,
        idx < column.rows(),
    ensures
        r == column->Int32_0@[idx as int],
{
    match column {
        Column::Int32(v) => v[idx],
        _ => None,
    }
}

/// The number of a row.
fn get_i64_value(column: &Column, idx: usize) -> (r: Option<i64>)
    requires
        column is Int64,
        idx < column.rows(),
    ensures
        r == column->Int64_0@[idx as int],
{
    match column {
        Column::Int64(v) => v[idx],
        _ => None,
    }
}

/// The number of a row.
fn get_u8_value(column: &Column, idx: usize) -> (r: Option<u8>)
    requires
        column is UInt8,
        idx < column.rows(),
    ensures
        r == column->UInt8_0@[idx as int],
{
    match column {
        Column::UInt8(v) => v[idx],
        _ => None,
    }
}

/// The number of a row.
fn get_u16_value(column: &Column, idx: usize) -> (r: Option<u16>)
    requires
        column is UInt16,
        idx < column.rows(),
    ensures
        r == column->UInt16_0@[idx as int],
{
    match column {
        Column::UInt16(v) => v[idx],
        _ => None,
    }
}

/// The number of a row.
fn get_u32_value(column: &Column, idx: usize) -> (r: Option<u32>)
    requires
        column is UInt32,
        idx < column.rows(),
    ensures
        r == column->UInt32_0@[idx as int],
{
    match column {
        Column::UInt32(v) => v[idx],
        _ => None,
    }
}

/// The number of a row.
fn get_u64_value(column: &Column, idx: usize) -> (r: Option<u64>)
    requires
        column is UInt64,
        idx < column.rows(),
    ensures
        r == column->UInt64_0@[idx as int],
{
    match column {
        Column::UInt64(v) => v[idx],
        _ => None,
    }
}

/// The bits of a row's number.
fn get_f64_value(column: &Column, idx: usize) -> (r: Option<u64>)
    requires
        column is Float64,
        idx < column.rows(),
    ensures
        r == column->Float64_0@[idx as int],
{
    match column {
        Column::Float64(v) => v[idx],
        _ => None,
    }
}

/// The unscaled number of a row.
fn get_i128_value(column: &Column, idx: usize) -> (r: Option<i128>)
    requires
        column is Decimal128,
        idx < column.rows(),
    ensures
        r == column->Decimal128_0@[idx as int],
{
    match column {
        Column::Decimal128(v) => v[idx],
        _ => None,
    }
}

/// The timestamp of a row.
fn get_timestamp_value(column: &Column, idx: usize) -> (r: Option<i64>)
    requires
        column is Timestamp,
        idx < column.rows(),
    ensures
        r == column->Timestamp_0@[idx as int],
{
    match column {
        Column::Timestamp(v) => v[idx],
        _ => None,
    }
}

/// The duration of a row.
fn get_duration_value(column: &Column, idx: usize) -> (r: Option<i64>)
    requires
        column is Duration,
        idx < column.rows(),
    ensures
        r == column->Duration_0@[idx as int],
{
    match column {
        Column::Duration(v) => v[idx],
        _ => None,
    }
}

/// The number of a row as a decimal.
fn get_u64_as_decimal_value(column: &Column, idx: usize) -> (r: Option<Decimal>)
    requires
        column is UInt64,
        idx < column.rows(),
    ensures
        r == (match column->UInt64_0@[idx as int] {
            Some(v) => Some(Decimal { negative: false, mantissa: v as i128, scale: 0 }),
            None => None,
        }),
{
    match get_u64_value(column, idx) {
        Some(v) => Some(Decimal { negative: false, mantissa: v as i128, scale: 0 }),
        None => None,
    }
}

/// The bits of a row's number.
fn get_f32_value(column: &Column, idx: usize) -> (r: Option<u32>)
    requires
        column is Float32,
        idx < column.rows(),
    ensures
        r == (match column->Float32_0@[idx as int] {
            Some(v) => Some(v.bits),
            None => None,
        }),
{
    match column {
        Column::Float32(v) => match &v[idx] {
            Some(x) => Some(x.bits),
            None => None,
        },
        _ => None,
    }
}

/// The text of a row.
fn get_utf8_value(column: &Column, idx: usize) -> (r: Option<String>)
    requires
        column is Text,
        idx < column.rows(),
    ensures
        schema::opt_text(r) == schema::opt_text(column->Text_0@[idx as int]),
{
    match column {
        Column::Text(v) => schema::copy_opt_text(&v[idx]),
        _ => None,
    }
}

/// The bytes of a row.
fn get_binary_value(column: &Column, idx: usize) -> (r: Option<Vec<u8>>)
    requires
        column is Bytes,
        idx < column.rows(),
    ensures
        scalar::opt_bytes(r) == scalar::opt_bytes(column->Bytes_0@[idx as int]),
{
    match column {
        Column::Bytes(v) => match &v[idx] {
            Some(b) => {
                let copy = b.clone();
                assert(copy@ == b@);
                Some(copy)
            },
            None => None,
        },
        _ => None,
    }
}

/// The date of a row, in days since 1970.
pub fn get_date32_value(column: &Column, idx: usize) -> (r: Option<i32>)
    requires
        column is Date32,
        idx < column.rows(),
    ensures
        r == (match column->Date32_0@[idx as int] {
            Some(v) => date32_days(v),
            None => None,
        }),
        column->Date32_0@[idx as int] matches Some(v) ==> (r matches Some(d) ==> d == v),
{
    match column {
        Column::Date32(v) => match v[idx] {
            Some(x) => date_of_days(x),
            None => None,
        },
        _ => None,
    }
}

/// The date of a row, in days since 1970.
pub fn get_date64_value(column: &Column, idx: usize) -> (r: Option<i32>)
    requires
        column is Date64,
        idx < column.rows(),
    ensures
        r == (match column->Date64_0@[idx as int] {
            Some(v) => date64_days(v),
            None => None,
        }),
        column->Date64_0@[idx as int] matches Some(v) ==> (r matches Some(d) ==> d
            == v as int / 86_400_000),
{
    match column {
        Column::Date64(v) => match v[idx] {
            Some(x) => date_of_millis(x),
            None => None,
        },
        _ => None,
    }
}

/// The time of day of a row.
pub fn get_time32_second_value(column: &Column, idx: usize) -> (r: Option<TimeOfDay>)
    requires
        column is Time32Second,
        idx < column.rows(),
    ensures
        r == short_time(TimeUnit::Second, column->Time32Second_0@[idx as int]),
{
    match column {
        Column::Time32Second(v) => match v[idx] {
            Some(x) => time_of(TimeUnit::Second, x as i64),
            None => None,
        },
        _ => None,
    }
}

/// The time of day of a row.
pub fn get_time32_millisecond_value(column: &Column, idx: usize) -> (r: Option<TimeOfDay>)
    requires
        column is Time32Millisecond,
        idx < column.rows(),
    ensures
        r == short_time(TimeUnit::Millisecond, column->Time32Millisecond_0@[idx as int]),
{
    match column {
        Column::Time32Millisecond(v) => match v[idx] {
            Some(x) => time_of(TimeUnit::Millisecond, x as i64),
            None => None,
        },
        _ => None,
    }
}

/// The time of day of a row.
pub fn get_time64_microsecond_value(column: &Column, idx: usize) -> (r: Option<TimeOfDay>)
    requires
        column is Time64Microsecond,
        idx < column.rows(),
    ensures
        r == long_time(TimeUnit::Microsecond, column->Time64Microsecond_0@[idx as int]),
{
    match column {
        Column::Time64Microsecond(v) => match v[idx] {
            Some(x) => time_of(TimeUnit::Microsecond, x),
            None => None,
        },
        _ => None,
    }
}

/// The time of day of a row.
pub fn get_time64_nanosecond_value(column: &Column, idx: usize) -> (r: Option<TimeOfDay>)
    requires
        column is Time64Nanosecond,
        idx < column.rows(),
    ensures
        r == long_time(TimeUnit::Nanosecond, column->Time64Nanosecond_0@[idx as int]),
{
    match column {
        Column::Time64Nanosecond(v) => match v[idx] {
            Some(x) => time_of(TimeUnit::Nanosecond, x),
            None => None,
        },
        _ => None,
    }
}

/// The decimal number of a row.
pub fn get_numeric_128_value(column: &Column, idx: usize, scale: u32) -> (r: Result<
    Option<Decimal>,
    EncodeError,
>)
    requires
        column is Decimal128,
        idx < column.rows(),
    ensures
        match r {
            Ok(d) => numeric_value(column->Decimal128_0@[idx as int], scale) == Ok::<_, EncodeErrorV>(d),
            Err(e) => numeric_value(column->Decimal128_0@[idx as int], scale) == Err::<Option<Decimal>, _>(e@),
        },
{
    match get_i128_value(column, idx) {
        None => Ok(None),
        Some(v) => match try_decimal(v, scale) {
            Ok(d) => Ok(Some(d)),
            Err(DecimalError::ScaleTooLarge(s)) => Err(EncodeError::ScaleTooLarge(s)),
            Err(DecimalError::OutOfRange) => Err(EncodeError::NumericOutOfRange),
        },
    }
}

/// What the encoding of a row asks of the column: that it is of the field's type and
/// has the row, that the values of a `"char"` field are plain texts, and that the
/// microseconds of a duration fit 64 bits.
pub open spec fn encodable(c: Column, idx: usize, f: FieldV) -> bool {
    &&& c.fits(f.data_type)
    &&& idx < c.rows()
    &&& is_char(f) && !geometry::is_geometry(f) && !datatypes::is_vector(f) ==> c.null_at(idx as int)
        || f.data_type is Utf8
    &&& in_reach(c, seq![idx], f.data_type)
}

/// The models of what is written.
pub open spec fn value_result(r: Result<Option<SqlValue>, EncodeError>) -> Result<
    Option<SqlV>,
    EncodeErrorV,
> {
    match r {
        Ok(Some(v)) => Ok(Some(v@)),
        Ok(None) => Ok(None),
        Err(e) => Err(e@),
    }
}

/// Divides a number by a thousand, towards zero.
fn thousandth(v: i64) -> (r: i64)
    ensures
        r == toward_zero(v as int, 1000),
{
    v / 1000
}

/// True when the row is marked as null.
fn is_null(column: &Column, idx: usize) -> (r: bool)
    requires
        idx < column.rows(),
    ensures
        r == column.null_at(idx as int),
{
    match column {
        Column::Null(_) => false,
        Column::Boolean(v) => v[idx].is_none(),
        Column::Int8(v) => v[idx].is_none(),
        Column::Int16(v) => v[idx].is_none(),
        Column::Int32(v) => v[idx].is_none(),
        Column::Int64(v) => v[idx].is_none(),
        Column::UInt8(v) => v[idx].is_none(),
        Column::UInt16(v) => v[idx].is_none(),
        Column::UInt32(v) => v[idx].is_none(),
        Column::UInt64(v) => v[idx].is_none(),
        Column::Float32(v) => v[idx].is_none(),
        Column::Float64(v) => v[idx].is_none(),
        Column::Decimal128(v) => v[idx].is_none(),
        Column::Date32(v) => v[idx].is_none(),
        Column::Date64(v) => v[idx].is_none(),
        Column::Time32Second(v) => v[idx].is_none(),
        Column::Time32Millisecond(v) => v[idx].is_none(),
        Column::Time64Microsecond(v) => v[idx].is_none(),
        Column::Time64Nanosecond(v) => v[idx].is_none(),
        Column::Text(v) => v[idx].is_none(),
        Column::Bytes(v) => v[idx].is_none(),
        Column::Timestamp(v) => v[idx].is_none(),
        Column::Duration(v) => v[idx].is_none(),
        Column::IntervalYearMonth { valid, .. } => !valid[idx],
        Column::IntervalDayTime { valid, .. } => !valid[idx],
        Column::IntervalMonthDayNano { valid, .. } => !valid[idx],
        Column::List { valid, .. } => !valid[idx],
        Column::FixedSizeList { valid, .. } => !valid[idx],
        Column::Struct { valid, .. } => !valid[idx],
        Column::Other { valid, .. } => !valid[idx],
        Column::Dictionary { keys, .. } => keys[idx].is_none(),
    }
}

/// The stored interval of a row.
fn get_interval_value(column: &Column, idx: usize) -> (r: Option<Interval>)
    requires
        column is IntervalYearMonth || column is IntervalDayTime || column is IntervalMonthDayNano,
        match *column {
            Column::IntervalYearMonth { months, .. } => idx < months@.len(),
            Column::IntervalDayTime { parts, .. } => idx < parts@.len(),
            Column::IntervalMonthDayNano { parts, .. } => idx < parts@.len(),
            _ => false,
        },
    ensures
        r == Some(stored_interval(*column, idx as int)),
{
    match column {
        Column::IntervalYearMonth { months, .. } => Some(
            Interval { months: months[idx], days: 0, microseconds: 0 },
        ),
        Column::IntervalDayTime { parts, .. } => {
            let (days, millis) = parts[idx];
            Some(Interval { months: 0, days, microseconds: millis as i64 * 1000 })
        },
        Column::IntervalMonthDayNano { parts, .. } => {
            let (months, days, nanos) = parts[idx];
            Some(Interval { months, days, microseconds: thousandth(nanos) })
        },
        _ => None,
    }
}

/// The interval that is stored in a row.
pub open spec fn stored_interval(c: Column, i: int) -> Interval {
    match c {
        Column::IntervalYearMonth { months, .. } => Interval {
            months: months@[i],
            days: 0,
            microseconds: 0,
        },
        Column::IntervalDayTime { parts, .. } => Interval {
            months: 0,
            days: parts@[i].0,
            microseconds: (parts@[i].1 * 1000) as i64,
        },
        Column::IntervalMonthDayNano { parts, .. } => Interval {
            months: parts@[i].0,
            days: parts@[i].1,
            microseconds: toward_zero(parts@[i].2 as int, 1000) as i64,
        },
        _ => arbitrary(),
    }
}

fn typed(column: &Column, rows: Vec<usize>, t: &DataType) -> (r: Result<
    Option<SqlValue>,
    EncodeError,
>)
    requires
        column.fits(t@),
        rows@.len() > 0,
        rows@.last() < column.rows(),
        in_reach(*column, rows@, t@),
    ensures
        value_result(r) == typed_value(*column, rows@, t@),
    decreases column,
{
    let idx: usize = rows[rows.len() - 1];
    let value = match t {
        DataType::Null => SqlValue::I8(None),
        DataType::Boolean => SqlValue::Bool(get_bool_value(column, idx)),
        DataType::Int8 => SqlValue::I8(get_i8_value(column, idx)),
        DataType::Int16 => SqlValue::I16(get_i16_value(column, idx)),
        DataType::Int32 => SqlValue::I32(get_i32_value(column, idx)),
        DataType::Int64 => SqlValue::I64(get_i64_value(column, idx)),
        DataType::UInt8 => match get_u8_value(column, idx) {
            Some(v) => SqlValue::I16(Some(v as i16)),
            None => SqlValue::I16(None),
        },
        DataType::UInt16 => match get_u16_value(column, idx) {
            Some(v) => SqlValue::I32(Some(v as i32)),
            None => SqlValue::I32(None),
        },
        DataType::UInt32 => match get_u32_value(column, idx) {
            Some(v) => SqlValue::I64(Some(v as i64)),
            None => SqlValue::I64(None),
        },
        DataType::UInt64 => SqlValue::Numeric(get_u64_as_decimal_value(column, idx)),
        DataType::Float32 => SqlValue::F32(get_f32_value(column, idx)),
        DataType::Float64 => SqlValue::F64(get_f64_value(column, idx)),
        DataType::Decimal128(_, s) => {
            let scale: u32 = if *s < 0 {
                (0x1_0000_0000i64 + *s as i64) as u32
            } else {
                *s as u32
            };
            match get_numeric_128_value(column, idx, scale) {
                Ok(d) => SqlValue::Numeric(d),
                Err(e) => return Err(e),
            }
        },
        DataType::Utf8 | DataType::LargeUtf8 | DataType::Utf8View => SqlValue::Text(
            get_utf8_value(column, idx),
        ),
        DataType::Binary | DataType::LargeBinary | DataType::BinaryView => SqlValue::Bytes(
            get_binary_value(column, idx),
        ),
        DataType::Date32 => SqlValue::Date(get_date32_value(column, idx)),
        DataType::Date64 => SqlValue::Date(get_date64_value(column, idx)),
        DataType::Time32(TimeUnit::Second) => SqlValue::Time(get_time32_second_value(column, idx)),
        DataType::Time32(TimeUnit::Millisecond) => SqlValue::Time(
            get_time32_millisecond_value(column, idx),
        ),
        DataType::Time64(TimeUnit::Microsecond) => SqlValue::Time(
            get_time64_microsecond_value(column, idx),
        ),
        DataType::Time64(TimeUnit::Nanosecond) => SqlValue::Time(
            get_time64_nanosecond_value(column, idx),
        ),
        DataType::Time32(_) | DataType::Time64(_) => return Ok(None),
        DataType::Timestamp(unit, tz) => match (get_timestamp_value(column, idx), tz) {
            (None, _) => SqlValue::Timestamp(None),
            (Some(v), None) => SqlValue::Timestamp(datetime_of(*unit, v)),
            (Some(v), Some(tz)) => match datetime_in_zone(*unit, v, tz.as_str()) {
                Some(time) => SqlValue::TimestampTz(time),
                None => return Err(EncodeError::UnknownTimeZone),
            },
        },
        DataType::Interval(_) => SqlValue::Interval(get_interval_value(column, idx)),
        DataType::Duration(unit) => match get_duration_value(column, idx) {
            Some(v) => {
                let microseconds: i64 = match unit {
                    TimeUnit::Second => v * 1_000_000,
                    TimeUnit::Millisecond => v * 1_000,
                    TimeUnit::Microsecond => v,
                    TimeUnit::Nanosecond => thousandth(v),
                };
                SqlValue::Interval(Some(Interval { months: 0, days: 0, microseconds }))
            },
            None => SqlValue::Interval(None),
        },
        DataType::List(_) | DataType::LargeList(_) | DataType::FixedSizeList(_, _) => {
            if is_null(column, idx) {
                SqlValue::NullList
            } else {
                SqlValue::List { rows }
            }
        },
        DataType::Struct(_) => {
            if is_null(column, idx) {
                SqlValue::NullStruct
            } else {
                SqlValue::Struct { rows }
            }
        },
        DataType::Dictionary(_, value_type) => {
            if let Column::Dictionary { keys, values } = column {
                match keys[idx] {
                    Some(key) => {
                        let mut path = rows;
                        path.push(key);
                        return typed(values, path, value_type);
                    },
                    None => SqlValue::I8(None),
                }
            } else {
                SqlValue::I8(None)
            }
        },
        _ => return Err(EncodeError::UnsupportedType),
    };
    Ok(Some(value))
}

/// The text of a vector of the numbers from `from` to `to`.
fn format_pg_vector(items: &Vec<Single>, from: usize, to: usize) -> (r: String)
    requires
        from <= to <= items@.len(),
    ensures
        r@ == vector_text(items@.subrange(from as int, to as int)),
{
    let ghost part = items@.subrange(from as int, to as int);
    let mut texts: Vec<String> = Vec::new();
    let mut i: usize = from;
    while i < to
        invariant
            from <= i <= to <= items@.len(),
            part == items@.subrange(from as int, to as int),
            text::views(texts@) == texts_of(part).take(i - from),
        decreases to - i,
    {
        let ghost before = texts@;
        texts.push(items[i].text.clone());
        assert(text::views(texts@) == text::views(before).push(items@[i as int].text@));
        assert(texts_of(part).take(i + 1 - from) == texts_of(part).take(i - from).push(
            part[i - from].text@,
        ));
        i += 1;
    }
    assert(texts_of(part).take(to - from) == texts_of(part));
    let inner = text::join(&texts, ",");
    let mut r = "[".to_owned();
    r.append(inner.as_str());
    r.append("]");
    proof {
        reveal_strlit(",");
        reveal_strlit("[");
        reveal_strlit("]");
        assert(","@ == seq![',']);
        assert("["@ == seq!['[']);
        assert("]"@ == seq![']']);
    }
    r
}

/// What is written for a row of a vector column.
pub fn pg_vector_value(column: &Column, idx: usize, t: &DataType) -> (r: Result<
    SqlValue,
    EncodeError,
>)
    requires
        column.fits(t@),
        idx < column.rows(),
    ensures
        match r {
            Ok(v) => vector_value(*column, idx as int, t@) == Ok::<_, EncodeErrorV>(v@),
            Err(e) => vector_value(*column, idx as int, t@) == Err::<SqlV, _>(e@),
        },
{
    if is_null(column, idx) {
        return Ok(SqlValue::Text(None));
    }
    match (t, column) {
        (DataType::FixedSizeList(_, _), Column::FixedSizeList { size, valid, singles }) => match singles {
            Some(items) => {
                let n: usize = items.len();
                assert(0 <= idx * *size && idx * *size + *size <= n)
                    by (nonlinear_arith)
                    requires
                        0 <= idx < valid@.len(),
                        0 <= *size,
                        n == *size * valid@.len(),
                ;
                let start: usize = idx * *size;
                Ok(SqlValue::Text(Some(format_pg_vector(items, start, start + *size))))
            },
            None => Err(EncodeError::VectorItems),
        },
        (DataType::List(_), Column::List { singles, .. }) => match singles {
            Some(rows) => {
                let row = &rows[idx];
                assert(row@.subrange(0, row@.len() as int) == row@);
                Ok(SqlValue::Text(Some(format_pg_vector(row, 0, row.len()))))
            },
            None => Err(EncodeError::VectorItems),
        },
        _ => Err(EncodeError::UnsupportedVector),
    }
}

/// What is written for a row of a `"char"` column.
pub fn pg_char_value(column: &Column, idx: usize, format: FieldFormat) -> (r: Result<
    SqlValue,
    EncodeError,
>)
    requires
        idx < column.rows(),
        column.null_at(idx as int) || column is Text,
    ensures
        ({
            let cell = if column.null_at(idx as int) {
                None
            } else {
                schema::opt_text(column->Text_0@[idx as int])
            };
            match r {
                Ok(v) => char_value(cell, format) == Ok::<_, EncodeErrorV>(v@),
                Err(e) => char_value(cell, format) == Err::<SqlV, _>(e@),
            }
        }),
{
    if is_null(column, idx) {
        return Ok(SqlValue::Text(None));
    }
    match get_utf8_value(column, idx) {
        None => Ok(SqlValue::Text(None)),
        Some(value) => match format {
            FieldFormat::Text => Ok(SqlValue::Text(Some(value))),
            FieldFormat::Binary => {
                let bytes = value.as_str().as_bytes();
                proof {
                    lemma_encoded_nonempty(value@);
                }
                if bytes.len() == 0 {
                    Err(EncodeError::EmptyChar)
                } else {
                    let b: u8 = bytes[0];
                    let byte: i8 = if b < 128 {
                        b as i8
                    } else {
                        (b as i16 - 256) as i8
                    };
                    Ok(SqlValue::I8(Some(byte)))
                }
            },
        },
    }
}

/// A text has bytes exactly where it has characters.
proof fn lemma_encoded_nonempty(s: Seq<char>)
    ensures
        encode_utf8(s).len() == 0 <==> s.len() == 0,
{
}

/// What is written for a row of a column.
pub fn field_value(
    column: &Column,
    idx: usize,
    arrow_field: &Field,
    pg_field: &FieldInfo,
) -> (r: Result<Option<SqlValue>, EncodeError>)
    requires
        encodable(*column, idx, arrow_field@),
    ensures
        value_result(r) == value_of(*column, idx, arrow_field@, pg_field.format),
{
    match geometry::geometry_of(arrow_field) {
        None => {
            return Err(EncodeError::InvalidGeometry);
        },
        Some(true) => {
            return Ok(Some(SqlValue::Geometry { row: idx }));
        },
        Some(false) => {},
    }
    if datatypes::is_pg_vector_field(arrow_field) {
        return match pg_vector_value(column, idx, &arrow_field.data_type) {
            Ok(v) => Ok(Some(v)),
            Err(e) => Err(e),
        };
    }
    if datatypes::is_pg_char_field(arrow_field) {
        return match pg_char_value(column, idx, pg_field.format) {
            Ok(v) => Ok(Some(v)),
            Err(e) => Err(e),
        };
    }
    if pg_field.format == FieldFormat::Binary && is_oid_field(arrow_field) {
        return Ok(Some(SqlValue::U32(pg_oid_value(column, idx))));
    }
    let rows: Vec<usize> = vec![idx];
    assert(rows@ == seq![idx]);
    typed(column, rows, &arrow_field.data_type)
}

/// True of a field of oids.
fn is_oid_field(field: &Field) -> (r: bool)
    ensures
        r == is_oid(field@),
{
    match field.data_type {
        DataType::Int32 => match field.get_metadata(PG_OID_ALIAS_KEY) {
            Some(kind) => text::same(kind, "oid"),
            None => false,
        },
        _ => false,
    }
}

/// The oid of a row. Oids are unsigned on the wire, and held as signed numbers.
pub fn pg_oid_value(column: &Column, idx: usize) -> (r: Option<u32>)
    requires
        column is Int32,
        idx < column.rows(),
    ensures
        r == (match column->Int32_0@[idx as int] {
            Some(v) => Some(oid_of(v)),
            None => None,
        }),
{
    match get_i32_value(column, idx) {
        Some(v) => if v < 0 {
            Some((0x1_0000_0000i64 + v as i64) as u32)
        } else {
            Some(v as u32)
        },
        None => None,
    }
}

/// Encodes a row of a column.
pub fn encode_value<T: Encoder>(
    encoder: &mut T,
    column: &Column,
    idx: usize,
    arrow_field: &Field,
    pg_field: &FieldInfo,
) -> (r: Result<(), EncodeError>)
    requires
        encodable(*column, idx, arrow_field@),
    ensures
        match value_of(*column, idx, arrow_field@, pg_field.format) {
            Err(e) => r matches Err(x) && x@ == e && *final(encoder) == *old(encoder),
            Ok(None) => r is Ok && *final(encoder) == *old(encoder),
            Ok(Some(v)) => {
                &&& r is Ok <==> old(encoder).accepts(v, pg_field@)
                &&& r is Ok ==> final(encoder).fields() == old(encoder).fields().push(
                    (v, pg_field@),
                )
                &&& r matches Err(x) ==> x == EncodeError::Refused(
                    old(encoder).refusal(v, pg_field@),
                )
            },
        },
{
    match field_value(column, idx, arrow_field, pg_field) {
        Ok(Some(value)) => match encoder.encode_field(value, pg_field) {
            Ok(()) => Ok(()),
            Err(e) => Err(EncodeError::Refused(e)),
        },
        Ok(None) => Ok(()),
        Err(e) => Err(e),
    }
}

/// The fields of a row, as far as the first `n` columns go, or the error of the first
/// column that cannot be encoded.
pub open spec fn row_of(
    columns: Seq<Column>,
    idx: usize,
    fields: Seq<FieldV>,
    infos: Seq<FieldInfoV>,
    n: int,
) -> Result<Seq<(SqlV, FieldInfoV)>, EncodeErrorV>
    decreases n,
{
    if n <= 0 {
        Ok(Seq::empty())
    } else {
        match row_of(columns, idx, fields, infos, n - 1) {
            Err(e) => Err(e),
            Ok(before) => match value_of(columns[n - 1], idx, fields[n - 1], infos[n - 1].format) {
                Err(e) => Err(e),
                Ok(None) => Ok(before),
                Ok(Some(v)) => Ok(before.push((v, infos[n - 1]))),
            },
        }
    }
}

proof fn lemma_row_fails(
    columns: Seq<Column>,
    idx: usize,
    fields: Seq<FieldV>,
    infos: Seq<FieldInfoV>,
    n: int,
    all: int,
)
    requires
        0 <= n <= all,
        row_of(columns, idx, fields, infos, n) is Err,
    ensures
        row_of(columns, idx, fields, infos, all) == row_of(columns, idx, fields, infos, n),
    decreases all - n,
{
    if n < all {
        lemma_row_fails(columns, idx, fields, infos, n, all - 1);
    }
}

/// True when an encoder of the type takes every field.
pub open spec fn takes_all<T: Encoder>() -> bool {
    forall|e: T, v: SqlV, f: FieldInfoV| #[trigger] e.accepts(v, f)
}

/// Encodes a row of a record batch.
pub fn encode_row<T: Encoder>(
    encoder: &mut T,
    columns: &Vec<Column>,
    idx: usize,
    fields: &Vec<Field>,
    pg_fields: &Vec<FieldInfo>,
) -> (r: Result<T::Item, EncodeError>)
    requires
        old(encoder).fields() == Seq::<(SqlV, FieldInfoV)>::empty(),
        fields@.len() == columns@.len(),
        pg_fields@.len() == columns@.len(),
        forall|i: int|
            0 <= i < columns@.len() ==> encodable(#[trigger] columns@[i], idx, fields@[i]@),
    ensures
        ({
            let row = row_of(
                columns@,
                idx,
                schema::fields_view(fields@),
                datatypes::infos_view(pg_fields@),
                columns@.len() as int,
            );
            &&& match r {
                Ok(item) => row == Ok::<_, EncodeErrorV>(T::row_fields(item))
                    && final(encoder).fields() == Seq::<(SqlV, FieldInfoV)>::empty(),
                Err(e) => e@ is Refused && !takes_all::<T>() || row == Err::<
                    Seq<(SqlV, FieldInfoV)>,
                    _,
                >(e@),
            }
        }),
{
    let ghost views = schema::fields_view(fields@);
    let ghost infos = datatypes::infos_view(pg_fields@);
    let mut i: usize = 0;
    while i < columns.len()
        invariant
            i <= columns@.len(),
            fields@.len() == columns@.len(),
            pg_fields@.len() == columns@.len(),
            views == schema::fields_view(fields@),
            infos == datatypes::infos_view(pg_fields@),
            forall|k: int|
                0 <= k < columns@.len() ==> encodable(#[trigger] columns@[k], idx, fields@[k]@),
            row_of(columns@, idx, views, infos, i as int) == Ok::<_, EncodeErrorV>(
                encoder.fields(),
            ),
        decreases columns@.len() - i,
    {
        assert(views[i as int] == fields@[i as int]@);
        assert(infos[i as int] == pg_fields@[i as int]@);
        let ghost before = *encoder;
        match encode_value(encoder, &columns[i], idx, &fields[i], &pg_fields[i]) {
            Ok(()) => {},
            Err(e) => {
                proof {
                    if row_of(columns@, idx, views, infos, i + 1) is Err {
                        lemma_row_fails(
                            columns@,
                            idx,
                            views,
                            infos,
                            i + 1,
                            columns@.len() as int,
                        );
                    } else if takes_all::<T>() {
                        let v = value_of(
                            columns@[i as int],
                            idx,
                            views[i as int],
                            infos[i as int].format,
                        );
                        assert(v is Ok);
                        if let Ok(Some(x)) = v {
                            assert(before.accepts(x, infos[i as int]));
                        }
                    }
                }
                return Err(e);
            },
        }
        i += 1;
    }
    Ok(encoder.take_row())
}

/// Encodes the rows of a record batch: as many as can be encoded, and the error of the
/// first one that cannot.
pub fn encode_recordbatch<T: Encoder>(
    encoder: &mut T,
    columns: &Vec<Column>,
    rows: usize,
    fields: &Vec<Field>,
    pg_fields: &Vec<FieldInfo>,
) -> (r: (Vec<T::Item>, Option<EncodeError>))
    requires
        old(encoder).fields() == Seq::<(SqlV, FieldInfoV)>::empty(),
        fields@.len() == columns@.len(),
        pg_fields@.len() == columns@.len(),
        forall|i: int, idx: usize|
            0 <= i < columns@.len() && idx < rows ==> #[trigger] encodable(
                columns@[i],
                idx,
                fields@[i]@,
            ),
    ensures
        r.0@.len() <= rows,
        r.1 is None <==> r.0@.len() == rows,
        forall|k: int|
            0 <= k < r.0@.len() ==> Ok::<_, EncodeErrorV>(T::row_fields(#[trigger] r.0@[k]))
                == row_of(
                columns@,
                k as usize,
                schema::fields_view(fields@),
                datatypes::infos_view(pg_fields@),
                columns@.len() as int,
            ),
        r.1 matches Some(e) ==> (e@ is Refused && !takes_all::<T>() || Err::<
            Seq<(SqlV, FieldInfoV)>,
            _,
        >(e@) == row_of(
            columns@,
            r.0@.len() as usize,
            schema::fields_view(fields@),
            datatypes::infos_view(pg_fields@),
            columns@.len() as int,
        )),
{
    let mut out: Vec<T::Item> = Vec::new();
    let mut idx: usize = 0;
    while idx < rows
        invariant
            idx <= rows,
            out@.len() == idx,
            encoder.fields() == Seq::<(SqlV, FieldInfoV)>::empty(),
            fields@.len() == columns@.len(),
            pg_fields@.len() == columns@.len(),
            forall|i: int, idx: usize|
                0 <= i < columns@.len() && idx < rows ==> #[trigger] encodable(
                    columns@[i],
                    idx,
                    fields@[i]@,
                ),
            forall|k: int|
                0 <= k < idx ==> Ok::<_, EncodeErrorV>(T::row_fields(#[trigger] out@[k]))
                    == row_of(
                    columns@,
                    k as usize,
                    schema::fields_view(fields@),
                    datatypes::infos_view(pg_fields@),
                    columns@.len() as int,
                ),
        decreases rows - idx,
    {
        match encode_row(encoder, columns, idx, fields, pg_fields) {
            Ok(row) => {
                out.push(row);
            },
            Err(e) => {
                return (out, Some(e));
            },
        }
        idx += 1;
    }
    (out, None)
}

/// Every column of a row is written, a null too, if it can be encoded at all. Only a time of
/// day in a unit that its type does not have is passed over.
pub proof fn law_every_column_is_written(c: Column, idx: usize, f: FieldV, format: FieldFormat)
    ensures
        value_of(c, idx, f, format) == Ok::<Option<SqlV>, EncodeErrorV>(None) ==> (match below(
            c,
            seq![idx],
            f.data_type,
        ) {
            Some((_, _, DataTypeV::Time32(u))) => u == TimeUnit::Microsecond || u
                == TimeUnit::Nanosecond,
            Some((_, _, DataTypeV::Time64(u))) => u == TimeUnit::Second || u
                == TimeUnit::Millisecond,
            _ => false,
        }),
{
}

/// A value of a vector column is written as a text, never as a list.
pub proof fn law_vectors_are_texts(c: Column, idx: usize, f: FieldV, format: FieldFormat)
    requires
        datatypes::is_vector(f),
        !geometry::is_geometry(f),
    ensures
        value_of(c, idx, f, format) matches Ok(v) ==> v matches Some(SqlV::Text(_)),
{
}

/// An oid is written as an unsigned number in binary form, and as it is held in text form.
pub proof fn law_oid_forms(c: Column, idx: usize, f: FieldV)
    requires
        is_oid(f),
        !geometry::is_geometry(f),
        !datatypes::is_vector(f),
        !is_char(f),
        c.fits(f.data_type),
    ensures
        value_of(c, idx, f, FieldFormat::Binary) matches Ok(Some(SqlV::U32(_))),
        value_of(c, idx, f, FieldFormat::Text) == Ok::<_, EncodeErrorV>(
            Some(SqlV::I32(c->Int32_0@[idx as int])),
        ),
{
}

/// A value that is reached by way of more rows: a list or a struct is found behind them,
/// and any other value is what it is.
pub open spec fn reached_by(before: Seq<usize>, r: Result<Option<SqlV>, EncodeErrorV>) -> Result<
    Option<SqlV>,
    EncodeErrorV,
> {
    match r {
        Ok(Some(SqlV::List { rows })) => Ok(Some(SqlV::List { rows: before + rows })),
        Ok(Some(SqlV::Struct { rows })) => Ok(Some(SqlV::Struct { rows: before + rows })),
        _ => r,
    }
}

proof fn lemma_below_more_rows(c: Column, before: Seq<usize>, rows: Seq<usize>, t: DataTypeV)
    requires
        rows.len() > 0,
    ensures
        match below(c, rows, t) {
            Some((inner, path, value_type)) => path.len() > 0 && below(c, before + rows, t) == Some(
                (inner, before + path, value_type),
            ),
            None => below(c, before + rows, t) is None,
        },
    decreases c,
{
    match (c, t) {
        (
            Column::Dictionary { keys, values },
            DataTypeV::Dictionary(_, value_type),
        ) => match keys@[rows.last() as int] {
            Some(key) => {
                assert((before + rows).push(key) == before + rows.push(key));
                lemma_below_more_rows(*values, before, rows.push(key), *value_type);
            },
            None => {},
        },
        _ => {},
    }
}

proof fn lemma_typed_dictionary(c: Column, rows: Seq<usize>, t: DataTypeV)
    requires
        c is Dictionary,
        t is Dictionary,
    ensures
        typed_value(c, rows, t) == (match c->Dictionary_keys@[rows.last() as int] {
            Some(key) => reached_by(
                rows,
                typed_value(*c->Dictionary_values, seq![key], *t->Dictionary_1),
            ),
            None => Ok(Some(SqlV::I8(None))),
        }),
{
    match c->Dictionary_keys@[rows.last() as int] {
        Some(key) => {
            lemma_below_more_rows(*c->Dictionary_values, rows, seq![key], *t->Dictionary_1);
            assert(rows + seq![key] == rows.push(key));
        },
        None => {},
    }
}

/// A key of a dictionary stands for the value in the row that it names. What is written for
/// the key of a column without marks is what is written for the row of the column of values
/// by itself, under a field of their type that has no marks either. A list or a struct is
/// the same row of the values, found by way of the row of the key. A null key is written as
/// a null.
pub proof fn law_dictionary_stands_for_its_value(
    c: Column,
    idx: usize,
    f: FieldV,
    name: Seq<char>,
    format: FieldFormat,
)
    requires
        c is Dictionary,
        f.data_type is Dictionary,
        !geometry::is_geometry(f),
        !datatypes::is_vector(f),
        !is_char(f),
    ensures
        value_of(c, idx, f, format) == (match c->Dictionary_keys@[idx as int] {
            Some(key) => reached_by(
                seq![idx],
                value_of(
                    *c->Dictionary_values,
                    key,
                    FieldV {
                        name,
                        data_type: *f.data_type->Dictionary_1,
                        nullable: true,
                        metadata: Seq::empty(),
                    },
                    format,
                ),
            ),
            None => Ok(Some(SqlV::I8(None))),
        }),
{
    lemma_typed_dictionary(c, seq![idx], f.data_type);
    assert(seq![idx].last() == idx);
}

/// A decimal keeps its digits and its scale, and a scale that is too large is reported
/// whatever the digits are.
pub proof fn law_scale_decides_first(v: i128, scale: u32)
    ensures
        scale > 28 ==> numeric_value(Some(v), scale) == Err::<Option<Decimal>, _>(
            EncodeErrorV::ScaleTooLarge(scale),
        ),
        numeric_value(Some(v), scale) matches Ok(Some(d)) ==> d.valid() && d.mantissa == v
            && d.scale == scale,
{
}

/// A vector that is written as a text is read back with the same items, where the items are
/// texts of numbers: neither empty nor with a comma or white space.
pub proof fn law_vector_is_read_back(items: Seq<Single>)
    requires
        items.len() > 0,
        forall|i: int|
            0 <= i < items.len() ==> (#[trigger] items[i]).text@.len() > 0 && text::lacks(
                items[i].text@,
                ',',
            ) && text::is_solid(items[i].text@),
    ensures
        params::vector_text(vector_text(items)) == Ok::<_, Malformed>(texts_of(items)),
{
    let texts = texts_of(items);
    let inner = text::join_with(texts, seq![',']);
    let s = vector_text(items);
    assert forall|i: int| 0 <= i < texts.len() implies text::lacks(#[trigger] texts[i], ',')
        && text::is_solid(texts[i]) by {
        assert(texts[i] == items[i].text@);
    }
    text::lemma_solid_join(texts, seq![',']);
    text::law_solid_text_is_trimmed(s);
    text::law_solid_text_is_trimmed(inner);
    assert(s.subrange(1, s.len() - 1) == inner);
    assert(inner.len() > 0) by {
        assert(texts[texts.len() - 1] == items[items.len() - 1].text@);
    }
    text::law_split_undoes_join(texts, ',');
    let read = texts.map_values(|p: Seq<char>| text::trimmed(p));
    assert forall|i: int| 0 <= i < texts.len() implies read[i] == texts[i] by {
        text::law_solid_text_is_trimmed(texts[i]);
    }
    assert(read == texts);
}

/// A number of parts of a second that is within a day is that time of the day.
pub proof fn law_time_within_a_day(unit: TimeUnit, v: i64)
    requires
        0 <= v * unit_nanos(unit) < 86_400_000_000_000,
    ensures
        time_of_day(unit, v) == Some(day_time(v * unit_nanos(unit))),
{
    let nanos = v * unit_nanos(unit);
    let base = coerce::per_second(unit);
    assert(nanos / 1_000_000_000 == v as int / base);
    match unit {
        TimeUnit::Second => {
            assert(nanos % 1_000_000_000 == (v as int % 1) * 1_000_000_000);
        },
        TimeUnit::Millisecond => {
            assert(nanos % 1_000_000_000 == (v as int % 1_000) * 1_000_000);
        },
        TimeUnit::Microsecond => {
            assert(nanos % 1_000_000_000 == (v as int % 1_000_000) * 1_000);
        },
        TimeUnit::Nanosecond => {
            assert(nanos % 1_000_000_000 == v as int % 1_000_000_000);
        },
    }
}

/// A timestamp is written as the time that it stands for, to the nanosecond.
pub proof fn law_time_is_kept(unit: TimeUnit, v: i64)
    ensures
        time_since(unit, v) matches Some(t) ==> t.seconds * 1_000_000_000 + t.nanos == v
            * unit_nanos(unit) && t.nanos < 1_000_000_000,
{
}

} // verus!
