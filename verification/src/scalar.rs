//! Values.
use crate::schema;
use crate::schema::{DataType, DataTypeV, Field, FieldV};
use vstd::prelude::*;

verus! {

/// A value, or a null of a type. Floating-point numbers are held as their bits.
#[derive(Debug, PartialEq, Eq)]
pub enum ScalarValue {
    /// A value of the type of nulls.
    Null,
    Boolean(Option<bool>),
    Int8(Option<i8>),
    Int16(Option<i16>),
    Int32(Option<i32>),
    Int64(Option<i64>),
    UInt8(Option<u8>),
    UInt16(Option<u16>),
    UInt32(Option<u32>),
    UInt64(Option<u64>),
    Date32(Option<i32>),
    Time32Second(Option<i32>),
    Time32Millisecond(Option<i32>),
    Time64Microsecond(Option<i64>),
    Time64Nanosecond(Option<i64>),
    IntervalYearMonth(Option<i32>),
    /// The bits of a single-precision number.
    Float32(Option<u32>),
    /// The bits of a double-precision number.
    Float64(Option<u64>),
    Utf8(Option<String>),
    LargeUtf8(Option<String>),
    Utf8View(Option<String>),
    Binary(Option<Vec<u8>>),
    /// An unscaled number, its precision and its scale.
    Decimal128(Option<i128>, u8, i8),
    /// An unscaled number and its scale. Its precision is the number of its digits.
    Decimal128OfDigits(i128, i8),
    TimestampSecond(Option<i64>, Option<String>),
    TimestampMillisecond(Option<i64>, Option<String>),
    TimestampMicrosecond(Option<i64>, Option<String>),
    TimestampNanosecond(Option<i64>, Option<String>),
    /// Days and milliseconds.
    IntervalDayTime(Option<(i32, i32)>),
    /// Months, days and nanoseconds.
    IntervalMonthDayNano(Option<(i32, i32, i64)>),
    /// A list of values that may be null. The item type is that of an empty list.
    List(Vec<ScalarValue>, DataType),
    /// A null list of the given item type.
    NullList(DataType),
    /// A list of the given item field and length; the bits of its single-precision
    /// numbers, or nothing where it is null.
    FixedSizeList(Field, i32, Option<Vec<u32>>),
}

/// The model of a [`ScalarValue`].
#[verifier::ext_equal]
pub enum ScalarV {
    Null,
    Boolean(Option<bool>),
    Int8(Option<i8>),
    Int16(Option<i16>),
    Int32(Option<i32>),
    Int64(Option<i64>),
    UInt8(Option<u8>),
    UInt16(Option<u16>),
    UInt32(Option<u32>),
    UInt64(Option<u64>),
    Date32(Option<i32>),
    Time32Second(Option<i32>),
    Time32Millisecond(Option<i32>),
    Time64Microsecond(Option<i64>),
    Time64Nanosecond(Option<i64>),
    IntervalYearMonth(Option<i32>),
    /// The bits of a single-precision number.
    Float32(Option<u32>),
    /// The bits of a double-precision number.
    Float64(Option<u64>),
    Utf8(Option<Seq<char>>),
    LargeUtf8(Option<Seq<char>>),
    Utf8View(Option<Seq<char>>),
    Binary(Option<Seq<u8>>),
    /// An unscaled number, its precision and its scale.
    Decimal128(Option<i128>, u8, i8),
    /// An unscaled number and its scale. Its precision is the number of its digits.
    Decimal128OfDigits(i128, i8),
    TimestampSecond(Option<i64>, Option<Seq<char>>),
    TimestampMillisecond(Option<i64>, Option<Seq<char>>),
    TimestampMicrosecond(Option<i64>, Option<Seq<char>>),
    TimestampNanosecond(Option<i64>, Option<Seq<char>>),
    /// Days and milliseconds.
    IntervalDayTime(Option<(i32, i32)>),
    /// Months, days and nanoseconds.
    IntervalMonthDayNano(Option<(i32, i32, i64)>),
    /// A list of values that may be null. The item type is that of an empty list.
    List(Seq<ScalarV>, DataTypeV),
    /// A null list of the given item type.
    NullList(DataTypeV),
    /// A list of the given item field and length; the bits of its single-precision
    /// numbers, or nothing where it is null.
    FixedSizeList(FieldV, i32, Option<Seq<u32>>),
}

/// True of a null.
pub open spec fn is_null(v: ScalarV) -> bool {
    match v {
        ScalarV::Null => true,
        ScalarV::Boolean(o) => o is None,
        ScalarV::Int8(o) => o is None,
        ScalarV::Int16(o) => o is None,
        ScalarV::Int32(o) => o is None,
        ScalarV::Int64(o) => o is None,
        ScalarV::UInt8(o) => o is None,
        ScalarV::UInt16(o) => o is None,
        ScalarV::UInt32(o) => o is None,
        ScalarV::UInt64(o) => o is None,
        ScalarV::Date32(o) => o is None,
        ScalarV::Time32Second(o) => o is None,
        ScalarV::Time32Millisecond(o) => o is None,
        ScalarV::Time64Microsecond(o) => o is None,
        ScalarV::Time64Nanosecond(o) => o is None,
        ScalarV::IntervalYearMonth(o) => o is None,
        ScalarV::Float32(o) => o is None,
        ScalarV::Float64(o) => o is None,
        ScalarV::Utf8(o) => o is None,
        ScalarV::LargeUtf8(o) => o is None,
        ScalarV::Utf8View(o) => o is None,
        ScalarV::Binary(o) => o is None,
        ScalarV::Decimal128(o, _, _) => o is None,
        ScalarV::Decimal128OfDigits(_, _) => false,
        ScalarV::TimestampSecond(o, _) => o is None,
        ScalarV::TimestampMillisecond(o, _) => o is None,
        ScalarV::TimestampMicrosecond(o, _) => o is None,
        ScalarV::TimestampNanosecond(o, _) => o is None,
        ScalarV::IntervalDayTime(o) => o is None,
        ScalarV::IntervalMonthDayNano(o) => o is None,
        ScalarV::List(_, _) => false,
        ScalarV::NullList(_) => true,
        ScalarV::FixedSizeList(_, _, o) => o is None,
    }
}

/// The model of optional bytes.
pub open spec fn opt_bytes(o: Option<Vec<u8>>) -> Option<Seq<u8>> {
    match o {
        Some(v) => Some(v@),
        None => None,
    }
}

impl ScalarValue {
    /// The model of this value.
    pub open spec fn model(self) -> ScalarV
        decreases self,
    {
        match self {
            ScalarValue::Null => ScalarV::Null,
            ScalarValue::Boolean(v) => ScalarV::Boolean(v),
            ScalarValue::Int8(v) => ScalarV::Int8(v),
            ScalarValue::Int16(v) => ScalarV::Int16(v),
            ScalarValue::Int32(v) => ScalarV::Int32(v),
            ScalarValue::Int64(v) => ScalarV::Int64(v),
            ScalarValue::UInt8(v) => ScalarV::UInt8(v),
            ScalarValue::UInt16(v) => ScalarV::UInt16(v),
            ScalarValue::UInt32(v) => ScalarV::UInt32(v),
            ScalarValue::UInt64(v) => ScalarV::UInt64(v),
            ScalarValue::Date32(v) => ScalarV::Date32(v),
            ScalarValue::Time32Second(v) => ScalarV::Time32Second(v),
            ScalarValue::Time32Millisecond(v) => ScalarV::Time32Millisecond(v),
            ScalarValue::Time64Microsecond(v) => ScalarV::Time64Microsecond(v),
            ScalarValue::Time64Nanosecond(v) => ScalarV::Time64Nanosecond(v),
            ScalarValue::IntervalYearMonth(v) => ScalarV::IntervalYearMonth(v),
            ScalarValue::Float32(v) => ScalarV::Float32(v),
            ScalarValue::Float64(v) => ScalarV::Float64(v),
            ScalarValue::Utf8(v) => ScalarV::Utf8(schema::opt_text(v)),
            ScalarValue::LargeUtf8(v) => ScalarV::LargeUtf8(schema::opt_text(v)),
            ScalarValue::Utf8View(v) => ScalarV::Utf8View(schema::opt_text(v)),
            ScalarValue::Binary(v) => ScalarV::Binary(opt_bytes(v)),
            ScalarValue::Decimal128(v, p, s) => ScalarV::Decimal128(v, p, s),
            ScalarValue::Decimal128OfDigits(v, s) => ScalarV::Decimal128OfDigits(v, s),
            ScalarValue::TimestampSecond(v, tz) => ScalarV::TimestampSecond(v, schema::opt_text(tz)),
            ScalarValue::TimestampMillisecond(v, tz) => ScalarV::TimestampMillisecond(v, schema::opt_text(tz)),
            ScalarValue::TimestampMicrosecond(v, tz) => ScalarV::TimestampMicrosecond(v, schema::opt_text(tz)),
            ScalarValue::TimestampNanosecond(v, tz) => ScalarV::TimestampNanosecond(v, schema::opt_text(tz)),
            ScalarValue::IntervalDayTime(v) => ScalarV::IntervalDayTime(v),
            ScalarValue::IntervalMonthDayNano(v) => ScalarV::IntervalMonthDayNano(v),
            ScalarValue::List(values, item) => ScalarV::List(
                Seq::new(
                    values@.len(),
                    |i: int|
                        if 0 <= i < values@.len() {
                            values@[i].model()
                        } else {
                            arbitrary()
                        },
                ),
                item@,
            ),
            ScalarValue::NullList(item) => ScalarV::NullList(item@),
            ScalarValue::FixedSizeList(field, n, values) => ScalarV::FixedSizeList(
                field@,
                n,
                match values {
                    Some(v) => Some(v@),
                    None => None,
                },
            ),
        }
    }
}

impl View for ScalarValue {
    type V = ScalarV;

    open spec fn view(&self) -> ScalarV {
        self.model()
    }
}

/// The models of a list of values.
pub open spec fn scalars_view(v: Seq<ScalarValue>) -> Seq<ScalarV> {
    v.map_values(|s: ScalarValue| s@)
}

/// The model of a list is made of the models of its items.
pub proof fn lemma_list_model(values: Vec<ScalarValue>, item: DataType)
    ensures
        ScalarValue::List(values, item)@ == ScalarV::List(scalars_view(values@), item@),
{
    assert(ScalarValue::List(values, item).model()->List_0 == scalars_view(values@));
}

} // verus!
