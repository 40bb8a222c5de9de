//! What the encoding of rows is for: laws over the cells of a column and the values that
//! are written for them.
use crate::datatypes;
use crate::datatypes::{Builtin, FieldFormat, FieldInfoV, TypeV};
use crate::encoder;
use crate::encoder::{Column, EncodeErrorV, Single, SqlV};
use crate::errors::{ErrorV, Malformed};
use crate::geometry;
use crate::param_laws;
use crate::params;
use crate::schema;
use crate::schema::{DataTypeV, FieldV, TimeUnit};
use crate::text;
use crate::wire::Interval;
use vstd::prelude::*;
use vstd::utf8::*;

verus! {

/// True of a value that is written for nothing.
pub open spec fn is_nothing(v: SqlV) -> bool {
    match v {
        SqlV::Bool(o) => o is None,
        SqlV::I8(o) => o is None,
        SqlV::I16(o) => o is None,
        SqlV::I32(o) => o is None,
        SqlV::I64(o) => o is None,
        SqlV::U32(o) => o is None,
        SqlV::F32(o) => o is None,
        SqlV::F64(o) => o is None,
        SqlV::Numeric(o) => o is None,
        SqlV::Text(o) => o is None,
        SqlV::Bytes(o) => o is None,
        SqlV::Date(o) => o is None,
        SqlV::Time(o) => o is None,
        SqlV::Timestamp(o) => o is None,
        SqlV::TimestampTz(o) => o is None,
        SqlV::Interval(o) => o is None,
        SqlV::NullList => true,
        SqlV::NullStruct => true,
        SqlV::List { .. } => false,
        SqlV::Struct { .. } => false,
        SqlV::Geometry { .. } => false,
    }
}

/// The integer that a value is, as a number or as a decimal without a fraction.
pub open spec fn number_of(v: SqlV) -> Option<int> {
    match v {
        SqlV::I8(Some(n)) => Some(n as int),
        SqlV::I16(Some(n)) => Some(n as int),
        SqlV::I32(Some(n)) => Some(n as int),
        SqlV::I64(Some(n)) => Some(n as int),
        SqlV::U32(Some(n)) => Some(n as int),
        SqlV::Numeric(Some(d)) => if d.scale == 0 {
            Some(d.mantissa as int)
        } else {
            None
        },
        _ => None,
    }
}

/// The integer in a row of a column of integers, where it is not null.
pub open spec fn cell_number(c: Column, i: int) -> Option<int> {
    match c {
        Column::Int8(v) => match v@[i] {
            Some(n) => Some(n as int),
            None => None,
        },
        Column::Int16(v) => match v@[i] {
            Some(n) => Some(n as int),
            None => None,
        },
        Column::Int32(v) => match v@[i] {
            Some(n) => Some(n as int),
            None => None,
        },
        Column::Int64(v) => match v@[i] {
            Some(n) => Some(n as int),
            None => None,
        },
        Column::UInt8(v) => match v@[i] {
            Some(n) => Some(n as int),
            None => None,
        },
        Column::UInt16(v) => match v@[i] {
            Some(n) => Some(n as int),
            None => None,
        },
        Column::UInt32(v) => match v@[i] {
            Some(n) => Some(n as int),
            None => None,
        },
        Column::UInt64(v) => match v@[i] {
            Some(n) => Some(n as int),
            None => None,
        },
        _ => None,
    }
}

/// True of a field of which nothing is said that changes how its values are written.
pub open spec fn is_unmarked(f: FieldV) -> bool {
    &&& schema::lookup(f.metadata, "ARROW:extension:name"@) is None
    &&& schema::lookup(f.metadata, "pg.vector"@) is None
    &&& schema::lookup(f.metadata, "pg.char"@) is None
    &&& schema::lookup(f.metadata, "pg.oid_alias"@) is None
}

/// A null is written as nothing, whatever is said of its column, and never as a value. Only
/// the intervals of months, days and times are written as they are stored.
pub proof fn law_nulls_are_written_as_nulls(c: Column, idx: usize, f: FieldV, format: FieldFormat)
    requires
        c.fits(f.data_type),
        c.null_at(idx as int),
        !geometry::is_geometry(f),
        !(f.data_type is Interval),
    ensures
        encoder::value_of(c, idx, f, format) matches Ok(Some(v)) ==> is_nothing(v),
{
}

/// A column of nulls has nothing but nulls.
pub proof fn law_columns_of_nulls(c: Column, idx: usize, f: FieldV, format: FieldFormat)
    requires
        f.data_type is Null,
        is_unmarked(f),
    ensures
        encoder::value_of(c, idx, f, format) matches Ok(Some(v)) && is_nothing(v),
{
}

/// An integer is written as the same integer, of the type that its column is described
/// with. A signed byte is written as one byte.
pub proof fn law_integers_are_written(c: Column, idx: usize, f: FieldV, format: FieldFormat)
    requires
        c.fits(f.data_type),
        is_unmarked(f),
        param_laws::range_of(f.data_type) is Some,
    ensures
        encoder::value_of(c, idx, f, format) matches Ok(Some(v)) && number_of(v) == cell_number(
            c,
            idx as int,
        ) && is_nothing(v) == c.null_at(idx as int) && (!(f.data_type is Int8)
            ==> datatypes::pg_type(f.data_type) == Ok::<_, ErrorV>(TypeV::Builtin(wire_type(v)))),
{
}

/// The Postgres type that a value is written as.
pub open spec fn wire_type(v: SqlV) -> Builtin {
    match v {
        SqlV::Bool(_) => Builtin::BOOL,
        SqlV::I8(_) => Builtin::CHAR,
        SqlV::I16(_) => Builtin::INT2,
        SqlV::I32(_) => Builtin::INT4,
        SqlV::I64(_) => Builtin::INT8,
        SqlV::U32(_) => Builtin::OID,
        SqlV::F32(_) => Builtin::FLOAT4,
        SqlV::F64(_) => Builtin::FLOAT8,
        SqlV::Numeric(_) => Builtin::NUMERIC,
        SqlV::Text(_) => Builtin::TEXT,
        SqlV::Bytes(_) => Builtin::BYTEA,
        SqlV::Date(_) => Builtin::DATE,
        SqlV::Time(_) => Builtin::TIME,
        SqlV::Timestamp(_) => Builtin::TIMESTAMP,
        SqlV::TimestampTz(_) => Builtin::TIMESTAMPTZ,
        SqlV::Interval(_) => Builtin::INTERVAL,
        _ => Builtin::RECORD,
    }
}

/// A value is written as one of the type that its column is described with, where the
/// column is of a type without fields. A null with a time zone goes without it.
pub proof fn law_values_have_the_type_of_their_column(
    c: Column,
    idx: usize,
    f: FieldV,
    format: FieldFormat,
)
    requires
        c.fits(f.data_type),
        is_unmarked(f),
        !(f.data_type is Int8),
        !(f.data_type is Null),
        f.data_type is Timestamp ==> !c.null_at(idx as int),
    ensures
        match datatypes::pg_type(f.data_type) {
            Ok(TypeV::Builtin(b)) => type_has_no_items(b) && !(f.data_type is Dictionary) ==> (
            encoder::value_of(c, idx, f, format) matches Ok(Some(v)) ==> wire_type(v) == b),
            _ => true,
        },
{
    reveal_with_fuel(datatypes::pg_type, 2);
    reveal_with_fuel(datatypes::list_type, 2);
}

/// True of a type that is no array.
pub open spec fn type_has_no_items(b: Builtin) -> bool {
    crate::type_laws::element_of(b) is None
}

/// Truth values, floating-point numbers, texts and bytes are written as they are.
pub proof fn law_plain_values_are_written(c: Column, idx: usize, f: FieldV, format: FieldFormat)
    requires
        c.fits(f.data_type),
        is_unmarked(f),
    ensures
        ({
            let i = idx as int;
            let t = f.data_type;
            let r = encoder::value_of(c, idx, f, format);
            &&& t is Boolean ==> r == Ok::<_, EncodeErrorV>(Some(SqlV::Bool(c->Boolean_0@[i])))
            &&& t is Float64 ==> r == Ok::<_, EncodeErrorV>(Some(SqlV::F64(c->Float64_0@[i])))
            &&& t is Float32 ==> match c->Float32_0@[i] {
                Some(x) => r == Ok::<_, EncodeErrorV>(Some(SqlV::F32(Some(x.bits)))),
                None => r == Ok::<_, EncodeErrorV>(Some(SqlV::F32(None))),
            }
            &&& t is Utf8 || t is LargeUtf8 || t is Utf8View ==> match c->Text_0@[i] {
                Some(s) => r == Ok::<_, EncodeErrorV>(Some(SqlV::Text(Some(s@)))),
                None => r == Ok::<_, EncodeErrorV>(Some(SqlV::Text(None))),
            }
            &&& t is Binary || t is LargeBinary || t is BinaryView ==> match c->Bytes_0@[i] {
                Some(b) => r == Ok::<_, EncodeErrorV>(Some(SqlV::Bytes(Some(b@)))),
                None => r == Ok::<_, EncodeErrorV>(Some(SqlV::Bytes(None))),
            }
            &&& t is Struct ==> r == Ok::<_, EncodeErrorV>(
                Some(
                    if c.null_at(i) {
                        SqlV::NullStruct
                    } else {
                        SqlV::Struct { rows: seq![idx] }
                    },
                ),
            )
            &&& t is List || t is LargeList || t is FixedSizeList ==> r == Ok::<_, EncodeErrorV>(
                Some(
                    if c.null_at(i) {
                        SqlV::NullList
                    } else {
                        SqlV::List { rows: seq![idx] }
                    },
                ),
            )
            &&& t is Float16 || t is FixedSizeBinary || t is ListView || t is LargeListView || t
                is MapType || t is RunEndEncoded || t is Union || t is Decimal32 || t is Decimal64
                || t is Decimal256 ==> r == Err::<Option<SqlV>, _>(EncodeErrorV::UnsupportedType)
        }),
{
}

/// A decimal is written with its digits and the scale of its type. A scale or digits that a
/// decimal of Postgres has no room for are errors.
pub proof fn law_decimals_are_written(
    c: Column,
    idx: usize,
    f: FieldV,
    format: FieldFormat,
    precision: u8,
    scale: i8,
)
    requires
        c.fits(f.data_type),
        is_unmarked(f),
        f.data_type == DataTypeV::Decimal128(precision, scale),
        c->Decimal128_0@[idx as int] is Some,
    ensures
        ({
            let n = c->Decimal128_0@[idx as int]->0;
            let r = encoder::value_of(c, idx, f, format);
            let room = -0x1_0000_0000_0000_0000_0000_0000 < n < 0x1_0000_0000_0000_0000_0000_0000;
            &&& 0 <= scale <= 28 && room ==> (r matches Ok(Some(SqlV::Numeric(Some(d))))
                && d.mantissa == n && d.scale == scale && (n < 0 ==> d.negative) && (n > 0
                ==> !d.negative))
            &&& !(0 <= scale <= 28 && room) ==> r is Err
        }),
{
}

/// True of the days since 1970 that have a date: from the year -262143 up to 262142.
pub open spec fn has_date(days: int) -> bool {
    -96_465_292 <= days <= 95_026_236
}

/// A date is written as the day that it stands for, or as nothing where it is too far away.
pub proof fn law_dates_are_written(c: Column, idx: usize, f: FieldV, format: FieldFormat)
    requires
        c.fits(f.data_type),
        is_unmarked(f),
    ensures
        ({
            let r = encoder::value_of(c, idx, f, format);
            &&& f.data_type is Date32 ==> (r matches Ok(Some(SqlV::Date(o))) && match (
                c->Date32_0@[idx as int],
                o,
            ) {
                (Some(days), Some(d)) => d == days && has_date(d as int),
                (Some(days), None) => !has_date(days as int),
                (None, o) => o is None,
            })
            &&& f.data_type is Date64 ==> (r matches Ok(Some(SqlV::Date(o))) && match (
                c->Date64_0@[idx as int],
                o,
            ) {
                (Some(millis), Some(d)) => d * 86_400_000 <= millis < (d + 1) * 86_400_000
                    && has_date(d as int),
                (Some(millis), None) => !has_date(millis as int / 86_400_000),
                (None, o) => o is None,
            })
        }),
{
}

/// The count of units in a row of a column of times of day.
pub open spec fn cell_time(c: Column, i: int) -> Option<int> {
    match c {
        Column::Time32Second(v) => match v@[i] {
            Some(n) => Some(n as int),
            None => None,
        },
        Column::Time32Millisecond(v) => match v@[i] {
            Some(n) => Some(n as int),
            None => None,
        },
        Column::Time64Microsecond(v) => match v@[i] {
            Some(n) => Some(n as int),
            None => None,
        },
        Column::Time64Nanosecond(v) => match v@[i] {
            Some(n) => Some(n as int),
            None => None,
        },
        _ => None,
    }
}

/// A time of day is written as the same time since midnight, to the nanosecond.
pub proof fn law_times_are_written(
    c: Column,
    idx: usize,
    f: FieldV,
    format: FieldFormat,
    unit: TimeUnit,
)
    requires
        c.fits(f.data_type),
        is_unmarked(f),
        f.data_type == DataTypeV::Time32(unit) && (unit is Second || unit is Millisecond)
            || f.data_type == DataTypeV::Time64(unit) && (unit is Microsecond || unit
            is Nanosecond),
    ensures
        ({
            let r = encoder::value_of(c, idx, f, format);
            match cell_time(c, idx as int) {
                Some(n) => 0 <= n * param_laws::nanos_per(unit) < 86_400_000_000_000 ==> (r
                    matches Ok(Some(SqlV::Time(Some(t)))) && t.seconds * 1_000_000_000 + t.nanos
                    == n * param_laws::nanos_per(unit) && t.nanos < 1_000_000_000),
                None => r == Ok::<_, EncodeErrorV>(Some(SqlV::Time(None))),
            }
        }),
{
    if let Some(n) = cell_time(c, idx as int) {
        if 0 <= n * param_laws::nanos_per(unit) < 86_400_000_000_000 {
            encoder::law_time_within_a_day(unit, n as i64);
        }
    }
}

/// A timestamp is written as the same time since 1970, to the nanosecond, or as nothing
/// where it is too far away. One with a time zone goes by the time zone of its column.
pub proof fn law_timestamps_are_written(
    c: Column,
    idx: usize,
    f: FieldV,
    format: FieldFormat,
    unit: TimeUnit,
    tz: Option<Seq<char>>,
)
    requires
        c.fits(f.data_type),
        is_unmarked(f),
        f.data_type == DataTypeV::Timestamp(unit, tz),
    ensures
        ({
            let r = encoder::value_of(c, idx, f, format);
            match (c->Timestamp_0@[idx as int], tz) {
                (None, _) => r matches Ok(Some(v)) && is_nothing(v),
                (Some(n), None) => r matches Ok(Some(SqlV::Timestamp(o))) && match o {
                    Some(t) => t.seconds * 1_000_000_000 + t.nanos == n * param_laws::nanos_per(
                        unit,
                    ) && t.nanos < 1_000_000_000 && has_date(
                        n * param_laws::nanos_per(unit) / 86_400_000_000_000,
                    ),
                    None => !has_date(
                        n * param_laws::nanos_per(unit) / 86_400_000_000_000,
                    ),
                },
                (Some(n), Some(zone)) => match encoder::zoned_time(unit, n, zone) {
                    Some(t) => r == Ok::<_, EncodeErrorV>(Some(SqlV::TimestampTz(t))),
                    None => r is Err,
                },
            }
        }),
{
    if let Some(n) = c->Timestamp_0@[idx as int] {
        encoder::law_time_is_kept(unit, n);
        let nanos = n * param_laws::nanos_per(unit);
        assert(nanos / 1_000_000_000 / 86_400 == nanos / 86_400_000_000_000);
        assert(nanos == n * encoder::unit_nanos(unit));
    }
}

/// A duration is written as an interval of microseconds, rounded towards zero, without
/// months and days.
pub proof fn law_durations_are_written(
    c: Column,
    idx: usize,
    f: FieldV,
    format: FieldFormat,
    unit: TimeUnit,
)
    requires
        encoder::encodable(c, idx, f),
        is_unmarked(f),
        f.data_type == DataTypeV::Duration(unit),
    ensures
        ({
            let r = encoder::value_of(c, idx, f, format);
            match c->Duration_0@[idx as int] {
                Some(n) => r matches Ok(Some(SqlV::Interval(Some(x)))) && x.months == 0 && x.days
                    == 0 && {
                    let rest = n * param_laws::nanos_per(unit) - x.microseconds * 1_000;
                    -1_000 < rest < 1_000 && (n >= 0 ==> rest >= 0) && (n <= 0 ==> rest <= 0)
                },
                None => r == Ok::<_, EncodeErrorV>(Some(SqlV::Interval(None))),
            }
        }),
{
}

/// An interval is written with the months, days and time that are stored for it.
pub proof fn law_intervals_are_written(c: Column, idx: usize, f: FieldV, format: FieldFormat)
    requires
        c.fits(f.data_type),
        is_unmarked(f),
        f.data_type is Interval,
    ensures
        encoder::value_of(c, idx, f, format) matches Ok(Some(SqlV::Interval(Some(x)))) && match c {
            Column::IntervalYearMonth { months, .. } => x.months == months@[idx as int] && x.days
                == 0 && x.microseconds == 0,
            Column::IntervalDayTime { parts, .. } => x.months == 0 && x.days
                == parts@[idx as int].0 && x.microseconds == parts@[idx as int].1 * 1_000,
            Column::IntervalMonthDayNano { parts, .. } => {
                let rest = parts@[idx as int].2 - x.microseconds * 1_000;
                &&& x.months == parts@[idx as int].0
                &&& x.days == parts@[idx as int].1
                &&& -1_000 < rest < 1_000
                &&& parts@[idx as int].2 >= 0 ==> rest >= 0
                &&& parts@[idx as int].2 <= 0 ==> rest <= 0
            },
            _ => false,
        },
{
}

/// A `"char"` is written as its text, and in binary form as its first byte. There has to be
/// one.
pub proof fn law_chars_are_written(c: Column, idx: usize, f: FieldV, s: Seq<char>)
    requires
        c is Text,
        c->Text_0@[idx as int] matches Some(x) && x@ == s,
        schema::lookup(f.metadata, "pg.char"@) is Some,
        schema::lookup(f.metadata, "pg.vector"@) is None,
        schema::lookup(f.metadata, "ARROW:extension:name"@) is None,
    ensures
        encoder::value_of(c, idx, f, FieldFormat::Text) == Ok::<_, EncodeErrorV>(
            Some(SqlV::Text(Some(s))),
        ),
        s.len() == 0 ==> encoder::value_of(c, idx, f, FieldFormat::Binary) is Err,
        s.len() > 0 ==> (encoder::value_of(c, idx, f, FieldFormat::Binary) matches Ok(
            Some(SqlV::I8(Some(b))),
        ) && (b - encode_utf8(s)[0]) % 256 == 0),
{
    if s.len() > 0 {
        let b = encode_utf8(s)[0];
        assert((b - 256 - b) % 256 == 0);
    }
}

/// In binary form an oid is written as the unsigned number of its 32 bits.
pub proof fn law_oids_are_written(c: Column, idx: usize, f: FieldV)
    requires
        f.data_type is Int32,
        c.fits(f.data_type),
        schema::lookup(f.metadata, "pg.oid_alias"@) == Some("oid"@),
        schema::lookup(f.metadata, "pg.char"@) is None,
        schema::lookup(f.metadata, "pg.vector"@) is None,
        schema::lookup(f.metadata, "ARROW:extension:name"@) is None,
    ensures
        match c->Int32_0@[idx as int] {
            Some(n) => encoder::value_of(c, idx, f, FieldFormat::Binary) matches Ok(
                Some(SqlV::U32(Some(oid))),
            ) && (oid - n) % 0x1_0000_0000 == 0,
            None => encoder::value_of(c, idx, f, FieldFormat::Binary) == Ok::<_, EncodeErrorV>(
                Some(SqlV::U32(None)),
            ),
        },
{
}

/// The numbers in a row of a column of vectors.
pub open spec fn cell_numbers(c: Column, i: int) -> Option<Seq<Single>> {
    match c {
        Column::List { singles: Some(rows), .. } => Some(rows@[i]@),
        Column::FixedSizeList { size, singles: Some(items), .. } => Some(
            Seq::new(size as nat, |k: int| items@[i * size + k]),
        ),
        _ => None,
    }
}

/// A vector is written as a text in either form, and the text is read as the items of the
/// vector again, where they are texts of numbers: neither empty nor with a comma or white
/// space. A column of other items than numbers has no vectors.
pub proof fn law_vectors_are_written(c: Column, idx: usize, f: FieldV, format: FieldFormat)
    requires
        c.fits(f.data_type),
        f.data_type is List || f.data_type is FixedSizeList,
        idx < c.rows(),
        schema::lookup(f.metadata, "pg.vector"@) == Some("vector"@),
        !geometry::is_geometry(f),
        !c.null_at(idx as int),
    ensures
        ({
            let r = encoder::value_of(c, idx, f, format);
            match cell_numbers(c, idx as int) {
                Some(items) => items.len() > 0 && (forall|i: int|
                    0 <= i < items.len() ==> (#[trigger] items[i]).text@.len() > 0 && text::lacks(
                        items[i].text@,
                        ',',
                    ) && text::is_solid(items[i].text@)) ==> (r matches Ok(
                    Some(SqlV::Text(Some(s))),
                ) && params::vector_text(s) == Ok::<_, Malformed>(
                    Seq::new(items.len(), |i: int| items[i].text@),
                )),
                None => r is Err,
            }
        }),
{
    if let Some(items) = cell_numbers(c, idx as int) {
        if items.len() > 0 && forall|i: int|
            0 <= i < items.len() ==> (#[trigger] items[i]).text@.len() > 0 && text::lacks(
                items[i].text@,
                ',',
            ) && text::is_solid(items[i].text@) {
            encoder::law_vector_is_read_back(items);
            assert(encoder::texts_of(items) =~= Seq::new(items.len(), |i: int| items[i].text@));
            if let Column::FixedSizeList { size, singles: Some(all), valid } = c {
                let i = idx as int;
                assert(i * size + size <= size * valid@.len()) by (nonlinear_arith)
                    requires
                        0 <= i < valid@.len(),
                        size >= 0,
                ;
                assert(i * size >= 0) by (nonlinear_arith)
                    requires
                        i >= 0,
                        size >= 0,
                ;
                assert(all@.subrange(i * size, i * size + size) =~= items);
            }
        }
    }
}

/// A row holds a field for each column, in order, each with the value of its column in that
/// row. The error of one column is the error of the row.
pub proof fn law_rows_hold_their_columns(
    columns: Seq<Column>,
    idx: usize,
    fields: Seq<FieldV>,
    infos: Seq<FieldInfoV>,
    n: int,
)
    requires
        0 <= n,
    ensures
        match encoder::row_of(columns, idx, fields, infos, n) {
            Ok(row) => {
                &&& row.len() <= n
                &&& forall|k: int|
                    0 <= k < n ==> (#[trigger] encoder::value_of(
                        columns[k],
                        idx,
                        fields[k],
                        infos[k].format,
                    )) is Ok
                &&& (forall|k: int|
                    0 <= k < n ==> (#[trigger] encoder::value_of(
                        columns[k],
                        idx,
                        fields[k],
                        infos[k].format,
                    )) != Ok::<Option<SqlV>, EncodeErrorV>(None)) ==> row.len() == n && forall|
                    k: int,
                |
                    0 <= k < n ==> (#[trigger] encoder::value_of(
                        columns[k],
                        idx,
                        fields[k],
                        infos[k].format,
                    )) == Ok::<_, EncodeErrorV>(Some(row[k].0)) && row[k].1 == infos[k]
            },
            Err(e) => exists|k: int|
                0 <= k < n && (#[trigger] encoder::value_of(
                    columns[k],
                    idx,
                    fields[k],
                    infos[k].format,
                )) == Err::<Option<SqlV>, _>(e),
        },
    decreases n,
{
    if n > 0 {
        law_rows_hold_their_columns(columns, idx, fields, infos, n - 1);
        let last = encoder::value_of(columns[n - 1], idx, fields[n - 1], infos[n - 1].format);
    }
}

} // verus!
