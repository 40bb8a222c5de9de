use arrow_array::types::Date32Type;
use bytes::BytesMut;
use chrono::{FixedOffset, NaiveDate, NaiveTime, TimeZone};
use datafusion_postgres::coerce::FloatValue;
use datafusion_postgres::datatypes::{pg_vector_type, Builtin, Format, Kind, Type as PgType};
use datafusion_postgres::errors::{CoerceSource, Error, Malformed, NumberSource};
use datafusion_postgres::params::{
    deserialize_parameters, deserialize_parameters_with_server_types, get_pg_type, parse_i64,
    split_vector_text, Decoded, Portal, VectorParam,
};
use datafusion_postgres::scalar::ScalarValue;
use datafusion_postgres::schema::{DataType, Field, IntervalUnit, TimeUnit};
use datafusion_postgres::wire;
use pg_interval::Interval;
use postgres_types::{FromSql, ToSql, Type};
use rust_decimal::Decimal;

fn encode_param<T: ToSql + Sync>(value: &T, pg_type: &Type) -> Vec<u8> {
    let mut buf = BytesMut::new();
    value.to_sql(pg_type, &mut buf).unwrap();
    buf.to_vec()
}

/// What is read of a number in double precision.
fn float_value(n: f64) -> FloatValue {
    let whole = n as i64;
    FloatValue {
        bits: n.to_bits(),
        single_bits: (n as f32).to_bits(),
        finite: n.is_finite(),
        whole,
        is_whole: (whole as f64 - n).abs() <= f64::EPSILON,
    }
}

/// What floating-point arithmetic reads of a parameter.
fn decode(pg_type: &Type, raw: &[u8]) -> Option<Decoded> {
    match *pg_type {
        Type::FLOAT4 => {
            let n = f32::from_sql(pg_type, raw).unwrap();
            Some(Decoded::Float(float_value(n as f64)))
        }
        Type::FLOAT8 => {
            let n = f64::from_sql(pg_type, raw).unwrap();
            Some(Decoded::Float(float_value(n)))
        }
        Type::FLOAT4_ARRAY => {
            let v = Vec::<Option<f32>>::from_sql(pg_type, raw).unwrap();
            let v = v.into_iter().map(|n| n.map(|n| float_value(n as f64)));
            Some(Decoded::Floats(v.collect()))
        }
        Type::FLOAT8_ARRAY => {
            let v = Vec::<Option<f64>>::from_sql(pg_type, raw).unwrap();
            Some(Decoded::Floats(v.into_iter().map(|n| n.map(float_value)).collect()))
        }
        _ => None,
    }
}

fn make_portal<T: ToSql + Sync>(value: &T, pg_type: Type) -> Portal {
    let data = encode_param(value, &pg_type);
    Portal {
        parameter_types: vec![Some(PgType::Builtin(Builtin::from_oid(pg_type.oid())))],
        parameter_format: Format::UnifiedBinary,
        decoded: vec![decode(&pg_type, &data)],
        parameters: vec![Some(data)],
    }
}

fn make_null_portal(pg_type: Type) -> Portal {
    Portal {
        parameter_types: vec![Some(PgType::Builtin(Builtin::from_oid(pg_type.oid())))],
        parameter_format: Format::UnifiedBinary,
        parameters: vec![None],
        decoded: vec![None],
    }
}

fn get_result(portal: &Portal, inferred: Option<&DataType>) -> ScalarValue {
    let mut list = deserialize_parameters(portal, &[inferred]).unwrap();
    assert_eq!(list.len(), 1);
    list.remove(0)
}

#[test]
fn test_bool() {
    let portal = make_portal(&true, Type::BOOL);
    assert_eq!(get_result(&portal, None), ScalarValue::Boolean(Some(true)));

    let portal = make_null_portal(Type::BOOL);
    assert_eq!(get_result(&portal, None), ScalarValue::Boolean(None));
}

#[test]
fn test_char() {
    let portal = make_portal(&42i8, Type::CHAR);
    assert_eq!(get_result(&portal, None), ScalarValue::Int8(Some(42)));
}

#[test]
fn test_text_varchar() {
    for pg_type in [Type::TEXT, Type::VARCHAR] {
        let portal = make_portal(&"hello".to_string(), pg_type.clone());
        assert_eq!(
            get_result(&portal, None),
            ScalarValue::Utf8(Some("hello".to_string()))
        );
    }
}

#[test]
fn test_text_large_utf8() {
    let portal = make_portal(&"hello".to_string(), Type::TEXT);
    assert_eq!(
        get_result(&portal, Some(&DataType::LargeUtf8)),
        ScalarValue::LargeUtf8(Some("hello".to_string()))
    );
}

#[test]
fn test_bytea() {
    let portal = make_portal(&vec![1u8, 2, 3], Type::BYTEA);
    assert_eq!(
        get_result(&portal, None),
        ScalarValue::Binary(Some(vec![1, 2, 3]))
    );
}

#[test]
fn test_int2_direct() {
    let portal = make_portal(&42i16, Type::INT2);
    assert_eq!(get_result(&portal, None), ScalarValue::Int16(Some(42)));
}

#[test]
fn test_int2_coerce_to_int32() {
    let portal = make_portal(&100i16, Type::INT2);
    assert_eq!(
        get_result(&portal, Some(&DataType::Int32)),
        ScalarValue::Int32(Some(100))
    );
}

#[test]
fn test_int2_coerce_to_int64() {
    let portal = make_portal(&100i16, Type::INT2);
    assert_eq!(
        get_result(&portal, Some(&DataType::Int64)),
        ScalarValue::Int64(Some(100))
    );
}

#[test]
fn test_int2_coerce_to_float64() {
    let portal = make_portal(&100i16, Type::INT2);
    assert_eq!(
        get_result(&portal, Some(&DataType::Float64)),
        ScalarValue::Float64(Some(100.0f64.to_bits()))
    );
}

#[test]
fn test_int2_coerce_to_uint32() {
    let portal = make_portal(&100i16, Type::INT2);
    assert_eq!(
        get_result(&portal, Some(&DataType::UInt32)),
        ScalarValue::UInt32(Some(100))
    );
}

#[test]
fn test_int2_null_coercion() {
    let portal = make_null_portal(Type::INT2);
    assert_eq!(
        get_result(&portal, Some(&DataType::Int64)),
        ScalarValue::Int64(None)
    );
}

#[test]
fn test_int4_coerce_to_int8() {
    let portal = make_portal(&42i32, Type::INT4);
    assert_eq!(
        get_result(&portal, Some(&DataType::Int8)),
        ScalarValue::Int8(Some(42))
    );
}

#[test]
fn test_int4_coerce_to_int64() {
    let portal = make_portal(&100i32, Type::INT4);
    assert_eq!(
        get_result(&portal, Some(&DataType::Int64)),
        ScalarValue::Int64(Some(100))
    );
}

#[test]
fn test_int4_coerce_to_uint64() {
    let portal = make_portal(&100i32, Type::INT4);
    assert_eq!(
        get_result(&portal, Some(&DataType::UInt64)),
        ScalarValue::UInt64(Some(100))
    );
}

#[test]
fn test_int4_coerce_out_of_range() {
    let portal = make_portal(&300i32, Type::INT4);
    assert!(deserialize_parameters(&portal, &[Some(&DataType::Int8)]).is_err());
}

#[test]
fn test_int4_coerce_negative_to_unsigned() {
    let portal = make_portal(&(-1i32), Type::INT4);
    assert!(deserialize_parameters(&portal, &[Some(&DataType::UInt64)]).is_err());
}

#[test]
fn test_int8_direct() {
    let portal = make_portal(&42i64, Type::INT8);
    assert_eq!(get_result(&portal, None), ScalarValue::Int64(Some(42)));
}

#[test]
fn test_int8_coerce_to_int16() {
    let portal = make_portal(&100i64, Type::INT8);
    assert_eq!(
        get_result(&portal, Some(&DataType::Int16)),
        ScalarValue::Int16(Some(100))
    );
}

#[test]
fn test_int8_coerce_to_uint32() {
    let portal = make_portal(&100i64, Type::INT8);
    assert_eq!(
        get_result(&portal, Some(&DataType::UInt32)),
        ScalarValue::UInt32(Some(100))
    );
}

#[test]
fn test_int8_coerce_out_of_range() {
    let portal = make_portal(&100000i64, Type::INT8);
    assert!(deserialize_parameters(&portal, &[Some(&DataType::Int8)]).is_err());
}

#[test]
fn test_float4_direct() {
    let portal = make_portal(&3.14f32, Type::FLOAT4);
    assert_eq!(
        get_result(&portal, None),
        ScalarValue::Float32(Some(3.14f32.to_bits()))
    );
}

#[test]
fn test_float4_coerce_to_float64() {
    let portal = make_portal(&3.14f32, Type::FLOAT4);
    assert_eq!(
        get_result(&portal, Some(&DataType::Float64)),
        ScalarValue::Float64(Some((3.14f32 as f64).to_bits()))
    );
}

#[test]
fn test_float4_coerce_to_int32() {
    let portal = make_portal(&42.0f32, Type::FLOAT4);
    assert_eq!(
        get_result(&portal, Some(&DataType::Int32)),
        ScalarValue::Int32(Some(42))
    );
}

#[test]
fn test_float8_direct() {
    let portal = make_portal(&3.14f64, Type::FLOAT8);
    assert_eq!(get_result(&portal, None), ScalarValue::Float64(Some(3.14f64.to_bits())));
}

#[test]
fn test_float8_coerce_to_float32() {
    let portal = make_portal(&3.14f64, Type::FLOAT8);
    assert_eq!(
        get_result(&portal, Some(&DataType::Float32)),
        ScalarValue::Float32(Some((3.14f64 as f32).to_bits()))
    );
}

#[test]
fn test_float8_coerce_to_int64() {
    let portal = make_portal(&42.0f64, Type::FLOAT8);
    assert_eq!(
        get_result(&portal, Some(&DataType::Int64)),
        ScalarValue::Int64(Some(42))
    );
}

#[test]
fn test_float8_coerce_fractional_to_int_error() {
    let portal = make_portal(&3.14f64, Type::FLOAT8);
    assert!(deserialize_parameters(&portal, &[Some(&DataType::Int64)]).is_err());
}

#[test]
fn test_numeric_direct() {
    let portal = make_portal(&Decimal::new(123, 1), Type::NUMERIC);
    let result = get_result(&portal, None);
    match result {
        ScalarValue::Decimal128OfDigits(v, s) => {
            assert_eq!(v, 123);
            assert_eq!(s, 1);
        }
        other => panic!("expected Decimal128, got {other:?}"),
    }
}

#[test]
fn test_numeric_coerce_to_decimal128_with_rescale() {
    // Decimal::new(123, 1) = 12.3, rescale to scale 3 => 12.300 => mantissa 12300
    let portal = make_portal(&Decimal::new(123, 1), Type::NUMERIC);
    assert_eq!(
        get_result(&portal, Some(&DataType::Decimal128(10, 3))),
        ScalarValue::Decimal128(Some(12300), 10, 3)
    );
}

#[test]
fn test_numeric_coerce_to_uint64() {
    let portal = make_portal(&Decimal::from(42u64), Type::NUMERIC);
    assert_eq!(
        get_result(&portal, Some(&DataType::UInt64)),
        ScalarValue::UInt64(Some(42))
    );
}

#[test]
fn test_numeric_coerce_to_float64() {
    let portal = make_portal(&Decimal::new(314, 2), Type::NUMERIC);
    assert_eq!(
        get_result(&portal, Some(&DataType::Float64)),
        ScalarValue::Float64(Some(3.14f64.to_bits()))
    );
}

#[test]
fn test_numeric_coerce_to_int32() {
    let portal = make_portal(&Decimal::from(42i32), Type::NUMERIC);
    assert_eq!(
        get_result(&portal, Some(&DataType::Int32)),
        ScalarValue::Int32(Some(42))
    );
}

#[test]
fn test_numeric_null() {
    let portal = make_null_portal(Type::NUMERIC);
    assert_eq!(
        get_result(&portal, Some(&DataType::Decimal128(10, 2))),
        ScalarValue::Decimal128(None, 10, 2)
    );
}

#[test]
fn test_timestamp_direct() {
    let ts = chrono::DateTime::from_timestamp(1700000000, 0)
        .unwrap()
        .naive_utc();
    let portal = make_portal(&ts, Type::TIMESTAMP);
    assert_eq!(
        get_result(&portal, None),
        ScalarValue::TimestampMicrosecond(Some(ts.and_utc().timestamp_micros()), None)
    );
}

#[test]
fn test_timestamp_coerce_to_seconds() {
    let ts = chrono::DateTime::from_timestamp(1700000000, 0)
        .unwrap()
        .naive_utc();
    let portal = make_portal(&ts, Type::TIMESTAMP);
    assert_eq!(
        get_result(&portal, Some(&DataType::Timestamp(TimeUnit::Second, None))),
        ScalarValue::TimestampSecond(Some(1700000000), None)
    );
}

#[test]
fn test_timestamp_coerce_to_milliseconds() {
    let ts = chrono::DateTime::from_timestamp(1700000000, 0)
        .unwrap()
        .naive_utc();
    let portal = make_portal(&ts, Type::TIMESTAMP);
    assert_eq!(
        get_result(
            &portal,
            Some(&DataType::Timestamp(TimeUnit::Millisecond, None))
        ),
        ScalarValue::TimestampMillisecond(Some(1700000000000), None)
    );
}

#[test]
fn test_timestamp_coerce_to_nanoseconds() {
    let ts = chrono::DateTime::from_timestamp(1700000000, 0)
        .unwrap()
        .naive_utc();
    let portal = make_portal(&ts, Type::TIMESTAMP);
    assert_eq!(
        get_result(
            &portal,
            Some(&DataType::Timestamp(TimeUnit::Nanosecond, None))
        ),
        ScalarValue::TimestampNanosecond(
            Some(ts.and_utc().timestamp_nanos_opt().unwrap()),
            None
        )
    );
}

#[test]
fn test_timestamptz_direct() {
    let ts = FixedOffset::east_opt(3600).unwrap().from_utc_datetime(
        &chrono::DateTime::from_timestamp(1700000000, 0)
            .unwrap()
            .naive_utc(),
    );
    let portal = make_portal(&ts, Type::TIMESTAMPTZ);
    assert_eq!(
        get_result(&portal, None),
        ScalarValue::TimestampMicrosecond(Some(ts.timestamp_micros()), None)
    );
}

#[test]
fn test_timestamptz_coerce_to_seconds() {
    let ts = FixedOffset::east_opt(3600).unwrap().from_utc_datetime(
        &chrono::DateTime::from_timestamp(1700000000, 0)
            .unwrap()
            .naive_utc(),
    );
    let portal = make_portal(&ts, Type::TIMESTAMPTZ);
    assert_eq!(
        get_result(&portal, Some(&DataType::Timestamp(TimeUnit::Second, None))),
        ScalarValue::TimestampSecond(Some(1700000000), None)
    );
}

#[test]
fn test_timestamptz_coerce_to_nanoseconds() {
    let ts = FixedOffset::east_opt(3600).unwrap().from_utc_datetime(
        &chrono::DateTime::from_timestamp(1700000000, 0)
            .unwrap()
            .naive_utc(),
    );
    let portal = make_portal(&ts, Type::TIMESTAMPTZ);
    assert_eq!(
        get_result(
            &portal,
            Some(&DataType::Timestamp(TimeUnit::Nanosecond, None))
        ),
        ScalarValue::TimestampNanosecond(Some(ts.timestamp_nanos_opt().unwrap()), None)
    );
}

#[test]
fn test_date() {
    let date = NaiveDate::from_ymd_opt(2024, 1, 15).unwrap();
    let portal = make_portal(&date, Type::DATE);
    assert_eq!(
        get_result(&portal, None),
        ScalarValue::Date32(Some(
            Date32Type::from_naive_date(date)
        ))
    );
}

#[test]
fn test_deserialise_time_params() {
    let portal = make_portal(
        &NaiveTime::from_num_seconds_from_midnight_opt(1, 0).unwrap(),
        Type::TIME,
    );

    for (arrow_type, expected) in [
        (
            DataType::Time32(TimeUnit::Second),
            ScalarValue::Time32Second(Some(1)),
        ),
        (
            DataType::Time32(TimeUnit::Millisecond),
            ScalarValue::Time32Millisecond(Some(1000)),
        ),
        (
            DataType::Time64(TimeUnit::Microsecond),
            ScalarValue::Time64Microsecond(Some(1000000)),
        ),
        (
            DataType::Time64(TimeUnit::Nanosecond),
            ScalarValue::Time64Nanosecond(Some(1000000000)),
        ),
    ] {
        assert_eq!(get_result(&portal, Some(&arrow_type)), expected);
    }
}

#[test]
fn test_time_default_nanosecond() {
    let time = NaiveTime::from_num_seconds_from_midnight_opt(1, 0).unwrap();
    let portal = make_portal(&time, Type::TIME);
    // No inferred type: should default to Time64Nanosecond
    assert_eq!(
        get_result(&portal, None),
        ScalarValue::Time64Nanosecond(Some(1_000_000_000))
    );
}

#[test]
fn test_interval_direct() {
    let interval = Interval::new(1, 2, 3_000_000);
    let portal = make_portal(&interval, Type::INTERVAL);
    assert_eq!(
        get_result(&portal, None),
        ScalarValue::IntervalMonthDayNano(Some((1, 2, 3_000_000_000i64)))
    );
}

#[test]
fn test_interval_coerce_to_month_day_nano() {
    let interval = Interval::new(1, 2, 3_000_000);
    let portal = make_portal(&interval, Type::INTERVAL);
    assert_eq!(
        get_result(
            &portal,
            Some(&DataType::Interval(IntervalUnit::MonthDayNano))
        ),
        ScalarValue::IntervalMonthDayNano(Some((1, 2, 3_000_000_000i64)))
    );
}

#[test]
fn test_interval_coerce_to_year_month() {
    let interval = Interval::new(3, 0, 0);
    let portal = make_portal(&interval, Type::INTERVAL);
    assert_eq!(
        get_result(&portal, Some(&DataType::Interval(IntervalUnit::YearMonth))),
        ScalarValue::IntervalYearMonth(Some(3))
    );
}

#[test]
fn test_interval_coerce_to_year_month_with_days_error() {
    let interval = Interval::new(3, 1, 0);
    let portal = make_portal(&interval, Type::INTERVAL);
    assert!(
        deserialize_parameters(
            &portal,
            &[Some(&DataType::Interval(IntervalUnit::YearMonth))]
        )
        .is_err()
    );
}

#[test]
fn test_interval_coerce_to_day_time() {
    let interval = Interval::new(0, 5, 3_000_000);
    let portal = make_portal(&interval, Type::INTERVAL);
    assert_eq!(
        get_result(&portal, Some(&DataType::Interval(IntervalUnit::DayTime))),
        ScalarValue::IntervalDayTime(Some((5, 3000)))
    );
}

#[test]
fn test_interval_coerce_to_day_time_with_months_error() {
    let interval = Interval::new(1, 5, 3_000_000);
    let portal = make_portal(&interval, Type::INTERVAL);
    assert!(
        deserialize_parameters(&portal, &[Some(&DataType::Interval(IntervalUnit::DayTime))])
            .is_err()
    );
}

#[test]
fn test_interval_coerce_to_day_time_sub_millis_error() {
    let interval = Interval::new(0, 5, 500);
    let portal = make_portal(&interval, Type::INTERVAL);
    assert!(
        deserialize_parameters(&portal, &[Some(&DataType::Interval(IntervalUnit::DayTime))])
            .is_err()
    );
}

#[test]
fn test_interval_null() {
    let portal = make_null_portal(Type::INTERVAL);
    assert_eq!(
        get_result(&portal, None),
        ScalarValue::IntervalMonthDayNano(None)
    );
}


#[test]
fn test_null_int4() {
    let portal = make_null_portal(Type::INT4);
    assert_eq!(
        get_result(&portal, Some(&DataType::Int32)),
        ScalarValue::Int32(None)
    );
}

#[test]
fn test_null_timestamp() {
    let portal = make_null_portal(Type::TIMESTAMP);
    assert_eq!(
        get_result(
            &portal,
            Some(&DataType::Timestamp(TimeUnit::Millisecond, None))
        ),
        ScalarValue::TimestampMillisecond(None, None)
    );
}

#[test]
fn test_unknown_type_string() {
    let portal = make_portal(&"hello".to_string(), Type::NAME);
    assert_eq!(
        get_result(&portal, None),
        ScalarValue::Utf8(Some("hello".to_string()))
    );
}

fn get_error(portal: &Portal, inferred: Option<&DataType>) -> Error {
    deserialize_parameters(portal, &[inferred]).unwrap_err()
}

fn malformed(portal: &Portal) -> Malformed {
    match get_error(portal, None) {
        Error::Malformed(m) => m,
        other => panic!("{other:?}"),
    }
}

fn vector_list(dim: i32) -> DataType {
    DataType::FixedSizeList(Box::new(Field::new_list_field(DataType::Float32, true)), dim)
}

fn vector_portal(raw: Vec<u8>, format: Format, decoded: Option<Decoded>) -> Portal {
    Portal {
        parameter_types: vec![Some(pg_vector_type())],
        parameter_format: format,
        parameters: vec![Some(raw)],
        decoded: vec![decoded],
    }
}

fn vector_bytes(dim: u16, unused: u16, elements: &[f32]) -> Vec<u8> {
    let mut raw = Vec::new();
    raw.extend(dim.to_be_bytes());
    raw.extend(unused.to_be_bytes());
    for e in elements {
        raw.extend(e.to_be_bytes());
    }
    raw
}

#[test]
fn vectors_in_binary_form() {
    let bits = vec![1.0f32.to_bits(), (-2.5f32).to_bits()];
    let portal = vector_portal(vector_bytes(2, 0, &[1.0, -2.5]), Format::UnifiedBinary, None);
    assert_eq!(
        get_result(&portal, Some(&vector_list(2))),
        ScalarValue::FixedSizeList(
            Field::new_list_field(DataType::Float32, true),
            2,
            Some(bits.clone())
        )
    );
    assert_eq!(
        get_result(&portal, None),
        ScalarValue::List(
            bits.iter().map(|b| ScalarValue::Float32(Some(*b))).collect(),
            DataType::Float32
        )
    );
    assert!(deserialize_parameters(&portal, &[Some(&vector_list(3))]).is_err());
    assert_eq!(
        VectorParam::from_binary(&vector_bytes(2, 0, &[1.0, -2.5])).unwrap().0,
        bits
    );
}

#[test]
fn vectors_that_are_malformed() {
    let of = |raw| malformed(&vector_portal(raw, Format::UnifiedBinary, None));
    assert_eq!(of(vec![0, 1, 0]), Malformed::VectorTooShort);
    assert_eq!(of(vector_bytes(1, 7, &[1.0])), Malformed::VectorUnusedWord);
    assert_eq!(of(vector_bytes(0, 0, &[])), Malformed::VectorEmpty);
    assert_eq!(of(vector_bytes(2, 0, &[1.0])), Malformed::VectorLength);
    let text = |raw: &[u8], decoded| {
        malformed(&vector_portal(raw.to_vec(), Format::UnifiedText, decoded))
    };
    assert_eq!(text(b"[]", None), Malformed::VectorEmpty);
    assert_eq!(text(b"1,2", None), Malformed::VectorText);
    assert_eq!(text(b"[1]", None), Malformed::Undecoded);
    assert_eq!(
        text(b"[1,x]", Some(Decoded::Vector(vec![Some(1), None]))),
        Malformed::VectorElement
    );
    assert_eq!(text(&[0xff], None), Malformed::NotUtf8);
}

#[test]
fn vectors_in_text_form() {
    assert_eq!(
        split_vector_text(" [ 1, 2.5 ,3] ").unwrap(),
        vec!["1".to_string(), "2.5".to_string(), "3".to_string()]
    );
    let bits = vec![1.0f32.to_bits(), 2.5f32.to_bits()];
    let decoded = Decoded::Vector(bits.iter().map(|b| Some(*b)).collect());
    let portal = vector_portal(b"[1, 2.5]".to_vec(), Format::UnifiedText, Some(decoded));
    assert_eq!(
        get_result(&portal, Some(&vector_list(2))),
        ScalarValue::FixedSizeList(
            Field::new_list_field(DataType::Float32, true),
            2,
            Some(bits)
        )
    );
}

#[test]
fn numbers_out_of_range_are_named() {
    match get_error(&make_portal(&300i32, Type::INT4), Some(&DataType::Int8)) {
        Error::OutOfRange { source, value, target } => {
            assert_eq!(source, NumberSource::Int);
            assert_eq!(value, 300);
            assert_eq!(target, DataType::Int8);
        }
        other => panic!("{other:?}"),
    }
    match get_error(&make_portal(&300f64, Type::FLOAT8), Some(&DataType::UInt8)) {
        Error::OutOfRange { source, value, .. } => {
            assert_eq!(source, NumberSource::Float);
            assert_eq!(value, 300);
        }
        other => panic!("{other:?}"),
    }
    assert!(matches!(
        get_error(&make_portal(&f64::NAN, Type::FLOAT8), Some(&DataType::Int64)),
        Error::NotFinite { .. }
    ));
}

#[test]
fn what_cannot_be_coerced() {
    let source = |e: Error| match e {
        Error::CannotCoerce { source, .. } => source,
        other => panic!("{other:?}"),
    };
    let target = DataType::Boolean;
    let time = NaiveDate::from_ymd_opt(2024, 1, 15).unwrap().and_hms_opt(1, 2, 3).unwrap();
    let tz = FixedOffset::east_opt(3600).unwrap().from_utc_datetime(&time);
    let interval = Interval::new(0, 0, 1);
    for (portal, expected) in [
        (make_portal(&1i32, Type::INT4), CoerceSource::Integer),
        (make_portal(&1f64, Type::FLOAT8), CoerceSource::Float),
        (make_portal(&time, Type::TIMESTAMP), CoerceSource::Timestamp),
        (make_portal(&tz, Type::TIMESTAMPTZ), CoerceSource::TimestampTz),
        (make_portal(&interval, Type::INTERVAL), CoerceSource::Interval),
        (make_portal(&Decimal::ONE, Type::NUMERIC), CoerceSource::Numeric),
    ] {
        assert_eq!(source(get_error(&portal, Some(&target))), expected);
    }
}

#[test]
fn intervals_with_parts_that_do_not_fit() {
    let error = |i: Interval, unit| {
        get_error(&make_portal(&i, Type::INTERVAL), Some(&DataType::Interval(unit)))
    };
    assert!(matches!(
        error(Interval::new(1, 1, 0), IntervalUnit::YearMonth),
        Error::IntervalHasDays
    ));
    assert!(matches!(
        error(Interval::new(1, 1, 0), IntervalUnit::DayTime),
        Error::IntervalHasMonths
    ));
}

#[test]
fn arrays_are_lists() {
    let list = |v: Vec<ScalarValue>, t| ScalarValue::List(v, t);
    assert_eq!(
        get_result(&make_portal(&vec![true, false], Type::BOOL_ARRAY), None),
        list(
            vec![ScalarValue::Boolean(Some(true)), ScalarValue::Boolean(Some(false))],
            DataType::Boolean
        )
    );
    assert_eq!(
        get_result(&make_portal(&vec![Some(1i16), None], Type::INT2_ARRAY), None),
        list(vec![ScalarValue::Int16(Some(1)), ScalarValue::Int16(None)], DataType::Int16)
    );
    assert_eq!(
        get_result(&make_portal(&vec![1i32, -2], Type::INT4_ARRAY), None),
        list(vec![ScalarValue::Int32(Some(1)), ScalarValue::Int32(Some(-2))], DataType::Int32)
    );
    assert_eq!(
        get_result(&make_portal(&vec![1i64 << 40], Type::INT8_ARRAY), None),
        list(vec![ScalarValue::Int64(Some(1 << 40))], DataType::Int64)
    );
    assert_eq!(
        get_result(&make_portal(&vec!["a", "b"], Type::TEXT_ARRAY), None),
        list(
            vec![
                ScalarValue::Utf8(Some("a".to_string())),
                ScalarValue::Utf8(Some("b".to_string()))
            ],
            DataType::Utf8
        )
    );
    assert_eq!(
        get_result(&make_portal(&vec![1.5f32], Type::FLOAT4_ARRAY), None),
        list(vec![ScalarValue::Float32(Some(1.5f32.to_bits()))], DataType::Float32)
    );
    assert_eq!(
        get_result(&make_portal(&vec![1.5f64], Type::FLOAT8_ARRAY), None),
        list(vec![ScalarValue::Float64(Some(1.5f64.to_bits()))], DataType::Float64)
    );
}

#[test]
fn client_types_go_first() {
    let int8 = PgType::Builtin(Builtin::INT8);
    let text = PgType::Builtin(Builtin::TEXT);
    let unknown = PgType::Builtin(Builtin::UNKNOWN);
    let inferred = DataType::Int16;
    let get = |server, hint, inferred| get_pg_type(server, hint, inferred).unwrap();
    assert_eq!(get(Some(&text), Some(&int8), Some(&inferred)), int8);
    assert_eq!(get(Some(&text), None, Some(&inferred)), text);
    assert_eq!(get(Some(&unknown), None, Some(&inferred)), PgType::Builtin(Builtin::INT2));
    assert_eq!(get(Some(&text), Some(&unknown), Some(&inferred)), text);
    assert_eq!(get(None, Some(&unknown), Some(&inferred)), PgType::Builtin(Builtin::INT2));
    assert!(matches!(get_pg_type(None, None, None), Err(Error::NoType)));
    assert!(matches!(get_pg_type(Some(&unknown), Some(&unknown), None), Err(Error::NoType)));
}

#[test]
fn unknown_client_types_fall_back_to_inferred_ones() {
    let unknown = PgType::Builtin(Builtin::UNKNOWN);
    let portal = raw_portal(unknown, Format::UnifiedText, b"42");
    assert_eq!(get_result(&portal, Some(&DataType::Int32)), ScalarValue::Int32(Some(42)));
    let refused = deserialize_parameters(&portal, &[None]).unwrap_err();
    assert!(matches!(refused, Error::NoType));
    assert_eq!(refused.sqlstate(), Some("22023"));
}

#[test]
fn parameters_without_any_type() {
    let portal = Portal {
        parameter_types: vec![],
        parameter_format: Format::UnifiedText,
        parameters: vec![None],
        decoded: vec![],
    };
    assert!(matches!(deserialize_parameters(&portal, &[]), Err(Error::NoType)));
    assert!(matches!(deserialize_parameters(&portal, &[None]), Err(Error::NoType)));
}

#[test]
fn text_types_are_known_by_their_oids() {
    for oid in [19, 25, 705, 1042, 1043] {
        let portal =
            raw_portal(PgType::Builtin(Builtin::Other(oid)), Format::UnifiedText, b"x");
        assert_eq!(
            get_result(&portal, Some(&DataType::Utf8)),
            ScalarValue::Utf8(Some("x".to_string()))
        );
    }
}

#[test]
fn server_types_decode_parameters() {
    let portal = Portal {
        parameter_types: vec![],
        parameter_format: Format::UnifiedBinary,
        parameters: vec![Some(vector_bytes(1, 0, &[2.0]))],
        decoded: vec![],
    };
    let list = vector_list(1);
    let vector = pg_vector_type();
    let values =
        deserialize_parameters_with_server_types(&portal, &[Some(&list)], &[Some(&vector)])
            .unwrap();
    assert_eq!(
        values,
        vec![ScalarValue::FixedSizeList(
            Field::new_list_field(DataType::Float32, true),
            1,
            Some(vec![2.0f32.to_bits()])
        )]
    );
}

#[test]
fn parameters_without_a_format() {
    let portal = Portal {
        parameter_types: vec![Some(PgType::Builtin(Builtin::TEXT))],
        parameter_format: Format::Individual(vec![]),
        parameters: vec![Some(vec![])],
        decoded: vec![],
    };
    assert_eq!(malformed(&portal), Malformed::NoFormat);
}

#[test]
fn oids_are_numbers() {
    let oid = |raw: &[u8], format| {
        let portal = Portal {
            parameter_types: vec![Some(PgType::Builtin(Builtin::OID))],
            parameter_format: format,
            parameters: vec![Some(raw.to_vec())],
            decoded: vec![],
        };
        deserialize_parameters(&portal, &[None])
    };
    assert_eq!(
        oid(&[0, 0, 1, 0], Format::UnifiedBinary).unwrap(),
        oid(b"256", Format::UnifiedText).unwrap()
    );
    assert!(matches!(
        oid(&[0, 1], Format::UnifiedBinary),
        Err(Error::Malformed(Malformed::OidLength))
    ));
    assert!(matches!(
        oid(b"x", Format::UnifiedText),
        Err(Error::Malformed(Malformed::OidText))
    ));
}

#[test]
fn signed_numbers_are_parsed() {
    assert_eq!(parse_i64("-9223372036854775808"), Some(i64::MIN));
    assert_eq!(parse_i64("+7"), Some(7));
    assert_eq!(parse_i64("9223372036854775808"), None);
    assert_eq!(parse_i64("-"), None);
    assert_eq!(parse_i64(""), None);
}

#[test]
fn bytes_of_another_type_are_refused() {
    let portal = Portal {
        parameter_types: vec![Some(PgType::Builtin(Builtin::INT4))],
        parameter_format: Format::UnifiedBinary,
        parameters: vec![Some(vec![1])],
        decoded: vec![],
    };
    assert!(matches!(get_error(&portal, None), Error::Wire(_)));
}

#[test]
fn decimals_are_rescaled_and_cut() {
    let portal = make_portal(&Decimal::new(-12345, 3), Type::NUMERIC);
    assert_eq!(
        get_result(&portal, Some(&DataType::Decimal128(10, 1))),
        ScalarValue::Decimal128(Some(-123), 10, 1)
    );
    assert_eq!(get_result(&portal, Some(&DataType::Int64)), ScalarValue::Int64(Some(-12)));
    assert_eq!(get_result(&portal, Some(&DataType::UInt64)), ScalarValue::UInt64(None));
    assert_eq!(
        get_result(&portal, Some(&DataType::Float32)),
        ScalarValue::Float32(Some((-12.345f32).to_bits()))
    );
}

#[test]
fn intervals_in_text_form() {
    let read = |text: &str| read_text(Builtin::INTERVAL, text);
    let value = |months, days, nanos| {
        Some(ScalarValue::IntervalMonthDayNano(Some((months, days, nanos))))
    };
    assert_eq!(read("1 mon"), value(1, 0, 0));
    assert_eq!(
        read("1 year 2 mons -3 days 04:05:06.5"),
        value(14, -3, (((4 * 60 + 5) * 60) + 6) * 1_000_000_000 + 500_000_000)
    );
    assert_eq!(read("999999999 days"), value(0, 999_999_999, 0));
    assert_eq!(read("1 fortnight"), None);
    assert_eq!(read("1 moon"), None);
    assert_eq!(
        read_text(Builtin::INTERVAL_ARRAY, "{\"1 mon\",NULL,\"2 days\"}"),
        Some(ScalarValue::List(
            vec![
                ScalarValue::IntervalMonthDayNano(Some((1, 0, 0))),
                ScalarValue::IntervalMonthDayNano(None),
                ScalarValue::IntervalMonthDayNano(Some((0, 2, 0))),
            ],
            DataType::Interval(IntervalUnit::MonthDayNano)
        ))
    );
}

#[test]
fn undecoded_intervals_in_text_form() {
    let mut portal = Portal {
        parameter_types: vec![Some(PgType::Builtin(Builtin::INTERVAL))],
        parameter_format: Format::UnifiedText,
        parameters: vec![Some(b"0000000001 mon".to_vec())],
        decoded: vec![],
    };
    assert_eq!(malformed(&portal), Malformed::Undecoded);
    let interval = wire::Interval { months: 1, days: 0, microseconds: 0 };
    portal.decoded = vec![Some(Decoded::Interval(interval))];
    assert_eq!(
        get_result(&portal, None),
        ScalarValue::IntervalMonthDayNano(Some((1, 0, 0)))
    );
    portal.parameter_format = Format::UnifiedBinary;
    assert_eq!(malformed(&portal), Malformed::IntervalTooShort);
}

#[test]
fn texts_of_intervals_that_are_plain() {
    for text in ["", "1 mon", "{\"1 day\",NULL}", "123456789.123456789 days"] {
        assert!(wire::plain_interval_text(text.as_bytes()), "{text}");
    }
    for text in ["inf days", "INF", "1234567890 days", "12345\\67890", "\u{660} days"] {
        assert!(!wire::plain_interval_text(text.as_bytes()), "{text}");
    }
}

fn raw_portal(t: PgType, format: Format, raw: &[u8]) -> Portal {
    Portal {
        parameter_types: vec![Some(t)],
        parameter_format: format,
        parameters: vec![Some(raw.to_vec())],
        decoded: vec![],
    }
}

fn read_text(b: Builtin, text: &str) -> Option<ScalarValue> {
    let portal = raw_portal(PgType::Builtin(b), Format::UnifiedText, text.as_bytes());
    deserialize_parameters(&portal, &[None]).ok().map(|mut v| v.remove(0))
}

fn read_binary(b: Builtin, raw: &[u8]) -> Option<ScalarValue> {
    let portal = raw_portal(PgType::Builtin(b), Format::UnifiedBinary, raw);
    deserialize_parameters(&portal, &[None]).ok().map(|mut v| v.remove(0))
}

#[test]
fn truth_values() {
    let read = |text| match read_text(Builtin::BOOL, text) {
        Some(ScalarValue::Boolean(b)) => b,
        _ => None,
    };
    for text in ["true", "T", "yes", "Y", "oN", "1"] {
        assert_eq!(read(text), Some(true), "{text}");
    }
    for text in ["", "FALSE", "f", "no", "n", "off", "0"] {
        assert_eq!(read(text), Some(false), "{text}");
    }
    for text in ["tru", "2", "o", "10", " true"] {
        assert_eq!(read(text), None, "{text}");
    }
    assert_eq!(read_binary(Builtin::BOOL, &[2]), Some(ScalarValue::Boolean(Some(true))));
    assert_eq!(read_binary(Builtin::BOOL, &[0]), Some(ScalarValue::Boolean(Some(false))));
    assert_eq!(read_binary(Builtin::BOOL, &[1, 0]), None);
}

#[test]
fn integers_in_text_form() {
    assert_eq!(read_text(Builtin::INT2, "-32768"), Some(ScalarValue::Int16(Some(i16::MIN))));
    assert_eq!(read_text(Builtin::INT2, "32768"), None);
    assert_eq!(read_text(Builtin::INT4, "+5"), Some(ScalarValue::Int32(Some(5))));
    assert_eq!(read_text(Builtin::INT4, " 5"), None);
    assert_eq!(read_text(Builtin::INT4, "-"), None);
    assert_eq!(read_text(Builtin::INT8, "0012"), Some(ScalarValue::Int64(Some(12))));
    assert_eq!(read_text(Builtin::CHAR, "-128"), Some(ScalarValue::Int8(Some(-128))));
    assert_eq!(read_text(Builtin::CHAR, "128"), None);
}

#[test]
fn integers_in_binary_form() {
    assert_eq!(read_binary(Builtin::INT2, &[255, 254]), Some(ScalarValue::Int16(Some(-2))));
    assert_eq!(read_binary(Builtin::INT4, &[0, 0, 1, 2]), Some(ScalarValue::Int32(Some(258))));
    assert_eq!(read_binary(Builtin::INT4, &[0, 1, 2]), None);
    assert_eq!(
        read_binary(Builtin::INT8, &[128, 0, 0, 0, 0, 0, 0, 0]),
        Some(ScalarValue::Int64(Some(i64::MIN)))
    );
    assert_eq!(read_binary(Builtin::CHAR, &[200]), Some(ScalarValue::Int8(Some(-56))));
    assert_eq!(read_binary(Builtin::MONEY, &[0; 8]), None);
}

#[test]
fn bytes_in_text_form() {
    assert_eq!(
        read_text(Builtin::BYTEA, "\\x0aFf"),
        Some(ScalarValue::Binary(Some(vec![10, 255])))
    );
    assert_eq!(read_text(Builtin::BYTEA, "\\x"), Some(ScalarValue::Binary(Some(vec![]))));
    assert_eq!(read_text(Builtin::BYTEA, "\\x0"), None);
    assert_eq!(read_text(Builtin::BYTEA, "\\x0g"), None);
    assert_eq!(read_text(Builtin::BYTEA, "0a"), None);
}

#[test]
fn texts_with_quotes() {
    let text = |s: &str| Some(ScalarValue::Utf8(Some(s.to_string())));
    assert_eq!(read_text(Builtin::TEXT, "it''s"), text("it's"));
    assert_eq!(read_text(Builtin::TEXT, "'''"), text("''"));
    assert_eq!(read_text(Builtin::VARCHAR, "'"), text("'"));
    assert_eq!(read_binary(Builtin::TEXT, b"it''s"), text("it''s"));
    assert_eq!(read_binary(Builtin::TEXT, &[0xff]), None);
    assert_eq!(read_binary(Builtin::UUID, b"text"), None);
}

#[test]
fn texts_with_a_version() {
    let read = |name: &str, raw: &[u8]| {
        let t = PgType::Custom {
            name: name.to_string(),
            oid: 70000,
            kind: Kind::Simple,
            schema: "public".to_string(),
        };
        let portal = raw_portal(t, Format::UnifiedBinary, raw);
        deserialize_parameters(&portal, &[None]).ok().map(|mut v| v.remove(0))
    };
    let text = |s: &str| Some(ScalarValue::Utf8(Some(s.to_string())));
    assert_eq!(read("ltree", b"\x01a.b"), text("a.b"));
    assert_eq!(read("ltree", b"a.b"), None);
    assert_eq!(read("citext", b"a.b"), text("a.b"));
    assert_eq!(read("other", b"a.b"), None);
}

#[test]
fn times_in_binary_form() {
    let micros = |t: i64| match read_binary(Builtin::TIMESTAMP, &t.to_be_bytes()) {
        Some(ScalarValue::TimestampMicrosecond(v, None)) => v,
        _ => None,
    };
    assert_eq!(micros(0), Some(946_684_800_000_000));
    assert_eq!(micros(-1), Some(946_684_799_999_999));
    assert_eq!(micros(i64::MAX), None);
    assert_eq!(micros(i64::MIN), None);
    let last = (8_210_266_876_799 - 946_684_800) * 1_000_000 + 999_999;
    assert!(micros(last).is_some());
    assert!(micros(last + 1).is_none());
    let first = (-8_334_601_228_800 - 946_684_800) * 1_000_000;
    assert!(micros(first).is_some());
    assert!(micros(first - 1).is_none());

    let days = |d: i32| match read_binary(Builtin::DATE, &d.to_be_bytes()) {
        Some(ScalarValue::Date32(v)) => v,
        _ => None,
    };
    assert_eq!(days(0), Some(10_957));
    assert_eq!(days(-10_957), Some(0));
    assert_eq!(days(95_026_236 - 10_957), Some(95_026_236));
    assert_eq!(days(95_026_237 - 10_957), None);
    assert_eq!(days(-96_465_292 - 10_957), Some(-96_465_292));
    assert_eq!(days(-96_465_293 - 10_957), None);
    assert_eq!(days(i32::MAX), None);

    let nanos = |t: i64| match read_binary(Builtin::TIME, &t.to_be_bytes()) {
        Some(ScalarValue::Time64Nanosecond(v)) => v,
        _ => None,
    };
    assert_eq!(nanos(1), Some(1_000));
    assert_eq!(nanos(-1), Some(86_399_999_999_000));
    assert_eq!(nanos(86_400_000_000), Some(0));
    assert_eq!(nanos(i64::MIN), Some(i64::MIN.rem_euclid(86_400_000_000) * 1_000));
}

#[test]
fn times_in_text_form() {
    assert_eq!(
        read_text(Builtin::TIMESTAMP, "2000-01-01 00:00:01"),
        Some(ScalarValue::TimestampMicrosecond(Some(946_684_801_000_000), None))
    );
    assert_eq!(
        read_text(Builtin::TIMESTAMPTZ, "2000-01-01 01:00:00+01"),
        Some(ScalarValue::TimestampMicrosecond(Some(946_684_800_000_000), None))
    );
    assert_eq!(read_text(Builtin::DATE, "1970-01-02"), Some(ScalarValue::Date32(Some(1))));
    assert_eq!(
        read_text(Builtin::TIME, "00:00:01.500000"),
        Some(ScalarValue::Time64Nanosecond(Some(1_500_000_000)))
    );
    assert_eq!(read_text(Builtin::DATE, "tomorrow"), None);
    assert_eq!(
        read_text(Builtin::NUMERIC, "1.50"),
        Some(ScalarValue::Decimal128OfDigits(150, 2))
    );
    assert_eq!(
        read_text(Builtin::INT4_ARRAY, "{1,2}"),
        Some(ScalarValue::List(
            vec![ScalarValue::Int32(Some(1)), ScalarValue::Int32(Some(2))],
            DataType::Int32
        ))
    );
}

#[test]
fn nulls_stay_null() {
    assert_eq!(get_result(&make_null_portal(Type::BYTEA), None), ScalarValue::Binary(None));
    assert_eq!(get_result(&make_null_portal(Type::TEXT), None), ScalarValue::Utf8(None));
    assert_eq!(
        get_result(&make_null_portal(Type::FLOAT8), Some(&DataType::Int8)),
        ScalarValue::Int8(None)
    );
    assert_eq!(
        get_result(&make_null_portal(Type::INT4_ARRAY), None),
        ScalarValue::NullList(DataType::Int32)
    );
}
