use arrow_array::cast::AsArray;
use arrow_array::types::{Float32Type, Int8Type};
use arrow_array::{
    Array, ArrayRef, DictionaryArray, FixedSizeListArray, Float32Array, Int8Array, ListArray,
    NullArray, StringArray, StructArray, Time32MillisecondArray, Time32SecondArray,
    Time64MicrosecondArray, Time64NanosecondArray,
};
use arrow_schema::{DataType as ArrowType, Field as ArrowField};
use bytes::BytesMut;
use chrono::{NaiveTime, Timelike};
use datafusion_postgres::datatypes::{
    pg_vector_type, Builtin, FieldFormat, FieldInfo, Type, EXTENSION_NAME_KEY, PG_CHAR_KEY,
    PG_OID_ALIAS_KEY, PG_VECTOR_KEY,
};
use datafusion_postgres::encoder::{
    encode_recordbatch, encode_value, field_value, get_date32_value, get_date64_value,
    get_time32_millisecond_value, get_time32_second_value, get_time64_microsecond_value,
    get_time64_nanosecond_value, Column, EncodeError, Encoder, FieldCollector, Single, SqlValue,
    ZonedTime,
};
use datafusion_postgres::errors::{Error, Malformed};
use datafusion_postgres::geometry::{geometry_of, EXTENSION_METADATA_KEY};
use datafusion_postgres::params::split_vector_text;
use datafusion_postgres::schema::{DataType, Field, IntervalUnit, TimeUnit};
use datafusion_postgres::wire::{Decimal, Interval, TimeOfDay, UtcTime};
use pgwire::types::format::FormatOptions;
use pgwire::types::ToSqlText;
use std::sync::Arc;

fn single(v: f32) -> Single {
    Single { bits: v.to_bits(), text: v.to_string() }
}

/// The column of an array.
fn column(array: &ArrayRef) -> Column {
    let valid = || (0..array.len()).map(|i| array.is_valid(i)).collect::<Vec<bool>>();
    match array.data_type() {
        ArrowType::Null => Column::Null(array.len()),
        ArrowType::Utf8 => Column::Text(
            array.as_string::<i32>().iter().map(|v| v.map(str::to_string)).collect(),
        ),
        ArrowType::Float32 => {
            Column::Float32(array.as_primitive::<Float32Type>().iter().map(|v| v.map(single)).collect())
        }
        ArrowType::Time32(arrow_schema::TimeUnit::Second) => Column::Time32Second(
            array.as_primitive::<arrow_array::types::Time32SecondType>().iter().collect(),
        ),
        ArrowType::Time32(_) => Column::Time32Millisecond(
            array.as_primitive::<arrow_array::types::Time32MillisecondType>().iter().collect(),
        ),
        ArrowType::Time64(arrow_schema::TimeUnit::Microsecond) => Column::Time64Microsecond(
            array.as_primitive::<arrow_array::types::Time64MicrosecondType>().iter().collect(),
        ),
        ArrowType::Time64(_) => Column::Time64Nanosecond(
            array.as_primitive::<arrow_array::types::Time64NanosecondType>().iter().collect(),
        ),
        ArrowType::Struct(_) => Column::Struct { valid: valid() },
        ArrowType::List(item) => Column::List {
            valid: valid(),
            singles: (item.data_type() == &ArrowType::Float32).then(|| {
                let list = array.as_list::<i32>();
                (0..list.len())
                    .map(|i| {
                        let row = list.value(i);
                        row.as_primitive::<Float32Type>().values().iter().map(|v| single(*v)).collect()
                    })
                    .collect()
            }),
        },
        ArrowType::FixedSizeList(item, size) => Column::FixedSizeList {
            size: *size as usize,
            valid: valid(),
            singles: (item.data_type() == &ArrowType::Float32).then(|| {
                let values = array.as_fixed_size_list().values();
                values.as_primitive::<Float32Type>().values().iter().map(|v| single(*v)).collect()
            }),
        },
        ArrowType::Dictionary(_, _) => {
            let dict = array.as_dictionary::<Int8Type>();
            Column::Dictionary {
                keys: dict.keys().iter().map(|k| k.map(|k| k as usize)).collect(),
                values: Box::new(column(dict.values())),
            }
        }
        other => panic!("{other}"),
    }
}

/// Renders each field as the text that goes over the wire.
struct TextCapture {
    array: ArrayRef,
    encoded: String,
    calls: usize,
    nulls: usize,
}

impl TextCapture {
    fn new(array: &ArrayRef) -> TextCapture {
        TextCapture { array: array.clone(), encoded: String::new(), calls: 0, nulls: 0 }
    }

    fn write<T: ToSqlText>(&mut self, value: &T) {
        let mut bytes = BytesMut::new();
        value
            .to_sql_text(&postgres_types::Type::TEXT, &mut bytes, &FormatOptions::default())
            .unwrap();
        self.encoded = String::from_utf8(bytes.to_vec()).unwrap();
    }
}

impl Encoder for TextCapture {
    type Item = String;

    fn encode_field(&mut self, value: SqlValue, _pg_field: &FieldInfo) -> Result<(), Error> {
        self.calls += 1;
        match value {
            SqlValue::Text(v) => self.write(&v),
            SqlValue::List { rows } => {
                let array = self.array.clone();
                let row = rows[rows.len() - 1];
                let items: ArrayRef = match array.data_type() {
                    ArrowType::FixedSizeList(_, _) => array.as_fixed_size_list().value(row),
                    _ => array.as_list::<i32>().value(row),
                };
                if items.data_type() == &ArrowType::Null {
                    self.write(&vec![None::<String>; items.len()]);
                } else {
                    let values = items.as_primitive::<Float32Type>();
                    self.write(&values.iter().collect::<Vec<Option<f32>>>());
                }
            }
            SqlValue::NullStruct => self.nulls += 1,
            other => panic!("{other:?}"),
        }
        Ok(())
    }

    fn take_row(&mut self) -> String {
        std::mem::take(&mut self.encoded)
    }
}

fn info(datatype: Type, format: FieldFormat) -> FieldInfo {
    FieldInfo { name: "x".to_string(), datatype, format }
}

fn text_info() -> FieldInfo {
    info(Type::Builtin(Builtin::TEXT), FieldFormat::Text)
}

fn binary_info() -> FieldInfo {
    info(Type::Builtin(Builtin::TEXT), FieldFormat::Binary)
}

fn field(t: DataType) -> Field {
    Field::new("x", t, true)
}

fn marked(t: DataType, key: &str, value: &str) -> Field {
    let mut field = field(t);
    field.metadata.push((key.to_string(), value.to_string()));
    field
}

fn value(column: &Column, row: usize, t: DataType) -> SqlValue {
    field_value(column, row, &field(t), &text_info()).unwrap().unwrap()
}

#[test]
fn encodes_dictionary_array() {
    let val = "~!@&$[]()@@!!";
    let values = StringArray::from_iter_values([val]);
    let keys = Int8Array::from_iter_values([0, 0, 0, 0]);
    let array: ArrayRef =
        Arc::new(DictionaryArray::<Int8Type>::try_new(keys, Arc::new(values)).unwrap());
    let arrow_field = field(DataType::Dictionary(Box::new(DataType::Int8), Box::new(DataType::Utf8)));
    let mut encoder = TextCapture::new(&array);
    let result = encode_value(&mut encoder, &column(&array), 2, &arrow_field, &text_info());
    assert!(result.is_ok());
    assert!(encoder.encoded == val);
}

#[test]
fn encode_struct_null_emits_field() {
    let fields = vec![
        Arc::new(ArrowField::new("a", ArrowType::Utf8, true)),
        Arc::new(ArrowField::new("b", ArrowType::Utf8, true)),
    ];
    let a = Arc::new(StringArray::from(vec![Some("hello"), Some("x")])) as ArrayRef;
    let b = Arc::new(StringArray::from(vec![Some("world"), Some("y")])) as ArrayRef;
    let a2 = StringArray::from(vec![Some("hello"), None]);
    let nulls = a2.nulls().cloned();
    let array: ArrayRef = Arc::new(StructArray::try_new(fields.into(), vec![a, b], nulls).unwrap());
    assert!(array.is_null(1));
    let arrow_field = field(DataType::Struct(vec![
        Field::new("a", DataType::Utf8, true),
        Field::new("b", DataType::Utf8, true),
    ]));
    let mut encoder = TextCapture::new(&array);
    let result = encode_value(&mut encoder, &column(&array), 1, &arrow_field, &text_info());
    assert!(result.is_ok());
    assert_eq!(encoder.calls, 1);
    assert_eq!(encoder.nulls, 1);
}

#[test]
fn rows_of_fields_and_their_nulls() {
    let c = Column::Struct { valid: vec![true, false] };
    let t = || DataType::Struct(vec![Field::new("a", DataType::Utf8, true)]);
    assert_eq!(value(&c, 0, t()), SqlValue::Struct { rows: vec![0] });
    assert_eq!(value(&c, 1, t()), SqlValue::NullStruct);
}

#[test]
fn geometries_of_bytes_and_texts() {
    let written = |name: &str, c: &Column, t: DataType| {
        field_value(c, 0, &marked(t, EXTENSION_NAME_KEY, name), &text_info())
    };
    let bytes = Column::Bytes(vec![Some(vec![1])]);
    let texts = Column::Text(vec![Some("POINT (1 2)".to_string())]);
    for t in [DataType::Binary, DataType::LargeBinary, DataType::BinaryView] {
        assert!(matches!(
            written("geoarrow.wkt", &bytes, t.copy()),
            Err(EncodeError::InvalidGeometry)
        ));
        assert_eq!(
            written("geoarrow.wkb", &bytes, t).unwrap(),
            Some(SqlValue::Geometry { row: 0 })
        );
    }
    for t in [DataType::Utf8, DataType::LargeUtf8, DataType::Utf8View] {
        assert!(matches!(
            written("geoarrow.wkb", &texts, t.copy()),
            Err(EncodeError::InvalidGeometry)
        ));
        assert_eq!(
            written("geoarrow.wkt", &texts, t).unwrap(),
            Some(SqlValue::Geometry { row: 0 })
        );
    }
    let numbers = Column::Int32(vec![Some(1)]);
    for name in ["geoarrow.wkb", "geoarrow.wkt", "geoarrow.point", "geoarrow.geometry"] {
        assert!(matches!(
            written(name, &numbers, DataType::Int32),
            Err(EncodeError::InvalidGeometry)
        ));
    }
    assert_eq!(
        written("geoarrow.unknown", &numbers, DataType::Int32).unwrap(),
        Some(SqlValue::I32(Some(1)))
    );
}

/// Whether a field of the type is one of the geometries of a name.
fn named_geometry(name: &str, t: DataType) -> Option<bool> {
    geometry_of(&marked(t, EXTENSION_NAME_KEY, name))
}

fn list_of(t: DataType) -> DataType {
    DataType::List(Box::new(Field::new("item", t, false)))
}

fn xy() -> DataType {
    DataType::Struct(vec![
        Field::new("x", DataType::Float64, false),
        Field::new("y", DataType::Float64, false),
    ])
}

#[test]
fn geometries_of_coordinates() {
    assert_eq!(geometry_of(&field(xy())), Some(false));
    assert_eq!(named_geometry("geoarrow.point", xy()), Some(true));
    let interleaved = |name: &str, n: i32| {
        DataType::FixedSizeList(Box::new(Field::new(name, DataType::Float64, false)), n)
    };
    assert_eq!(named_geometry("geoarrow.point", interleaved("xy", 2)), Some(true));
    assert_eq!(named_geometry("geoarrow.point", interleaved("xyz", 3)), Some(true));
    assert_eq!(named_geometry("geoarrow.point", interleaved("xyz", 2)), None);
    assert_eq!(named_geometry("geoarrow.point", interleaved("item", 3)), None);
    assert_eq!(named_geometry("geoarrow.point", DataType::Struct(vec![])), None);
    for name in ["geoarrow.linestring", "geoarrow.multipoint"] {
        assert_eq!(named_geometry(name, list_of(xy())), Some(true));
        assert_eq!(named_geometry(name, xy()), None);
        assert_eq!(named_geometry(name, list_of(DataType::Utf8)), None);
    }
    for name in ["geoarrow.polygon", "geoarrow.multilinestring"] {
        assert_eq!(named_geometry(name, list_of(list_of(xy()))), Some(true));
        assert_eq!(named_geometry(name, list_of(xy())), None);
    }
    let polygons = || list_of(list_of(list_of(xy())));
    assert_eq!(named_geometry("geoarrow.multipolygon", polygons()), Some(true));
    let corners = ["xmin", "ymin", "xmax", "ymax"];
    let corners = corners.map(|name| Field::new(name, DataType::Float64, false));
    assert_eq!(named_geometry("geoarrow.box", DataType::Struct(corners.into())), Some(true));
    assert_eq!(named_geometry("geoarrow.box", xy()), None);
}

#[test]
fn mixed_geometries_are_unions() {
    assert_eq!(named_geometry("geoarrow.geometry", DataType::Union(7)), Some(true));
    assert_eq!(named_geometry("geoarrow.geometry", xy()), None);
    assert_eq!(named_geometry("geoarrow.geometry", list_of(DataType::Union(7))), None);
    let collection = "geoarrow.geometrycollection";
    assert_eq!(named_geometry(collection, list_of(DataType::Union(7))), Some(true));
    assert_eq!(named_geometry(collection, list_of(xy())), None);
    assert_eq!(named_geometry("geoarrow.linestring", list_of(DataType::Union(7))), None);
    assert_eq!(named_geometry("geoarrow.point", DataType::Union(7)), None);
}

#[test]
fn geometries_with_metadata() {
    let described = |metadata: &str| {
        let mut f = marked(DataType::Utf8, EXTENSION_NAME_KEY, "geoarrow.wkt");
        f.metadata.push((EXTENSION_METADATA_KEY.to_string(), metadata.to_string()));
        geometry_of(&f)
    };
    assert_eq!(described("{}"), Some(true));
    assert_eq!(described("{\"crs\": \"EPSG:4326\"}"), Some(true));
    assert_eq!(described("no object"), None);

    // Of two entries of one key the first counts.
    let mut f = marked(DataType::Utf8, EXTENSION_NAME_KEY, "geoarrow.wkt");
    f.metadata.push((EXTENSION_NAME_KEY.to_string(), "geoarrow.wkb".to_string()));
    assert_eq!(geometry_of(&f), Some(true));
}

#[test]
fn dictionaries_of_rows() {
    let c = Column::Dictionary {
        keys: vec![Some(1), None],
        values: Box::new(Column::List { valid: vec![false, true], singles: None }),
    };
    let values = list_of(DataType::Utf8);
    let t = DataType::Dictionary(Box::new(DataType::Int8), Box::new(values.copy()));
    assert_eq!(value(&c, 0, t.copy()), SqlValue::List { rows: vec![0, 1] });
    assert_eq!(value(&c, 1, t), SqlValue::I8(None));
    let list = Column::List { valid: vec![false, true], singles: None };
    assert_eq!(value(&list, 1, values), SqlValue::List { rows: vec![1] });
}

#[test]
fn encodes_null_list_as_text_array() {
    let mut builder = arrow_array::builder::ListBuilder::new(arrow_array::builder::NullBuilder::new());
    builder.values().append_null();
    builder.append(true);
    let list: ListArray = builder.finish();
    let array: ArrayRef = Arc::new(list);
    assert_eq!(array.as_list::<i32>().value(0).len(), NullArray::new(1).len());
    let arrow_field = field(DataType::List(Box::new(Field::new_list_field(DataType::Null, true))));
    let mut encoder = TextCapture::new(&array);
    let pg_field = info(Type::Builtin(Builtin::TEXT_ARRAY), FieldFormat::Text);
    let result = encode_value(&mut encoder, &column(&array), 0, &arrow_field, &pg_field);
    assert!(result.is_ok());
    assert_eq!(encoder.encoded, "{NULL}");
}

fn time(t: Option<NaiveTime>) -> Option<TimeOfDay> {
    t.map(|t| TimeOfDay { seconds: t.num_seconds_from_midnight(), nanos: t.nanosecond() })
}

#[test]
fn test_get_time32_second_value() {
    let array: ArrayRef = Arc::new(Time32SecondArray::from_iter_values([3723_i32]));
    let value = get_time32_second_value(&column(&array), 0);
    assert_eq!(value, time(NaiveTime::from_hms_opt(1, 2, 3)));
}

#[test]
fn test_get_time32_millisecond_value() {
    let array: ArrayRef = Arc::new(Time32MillisecondArray::from_iter_values([3723001_i32]));
    let value = get_time32_millisecond_value(&column(&array), 0);
    assert_eq!(value, time(NaiveTime::from_hms_milli_opt(1, 2, 3, 1)));
}

#[test]
fn test_get_time64_microsecond_value() {
    let array: ArrayRef = Arc::new(Time64MicrosecondArray::from_iter_values([3723001001_i64]));
    let value = get_time64_microsecond_value(&column(&array), 0);
    assert_eq!(value, time(NaiveTime::from_hms_micro_opt(1, 2, 3, 1001)));
}

#[test]
fn test_get_time64_nanosecond_value() {
    let array: ArrayRef = Arc::new(Time64NanosecondArray::from_iter_values([3723001001001_i64]));
    let value = get_time64_nanosecond_value(&column(&array), 0);
    assert_eq!(value, time(NaiveTime::from_hms_nano_opt(1, 2, 3, 1001001)));
}

fn fixed_size_list(values: Vec<f32>, nulls: Option<Vec<Option<&str>>>) -> ArrayRef {
    let nulls = nulls.and_then(|v| StringArray::from(v).nulls().cloned());
    Arc::new(
        FixedSizeListArray::try_new(
            Arc::new(ArrowField::new_list_field(ArrowType::Float32, true)),
            3,
            Arc::new(Float32Array::from(values)),
            nulls,
        )
        .unwrap(),
    )
}

fn vector_type() -> DataType {
    DataType::FixedSizeList(Box::new(Field::new_list_field(DataType::Float32, true)), 3)
}

fn vector_field() -> Field {
    marked(vector_type(), PG_VECTOR_KEY, "vector")
}

#[test]
fn encodes_vector_fixed_size_list_as_pgvector_text() {
    let array = fixed_size_list(vec![1.0, 2.0, 3.0, 4.5, 0.0, 7.0], None);
    let pg_field = info(pg_vector_type(), FieldFormat::Text);

    let mut encoder = TextCapture::new(&array);
    encode_value(&mut encoder, &column(&array), 0, &vector_field(), &pg_field).unwrap();
    assert_eq!(encoder.encoded, "[1,2,3]");

    let mut encoder = TextCapture::new(&array);
    encode_value(&mut encoder, &column(&array), 1, &vector_field(), &pg_field).unwrap();
    assert_eq!(encoder.encoded, "[4.5,0,7]");
}

#[test]
fn encodes_null_vector_as_null() {
    let array = fixed_size_list(vec![1.0, 2.0, 3.0, 4.0, 5.0, 6.0], Some(vec![None, Some("")]));
    let pg_field = info(pg_vector_type(), FieldFormat::Text);

    let mut encoder = TextCapture::new(&array);
    encode_value(&mut encoder, &column(&array), 0, &vector_field(), &pg_field).unwrap();
    assert!(encoder.encoded.is_empty(), "NULL must emit no bytes");

    let mut encoder = TextCapture::new(&array);
    encode_value(&mut encoder, &column(&array), 1, &vector_field(), &pg_field).unwrap();
    assert_eq!(encoder.encoded, "[4,5,6]");
}

#[test]
fn plain_fixed_size_list_encodes_as_float4_array() {
    let array = fixed_size_list(vec![1.0, 2.0, 3.0], None);
    let pg_field = info(Type::Builtin(Builtin::FLOAT4_ARRAY), FieldFormat::Text);
    let mut encoder = TextCapture::new(&array);
    encode_value(&mut encoder, &column(&array), 0, &field(vector_type()), &pg_field).unwrap();
    assert_eq!(encoder.encoded, "{1.0,2.0,3.0}");
}

#[test]
fn a_vector_of_other_items_is_an_error() {
    let c = Column::FixedSizeList { size: 1, valid: vec![true], singles: None };
    let e = field_value(&c, 0, &vector_field(), &text_info()).unwrap_err();
    assert!(matches!(e, EncodeError::VectorItems));
    let c = Column::Int32(vec![Some(1)]);
    let f = marked(DataType::Int32, PG_VECTOR_KEY, "vector");
    let e = field_value(&c, 0, &f, &text_info()).unwrap_err();
    assert!(matches!(e, EncodeError::UnsupportedVector));
    assert_eq!(e.sqlstate(), None);
}

#[test]
fn a_list_of_numbers_can_be_a_vector() {
    let c = Column::List {
        valid: vec![true],
        singles: Some(vec![vec![single(0.5), single(-1.0)]]),
    };
    let t = DataType::List(Box::new(Field::new_list_field(DataType::Float32, true)));
    let f = marked(t, PG_VECTOR_KEY, "vector");
    assert_eq!(
        field_value(&c, 0, &f, &text_info()).unwrap(),
        Some(SqlValue::Text(Some("[0.5,-1]".to_string())))
    );
}

#[test]
fn chars_are_texts_or_bytes() {
    let c = Column::Text(vec![Some("b".to_string()), None, Some(String::new()), Some("é".to_string())]);
    let f = marked(DataType::Utf8, PG_CHAR_KEY, "char");
    let text = |row: usize| field_value(&c, row, &f, &text_info()).unwrap();
    let binary = |row: usize| field_value(&c, row, &f, &binary_info());
    assert_eq!(text(0), Some(SqlValue::Text(Some("b".to_string()))));
    assert_eq!(text(1), Some(SqlValue::Text(None)));
    assert_eq!(text(2), Some(SqlValue::Text(Some(String::new()))));
    assert_eq!(binary(0).unwrap(), Some(SqlValue::I8(Some(98))));
    assert_eq!(binary(1).unwrap(), Some(SqlValue::Text(None)));
    assert!(matches!(binary(2).unwrap_err(), EncodeError::EmptyChar));
    assert_eq!(binary(3).unwrap(), Some(SqlValue::I8(Some(-61))));
}

#[test]
fn oids_are_unsigned_in_binary_form() {
    let c = Column::Int32(vec![Some(-1), Some(26), None]);
    let f = marked(DataType::Int32, PG_OID_ALIAS_KEY, "oid");
    let binary = |row: usize| field_value(&c, row, &f, &binary_info()).unwrap();
    assert_eq!(binary(0), Some(SqlValue::U32(Some(4294967295))));
    assert_eq!(binary(1), Some(SqlValue::U32(Some(26))));
    assert_eq!(binary(2), Some(SqlValue::U32(None)));
    assert_eq!(
        field_value(&c, 0, &f, &text_info()).unwrap(),
        Some(SqlValue::I32(Some(-1)))
    );
    let f = marked(DataType::Int32, PG_OID_ALIAS_KEY, "regclass");
    assert_eq!(
        field_value(&c, 0, &f, &binary_info()).unwrap(),
        Some(SqlValue::I32(Some(-1)))
    );
}

#[test]
fn geometries_go_before_everything() {
    let point = (EXTENSION_NAME_KEY.to_string(), "geoarrow.point".to_string());
    let item = Field::new("xyz", DataType::Float32, true);
    let t = DataType::FixedSizeList(Box::new(item), 3);
    let mut f = marked(t, PG_VECTOR_KEY, "vector");
    f.metadata.push(point.clone());
    let array = fixed_size_list(vec![1.0, 2.0, 3.0], None);
    assert_eq!(
        field_value(&column(&array), 0, &f, &text_info()).unwrap(),
        Some(SqlValue::Geometry { row: 0 })
    );
    let mut f = vector_field();
    f.metadata.push(point);
    assert!(matches!(
        field_value(&column(&array), 0, &f, &text_info()),
        Err(EncodeError::InvalidGeometry)
    ));
}

#[test]
fn numbers_are_widened() {
    assert_eq!(value(&Column::Null(2), 1, DataType::Null), SqlValue::I8(None));
    assert_eq!(
        value(&Column::UInt8(vec![Some(255)]), 0, DataType::UInt8),
        SqlValue::I16(Some(255))
    );
    assert_eq!(
        value(&Column::UInt16(vec![Some(65535)]), 0, DataType::UInt16),
        SqlValue::I32(Some(65535))
    );
    assert_eq!(
        value(&Column::UInt32(vec![Some(u32::MAX)]), 0, DataType::UInt32),
        SqlValue::I64(Some(4294967295))
    );
    assert_eq!(
        value(&Column::UInt64(vec![Some(u64::MAX)]), 0, DataType::UInt64),
        SqlValue::Numeric(Some(Decimal {
            negative: false,
            mantissa: 18446744073709551615,
            scale: 0
        }))
    );
    assert_eq!(
        value(&Column::Float32(vec![Some(single(1.5))]), 0, DataType::Float32),
        SqlValue::F32(Some(1.5f32.to_bits()))
    );
    assert_eq!(
        value(&Column::Float64(vec![None]), 0, DataType::Float64),
        SqlValue::F64(None)
    );
    assert_eq!(
        value(&Column::Bytes(vec![Some(vec![1, 2])]), 0, DataType::LargeBinary),
        SqlValue::Bytes(Some(vec![1, 2]))
    );
    assert_eq!(
        value(&Column::Boolean(vec![Some(true)]), 0, DataType::Boolean),
        SqlValue::Bool(Some(true))
    );
}

#[test]
fn decimals_have_limits() {
    let c = Column::Decimal128(vec![Some(-12345), Some(i128::MAX), None]);
    let get = |row: usize, scale: i8| {
        field_value(&c, row, &field(DataType::Decimal128(38, scale)), &text_info())
    };
    assert_eq!(
        get(0, 2).unwrap(),
        Some(SqlValue::Numeric(Some(Decimal { negative: true, mantissa: -12345, scale: 2 })))
    );
    let e = get(0, 29).unwrap_err();
    assert!(matches!(e, EncodeError::ScaleTooLarge(29)));
    assert_eq!(e.sqlstate(), Some("22003"));
    let e = get(0, -1).unwrap_err();
    assert!(matches!(e, EncodeError::ScaleTooLarge(4294967295)));
    let e = get(1, 0).unwrap_err();
    assert!(matches!(e, EncodeError::NumericOutOfRange));
    assert_eq!(e.sqlstate(), Some("22003"));
    assert_eq!(get(2, 29).unwrap(), Some(SqlValue::Numeric(None)));
}

#[test]
fn dates_and_times() {
    assert_eq!(
        value(&Column::Date32(vec![Some(19000)]), 0, DataType::Date32),
        SqlValue::Date(Some(19000))
    );
    assert_eq!(
        value(&Column::Date32(vec![Some(i32::MAX)]), 0, DataType::Date32),
        SqlValue::Date(None)
    );
    assert_eq!(
        value(&Column::Date64(vec![Some(-1)]), 0, DataType::Date64),
        SqlValue::Date(Some(-1))
    );
    assert_eq!(
        value(&Column::Date64(vec![Some(86_400_000 * 3 + 5)]), 0, DataType::Date64),
        SqlValue::Date(Some(3))
    );
    assert_eq!(
        value(
            &Column::Time64Nanosecond(vec![Some(86_399_999_999_999)]),
            0,
            DataType::Time64(TimeUnit::Nanosecond)
        ),
        SqlValue::Time(Some(TimeOfDay { seconds: 86399, nanos: 999_999_999 }))
    );
    // A unit that the type does not have is passed over.
    let c = Column::Other { valid: vec![true] };
    let f = field(DataType::Time32(TimeUnit::Nanosecond));
    assert_eq!(field_value(&c, 0, &f, &text_info()).unwrap(), None);
}

#[test]
fn timestamps_with_and_without_a_zone() {
    let c = Column::Timestamp(vec![Some(1_600_000_000), None]);
    assert_eq!(
        value(&c, 0, DataType::Timestamp(TimeUnit::Second, None)),
        SqlValue::Timestamp(Some(UtcTime { seconds: 1_600_000_000, nanos: 0 }))
    );
    assert_eq!(
        value(&c, 0, DataType::Timestamp(TimeUnit::Millisecond, None)),
        SqlValue::Timestamp(Some(UtcTime { seconds: 1_600_000, nanos: 0 }))
    );
    let zone = |tz: &str| DataType::Timestamp(TimeUnit::Second, Some(tz.to_string()));
    assert_eq!(
        value(&c, 0, zone("+02:30")),
        SqlValue::TimestampTz(Some(ZonedTime {
            utc: UtcTime { seconds: 1_600_000_000, nanos: 0 },
            offset: 9000
        }))
    );
    assert_eq!(
        value(&c, 0, zone("America/New_York")),
        SqlValue::TimestampTz(Some(ZonedTime {
            utc: UtcTime { seconds: 1_600_000_000, nanos: 0 },
            offset: -14400
        }))
    );
    assert_eq!(value(&c, 1, zone("nowhere")), SqlValue::Timestamp(None));
    let e = field_value(&c, 0, &field(zone("nowhere")), &text_info()).unwrap_err();
    assert!(matches!(e, EncodeError::UnknownTimeZone));
    let c = Column::Timestamp(vec![Some(-1)]);
    assert_eq!(
        value(&c, 0, DataType::Timestamp(TimeUnit::Nanosecond, None)),
        SqlValue::Timestamp(Some(UtcTime { seconds: -1, nanos: 999_999_999 }))
    );
}

fn interval(months: i32, days: i32, microseconds: i64) -> SqlValue {
    SqlValue::Interval(Some(Interval { months, days, microseconds }))
}

#[test]
fn intervals_and_durations() {
    let c = Column::IntervalYearMonth { valid: vec![false], months: vec![14] };
    assert_eq!(value(&c, 0, DataType::Interval(IntervalUnit::YearMonth)), interval(14, 0, 0));
    let c = Column::IntervalDayTime { valid: vec![true], parts: vec![(2, -1500)] };
    assert_eq!(
        value(&c, 0, DataType::Interval(IntervalUnit::DayTime)),
        interval(0, 2, -1_500_000)
    );
    let c = Column::IntervalMonthDayNano { valid: vec![true], parts: vec![(1, 2, -1999)] };
    assert_eq!(value(&c, 0, DataType::Interval(IntervalUnit::MonthDayNano)), interval(1, 2, -1));
    let c = Column::Duration(vec![Some(3), None]);
    assert_eq!(value(&c, 0, DataType::Duration(TimeUnit::Second)), interval(0, 0, 3_000_000));
    assert_eq!(value(&c, 0, DataType::Duration(TimeUnit::Millisecond)), interval(0, 0, 3_000));
    assert_eq!(value(&c, 0, DataType::Duration(TimeUnit::Microsecond)), interval(0, 0, 3));
    assert_eq!(value(&c, 0, DataType::Duration(TimeUnit::Nanosecond)), interval(0, 0, 0));
    assert_eq!(
        value(&c, 1, DataType::Duration(TimeUnit::Second)),
        SqlValue::Interval(None)
    );
}

#[test]
fn null_lists_and_null_keys() {
    let c = Column::List { valid: vec![false, true], singles: None };
    let t = || DataType::List(Box::new(Field::new_list_field(DataType::Int64, true)));
    assert_eq!(value(&c, 0, t()), SqlValue::NullList);
    assert_eq!(value(&c, 1, t()), SqlValue::List { rows: vec![1] });
    let c = Column::Dictionary { keys: vec![None, Some(1)], values: Box::new(c) };
    let t = || DataType::Dictionary(Box::new(DataType::Int8), Box::new(t()));
    assert_eq!(value(&c, 0, t()), SqlValue::I8(None));
    assert_eq!(value(&c, 1, t()), SqlValue::List { rows: vec![1, 1] });
}

#[test]
fn unsupported_columns_are_errors() {
    let c = Column::Other { valid: vec![true] };
    for t in [DataType::Float16, DataType::Decimal256(10, 2), DataType::FixedSizeBinary(4)] {
        let e = field_value(&c, 0, &field(t), &text_info()).unwrap_err();
        assert!(matches!(e, EncodeError::UnsupportedType));
    }
}

#[test]
fn rows_of_a_record_batch() {
    let columns = vec![
        Column::Int32(vec![Some(1), None]),
        Column::Text(vec![Some("a".to_string()), Some("b".to_string())]),
    ];
    let fields = vec![field(DataType::Int32), field(DataType::Utf8)];
    let infos = vec![text_info(), text_info()];
    let mut encoder = FieldCollector::new();
    let (rows, error) = encode_recordbatch(&mut encoder, &columns, 2, &fields, &infos);
    assert!(error.is_none());
    let values: Vec<Vec<SqlValue>> =
        rows.into_iter().map(|r| r.into_iter().map(|f| f.0).collect()).collect();
    assert_eq!(
        values,
        vec![
            vec![SqlValue::I32(Some(1)), SqlValue::Text(Some("a".to_string()))],
            vec![SqlValue::I32(None), SqlValue::Text(Some("b".to_string()))],
        ]
    );
}

#[test]
fn the_first_bad_row_ends_a_record_batch() {
    let columns = vec![Column::Decimal128(vec![Some(1), Some(i128::MIN), Some(2)])];
    let fields = vec![field(DataType::Decimal128(38, 0))];
    let infos = vec![text_info()];
    let mut encoder = FieldCollector::new();
    let (rows, error) = encode_recordbatch(&mut encoder, &columns, 3, &fields, &infos);
    assert_eq!(rows.len(), 1);
    assert!(matches!(error, Some(EncodeError::NumericOutOfRange)));
}

/// Refuses every field.
struct Refusing;

impl Encoder for Refusing {
    type Item = ();

    fn encode_field(&mut self, _value: SqlValue, _pg_field: &FieldInfo) -> Result<(), Error> {
        Err(Error::Malformed(Malformed::NoFormat))
    }

    fn take_row(&mut self) {}
}

#[test]
fn a_refused_field_is_reported() {
    let c = Column::Int32(vec![Some(1)]);
    let e = encode_value(&mut Refusing, &c, 0, &field(DataType::Int32), &text_info()).unwrap_err();
    assert!(matches!(e, EncodeError::Refused(Error::Malformed(Malformed::NoFormat))));
    assert_eq!(e.sqlstate(), None);
}

#[test]
fn dates_have_a_range() {
    let date32 = |v| get_date32_value(&Column::Date32(vec![Some(v)]), 0);
    assert_eq!(date32(95_026_236), Some(95_026_236));
    assert_eq!(date32(95_026_237), None);
    assert_eq!(date32(-96_465_292), Some(-96_465_292));
    assert_eq!(date32(-96_465_293), None);
    let date64 = |v| get_date64_value(&Column::Date64(vec![Some(v)]), 0);
    assert_eq!(date64(86_400_000), Some(1));
    assert_eq!(date64(-1), Some(-1));
    assert_eq!(date64(95_026_237 * 86_400_000 - 1), Some(95_026_236));
    assert_eq!(date64(95_026_237 * 86_400_000), None);
    assert_eq!(date64(i64::MIN), None);
}

#[test]
fn times_of_day_have_a_range() {
    let time = |seconds, nanos| Some(TimeOfDay { seconds, nanos });
    let s = |v| get_time32_second_value(&Column::Time32Second(vec![Some(v)]), 0);
    assert_eq!(s(86_399), time(86_399, 0));
    assert_eq!(s(86_400), None);
    assert_eq!(s(-1), None);
    let ms = |v| get_time32_millisecond_value(&Column::Time32Millisecond(vec![Some(v)]), 0);
    assert_eq!(ms(1_001), time(1, 1_000_000));
    assert_eq!(ms(-1), None);
    assert_eq!(ms(-1_000), None);
    let us = |v| get_time64_microsecond_value(&Column::Time64Microsecond(vec![Some(v)]), 0);
    assert_eq!(us(1_000_001), time(1, 1_000));
    assert_eq!(us((1 << 32) * 1_000_000 + 5), time(0, 5_000));
    assert_eq!(us(-(1 << 32) * 1_000_000), time(0, 0));
    assert_eq!(us(-(1 << 32) * 1_000_000 - 1), None);
    let ns = |v| get_time64_nanosecond_value(&Column::Time64Nanosecond(vec![Some(v)]), 0);
    assert_eq!(ns(86_399_999_999_999), time(86_399, 999_999_999));
    assert_eq!(ns(86_400_000_000_000), None);
    assert_eq!(ns(-1), None);
}

#[test]
fn timestamps_have_a_range() {
    let read = |v, unit| {
        let c = Column::Timestamp(vec![Some(v)]);
        match value(&c, 0, DataType::Timestamp(unit, None)) {
            SqlValue::Timestamp(t) => t,
            other => panic!("{other:?}"),
        }
    };
    assert!(read(8_210_266_876_799, TimeUnit::Second).is_some());
    assert!(read(8_210_266_876_800, TimeUnit::Second).is_none());
    assert!(read(-8_334_601_228_800, TimeUnit::Second).is_some());
    assert!(read(-8_334_601_228_801, TimeUnit::Second).is_none());
    assert!(read(i64::MAX, TimeUnit::Microsecond).is_none());
    assert_eq!(
        read(-1, TimeUnit::Nanosecond),
        Some(UtcTime { seconds: -1, nanos: 999_999_999 })
    );
    assert!(read(i64::MIN, TimeUnit::Nanosecond).is_some());
}

#[test]
fn vectors_are_read_back() {
    let c = Column::FixedSizeList {
        valid: vec![true],
        size: 3,
        singles: Some(vec![single(1.0), single(-2.5), single(1e-7)]),
    };
    let mut out = FieldCollector::new();
    encode_value(&mut out, &c, 0, &vector_field(), &text_info()).unwrap();
    match &out.take_row()[0].0 {
        SqlValue::Text(Some(text)) => assert_eq!(
            split_vector_text(text).unwrap(),
            vec![1.0f32.to_string(), (-2.5f32).to_string(), 1e-7f32.to_string()]
        ),
        other => panic!("{other:?}"),
    }
}
