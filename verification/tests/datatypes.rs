use datafusion_postgres::datatypes::{
    arrow_schema_to_pg_fields, field_into_pg_type, into_pg_type, is_pg_char_field,
    is_pg_vector_field, pg_type_for_alias_kind, pg_vector_type, Builtin, FieldFormat, Format, Type,
    EXTENSION_NAME_KEY, PG_CHAR_KEY, PG_OID_ALIAS_KEY, PG_VECTOR_KEY, PG_VECTOR_TYPE_OID,
};
use datafusion_postgres::errors::Error;
use datafusion_postgres::schema::{DataType, Field, IntervalUnit, TimeUnit};

fn marked(name: &str, data_type: DataType, key: &str, value: &str) -> Field {
    let mut field = Field::new(name, data_type, false);
    field.metadata.push((key.to_string(), value.to_string()));
    field
}

fn oid_alias_field(kind: &str) -> Field {
    marked("c", DataType::Int32, PG_OID_ALIAS_KEY, kind)
}

fn builtin(t: &Type) -> Builtin {
    match t {
        Type::Builtin(b) => *b,
        other => panic!("{other:?}"),
    }
}

fn vector_type() -> DataType {
    DataType::FixedSizeList(Box::new(Field::new_list_field(DataType::Float32, true)), 3)
}

#[test]
fn null_list_is_text_array() {
    let dt = DataType::List(Box::new(Field::new_list_field(DataType::Null, true)));
    assert_eq!(builtin(&into_pg_type(&dt).unwrap()), Builtin::TEXT_ARRAY);
}

#[test]
fn oid_alias_metadata_maps_to_alias_pg_type() {
    let cases = [
        ("oid", Builtin::OID),
        ("regproc", Builtin::REGPROC),
        ("regprocedure", Builtin::REGPROCEDURE),
        ("regclass", Builtin::REGCLASS),
        ("regtype", Builtin::REGTYPE),
        ("regoper", Builtin::REGOPER),
        ("regoperator", Builtin::REGOPERATOR),
        ("regnamespace", Builtin::REGNAMESPACE),
        ("regrole", Builtin::REGROLE),
        ("regconfig", Builtin::REGCONFIG),
        ("regdictionary", Builtin::REGDICTIONARY),
        ("regcollation", Builtin::REGCOLLATION),
    ];
    for (kind, expected) in cases {
        let t = field_into_pg_type(&oid_alias_field(kind)).unwrap();
        assert_eq!(builtin(&t), expected);
        assert_eq!(pg_type_for_alias_kind(kind), Some(expected));
    }
}

#[test]
fn oid_alias_metadata_reports_correct_oid() {
    let oid = |kind: &str| field_into_pg_type(&oid_alias_field(kind)).unwrap().oid();
    assert_eq!(oid("regtype"), 2206);
    assert_eq!(oid("regclass"), 2205);
    assert_eq!(oid("regprocedure"), 2202);
    assert_eq!(oid("regproc"), 24);
    assert_eq!(oid("oid"), 26);
}

#[test]
fn unknown_oid_alias_metadata_falls_back_to_int4() {
    let field = oid_alias_field("not_a_real_alias");
    assert_eq!(builtin(&field_into_pg_type(&field).unwrap()), Builtin::INT4);
}

#[test]
fn missing_oid_alias_metadata_is_int4() {
    let field = Field::new("c", DataType::Int32, false);
    assert_eq!(builtin(&field_into_pg_type(&field).unwrap()), Builtin::INT4);
}

#[test]
fn pg_vector_field_maps_to_custom_vector_type() {
    let field = marked("embedding", vector_type(), PG_VECTOR_KEY, "vector");
    match field_into_pg_type(&field).unwrap() {
        Type::Custom { name, oid, schema, .. } => {
            assert_eq!(name, "vector");
            assert_eq!(schema, "public");
            assert_eq!(oid, PG_VECTOR_TYPE_OID);
        }
        other => panic!("{other:?}"),
    }
    assert_eq!(pg_vector_type().oid(), PG_VECTOR_TYPE_OID);
}

#[test]
fn plain_fixed_size_list_stays_float4_array() {
    let field = Field::new("embedding", vector_type(), true);
    assert!(!is_pg_vector_field(&field));
    assert_eq!(builtin(&field_into_pg_type(&field).unwrap()), Builtin::FLOAT4_ARRAY);
}

#[test]
fn another_vector_mark_does_not_count() {
    let field = marked("embedding", vector_type(), PG_VECTOR_KEY, "halfvec");
    assert!(!is_pg_vector_field(&field));
    assert_eq!(builtin(&field_into_pg_type(&field).unwrap()), Builtin::FLOAT4_ARRAY);
}

#[test]
fn marks_have_an_order() {
    // An oid alias goes before the mark of a "char", and that one before a vector.
    let mut field = oid_alias_field("regclass");
    field.metadata.push((PG_CHAR_KEY.to_string(), "char".to_string()));
    assert!(is_pg_char_field(&field));
    assert_eq!(builtin(&field_into_pg_type(&field).unwrap()), Builtin::REGCLASS);

    let mut field = marked("c", DataType::Utf8, PG_CHAR_KEY, "char");
    field.metadata.push((PG_VECTOR_KEY.to_string(), "vector".to_string()));
    assert_eq!(builtin(&field_into_pg_type(&field).unwrap()), Builtin::CHAR);
}

#[test]
fn geometries_are_texts() {
    let names = [
        "geoarrow.point",
        "geoarrow.linestring",
        "geoarrow.polygon",
        "geoarrow.multipoint",
        "geoarrow.multilinestring",
        "geoarrow.multipolygon",
        "geoarrow.geometrycollection",
        "geoarrow.geometry",
        "geoarrow.box",
        "geoarrow.wkt",
        "geoarrow.wkb",
    ];
    for name in names {
        let field = marked("g", DataType::Binary, EXTENSION_NAME_KEY, name);
        assert_eq!(builtin(&field_into_pg_type(&field).unwrap()), Builtin::TEXT);
    }
    let field = marked("g", DataType::Binary, EXTENSION_NAME_KEY, "arrow.uuid");
    assert_eq!(builtin(&field_into_pg_type(&field).unwrap()), Builtin::BYTEA);
}

#[test]
fn plain_types() {
    let cases = [
        (DataType::Null, Builtin::UNKNOWN),
        (DataType::Boolean, Builtin::BOOL),
        (DataType::Int8, Builtin::INT2),
        (DataType::UInt8, Builtin::INT2),
        (DataType::Int16, Builtin::INT2),
        (DataType::UInt16, Builtin::INT4),
        (DataType::Int32, Builtin::INT4),
        (DataType::UInt32, Builtin::INT8),
        (DataType::Int64, Builtin::INT8),
        (DataType::UInt64, Builtin::NUMERIC),
        (DataType::Timestamp(TimeUnit::Second, None), Builtin::TIMESTAMP),
        (
            DataType::Timestamp(TimeUnit::Nanosecond, Some("UTC".to_string())),
            Builtin::TIMESTAMPTZ,
        ),
        (DataType::Time64(TimeUnit::Microsecond), Builtin::TIME),
        (DataType::Date32, Builtin::DATE),
        (DataType::Interval(IntervalUnit::DayTime), Builtin::INTERVAL),
        (DataType::Duration(TimeUnit::Second), Builtin::INTERVAL),
        (DataType::Binary, Builtin::BYTEA),
        (DataType::Float32, Builtin::FLOAT4),
        (DataType::Float64, Builtin::FLOAT8),
        (DataType::Decimal128(10, 2), Builtin::NUMERIC),
        (DataType::Utf8, Builtin::TEXT),
        (DataType::LargeUtf8, Builtin::TEXT),
    ];
    for (t, expected) in cases {
        assert_eq!(builtin(&into_pg_type(&t).unwrap()), expected, "{t:?}");
    }
}

#[test]
fn a_dictionary_has_the_type_of_its_values() {
    let t = DataType::Dictionary(Box::new(DataType::Int8), Box::new(DataType::Int64));
    assert_eq!(builtin(&into_pg_type(&t).unwrap()), Builtin::INT8);
}

#[test]
fn unsupported_types_are_internal_errors() {
    let t = DataType::Union(1);
    let error = into_pg_type(&t).unwrap_err();
    assert!(matches!(error, Error::UnsupportedType(DataType::Union(1))));
    assert_eq!(error.sqlstate(), Some("XX000"));

    let t = DataType::List(Box::new(Field::new_list_field(DataType::Union(1), true)));
    let error = into_pg_type(&t).unwrap_err();
    assert!(matches!(error, Error::UnsupportedListType(_)));
    assert_eq!(error.sqlstate(), Some("XX000"));
}

#[test]
fn vectors_are_always_texts() {
    let fields = vec![
        Field::new("id", DataType::Int64, false),
        marked("embedding", vector_type(), PG_VECTOR_KEY, "vector"),
    ];
    let infos = arrow_schema_to_pg_fields(&fields, &Format::UnifiedBinary).unwrap();
    assert_eq!(infos[0].format, FieldFormat::Binary);
    assert_eq!(infos[1].format, FieldFormat::Text);
    assert_eq!(infos[0].name, "id");
    assert_eq!(infos[1].name, "embedding");
}

#[test]
fn formats_are_asked_for_one_by_one() {
    let fields = vec![
        Field::new("a", DataType::Int64, false),
        Field::new("b", DataType::Int64, false),
    ];
    let infos = arrow_schema_to_pg_fields(&fields, &Format::Individual(vec![0, 1])).unwrap();
    assert_eq!(infos[0].format, FieldFormat::Text);
    assert_eq!(infos[1].format, FieldFormat::Binary);
    let infos = arrow_schema_to_pg_fields(&fields, &Format::UnifiedText).unwrap();
    assert_eq!(infos[1].format, FieldFormat::Text);
}

#[test]
fn built_in_types_have_the_oids_of_postgres() {
    let cases = [
        (Builtin::BOOL, postgres_types::Type::BOOL),
        (Builtin::BYTEA, postgres_types::Type::BYTEA),
        (Builtin::CHAR, postgres_types::Type::CHAR),
        (Builtin::INT8, postgres_types::Type::INT8),
        (Builtin::INT2, postgres_types::Type::INT2),
        (Builtin::INT4, postgres_types::Type::INT4),
        (Builtin::REGPROC, postgres_types::Type::REGPROC),
        (Builtin::TEXT, postgres_types::Type::TEXT),
        (Builtin::OID, postgres_types::Type::OID),
        (Builtin::FLOAT4, postgres_types::Type::FLOAT4),
        (Builtin::FLOAT8, postgres_types::Type::FLOAT8),
        (Builtin::UNKNOWN, postgres_types::Type::UNKNOWN),
        (Builtin::VARCHAR, postgres_types::Type::VARCHAR),
        (Builtin::DATE, postgres_types::Type::DATE),
        (Builtin::TIME, postgres_types::Type::TIME),
        (Builtin::TIMESTAMP, postgres_types::Type::TIMESTAMP),
        (Builtin::TIMESTAMPTZ, postgres_types::Type::TIMESTAMPTZ),
        (Builtin::INTERVAL, postgres_types::Type::INTERVAL),
        (Builtin::NUMERIC, postgres_types::Type::NUMERIC),
        (Builtin::REGCOLLATION, postgres_types::Type::REGCOLLATION),
        (Builtin::FLOAT4_ARRAY, postgres_types::Type::FLOAT4_ARRAY),
        (Builtin::TEXT_ARRAY, postgres_types::Type::TEXT_ARRAY),
    ];
    for (b, t) in cases {
        assert_eq!(b.oid(), t.oid());
        assert_eq!(Builtin::from_oid(t.oid()), b);
    }
}
