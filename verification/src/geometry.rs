//! Fields of geometries.
use crate::datatypes;
use crate::datatypes::EXTENSION_NAME_KEY;
use crate::schema;
use crate::schema::{DataType, DataTypeV, Field, FieldV, IntervalUnit, TimeUnit};
use crate::text;
use arrow_schema::DataType as ArrowType;
use arrow_schema::Field as ArrowField;
use arrow_schema::IntervalUnit as ArrowIntervalUnit;
use arrow_schema::TimeUnit as ArrowTimeUnit;
use arrow_schema::{UnionFields, UnionMode};
use geoarrow_schema::GeoArrowType;
use std::sync::Arc;
use vstd::prelude::*;

verus! {

/// A type of Arrow. It is carried through as it is.
#[verifier::external_type_specification]
#[verifier::external_body]
pub struct ExArrowType(ArrowType);

/// A field of Arrow. It is carried through as it is.
#[verifier::external_type_specification]
#[verifier::external_body]
pub struct ExArrowField(ArrowField);

/// A unit of Arrow. It is carried through as it is.
#[verifier::external_type_specification]
#[verifier::external_body]
pub struct ExArrowTimeUnit(ArrowTimeUnit);

/// A unit of Arrow. It is carried through as it is.
#[verifier::external_type_specification]
#[verifier::external_body]
pub struct ExArrowIntervalUnit(ArrowIntervalUnit);

/// The metadata key of what is said of an extension type.
pub const EXTENSION_METADATA_KEY: &'static str = "ARROW:extension:metadata";

/// True of a field that is called one of geometries.
pub open spec fn is_geometry(f: FieldV) -> bool {
    match schema::lookup(f.metadata, EXTENSION_NAME_KEY@) {
        Some(name) => datatypes::geometry_names().contains(name),
        None => false,
    }
}

/// The name of the geometries of a field.
pub open spec fn geometry_name(f: FieldV) -> Seq<char> {
    schema::lookup(f.metadata, EXTENSION_NAME_KEY@)->0
}

/// True when a type is of the kind that holds the geometries of a name.
pub open spec fn can_hold(name: Seq<char>, t: DataTypeV) -> bool {
    if name == "geoarrow.wkb"@ {
        t is Binary || t is LargeBinary || t is BinaryView
    } else if name == "geoarrow.wkt"@ {
        t is Utf8 || t is LargeUtf8 || t is Utf8View
    } else if name == "geoarrow.point"@ {
        t is FixedSizeList || t is Struct
    } else if name == "geoarrow.box"@ {
        t is Struct
    } else if name == "geoarrow.geometry"@ {
        t is Union
    } else {
        t is List || t is LargeList
    }
}

/// True of a type of bytes or texts.
pub open spec fn is_plain(t: DataTypeV) -> bool {
    t is Binary || t is LargeBinary || t is BinaryView || t is Utf8 || t is LargeUtf8 || t
        is Utf8View
}

/// True of a field of mixed geometries, in a union, or of collections of them, in lists of
/// unions.
pub open spec fn is_mixed(f: FieldV) -> bool {
    match f.data_type {
        DataTypeV::Union(_) => is_geometry(f) && geometry_name(f) == "geoarrow.geometry"@,
        DataTypeV::List(item) | DataTypeV::LargeList(item) => is_geometry(f) && geometry_name(f)
            == "geoarrow.geometrycollection"@ && item.data_type is Union,
        _ => false,
    }
}

/// What is made of the name, the type and the metadata of a field: whether it is a field of
/// geometries, or nothing where it is called one and is none.
pub uninterp spec fn extension_of(f: FieldV) -> Option<bool>;

/// A unit of Arrow.
#[verifier::external_body]
fn time_unit(unit: TimeUnit) -> ArrowTimeUnit {
    match unit {
        TimeUnit::Second => ArrowTimeUnit::Second,
        TimeUnit::Millisecond => ArrowTimeUnit::Millisecond,
        TimeUnit::Microsecond => ArrowTimeUnit::Microsecond,
        TimeUnit::Nanosecond => ArrowTimeUnit::Nanosecond,
    }
}

/// A unit of Arrow.
#[verifier::external_body]
fn interval_unit(unit: IntervalUnit) -> ArrowIntervalUnit {
    match unit {
        IntervalUnit::YearMonth => ArrowIntervalUnit::YearMonth,
        IntervalUnit::DayTime => ArrowIntervalUnit::DayTime,
        IntervalUnit::MonthDayNano => ArrowIntervalUnit::MonthDayNano,
    }
}

/// The type of Arrow that a type is.
#[verifier::external_body]
fn arrow_type(t: &DataType) -> ArrowType {
    match t {
        DataType::Null => ArrowType::Null,
        DataType::Boolean => ArrowType::Boolean,
        DataType::Int8 => ArrowType::Int8,
        DataType::Int16 => ArrowType::Int16,
        DataType::Int32 => ArrowType::Int32,
        DataType::Int64 => ArrowType::Int64,
        DataType::UInt8 => ArrowType::UInt8,
        DataType::UInt16 => ArrowType::UInt16,
        DataType::UInt32 => ArrowType::UInt32,
        DataType::UInt64 => ArrowType::UInt64,
        DataType::Float16 => ArrowType::Float16,
        _ => sized_type(t),
    }
}

/// The type of Arrow that a type is, from floats on.
#[verifier::external_body]
fn sized_type(t: &DataType) -> ArrowType {
    match t {
        DataType::Float32 => ArrowType::Float32,
        DataType::Float64 => ArrowType::Float64,
        DataType::Date32 => ArrowType::Date32,
        DataType::Date64 => ArrowType::Date64,
        DataType::Binary => ArrowType::Binary,
        DataType::LargeBinary => ArrowType::LargeBinary,
        DataType::BinaryView => ArrowType::BinaryView,
        DataType::Utf8 => ArrowType::Utf8,
        DataType::LargeUtf8 => ArrowType::LargeUtf8,
        DataType::Utf8View => ArrowType::Utf8View,
        _ => unit_type(t),
    }
}

/// The type of Arrow that a type is, from those with units on.
#[verifier::external_body]
fn unit_type(t: &DataType) -> ArrowType {
    match t {
        DataType::Time32(unit) => ArrowType::Time32(time_unit(*unit)),
        DataType::Time64(unit) => ArrowType::Time64(time_unit(*unit)),
        DataType::Duration(unit) => ArrowType::Duration(time_unit(*unit)),
        DataType::Interval(unit) => ArrowType::Interval(interval_unit(*unit)),
        DataType::FixedSizeBinary(n) => ArrowType::FixedSizeBinary(*n),
        DataType::Timestamp(unit, zone) => {
            ArrowType::Timestamp(time_unit(*unit), zone.as_deref().map(Arc::from))
        },
        _ => decimal_type(t),
    }
}

/// The type of Arrow that a type is, from decimals on.
#[verifier::external_body]
fn decimal_type(t: &DataType) -> ArrowType {
    match t {
        DataType::Decimal32(p, s) => ArrowType::Decimal32(*p, *s),
        DataType::Decimal64(p, s) => ArrowType::Decimal64(*p, *s),
        DataType::Decimal128(p, s) => ArrowType::Decimal128(*p, *s),
        DataType::Decimal256(p, s) => ArrowType::Decimal256(*p, *s),
        _ => list_type(t),
    }
}

/// The type of Arrow that a type is, from lists on.
#[verifier::external_body]
fn list_type(t: &DataType) -> ArrowType {
    let inner = |f: &Field| Arc::new(arrow_field(f));
    match t {
        DataType::List(f) => ArrowType::List(inner(f)),
        DataType::ListView(f) => ArrowType::ListView(inner(f)),
        DataType::LargeList(f) => ArrowType::LargeList(inner(f)),
        DataType::LargeListView(f) => ArrowType::LargeListView(inner(f)),
        DataType::FixedSizeList(f, n) => ArrowType::FixedSizeList(inner(f), *n),
        _ => nested_type(t),
    }
}

/// The type of Arrow that a type is, from structs on. A union stands without its fields.
#[verifier::external_body]
fn nested_type(t: &DataType) -> ArrowType {
    let inner = |f: &Field| Arc::new(arrow_field(f));
    match t {
        DataType::Struct(v) => ArrowType::Struct(v.iter().map(inner).collect()),
        DataType::MapType(f, sorted) => ArrowType::Map(inner(f), *sorted),
        DataType::RunEndEncoded(r, v) => ArrowType::RunEndEncoded(inner(r), inner(v)),
        DataType::Dictionary(k, v) => {
            ArrowType::Dictionary(Box::new(arrow_type(k)), Box::new(arrow_type(v)))
        },
        _ => ArrowType::Union(UnionFields::empty(), UnionMode::Sparse),
    }
}

/// The field of Arrow that a field is. Of two entries of one metadata key the first counts.
#[verifier::external_body]
fn arrow_field(f: &Field) -> ArrowField {
    let field = ArrowField::new(f.name.as_str(), arrow_type(&f.data_type), f.nullable);
    field.with_metadata(f.metadata.iter().rev().cloned().collect())
}

/// `GeoArrowType::from_extension_field` of geoarrow_schema: the geometry type of a field,
/// nothing where the field is not called one of geometries, and an error where its type or
/// its metadata is not that of one. Of the type its kind is stated. Whether the types
/// inside it and the metadata are right is left to the crate; a field of bytes or texts
/// without metadata is one of geometries. The fields of a union are read where the field
/// is one of mixed geometries, and the call panics at some of them, so that these are left
/// out; no other call reads them.
#[verifier::external_body]
fn extension_field(f: &Field) -> (r: Option<bool>)
    requires
        !is_mixed(f@),
    ensures
        r == extension_of(f@),
        r == Some(false) <==> !is_geometry(f@),
        r == Some(true) ==> can_hold(geometry_name(f@), f@.data_type),
        is_geometry(f@) && is_plain(f@.data_type) && can_hold(geometry_name(f@), f@.data_type)
            && schema::lookup(f@.metadata, EXTENSION_METADATA_KEY@) is None ==> r == Some(true),
{
    match GeoArrowType::from_extension_field(&arrow_field(f)) {
        Ok(Some(_)) => Some(true),
        Ok(None) => Some(false),
        Err(_) => None,
    }
}

/// Whether a field is one of geometries, or nothing where it is called one and is none. The
/// fields of a union of mixed geometries are not looked at.
pub open spec fn geometry(f: FieldV) -> Option<bool> {
    if !is_geometry(f) {
        Some(false)
    } else if is_mixed(f) {
        Some(true)
    } else {
        extension_of(f)
    }
}

/// Whether a field is one of geometries, or nothing where it is called one and is none.
pub fn geometry_of(f: &Field) -> (r: Option<bool>)
    ensures
        r == geometry(f@),
        r == Some(false) <==> !is_geometry(f@),
        r == Some(true) ==> can_hold(geometry_name(f@), f@.data_type),
        is_geometry(f@) && is_plain(f@.data_type) && can_hold(geometry_name(f@), f@.data_type)
            && schema::lookup(f@.metadata, EXTENSION_METADATA_KEY@) is None ==> r == Some(true),
{
    if is_mixed_field(f) {
        proof {
            reveal_strlit("geoarrow.wkb");
            reveal_strlit("geoarrow.wkt");
            reveal_strlit("geoarrow.point");
            reveal_strlit("geoarrow.box");
            reveal_strlit("geoarrow.geometry");
            reveal_strlit("geoarrow.geometrycollection");
            assert("geoarrow.wkb"@.len() == 12 && "geoarrow.wkt"@.len() == 12);
            assert("geoarrow.point"@.len() == 14 && "geoarrow.box"@.len() == 12);
            assert("geoarrow.geometry"@.len() == 17);
            assert("geoarrow.geometrycollection"@.len() == 27);
        }
        return Some(true);
    }
    extension_field(f)
}

fn is_mixed_field(f: &Field) -> (r: bool)
    ensures
        r == is_mixed(f@),
{
    let name = match f.get_metadata(EXTENSION_NAME_KEY) {
        Some(name) => name,
        None => {
            return false;
        },
    };
    let called = datatypes::is_geometry_name(name);
    match &f.data_type {
        DataType::Union(_) => called && text::same(name, "geoarrow.geometry"),
        DataType::List(item) | DataType::LargeList(item) => {
            assert(item@.data_type == item.data_type@);
            match item.data_type {
                DataType::Union(_) => called && text::same(name, "geoarrow.geometrycollection"),
                _ => false,
            }
        },
        _ => false,
    }
}

} // verus!
