//! Postgres types, and the Postgres type of a column.
use crate::errors::{Error, ErrorV};
use crate::schema;
use crate::schema::{DataType, DataTypeV, Field, FieldV};
use crate::text;
use arrow_schema::extension::ExtensionType;
use vstd::prelude::*;
use vstd::string::*;

verus! {

/// The built-in types of Postgres that the library tells apart.
#[allow(non_camel_case_types)]
#[derive(Clone, Copy, Debug, PartialEq, Eq, Structural)]
pub enum Builtin {
    BOOL,
    BYTEA,
    CHAR,
    NAME,
    INT8,
    INT2,
    INT4,
    REGPROC,
    TEXT,
    OID,
    JSON,
    FLOAT4,
    FLOAT8,
    UNKNOWN,
    MONEY,
    MACADDR,
    INET,
    BOOL_ARRAY,
    BYTEA_ARRAY,
    INT2_ARRAY,
    INT4_ARRAY,
    TEXT_ARRAY,
    VARCHAR_ARRAY,
    INT8_ARRAY,
    FLOAT4_ARRAY,
    FLOAT8_ARRAY,
    VARCHAR,
    DATE,
    TIME,
    TIMESTAMP,
    TIMESTAMP_ARRAY,
    DATE_ARRAY,
    TIME_ARRAY,
    TIMESTAMPTZ,
    TIMESTAMPTZ_ARRAY,
    INTERVAL,
    INTERVAL_ARRAY,
    NUMERIC_ARRAY,
    NUMERIC,
    REGPROCEDURE,
    REGOPER,
    REGOPERATOR,
    REGCLASS,
    REGTYPE,
    RECORD,
    RECORD_ARRAY,
    UUID,
    REGCONFIG,
    REGDICTIONARY,
    JSONB,
    REGNAMESPACE,
    REGROLE,
    REGCOLLATION,
    /// Another built-in type, by its oid.
    Other(u32),
}

/// A type of Postgres.
#[derive(Debug, PartialEq, Eq)]
pub enum Type {
    Builtin(Builtin),
    /// A type that is not built in.
    Custom { name: String, oid: u32, kind: Kind, schema: String },
}

/// What kind of type a type is.
#[derive(Debug, PartialEq, Eq)]
pub enum Kind {
    Simple,
    /// An array of the given element type.
    Array(Box<Type>),
    /// A row of named fields.
    Composite(Vec<(String, Type)>),
}

/// The model of a [`Type`].
#[verifier::ext_equal]
pub enum TypeV {
    Builtin(Builtin),
    Custom { name: Seq<char>, oid: u32, kind: KindV, schema: Seq<char> },
}

/// The model of a [`Kind`].
#[verifier::ext_equal]
pub enum KindV {
    Simple,
    Array(Box<TypeV>),
    Composite(Seq<(Seq<char>, TypeV)>),
}

impl Builtin {
    /// The oid of this type.
    pub open spec fn spec_oid(self) -> u32 {
        match self {
            Builtin::BOOL => 16,
            Builtin::BYTEA => 17,
            Builtin::CHAR => 18,
            Builtin::NAME => 19,
            Builtin::INT8 => 20,
            Builtin::INT2 => 21,
            Builtin::INT4 => 23,
            Builtin::REGPROC => 24,
            Builtin::TEXT => 25,
            Builtin::OID => 26,
            Builtin::JSON => 114,
            Builtin::FLOAT4 => 700,
            Builtin::FLOAT8 => 701,
            Builtin::UNKNOWN => 705,
            Builtin::MONEY => 790,
            Builtin::MACADDR => 829,
            Builtin::INET => 869,
            Builtin::BOOL_ARRAY => 1000,
            Builtin::BYTEA_ARRAY => 1001,
            Builtin::INT2_ARRAY => 1005,
            Builtin::INT4_ARRAY => 1007,
            Builtin::TEXT_ARRAY => 1009,
            Builtin::VARCHAR_ARRAY => 1015,
            Builtin::INT8_ARRAY => 1016,
            Builtin::FLOAT4_ARRAY => 1021,
            Builtin::FLOAT8_ARRAY => 1022,
            Builtin::VARCHAR => 1043,
            Builtin::DATE => 1082,
            Builtin::TIME => 1083,
            Builtin::TIMESTAMP => 1114,
            Builtin::TIMESTAMP_ARRAY => 1115,
            Builtin::DATE_ARRAY => 1182,
            Builtin::TIME_ARRAY => 1183,
            Builtin::TIMESTAMPTZ => 1184,
            Builtin::TIMESTAMPTZ_ARRAY => 1185,
            Builtin::INTERVAL => 1186,
            Builtin::INTERVAL_ARRAY => 1187,
            Builtin::NUMERIC_ARRAY => 1231,
            Builtin::NUMERIC => 1700,
            Builtin::REGPROCEDURE => 2202,
            Builtin::REGOPER => 2203,
            Builtin::REGOPERATOR => 2204,
            Builtin::REGCLASS => 2205,
            Builtin::REGTYPE => 2206,
            Builtin::RECORD => 2249,
            Builtin::RECORD_ARRAY => 2287,
            Builtin::UUID => 2950,
            Builtin::REGCONFIG => 3734,
            Builtin::REGDICTIONARY => 3769,
            Builtin::JSONB => 3802,
            Builtin::REGNAMESPACE => 4089,
            Builtin::REGROLE => 4096,
            Builtin::REGCOLLATION => 4191,
            Builtin::Other(oid) => oid,
        }
    }

    /// The built-in type of an oid.
    pub open spec fn spec_from_oid(oid: u32) -> Builtin {
        match oid {
            16 => Builtin::BOOL,
            17 => Builtin::BYTEA,
            18 => Builtin::CHAR,
            19 => Builtin::NAME,
            20 => Builtin::INT8,
            21 => Builtin::INT2,
            23 => Builtin::INT4,
            24 => Builtin::REGPROC,
            25 => Builtin::TEXT,
            26 => Builtin::OID,
            114 => Builtin::JSON,
            700 => Builtin::FLOAT4,
            701 => Builtin::FLOAT8,
            705 => Builtin::UNKNOWN,
            790 => Builtin::MONEY,
            829 => Builtin::MACADDR,
            869 => Builtin::INET,
            1000 => Builtin::BOOL_ARRAY,
            1001 => Builtin::BYTEA_ARRAY,
            1005 => Builtin::INT2_ARRAY,
            1007 => Builtin::INT4_ARRAY,
            1009 => Builtin::TEXT_ARRAY,
            1015 => Builtin::VARCHAR_ARRAY,
            1016 => Builtin::INT8_ARRAY,
            1021 => Builtin::FLOAT4_ARRAY,
            1022 => Builtin::FLOAT8_ARRAY,
            1043 => Builtin::VARCHAR,
            1082 => Builtin::DATE,
            1083 => Builtin::TIME,
            1114 => Builtin::TIMESTAMP,
            1115 => Builtin::TIMESTAMP_ARRAY,
            1182 => Builtin::DATE_ARRAY,
            1183 => Builtin::TIME_ARRAY,
            1184 => Builtin::TIMESTAMPTZ,
            1185 => Builtin::TIMESTAMPTZ_ARRAY,
            1186 => Builtin::INTERVAL,
            1187 => Builtin::INTERVAL_ARRAY,
            1231 => Builtin::NUMERIC_ARRAY,
            1700 => Builtin::NUMERIC,
            2202 => Builtin::REGPROCEDURE,
            2203 => Builtin::REGOPER,
            2204 => Builtin::REGOPERATOR,
            2205 => Builtin::REGCLASS,
            2206 => Builtin::REGTYPE,
            2249 => Builtin::RECORD,
            2287 => Builtin::RECORD_ARRAY,
            2950 => Builtin::UUID,
            3734 => Builtin::REGCONFIG,
            3769 => Builtin::REGDICTIONARY,
            3802 => Builtin::JSONB,
            4089 => Builtin::REGNAMESPACE,
            4096 => Builtin::REGROLE,
            4191 => Builtin::REGCOLLATION,
            other => Builtin::Other(other),
        }
    }

    /// The oid of this type.
    pub fn oid(self) -> (r: u32)
        ensures
            r == self.spec_oid(),
    {
        match self {
            Builtin::BOOL => 16,
            Builtin::BYTEA => 17,
            Builtin::CHAR => 18,
            Builtin::NAME => 19,
            Builtin::INT8 => 20,
            Builtin::INT2 => 21,
            Builtin::INT4 => 23,
            Builtin::REGPROC => 24,
            Builtin::TEXT => 25,
            Builtin::OID => 26,
            Builtin::JSON => 114,
            Builtin::FLOAT4 => 700,
            Builtin::FLOAT8 => 701,
            Builtin::UNKNOWN => 705,
            Builtin::MONEY => 790,
            Builtin::MACADDR => 829,
            Builtin::INET => 869,
            Builtin::BOOL_ARRAY => 1000,
            Builtin::BYTEA_ARRAY => 1001,
            Builtin::INT2_ARRAY => 1005,
            Builtin::INT4_ARRAY => 1007,
            Builtin::TEXT_ARRAY => 1009,
            Builtin::VARCHAR_ARRAY => 1015,
            Builtin::INT8_ARRAY => 1016,
            Builtin::FLOAT4_ARRAY => 1021,
            Builtin::FLOAT8_ARRAY => 1022,
            Builtin::VARCHAR => 1043,
            Builtin::DATE => 1082,
            Builtin::TIME => 1083,
            Builtin::TIMESTAMP => 1114,
            Builtin::TIMESTAMP_ARRAY => 1115,
            Builtin::DATE_ARRAY => 1182,
            Builtin::TIME_ARRAY => 1183,
            Builtin::TIMESTAMPTZ => 1184,
            Builtin::TIMESTAMPTZ_ARRAY => 1185,
            Builtin::INTERVAL => 1186,
            Builtin::INTERVAL_ARRAY => 1187,
            Builtin::NUMERIC_ARRAY => 1231,
            Builtin::NUMERIC => 1700,
            Builtin::REGPROCEDURE => 2202,
            Builtin::REGOPER => 2203,
            Builtin::REGOPERATOR => 2204,
            Builtin::REGCLASS => 2205,
            Builtin::REGTYPE => 2206,
            Builtin::RECORD => 2249,
            Builtin::RECORD_ARRAY => 2287,
            Builtin::UUID => 2950,
            Builtin::REGCONFIG => 3734,
            Builtin::REGDICTIONARY => 3769,
            Builtin::JSONB => 3802,
            Builtin::REGNAMESPACE => 4089,
            Builtin::REGROLE => 4096,
            Builtin::REGCOLLATION => 4191,
            Builtin::Other(oid) => oid,
        }
    }

    /// The built-in type of an oid.
    pub fn from_oid(oid: u32) -> (r: Builtin)
        ensures
            r == Builtin::spec_from_oid(oid),
    {
        match oid {
            16 => Builtin::BOOL,
            17 => Builtin::BYTEA,
            18 => Builtin::CHAR,
            19 => Builtin::NAME,
            20 => Builtin::INT8,
            21 => Builtin::INT2,
            23 => Builtin::INT4,
            24 => Builtin::REGPROC,
            25 => Builtin::TEXT,
            26 => Builtin::OID,
            114 => Builtin::JSON,
            700 => Builtin::FLOAT4,
            701 => Builtin::FLOAT8,
            705 => Builtin::UNKNOWN,
            790 => Builtin::MONEY,
            829 => Builtin::MACADDR,
            869 => Builtin::INET,
            1000 => Builtin::BOOL_ARRAY,
            1001 => Builtin::BYTEA_ARRAY,
            1005 => Builtin::INT2_ARRAY,
            1007 => Builtin::INT4_ARRAY,
            1009 => Builtin::TEXT_ARRAY,
            1015 => Builtin::VARCHAR_ARRAY,
            1016 => Builtin::INT8_ARRAY,
            1021 => Builtin::FLOAT4_ARRAY,
            1022 => Builtin::FLOAT8_ARRAY,
            1043 => Builtin::VARCHAR,
            1082 => Builtin::DATE,
            1083 => Builtin::TIME,
            1114 => Builtin::TIMESTAMP,
            1115 => Builtin::TIMESTAMP_ARRAY,
            1182 => Builtin::DATE_ARRAY,
            1183 => Builtin::TIME_ARRAY,
            1184 => Builtin::TIMESTAMPTZ,
            1185 => Builtin::TIMESTAMPTZ_ARRAY,
            1186 => Builtin::INTERVAL,
            1187 => Builtin::INTERVAL_ARRAY,
            1231 => Builtin::NUMERIC_ARRAY,
            1700 => Builtin::NUMERIC,
            2202 => Builtin::REGPROCEDURE,
            2203 => Builtin::REGOPER,
            2204 => Builtin::REGOPERATOR,
            2205 => Builtin::REGCLASS,
            2206 => Builtin::REGTYPE,
            2249 => Builtin::RECORD,
            2287 => Builtin::RECORD_ARRAY,
            2950 => Builtin::UUID,
            3734 => Builtin::REGCONFIG,
            3769 => Builtin::REGDICTIONARY,
            3802 => Builtin::JSONB,
            4089 => Builtin::REGNAMESPACE,
            4096 => Builtin::REGROLE,
            4191 => Builtin::REGCOLLATION,
            other => Builtin::Other(other),
        }
    }
}

/// The type of an oid has that oid.
pub proof fn law_oid_round_trip(oid: u32)
    ensures
        Builtin::spec_from_oid(oid).spec_oid() == oid,
{
}

impl Type {
    /// The model of this type.
    pub open spec fn model(self) -> TypeV
        decreases self,
    {
        match self {
            Type::Builtin(b) => TypeV::Builtin(b),
            Type::Custom { name, oid, kind, schema } => TypeV::Custom {
                name: name@,
                oid,
                kind: kind.model(),
                schema: schema@,
            },
        }
    }
}

impl Kind {
    /// The model of this kind.
    pub open spec fn model(self) -> KindV
        decreases self,
    {
        match self {
            Kind::Simple => KindV::Simple,
            Kind::Array(t) => KindV::Array(Box::new(t.model())),
            Kind::Composite(fields) => KindV::Composite(
                Seq::new(
                    fields@.len(),
                    |i: int|
                        if 0 <= i < fields@.len() {
                            (fields@[i].0@, fields@[i].1.model())
                        } else {
                            arbitrary()
                        },
                ),
            ),
        }
    }
}

impl View for Type {
    type V = TypeV;

    open spec fn view(&self) -> TypeV {
        self.model()
    }
}

impl Type {
    /// The oid of this type.
    pub open spec fn spec_oid(self) -> u32 {
        self@.spec_oid()
    }

    /// The oid of this type.
    pub fn oid(&self) -> (r: u32)
        ensures
            r == self@.spec_oid(),
    {
        match self {
            Type::Builtin(b) => b.oid(),
            Type::Custom { oid, .. } => *oid,
        }
    }

    /// A copy of this type.
    pub fn copy(&self) -> (r: Type)
        ensures
            r@ == self@,
        decreases self,
    {
        match self {
            Type::Builtin(b) => Type::Builtin(*b),
            Type::Custom { name, oid, kind, schema } => Type::Custom {
                name: name.clone(),
                oid: *oid,
                kind: kind.copy(),
                schema: schema.clone(),
            },
        }
    }
}

impl TypeV {
    /// The oid of this type.
    pub open spec fn spec_oid(self) -> u32 {
        match self {
            TypeV::Builtin(b) => b.spec_oid(),
            TypeV::Custom { oid, .. } => oid,
        }
    }
}

impl Kind {
    /// A copy of this kind.
    pub fn copy(&self) -> (r: Kind)
        ensures
            r.model() == self.model(),
        decreases self,
    {
        match self {
            Kind::Simple => Kind::Simple,
            Kind::Array(t) => Kind::Array(Box::new(t.copy())),
            Kind::Composite(fields) => {
                let mut out: Vec<(String, Type)> = Vec::new();
                let mut i: usize = 0;
                while i < fields.len()
                    invariant
                        i <= fields@.len(),
                        *self == Kind::Composite(*fields),
                        out@.len() == i,
                        forall|j: int|
                            0 <= j < i ==> (#[trigger] out@[j]).0@ == fields@[j].0@
                                && out@[j].1.model() == fields@[j].1.model(),
                    decreases fields@.len() - i,
                {
                    let field = &fields[i];
                    proof {
                        assert(decreases_to!(*self => self->Composite_0));
                        assert(decreases_to!(self->Composite_0 => fields@[i as int]));
                        assert(decreases_to!(fields@[i as int] => fields@[i as int].1));
                    }
                    out.push((field.0.clone(), field.1.copy()));
                    i += 1;
                }
                let r = Kind::Composite(out);
                assert(r.model()->Composite_0 == self.model()->Composite_0);
                r
            },
        }
    }
}

/// The metadata key that marks a column as an oid or an oid alias. Its value is
/// the name of the alias type in lower case.
pub const PG_OID_ALIAS_KEY: &'static str = "pg.oid_alias";

/// The metadata key that marks a list column as a `vector` of pgvector. Its value
/// is `vector`.
pub const PG_VECTOR_KEY: &'static str = "pg.vector";

/// The oid of the `vector` type of pgvector.
pub const PG_VECTOR_TYPE_OID: u32 = 16385;

/// The metadata key that marks a text column as the one-byte type `"char"`.
pub const PG_CHAR_KEY: &'static str = "pg.char";

/// The metadata key that holds the name of an extension type.
pub const EXTENSION_NAME_KEY: &'static str = "ARROW:extension:name";

/// The oid-alias type of a kind.
pub open spec fn alias_type(kind: Seq<char>) -> Option<Builtin> {
    if kind == "oid"@ {
        Some(Builtin::OID)
    } else if kind == "regproc"@ {
        Some(Builtin::REGPROC)
    } else if kind == "regprocedure"@ {
        Some(Builtin::REGPROCEDURE)
    } else if kind == "regoper"@ {
        Some(Builtin::REGOPER)
    } else if kind == "regoperator"@ {
        Some(Builtin::REGOPERATOR)
    } else if kind == "regclass"@ {
        Some(Builtin::REGCLASS)
    } else if kind == "regtype"@ {
        Some(Builtin::REGTYPE)
    } else if kind == "regnamespace"@ {
        Some(Builtin::REGNAMESPACE)
    } else if kind == "regrole"@ {
        Some(Builtin::REGROLE)
    } else if kind == "regconfig"@ {
        Some(Builtin::REGCONFIG)
    } else if kind == "regdictionary"@ {
        Some(Builtin::REGDICTIONARY)
    } else if kind == "regcollation"@ {
        Some(Builtin::REGCOLLATION)
    } else {
        None
    }
}

/// The names of the geometry types.
pub open spec fn geometry_names() -> Seq<Seq<char>> {
    seq![
        "geoarrow.point"@,
        "geoarrow.linestring"@,
        "geoarrow.polygon"@,
        "geoarrow.multipoint"@,
        "geoarrow.multilinestring"@,
        "geoarrow.multipolygon"@,
        "geoarrow.geometrycollection"@,
        "geoarrow.geometry"@,
        "geoarrow.box"@,
        "geoarrow.wkt"@,
        "geoarrow.wkb"@,
    ]
}

/// The Postgres type of a column type without fields.
pub open spec fn plain_type(t: DataTypeV) -> Option<Builtin> {
    match t {
        DataTypeV::Null => Some(Builtin::UNKNOWN),
        DataTypeV::Boolean => Some(Builtin::BOOL),
        DataTypeV::Int8 | DataTypeV::Int16 | DataTypeV::UInt8 => Some(Builtin::INT2),
        DataTypeV::Int32 | DataTypeV::UInt16 => Some(Builtin::INT4),
        DataTypeV::Int64 | DataTypeV::UInt32 => Some(Builtin::INT8),
        DataTypeV::UInt64 | DataTypeV::Decimal128(_, _) => Some(Builtin::NUMERIC),
        DataTypeV::Time32(_) | DataTypeV::Time64(_) => Some(Builtin::TIME),
        DataTypeV::Date32 | DataTypeV::Date64 => Some(Builtin::DATE),
        DataTypeV::Interval(_) | DataTypeV::Duration(_) => Some(Builtin::INTERVAL),
        DataTypeV::Binary | DataTypeV::FixedSizeBinary(_) | DataTypeV::LargeBinary | DataTypeV::BinaryView => Some(Builtin::BYTEA),
        DataTypeV::Float16 | DataTypeV::Float32 => Some(Builtin::FLOAT4),
        DataTypeV::Float64 => Some(Builtin::FLOAT8),
        DataTypeV::Utf8 | DataTypeV::LargeUtf8 | DataTypeV::Utf8View => Some(Builtin::TEXT),
        DataTypeV::Timestamp(_, tz) => if tz is Some {
            Some(Builtin::TIMESTAMPTZ)
        } else {
            Some(Builtin::TIMESTAMP)
        },
        _ => None,
    }
}

/// The Postgres array type of an item type without fields. An array of nothing
/// but nulls is an array of texts.
pub open spec fn plain_array_type(t: DataTypeV) -> Option<Builtin> {
    match t {
        DataTypeV::Null => Some(Builtin::TEXT_ARRAY),
        DataTypeV::Boolean => Some(Builtin::BOOL_ARRAY),
        DataTypeV::Int8 | DataTypeV::Int16 | DataTypeV::UInt8 => Some(Builtin::INT2_ARRAY),
        DataTypeV::Int32 | DataTypeV::UInt16 => Some(Builtin::INT4_ARRAY),
        DataTypeV::Int64 | DataTypeV::UInt32 => Some(Builtin::INT8_ARRAY),
        DataTypeV::UInt64 | DataTypeV::Decimal128(_, _) => Some(Builtin::NUMERIC_ARRAY),
        DataTypeV::Time32(_) | DataTypeV::Time64(_) => Some(Builtin::TIME_ARRAY),
        DataTypeV::Date32 | DataTypeV::Date64 => Some(Builtin::DATE_ARRAY),
        DataTypeV::Interval(_) | DataTypeV::Duration(_) => Some(Builtin::INTERVAL_ARRAY),
        DataTypeV::Binary | DataTypeV::FixedSizeBinary(_) | DataTypeV::LargeBinary | DataTypeV::BinaryView => Some(Builtin::BYTEA_ARRAY),
        DataTypeV::Float16 | DataTypeV::Float32 => Some(Builtin::FLOAT4_ARRAY),
        DataTypeV::Float64 => Some(Builtin::FLOAT8_ARRAY),
        DataTypeV::Utf8 | DataTypeV::LargeUtf8 | DataTypeV::Utf8View => Some(Builtin::TEXT_ARRAY),
        DataTypeV::Timestamp(_, tz) => if tz is Some {
            Some(Builtin::TIMESTAMPTZ_ARRAY)
        } else {
            Some(Builtin::TIMESTAMP_ARRAY)
        },
        _ => None,
    }
}

/// The names of fields.
pub open spec fn field_names(fields: Seq<FieldV>) -> Seq<Seq<char>> {
    fields.map_values(|f: FieldV| f.name)
}

/// The name of the row type of fields: their names in brackets.
pub open spec fn row_name(fields: Seq<FieldV>) -> Seq<char> {
    "("@ + text::join_with(field_names(fields), ", "@) + ")"@
}

/// The type that pgvector's `vector` is reported as.
pub open spec fn vector_type() -> TypeV {
    TypeV::Custom {
        name: "vector"@,
        oid: PG_VECTOR_TYPE_OID,
        kind: KindV::Simple,
        schema: "public"@,
    }
}

/// True of a field that is marked as a `vector`.
pub open spec fn is_vector(f: FieldV) -> bool {
    schema::lookup(f.metadata, PG_VECTOR_KEY@) == Some("vector"@)
}

/// The type that the marks of a field give it. The mark of an oid alias goes
/// before that of a `"char"`, and that one before that of a vector.
pub open spec fn marked_type(f: FieldV) -> Option<TypeV> {
    let alias = match schema::lookup(f.metadata, PG_OID_ALIAS_KEY@) {
        Some(kind) => alias_type(kind),
        None => None,
    };
    match alias {
        Some(b) => Some(TypeV::Builtin(b)),
        None => if schema::lookup(f.metadata, PG_CHAR_KEY@) is Some {
            Some(TypeV::Builtin(Builtin::CHAR))
        } else if is_vector(f) {
            Some(vector_type())
        } else {
            match schema::lookup(f.metadata, EXTENSION_NAME_KEY@) {
                Some(name) => if geometry_names().contains(name) {
                    Some(TypeV::Builtin(Builtin::TEXT))
                } else {
                    None
                },
                None => None,
            }
        },
    }
}

/// The Postgres type of a field.
pub open spec fn field_pg_type(f: FieldV) -> Result<TypeV, ErrorV>
    decreases f, 0int,
{
    match marked_type(f) {
        Some(t) => Ok(t),
        None => pg_type(f.data_type),
    }
}

/// The names and Postgres types of fields, or the error of the first field that
/// has none.
pub open spec fn row_types(fields: Seq<FieldV>) -> Result<Seq<(Seq<char>, TypeV)>, ErrorV>
    decreases fields, 0int,
{
    if fields.len() == 0 {
        Ok(Seq::empty())
    } else {
        match row_types(fields.drop_last()) {
            Ok(before) => match field_pg_type(fields.last()) {
                Ok(t) => Ok(before.push((fields.last().name, t))),
                Err(e) => Err(e),
            },
            Err(e) => Err(e),
        }
    }
}

/// The Postgres type of a column type.
pub open spec fn pg_type(t: DataTypeV) -> Result<TypeV, ErrorV>
    decreases t, 0int,
{
    match plain_type(t) {
        Some(b) => Ok(TypeV::Builtin(b)),
        None => match t {
            DataTypeV::List(f) => list_type(*f),
            DataTypeV::FixedSizeList(f, _) => list_type(*f),
            DataTypeV::LargeList(f) => list_type(*f),
            DataTypeV::ListView(f) => list_type(*f),
            DataTypeV::LargeListView(f) => list_type(*f),
            DataTypeV::Dictionary(_, v) => pg_type(*v),
            DataTypeV::Struct(fields) => match row_types(fields) {
                Ok(types) => Ok(
                    TypeV::Custom {
                        name: row_name(fields),
                        oid: Builtin::RECORD.spec_oid(),
                        kind: KindV::Composite(types),
                        schema: "pg_catalog"@,
                    },
                ),
                Err(e) => Err(e),
            },
            _ => Err(ErrorV::UnsupportedType(t)),
        },
    }
}

/// The Postgres type of a list of items of the field `f`.
pub open spec fn list_type(f: FieldV) -> Result<TypeV, ErrorV>
    decreases f, 1int,
{
    match plain_array_type(f.data_type) {
        Some(b) => Ok(TypeV::Builtin(b)),
        None => if f.data_type is Struct {
            match field_pg_type(f) {
                Ok(t) => Ok(
                    TypeV::Custom {
                        name: "_record"@,
                        oid: Builtin::RECORD_ARRAY.spec_oid(),
                        kind: KindV::Array(Box::new(t)),
                        schema: "pg_catalog"@,
                    },
                ),
                Err(e) => Err(e),
            }
        } else {
            Err(ErrorV::UnsupportedListType(f.data_type))
        },
    }
}

/// The model of a result.
pub open spec fn type_result(r: Result<Type, Error>) -> Result<TypeV, ErrorV> {
    match r {
        Ok(t) => Ok(t@),
        Err(e) => Err(e@),
    }
}

/// The `NAME` constants of the extension types of `geoarrow_schema`, in the order of
/// the library's list.
#[verifier::external_body]
fn geoarrow_names() -> (r: Vec<&'static str>)
    ensures
        r@.len() == 11,
        r@[0]@ == "geoarrow.point"@,
        r@[1]@ == "geoarrow.linestring"@,
        r@[2]@ == "geoarrow.polygon"@,
        r@[3]@ == "geoarrow.multipoint"@,
        r@[4]@ == "geoarrow.multilinestring"@,
        r@[5]@ == "geoarrow.multipolygon"@,
        r@[6]@ == "geoarrow.geometrycollection"@,
        r@[7]@ == "geoarrow.geometry"@,
        r@[8]@ == "geoarrow.box"@,
        r@[9]@ == "geoarrow.wkt"@,
        r@[10]@ == "geoarrow.wkb"@,
{
    vec![
        geoarrow_schema::PointType::NAME,
        geoarrow_schema::LineStringType::NAME,
        geoarrow_schema::PolygonType::NAME,
        geoarrow_schema::MultiPointType::NAME,
        geoarrow_schema::MultiLineStringType::NAME,
        geoarrow_schema::MultiPolygonType::NAME,
        geoarrow_schema::GeometryCollectionType::NAME,
        geoarrow_schema::GeometryType::NAME,
        geoarrow_schema::BoxType::NAME,
        geoarrow_schema::WktType::NAME,
        geoarrow_schema::WkbType::NAME,
    ]
}

/// True of the name of a geometry type.
pub fn is_geometry_name(name: &str) -> (r: bool)
    ensures
        r == geometry_names().contains(name@),
{
    let names = geoarrow_names();
    let ghost all = geometry_names();
    let mut i: usize = 0;
    while i < names.len()
        invariant
            i <= names@.len(),
            names@.len() == all.len(),
            all == geometry_names(),
            forall|j: int| 0 <= j < names@.len() ==> (#[trigger] names@[j])@ == all[j],
            forall|j: int| 0 <= j < i ==> all[j] != name@,
        decreases names@.len() - i,
    {
        if text::same(names[i], name) {
            assert(all[i as int] == name@);
            return true;
        }
        assert(names@[i as int]@ == all[i as int]);
        i += 1;
    }
    false
}

/// The Postgres type of an oid-alias kind, such as `regclass`.
pub fn pg_type_for_alias_kind(kind: &str) -> (r: Option<Builtin>)
    ensures
        r == alias_type(kind@),
{
    if text::same(kind, "oid") {
        Some(Builtin::OID)
    } else if text::same(kind, "regproc") {
        Some(Builtin::REGPROC)
    } else if text::same(kind, "regprocedure") {
        Some(Builtin::REGPROCEDURE)
    } else if text::same(kind, "regoper") {
        Some(Builtin::REGOPER)
    } else if text::same(kind, "regoperator") {
        Some(Builtin::REGOPERATOR)
    } else if text::same(kind, "regclass") {
        Some(Builtin::REGCLASS)
    } else if text::same(kind, "regtype") {
        Some(Builtin::REGTYPE)
    } else if text::same(kind, "regnamespace") {
        Some(Builtin::REGNAMESPACE)
    } else if text::same(kind, "regrole") {
        Some(Builtin::REGROLE)
    } else if text::same(kind, "regconfig") {
        Some(Builtin::REGCONFIG)
    } else if text::same(kind, "regdictionary") {
        Some(Builtin::REGDICTIONARY)
    } else if text::same(kind, "regcollation") {
        Some(Builtin::REGCOLLATION)
    } else {
        None
    }
}

fn pg_alias_type(field: &Field) -> (r: Option<Builtin>)
    ensures
        r == match schema::lookup(field@.metadata, PG_OID_ALIAS_KEY@) {
            Some(kind) => alias_type(kind),
            None => None,
        },
{
    match field.get_metadata(PG_OID_ALIAS_KEY) {
        Some(kind) => pg_type_for_alias_kind(kind),
        None => None,
    }
}

/// True when a field is marked as a Postgres `"char"`.
pub fn is_pg_char_field(field: &Field) -> (r: bool)
    ensures
        r == schema::lookup(field@.metadata, PG_CHAR_KEY@) is Some,
{
    field.get_metadata(PG_CHAR_KEY).is_some()
}

/// True when a field is marked as a `vector`.
pub fn is_pg_vector_field(field: &Field) -> (r: bool)
    ensures
        r == is_vector(field@),
{
    match field.get_metadata(PG_VECTOR_KEY) {
        Some(kind) => text::same(kind, "vector"),
        None => false,
    }
}

/// The type that pgvector's `vector` is reported as.
pub fn pg_vector_type() -> (r: Type)
    ensures
        r@ == vector_type(),
{
    Type::Custom {
        name: "vector".to_owned(),
        oid: PG_VECTOR_TYPE_OID,
        kind: Kind::Simple,
        schema: "public".to_owned(),
    }
}

fn find_plain_type(t: &DataType) -> (r: Option<Builtin>)
    ensures
        r == plain_type(t@),
{
    match t {
        DataType::Null => Some(Builtin::UNKNOWN),
        DataType::Boolean => Some(Builtin::BOOL),
        DataType::Int8 | DataType::Int16 | DataType::UInt8 => Some(Builtin::INT2),
        DataType::Int32 | DataType::UInt16 => Some(Builtin::INT4),
        DataType::Int64 | DataType::UInt32 => Some(Builtin::INT8),
        DataType::UInt64 | DataType::Decimal128(_, _) => Some(Builtin::NUMERIC),
        DataType::Time32(_) | DataType::Time64(_) => Some(Builtin::TIME),
        DataType::Date32 | DataType::Date64 => Some(Builtin::DATE),
        DataType::Interval(_) | DataType::Duration(_) => Some(Builtin::INTERVAL),
        DataType::Binary | DataType::FixedSizeBinary(_) | DataType::LargeBinary | DataType::BinaryView => Some(Builtin::BYTEA),
        DataType::Float16 | DataType::Float32 => Some(Builtin::FLOAT4),
        DataType::Float64 => Some(Builtin::FLOAT8),
        DataType::Utf8 | DataType::LargeUtf8 | DataType::Utf8View => Some(Builtin::TEXT),
        DataType::Timestamp(_, tz) => if tz.is_some() {
            Some(Builtin::TIMESTAMPTZ)
        } else {
            Some(Builtin::TIMESTAMP)
        },
        _ => None,
    }
}

fn find_plain_array_type(t: &DataType) -> (r: Option<Builtin>)
    ensures
        r == plain_array_type(t@),
{
    match t {
        DataType::Null => Some(Builtin::TEXT_ARRAY),
        DataType::Boolean => Some(Builtin::BOOL_ARRAY),
        DataType::Int8 | DataType::Int16 | DataType::UInt8 => Some(Builtin::INT2_ARRAY),
        DataType::Int32 | DataType::UInt16 => Some(Builtin::INT4_ARRAY),
        DataType::Int64 | DataType::UInt32 => Some(Builtin::INT8_ARRAY),
        DataType::UInt64 | DataType::Decimal128(_, _) => Some(Builtin::NUMERIC_ARRAY),
        DataType::Time32(_) | DataType::Time64(_) => Some(Builtin::TIME_ARRAY),
        DataType::Date32 | DataType::Date64 => Some(Builtin::DATE_ARRAY),
        DataType::Interval(_) | DataType::Duration(_) => Some(Builtin::INTERVAL_ARRAY),
        DataType::Binary | DataType::FixedSizeBinary(_) | DataType::LargeBinary | DataType::BinaryView => Some(Builtin::BYTEA_ARRAY),
        DataType::Float16 | DataType::Float32 => Some(Builtin::FLOAT4_ARRAY),
        DataType::Float64 => Some(Builtin::FLOAT8_ARRAY),
        DataType::Utf8 | DataType::LargeUtf8 | DataType::Utf8View => Some(Builtin::TEXT_ARRAY),
        DataType::Timestamp(_, tz) => if tz.is_some() {
            Some(Builtin::TIMESTAMPTZ_ARRAY)
        } else {
            Some(Builtin::TIMESTAMP_ARRAY)
        },
        _ => None,
    }
}

fn row_type_name(fields: &Vec<Field>) -> (r: String)
    ensures
        r@ == row_name(schema::fields_view(fields@)),
{
    let mut names: Vec<String> = Vec::new();
    let mut i: usize = 0;
    while i < fields.len()
        invariant
            i <= fields@.len(),
            names@.len() == i,
            forall|j: int| 0 <= j < i ==> (#[trigger] names@[j])@ == fields@[j].name@,
        decreases fields@.len() - i,
    {
        names.push(fields[i].name.clone());
        i += 1;
    }
    assert(text::views(names@) == field_names(schema::fields_view(fields@)));
    let joined = text::join(&names, ", ");
    let mut name = "(".to_owned();
    name.append(joined.as_str());
    name.append(")");
    name
}

proof fn lemma_row_types_prefix(fields: Seq<FieldV>, i: int)
    requires
        0 <= i <= fields.len(),
        row_types(fields.take(i)) is Err,
    ensures
        row_types(fields) == row_types(fields.take(i)),
    decreases fields.len() - i,
{
    if i < fields.len() {
        assert(fields.take(i + 1).drop_last() == fields.take(i));
        lemma_row_types_prefix(fields, i + 1);
    } else {
        assert(fields.take(i) == fields);
    }
}

/// The Postgres type of a column type.
#[verifier::loop_isolation(false)]
pub fn into_pg_type(arrow_type: &DataType) -> (r: Result<Type, Error>)
    ensures
        type_result(r) == pg_type(arrow_type@),
    decreases arrow_type, 0int,
{
    if let Some(b) = find_plain_type(arrow_type) {
        return Ok(Type::Builtin(b));
    }
    match arrow_type {
        DataType::List(field) => list_into_pg_type(field),
        DataType::FixedSizeList(field, _) => list_into_pg_type(field),
        DataType::LargeList(field) => list_into_pg_type(field),
        DataType::ListView(field) => list_into_pg_type(field),
        DataType::LargeListView(field) => list_into_pg_type(field),
        DataType::Dictionary(_, value_type) => into_pg_type(value_type),
        DataType::Struct(fields) => {
            let ghost all = schema::fields_view(fields@);
            proof {
                schema::lemma_struct_model(*fields);
            }
            let mut types: Vec<(String, Type)> = Vec::new();
            let mut i: usize = 0;
            proof {
                assert(all.take(0) == Seq::<FieldV>::empty());
                assert(row_view(types@) == Seq::<(Seq<char>, TypeV)>::empty());
            }
            while i < fields.len()
                invariant
                    i <= fields@.len(),
                    all == schema::fields_view(fields@),
                    row_types(all.take(i as int)) == Ok::<Seq<(Seq<char>, TypeV)>, ErrorV>(
                        row_view(types@),
                    ),
                decreases fields@.len() - i,
            {
                proof {
                    assert(all.take(i + 1).drop_last() == all.take(i as int));
                    assert(all.take(i + 1).last() == fields@[i as int]@);
                    assert(decreases_to!(*arrow_type => arrow_type->Struct_0));
                    assert(decreases_to!(arrow_type->Struct_0 => fields@[i as int]));
                }
                let t = match field_into_pg_type(&fields[i]) {
                    Ok(t) => t,
                    Err(e) => {
                        proof {
                            lemma_row_types_prefix(all, i + 1);
                        }
                        return Err(e);
                    },
                };
                let ghost before = types@;
                let ghost added = (fields@[i as int].name@, t@);
                types.push((fields[i].name.clone(), t));
                assert(row_view(types@) == row_view(before).push(added));
                i += 1;
            }
            assert(all.take(all.len() as int) == all);
            let kind = Kind::Composite(types);
            assert(kind.model()->Composite_0 == row_view(types@));
            Ok(
                Type::Custom {
                    name: row_type_name(fields),
                    oid: Builtin::RECORD.oid(),
                    kind,
                    schema: "pg_catalog".to_owned(),
                },
            )
        },
        _ => Err(Error::UnsupportedType(arrow_type.copy())),
    }
}

/// The models of the named types of a row.
pub open spec fn row_view(v: Seq<(String, Type)>) -> Seq<(Seq<char>, TypeV)> {
    v.map_values(|f: (String, Type)| (f.0@, f.1@))
}

fn list_into_pg_type(field: &Field) -> (r: Result<Type, Error>)
    ensures
        type_result(r) == list_type(field@),
    decreases field, 1int,
{
    if let Some(b) = find_plain_array_type(&field.data_type) {
        return Ok(Type::Builtin(b));
    }
    match &field.data_type {
        DataType::Struct(_) => match field_into_pg_type(field) {
            Ok(t) => Ok(
                Type::Custom {
                    name: "_record".to_owned(),
                    oid: Builtin::RECORD_ARRAY.oid(),
                    kind: Kind::Array(Box::new(t)),
                    schema: "pg_catalog".to_owned(),
                },
            ),
            Err(e) => Err(e),
        },
        other => Err(Error::UnsupportedListType(other.copy())),
    }
}

/// The Postgres type of a field: the one that its marks give it, or else that of
/// its column type.
pub fn field_into_pg_type(field: &Field) -> (r: Result<Type, Error>)
    ensures
        type_result(r) == field_pg_type(field@),
    decreases field, 0int,
{
    if let Some(alias) = pg_alias_type(field) {
        return Ok(Type::Builtin(alias));
    }
    if is_pg_char_field(field) {
        return Ok(Type::Builtin(Builtin::CHAR));
    }
    if is_pg_vector_field(field) {
        return Ok(pg_vector_type());
    }
    if let Some(name) = field.get_metadata(EXTENSION_NAME_KEY) {
        if is_geometry_name(name) {
            return Ok(Type::Builtin(Builtin::TEXT));
        }
    }
    into_pg_type(&field.data_type)
}

/// How a value is written on the wire.
#[derive(Clone, Copy, Debug, PartialEq, Eq, Structural)]
pub enum FieldFormat {
    Text,
    Binary,
}

/// The formats that a client asks for: one for all values, or a code for each.
#[derive(Debug, PartialEq, Eq)]
pub enum Format {
    UnifiedText,
    UnifiedBinary,
    Individual(Vec<i16>),
}

/// The format of a code: `1` is binary, every other code is text.
pub open spec fn code_format(code: i16) -> FieldFormat {
    if code == 1 {
        FieldFormat::Binary
    } else {
        FieldFormat::Text
    }
}

impl Format {
    /// True when there is a format for the value number `i`.
    pub open spec fn covers(&self, i: int) -> bool {
        *self matches Format::Individual(codes) ==> 0 <= i < codes@.len()
    }

    /// The format of the value number `i`.
    pub open spec fn at(&self, i: int) -> FieldFormat {
        match *self {
            Format::UnifiedText => FieldFormat::Text,
            Format::UnifiedBinary => FieldFormat::Binary,
            Format::Individual(codes) => code_format(codes@[i]),
        }
    }

    /// The format of the value number `idx`.
    pub fn format_for(&self, idx: usize) -> (r: FieldFormat)
        requires
            self.covers(idx as int),
        ensures
            r == self.at(idx as int),
    {
        match self {
            Format::UnifiedText => FieldFormat::Text,
            Format::UnifiedBinary => FieldFormat::Binary,
            Format::Individual(codes) => if codes[idx] == 1 {
                FieldFormat::Binary
            } else {
                FieldFormat::Text
            },
        }
    }
}

/// What a client is told of a column of a result.
#[derive(Debug, PartialEq, Eq)]
pub struct FieldInfo {
    pub name: String,
    pub datatype: Type,
    pub format: FieldFormat,
}

/// The model of a [`FieldInfo`].
#[verifier::ext_equal]
pub struct FieldInfoV {
    pub name: Seq<char>,
    pub datatype: TypeV,
    pub format: FieldFormat,
}

impl View for FieldInfo {
    type V = FieldInfoV;

    open spec fn view(&self) -> FieldInfoV {
        FieldInfoV { name: self.name@, datatype: self.datatype@, format: self.format }
    }
}

/// The models of the columns of a result.
pub open spec fn infos_view(v: Seq<FieldInfo>) -> Seq<FieldInfoV> {
    v.map_values(|f: FieldInfo| f@)
}

/// The format of a column: a vector is always text, since it has no binary form.
pub open spec fn column_format(f: FieldV, format: Format, i: int) -> FieldFormat {
    if is_vector(f) {
        FieldFormat::Text
    } else {
        format.at(i)
    }
}

/// What a client is told of the columns of a schema, or the error of the first
/// field without a Postgres type.
pub open spec fn pg_fields(fields: Seq<FieldV>, format: Format) -> Result<Seq<FieldInfoV>, ErrorV> {
    match row_types(fields) {
        Ok(types) => Ok(
            Seq::new(
                fields.len(),
                |i: int|
                    FieldInfoV {
                        name: types[i].0,
                        datatype: types[i].1,
                        format: column_format(fields[i], format, i),
                    },
            ),
        ),
        Err(e) => Err(e),
    }
}

/// What a client is told of the columns of a schema.
///
/// A format is asked for by the number of the column, so there has to be one for
/// each column that is no vector and comes before the first error.
pub fn arrow_schema_to_pg_fields(fields: &Vec<Field>, format: &Format) -> (r: Result<
    Vec<FieldInfo>,
    Error,
>)
    requires
        forall|i: int|
            0 <= i < fields@.len() && !is_vector((#[trigger] fields@[i])@) && row_types(
                schema::fields_view(fields@).take(i + 1),
            ) is Ok ==> format.covers(i),
    ensures
        match r {
            Ok(infos) => pg_fields(schema::fields_view(fields@), *format) == Ok::<
                Seq<FieldInfoV>,
                ErrorV,
            >(infos_view(infos@)),
            Err(e) => pg_fields(schema::fields_view(fields@), *format) == Err::<
                Seq<FieldInfoV>,
                ErrorV,
            >(e@),
        },
{
    let ghost all = schema::fields_view(fields@);
    let mut infos: Vec<FieldInfo> = Vec::new();
    let mut i: usize = 0;
    proof {
        assert(all.take(0) == Seq::<FieldV>::empty());
    }
    while i < fields.len()
        invariant
            i <= fields@.len(),
            all == schema::fields_view(fields@),
            infos@.len() == i,
            row_types(all.take(i as int)) matches Ok(types) && types.len() == i && forall|j: int|
                0 <= j < i ==> (#[trigger] infos@[j])@ == (FieldInfoV {
                    name: types[j].0,
                    datatype: types[j].1,
                    format: column_format(all[j], *format, j),
                }),
            forall|i: int|
                0 <= i < fields@.len() && !is_vector((#[trigger] fields@[i])@) && row_types(
                    schema::fields_view(fields@).take(i + 1),
                ) is Ok ==> format.covers(i),
        decreases fields@.len() - i,
    {
        let field = &fields[i];
        proof {
            assert(all.take(i + 1).drop_last() == all.take(i as int));
            assert(all.take(i + 1).last() == field@);
        }
        let datatype = match field_into_pg_type(field) {
            Ok(t) => t,
            Err(e) => {
                proof {
                    lemma_row_types_prefix(all, i + 1);
                }
                return Err(e);
            },
        };
        let col_format = if is_pg_vector_field(field) {
            FieldFormat::Text
        } else {
            format.format_for(i)
        };
        infos.push(FieldInfo { name: field.name.clone(), datatype, format: col_format });
        i += 1;
    }
    proof {
        assert(all.take(all.len() as int) == all);
        assert(infos_view(infos@) == pg_fields(all, *format)->Ok_0);
    }
    Ok(infos)
}

/// A field of which nothing is said beside its type has the Postgres type of that type.
pub proof fn law_unmarked_fields_by_type(f: FieldV)
    requires
        f.metadata.len() == 0,
    ensures
        field_pg_type(f) == pg_type(f.data_type),
{
}

/// The mark of an oid alias gives a field its Postgres type, whatever else is said of it.
pub proof fn law_alias_goes_first(f: FieldV, kind: Seq<char>)
    requires
        schema::lookup(f.metadata, PG_OID_ALIAS_KEY@) == Some(kind),
        alias_type(kind) is Some,
    ensures
        field_pg_type(f) == Ok::<TypeV, ErrorV>(TypeV::Builtin(alias_type(kind)->0)),
{
}

proof fn lemma_row_types(fields: Seq<FieldV>, i: int)
    requires
        0 <= i < fields.len(),
    ensures
        row_types(fields) matches Ok(types) ==> types.len() == fields.len() && types[i].0
            == fields[i].name && field_pg_type(fields[i]) == Ok::<TypeV, ErrorV>(types[i].1),
    decreases fields.len(),
{
    reveal_with_fuel(row_types, 2);
    if fields.len() > 1 {
        let init = fields.drop_last();
        if i < init.len() {
            lemma_row_types(init, i);
            assert(init[i] == fields[i]);
        } else {
            lemma_row_types(init, 0);
        }
    } else {
        assert(fields.drop_last().len() == 0);
    }
}

/// A client is told of each column by its name and Postgres type, and that a vector is
/// sent as text, whatever format the client asks for.
pub proof fn law_columns_are_described(fields: Seq<FieldV>, format: Format, i: int)
    requires
        0 <= i < fields.len(),
    ensures
        pg_fields(fields, format) matches Ok(infos) ==> {
            &&& infos.len() == fields.len()
            &&& infos[i].name == fields[i].name
            &&& field_pg_type(fields[i]) == Ok::<TypeV, ErrorV>(infos[i].datatype)
            &&& is_vector(fields[i]) ==> infos[i].format == FieldFormat::Text
            &&& !is_vector(fields[i]) ==> infos[i].format == format.at(i)
        },
{
    lemma_row_types(fields, i);
}

} // verus!
