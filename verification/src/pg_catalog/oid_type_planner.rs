//! Column types for the names of Postgres types that the planner of SQL does not
//! know: the oid aliases, the built-in types under the schema `pg_catalog`, and
//! vectors.
use crate::datatypes;
use crate::datatypes::PG_VECTOR_KEY;
use crate::params;
use crate::schema;
use crate::schema::{DataType, DataTypeV, Field, FieldV};
use crate::sql::tree;
use crate::sql::tree::{NamePart, PartV};
use crate::text;
use vstd::prelude::*;

verus! {

/// The target type of a cast, as SQL writes it.
#[derive(Debug, PartialEq, Eq)]
pub enum SqlType {
    /// `regclass`.
    Regclass,
    /// A type that is known by its name, with its modifiers.
    Custom { name: Vec<NamePart>, modifiers: Vec<String> },
    /// Another type.
    Other,
}

/// The model of a [`SqlType`].
#[verifier::ext_equal]
pub enum SqlTypeV {
    Regclass,
    Custom { name: Seq<PartV>, modifiers: Seq<Seq<char>> },
    Other,
}

impl View for SqlType {
    type V = SqlTypeV;

    open spec fn view(&self) -> SqlTypeV {
        match *self {
            SqlType::Regclass => SqlTypeV::Regclass,
            SqlType::Custom { name, modifiers } => SqlTypeV::Custom {
                name: tree::name_view(name@),
                modifiers: text::views(modifiers@),
            },
            SqlType::Other => SqlTypeV::Other,
        }
    }
}

/// The last part of a name, where it is an identifier.
pub open spec fn last_ident(name: Seq<PartV>) -> Option<Seq<char>> {
    if name.len() == 0 {
        None
    } else {
        match name.last() {
            PartV::Identifier(ident) => Some(ident.value),
            PartV::Function(_) => None,
        }
    }
}

/// True of a type that is an oid alias.
pub open spec fn is_alias(t: SqlTypeV) -> bool {
    match t {
        SqlTypeV::Regclass => true,
        SqlTypeV::Custom { name, modifiers } => modifiers.len() == 0 && (match last_ident(name) {
            Some(last) => datatypes::alias_type(text::lowered(last)) is Some,
            None => false,
        }),
        SqlTypeV::Other => false,
    }
}

/// The column type of a built-in type by its name, in any case.
pub open spec fn builtin_type(name: Seq<char>) -> Option<DataTypeV> {
    if text::same_ignoring_ascii_case(name, "bool"@) || text::same_ignoring_ascii_case(name, "boolean"@) {
        Some(DataTypeV::Boolean)
    } else if text::same_ignoring_ascii_case(name, "int2"@) || text::same_ignoring_ascii_case(name, "smallint"@) {
        Some(DataTypeV::Int16)
    } else if text::same_ignoring_ascii_case(name, "int4"@) || text::same_ignoring_ascii_case(name, "integer"@) || text::same_ignoring_ascii_case(name, "int"@) {
        Some(DataTypeV::Int32)
    } else if text::same_ignoring_ascii_case(name, "int8"@) || text::same_ignoring_ascii_case(name, "bigint"@) {
        Some(DataTypeV::Int64)
    } else if text::same_ignoring_ascii_case(name, "float4"@) || text::same_ignoring_ascii_case(name, "real"@) {
        Some(DataTypeV::Float32)
    } else if text::same_ignoring_ascii_case(name, "float8"@) {
        Some(DataTypeV::Float64)
    } else if text::same_ignoring_ascii_case(name, "text"@) || text::same_ignoring_ascii_case(name, "varchar"@) || text::same_ignoring_ascii_case(name, "bpchar"@) || text::same_ignoring_ascii_case(name, "char"@) || text::same_ignoring_ascii_case(name, "name"@) {
        Some(DataTypeV::Utf8)
    } else if text::same_ignoring_ascii_case(name, "bytea"@) {
        Some(DataTypeV::Binary)
    } else {
        None
    }
}

/// The column type of a built-in type under the schema `pg_catalog`.
pub open spec fn qualified_builtin(t: SqlTypeV) -> Option<DataTypeV> {
    match t {
        SqlTypeV::Custom { name, modifiers } => if modifiers.len() == 0 && name.len() == 2 {
            match (name[0], name[1]) {
                (PartV::Identifier(schema), PartV::Identifier(last)) =>
                    if text::same_ignoring_ascii_case(schema.value, "pg_catalog"@) {
                        builtin_type(last.value)
                    } else {
                        None
                    },
                _ => None,
            }
        } else {
            None
        },
        _ => None,
    }
}

/// True of a vector type, under any schema.
pub open spec fn is_vector(t: SqlTypeV) -> bool {
    match t {
        SqlTypeV::Custom { name, .. } => match last_ident(name) {
            Some(last) => text::same_ignoring_ascii_case(last, "vector"@),
            None => false,
        },
        _ => false,
    }
}

/// The number of dimensions that a modifier gives.
pub open spec fn dimension(modifier: Seq<char>) -> Option<i32> {
    match params::i64_text(text::trimmed(modifier)) {
        Some(n) => if 0 < n <= i32::MAX {
            Some(n as i32)
        } else {
            None
        },
        None => None,
    }
}

/// The field of a vector type: a list of numbers, of a fixed size where the type
/// gives the number of dimensions. Nothing where it gives no proper one.
pub open spec fn vector_column(t: SqlTypeV) -> Option<FieldV> {
    let element = schema::list_field(DataTypeV::Float32, true);
    match t {
        SqlTypeV::Custom { modifiers, .. } => if !is_vector(t) {
            None
        } else if modifiers.len() == 0 {
            Some(tagged(DataTypeV::List(Box::new(element))))
        } else if modifiers.len() == 1 {
            match dimension(modifiers[0]) {
                Some(n) => Some(tagged(DataTypeV::FixedSizeList(Box::new(element), n))),
                None => None,
            }
        } else {
            None
        },
        _ => None,
    }
}

/// A field of the type, marked as a vector.
pub open spec fn tagged(t: DataTypeV) -> FieldV {
    FieldV {
        name: ""@,
        data_type: t,
        nullable: true,
        metadata: seq![(PG_VECTOR_KEY@, "vector"@)],
    }
}

/// A field of the type, without a name or marks.
pub open spec fn untagged(t: DataTypeV) -> FieldV {
    FieldV { name: ""@, data_type: t, nullable: true, metadata: Seq::empty() }
}

/// The field of a type. A vector goes before an oid alias, and that one before a
/// built-in type.
pub open spec fn planned(t: SqlTypeV) -> Option<FieldV> {
    match vector_column(t) {
        Some(f) => Some(f),
        None => if is_alias(t) {
            Some(untagged(DataTypeV::Int32))
        } else {
            match qualified_builtin(t) {
                Some(dt) => Some(untagged(dt)),
                None => None,
            }
        },
    }
}

/// Plans the types of casts.
#[derive(Debug, Clone, Copy, Default)]
pub struct PgOidTypePlanner;

/// The last part of a name, where it is an identifier.
pub fn last_name(name: &Vec<NamePart>) -> (r: Option<&str>)
    ensures
        match r {
            Some(s) => last_ident(tree::name_view(name@)) == Some(s@),
            None => last_ident(tree::name_view(name@)) is None,
        },
{
    if name.len() == 0 {
        return None;
    }
    assert(tree::name_view(name@).last() == name@.last()@);
    match &name[name.len() - 1] {
        NamePart::Identifier(ident) => Some(ident.value.as_str()),
        NamePart::Function(_) => None,
    }
}

impl PgOidTypePlanner {
    /// The field of an oid: a number without marks. A mark here would be one that the
    /// operand of the cast does not have.
    fn oid_field() -> (r: Field)
        ensures
            r@ == untagged(DataTypeV::Int32),
    {
        Field::new("", DataType::Int32, true)
    }

    /// The last part of the name of a type without modifiers, in lower case.
    fn custom_name(sql_type: &SqlType) -> (r: Option<String>)
        ensures
            schema::opt_text(r) == (match sql_type@ {
                SqlTypeV::Custom { name, modifiers } => if modifiers.len() == 0 {
                    match last_ident(name) {
                        Some(last) => Some(text::lowered(last)),
                        None => None,
                    }
                } else {
                    None
                },
                _ => None,
            }),
    {
        match sql_type {
            SqlType::Custom { name, modifiers } => if modifiers.len() > 0 {
                None
            } else {
                match last_name(name) {
                    Some(last) => Some(text::to_lowercase(last)),
                    None => None,
                }
            },
            _ => None,
        }
    }

    /// True of an oid alias.
    fn is_oid_alias(sql_type: &SqlType) -> (r: bool)
        ensures
            r == is_alias(sql_type@),
    {
        match sql_type {
            SqlType::Regclass => true,
            _ => match Self::custom_name(sql_type) {
                Some(name) => datatypes::pg_type_for_alias_kind(name.as_str()).is_some(),
                None => false,
            },
        }
    }

    /// The column type of a built-in type under the schema `pg_catalog`.
    fn pg_catalog_builtin(sql_type: &SqlType) -> (r: Option<DataType>)
        ensures
            opt_type_view(r) == qualified_builtin(sql_type@),
    {
        match sql_type {
            SqlType::Custom { name, modifiers } => {
                if modifiers.len() > 0 || name.len() != 2 {
                    return None;
                }
                assert(tree::name_view(name@)[0] == name@[0]@);
                assert(tree::name_view(name@)[1] == name@[1]@);
                match (&name[0], &name[1]) {
                    (NamePart::Identifier(schema), NamePart::Identifier(last)) =>
                        if text::eq_ignore_ascii_case(schema.value.as_str(), "pg_catalog") {
                            builtin_arrow_type(last.value.as_str())
                        } else {
                            None
                        },
                    _ => None,
                }
            },
            _ => None,
        }
    }

    /// True of a vector type, under any schema.
    pub fn is_vector_type(sql_type: &SqlType) -> (r: bool)
        ensures
            r == is_vector(sql_type@),
    {
        match sql_type {
            SqlType::Custom { name, .. } => match last_name(name) {
                Some(last) => text::eq_ignore_ascii_case(last, "vector"),
                None => false,
            },
            _ => false,
        }
    }

    /// The field of a vector type.
    fn vector_field(sql_type: &SqlType) -> (r: Option<Field>)
        ensures
            opt_field(r) == vector_column(sql_type@),
    {
        if !Self::is_vector_type(sql_type) {
            return None;
        }
        match sql_type {
            SqlType::Custom { modifiers, .. } => {
                let element = Field::new_list_field(DataType::Float32, true);
                let arrow_type = if modifiers.len() == 0 {
                    DataType::List(Box::new(element))
                } else if modifiers.len() == 1 {
                    assert(text::views(modifiers@)[0] == modifiers@[0]@);
                    match parse_dimension(modifiers[0].as_str()) {
                        Some(n) => DataType::FixedSizeList(Box::new(element), n),
                        None => return None,
                    }
                } else {
                    return None;
                };
                let mut field = Field::new("", arrow_type, true);
                field.metadata.push((PG_VECTOR_KEY.to_owned(), "vector".to_owned()));
                assert(field@.metadata == seq![(PG_VECTOR_KEY@, "vector"@)]);
                Some(field)
            },
            _ => None,
        }
    }

    /// The field of a type, where the type is one of those planned here.
    pub fn plan_type_field(&self, sql_type: &SqlType) -> (r: Option<Field>)
        ensures
            opt_field(r) == planned(sql_type@),
    {
        if let Some(field) = Self::vector_field(sql_type) {
            return Some(field);
        }
        if Self::is_oid_alias(sql_type) {
            return Some(Self::oid_field());
        }
        match Self::pg_catalog_builtin(sql_type) {
            Some(data_type) => Some(Field::new("", data_type, true)),
            None => None,
        }
    }
}

/// The number of dimensions that a modifier gives.
pub fn parse_dimension(modifier: &str) -> (r: Option<i32>)
    ensures
        r == dimension(modifier@),
{
    let trimmed = text::trim(modifier);
    match params::parse_i64(trimmed.as_str()) {
        Some(n) => if 0 < n && n <= 0x7fff_ffff {
            Some(n as i32)
        } else {
            None
        },
        None => None,
    }
}

/// The model of an optional type.
pub open spec fn opt_type_view(o: Option<DataType>) -> Option<DataTypeV> {
    match o {
        Some(t) => Some(t@),
        None => None,
    }
}

/// The model of an optional field.
pub open spec fn opt_field(o: Option<Field>) -> Option<FieldV> {
    match o {
        Some(f) => Some(f@),
        None => None,
    }
}

/// The column type of a built-in type by its name, in any case.
fn builtin_arrow_type(name: &str) -> (r: Option<DataType>)
    ensures
        opt_type_view(r) == builtin_type(name@),
{
    if text::eq_ignore_ascii_case(name, "bool") || text::eq_ignore_ascii_case(name, "boolean") {
        Some(DataType::Boolean)
    } else if text::eq_ignore_ascii_case(name, "int2") || text::eq_ignore_ascii_case(name, "smallint") {
        Some(DataType::Int16)
    } else if text::eq_ignore_ascii_case(name, "int4") || text::eq_ignore_ascii_case(name, "integer") || text::eq_ignore_ascii_case(name, "int") {
        Some(DataType::Int32)
    } else if text::eq_ignore_ascii_case(name, "int8") || text::eq_ignore_ascii_case(name, "bigint") {
        Some(DataType::Int64)
    } else if text::eq_ignore_ascii_case(name, "float4") || text::eq_ignore_ascii_case(name, "real") {
        Some(DataType::Float32)
    } else if text::eq_ignore_ascii_case(name, "float8") {
        Some(DataType::Float64)
    } else if text::eq_ignore_ascii_case(name, "text") || text::eq_ignore_ascii_case(name, "varchar") || text::eq_ignore_ascii_case(name, "bpchar") || text::eq_ignore_ascii_case(name, "char") || text::eq_ignore_ascii_case(name, "name") {
        Some(DataType::Utf8)
    } else if text::eq_ignore_ascii_case(name, "bytea") {
        Some(DataType::Binary)
    } else {
        None
    }
}

/// A field that is planned for an oid alias or a built-in type has no marks, and no
/// planned field has a name.
pub proof fn law_only_vectors_are_marked(t: SqlTypeV)
    ensures
        planned(t) matches Some(f) ==> f.name == ""@ && f.nullable && (f.metadata.len() > 0
            ==> datatypes::is_vector(f) && is_vector(t)),
{
    if let Some(f) = vector_column(t) {
        assert(f.metadata[0] == (PG_VECTOR_KEY@, "vector"@));
    }
}

/// The schema of an oid alias makes no difference.
pub proof fn law_alias_schema_does_not_matter(name: Seq<PartV>, schema: PartV)
    requires
        name.len() == 1,
        is_alias(SqlTypeV::Custom { name, modifiers: Seq::empty() }),
    ensures
        planned(SqlTypeV::Custom { name: seq![schema] + name, modifiers: Seq::empty() }) == planned(
            SqlTypeV::Custom { name, modifiers: Seq::empty() },
        ),
{
    assert((seq![schema] + name).last() == name.last());
}

} // verus!
