//! The functions of the `pg_catalog` schema.
use crate::schema;
use crate::schema::{DataType, DataTypeV, Field};
use crate::text;
use crate::wire;
use vstd::prelude::*;

verus! {

/// How long the result of a function stays the same.
#[derive(Clone, Copy, Debug, PartialEq, Eq, Structural)]
pub enum Volatility {
    /// Always.
    Immutable,
    /// Within a statement.
    Stable,
}

/// A function of the schema.
#[derive(Clone, Copy, Debug, PartialEq, Eq, Structural)]
pub enum CatalogFunction {
    CurrentSchemas,
    CurrentSchema,
    CurrentDatabase,
    PgGetUserbyid,
    PgTableIsVisible,
    SessionUser,
    PgGetPartkeydef,
    PgRelationIsPublishable,
    PgGetStatisticsobjdefColumns,
    PgEncodingToChar,
    PgBackendPid,
    PgRelationSize,
    PgTotalRelationSize,
    PgStatGetNumscans,
    PgGetConstraintdef,
    PgPartitionAncestors,
}

/// How a function is called.
#[derive(Debug, PartialEq, Eq)]
pub struct FunctionSignature {
    pub name: &'static str,
    /// The types of the arguments, in each of the forms of the call.
    pub arguments: Vec<Vec<DataType>>,
    pub returns: DataType,
    pub volatility: Volatility,
}

/// The model of a [`FunctionSignature`].
#[verifier::ext_equal]
pub struct SignatureV {
    pub name: Seq<char>,
    pub arguments: Seq<Seq<DataTypeV>>,
    pub returns: DataTypeV,
    pub volatility: Volatility,
}

/// The models of a list of types.
pub open spec fn types_view(v: Seq<DataType>) -> Seq<DataTypeV> {
    v.map_values(|t: DataType| t@)
}

impl View for FunctionSignature {
    type V = SignatureV;

    open spec fn view(&self) -> SignatureV {
        SignatureV {
            name: self.name@,
            arguments: self.arguments@.map_values(|v: Vec<DataType>| types_view(v@)),
            returns: self.returns@,
            volatility: self.volatility,
        }
    }
}

/// A list of texts.
pub open spec fn text_list() -> DataTypeV {
    DataTypeV::List(Box::new(schema::list_field(DataTypeV::Utf8, true)))
}

impl CatalogFunction {
    /// How the function is called.
    pub open spec fn spec_signature(self) -> SignatureV {
        match self {
            CatalogFunction::CurrentSchemas => SignatureV {
                name: "current_schemas"@,
                arguments: seq![seq![DataTypeV::Boolean]],
                returns: text_list(),
                volatility: Volatility::Immutable,
            },
            CatalogFunction::CurrentSchema => SignatureV {
                name: "current_schema"@,
                arguments: seq![Seq::<DataTypeV>::empty()],
                returns: DataTypeV::Utf8,
                volatility: Volatility::Immutable,
            },
            CatalogFunction::CurrentDatabase => SignatureV {
                name: "current_database"@,
                arguments: seq![Seq::<DataTypeV>::empty()],
                returns: DataTypeV::Utf8,
                volatility: Volatility::Immutable,
            },
            CatalogFunction::PgGetUserbyid => SignatureV {
                name: "pg_get_userbyid"@,
                arguments: seq![seq![DataTypeV::Int32]],
                returns: DataTypeV::Utf8,
                volatility: Volatility::Stable,
            },
            CatalogFunction::PgTableIsVisible => SignatureV {
                name: "pg_table_is_visible"@,
                arguments: seq![seq![DataTypeV::Int32]],
                returns: DataTypeV::Boolean,
                volatility: Volatility::Stable,
            },
            CatalogFunction::SessionUser => SignatureV {
                name: "session_user"@,
                arguments: seq![Seq::<DataTypeV>::empty()],
                returns: DataTypeV::Utf8,
                volatility: Volatility::Stable,
            },
            CatalogFunction::PgGetPartkeydef => SignatureV {
                name: "pg_get_partkeydef"@,
                arguments: seq![seq![DataTypeV::Utf8]],
                returns: DataTypeV::Utf8,
                volatility: Volatility::Stable,
            },
            CatalogFunction::PgRelationIsPublishable => SignatureV {
                name: "pg_relation_is_publishable"@,
                arguments: seq![seq![DataTypeV::Int32]],
                returns: DataTypeV::Boolean,
                volatility: Volatility::Stable,
            },
            CatalogFunction::PgGetStatisticsobjdefColumns => SignatureV {
                name: "pg_get_statisticsobjdef_columns"@,
                arguments: seq![seq![DataTypeV::Int32]],
                returns: DataTypeV::Utf8,
                volatility: Volatility::Stable,
            },
            CatalogFunction::PgEncodingToChar => SignatureV {
                name: "pg_encoding_to_char"@,
                arguments: seq![seq![DataTypeV::Int32]],
                returns: DataTypeV::Utf8,
                volatility: Volatility::Stable,
            },
            CatalogFunction::PgBackendPid => SignatureV {
                name: "pg_backend_pid"@,
                arguments: seq![Seq::<DataTypeV>::empty()],
                returns: DataTypeV::Int32,
                volatility: Volatility::Stable,
            },
            CatalogFunction::PgRelationSize => SignatureV {
                name: "pg_relation_size"@,
                arguments: seq![seq![DataTypeV::Int32]],
                returns: DataTypeV::Int32,
                volatility: Volatility::Stable,
            },
            CatalogFunction::PgTotalRelationSize => SignatureV {
                name: "pg_total_relation_size"@,
                arguments: seq![seq![DataTypeV::Int32]],
                returns: DataTypeV::Int32,
                volatility: Volatility::Stable,
            },
            CatalogFunction::PgStatGetNumscans => SignatureV {
                name: "pg_stat_get_numscans"@,
                arguments: seq![seq![DataTypeV::Int32]],
                returns: DataTypeV::Int32,
                volatility: Volatility::Stable,
            },
            CatalogFunction::PgGetConstraintdef => SignatureV {
                name: "pg_get_constraintdef"@,
                arguments: seq![seq![DataTypeV::Int32], seq![DataTypeV::Int32, DataTypeV::Boolean]],
                returns: DataTypeV::Utf8,
                volatility: Volatility::Stable,
            },
            CatalogFunction::PgPartitionAncestors => SignatureV {
                name: "pg_partition_ancestors"@,
                arguments: seq![seq![DataTypeV::Utf8]],
                returns: DataTypeV::Utf8,
                volatility: Volatility::Stable,
            },
        }
    }

    /// How the function is called.
    pub fn signature(self) -> (r: FunctionSignature)
        ensures
            r@ == self.spec_signature(),
    {
        match self {
            CatalogFunction::CurrentSchemas => FunctionSignature {
                name: "current_schemas",
                arguments: one(DataType::Boolean),
                returns: DataType::List(Box::new(Field::new_list_field(DataType::Utf8, true))),
                volatility: Volatility::Immutable,
            },
            CatalogFunction::CurrentSchema => FunctionSignature {
                name: "current_schema",
                arguments: none(),
                returns: DataType::Utf8,
                volatility: Volatility::Immutable,
            },
            CatalogFunction::CurrentDatabase => FunctionSignature {
                name: "current_database",
                arguments: none(),
                returns: DataType::Utf8,
                volatility: Volatility::Immutable,
            },
            CatalogFunction::PgGetUserbyid => FunctionSignature {
                name: "pg_get_userbyid",
                arguments: one(DataType::Int32),
                returns: DataType::Utf8,
                volatility: Volatility::Stable,
            },
            CatalogFunction::PgTableIsVisible => FunctionSignature {
                name: "pg_table_is_visible",
                arguments: one(DataType::Int32),
                returns: DataType::Boolean,
                volatility: Volatility::Stable,
            },
            CatalogFunction::SessionUser => FunctionSignature {
                name: "session_user",
                arguments: none(),
                returns: DataType::Utf8,
                volatility: Volatility::Stable,
            },
            CatalogFunction::PgGetPartkeydef => FunctionSignature {
                name: "pg_get_partkeydef",
                arguments: one(DataType::Utf8),
                returns: DataType::Utf8,
                volatility: Volatility::Stable,
            },
            CatalogFunction::PgRelationIsPublishable => FunctionSignature {
                name: "pg_relation_is_publishable",
                arguments: one(DataType::Int32),
                returns: DataType::Boolean,
                volatility: Volatility::Stable,
            },
            CatalogFunction::PgGetStatisticsobjdefColumns => FunctionSignature {
                name: "pg_get_statisticsobjdef_columns",
                arguments: one(DataType::Int32),
                returns: DataType::Utf8,
                volatility: Volatility::Stable,
            },
            CatalogFunction::PgEncodingToChar => FunctionSignature {
                name: "pg_encoding_to_char",
                arguments: one(DataType::Int32),
                returns: DataType::Utf8,
                volatility: Volatility::Stable,
            },
            CatalogFunction::PgBackendPid => FunctionSignature {
                name: "pg_backend_pid",
                arguments: none(),
                returns: DataType::Int32,
                volatility: Volatility::Stable,
            },
            CatalogFunction::PgRelationSize => FunctionSignature {
                name: "pg_relation_size",
                arguments: one(DataType::Int32),
                returns: DataType::Int32,
                volatility: Volatility::Stable,
            },
            CatalogFunction::PgTotalRelationSize => FunctionSignature {
                name: "pg_total_relation_size",
                arguments: one(DataType::Int32),
                returns: DataType::Int32,
                volatility: Volatility::Stable,
            },
            CatalogFunction::PgStatGetNumscans => FunctionSignature {
                name: "pg_stat_get_numscans",
                arguments: one(DataType::Int32),
                returns: DataType::Int32,
                volatility: Volatility::Stable,
            },
            CatalogFunction::PgGetConstraintdef => FunctionSignature {
                name: "pg_get_constraintdef",
                arguments: one_or_two(DataType::Int32, DataType::Boolean),
                returns: DataType::Utf8,
                volatility: Volatility::Stable,
            },
            CatalogFunction::PgPartitionAncestors => FunctionSignature {
                name: "pg_partition_ancestors",
                arguments: one(DataType::Utf8),
                returns: DataType::Utf8,
                volatility: Volatility::Stable,
            },
        }
    }
}

/// A call without arguments.
fn none() -> (r: Vec<Vec<DataType>>)
    ensures
        r@.map_values(|v: Vec<DataType>| types_view(v@)) == seq![Seq::<DataTypeV>::empty()],
{
    let arguments: Vec<DataType> = Vec::new();
    assert(types_view(arguments@) == Seq::<DataTypeV>::empty());
    vec![arguments]
}

/// A call with one argument.
fn one(t: DataType) -> (r: Vec<Vec<DataType>>)
    ensures
        r@.map_values(|v: Vec<DataType>| types_view(v@)) == seq![seq![t@]],
{
    let arguments: Vec<DataType> = vec![t];
    assert(types_view(arguments@) == seq![t@]);
    vec![arguments]
}

/// A call with one argument of the first type, and with a second argument or without.
fn one_or_two(t: DataType, u: DataType) -> (r: Vec<Vec<DataType>>)
    ensures
        r@.map_values(|v: Vec<DataType>| types_view(v@)) == seq![seq![t@], seq![t@, u@]],
{
    let short: Vec<DataType> = vec![t.copy()];
    let long: Vec<DataType> = vec![t, u];
    assert(types_view(short@) == seq![t@]);
    assert(types_view(long@) == seq![t@, u@]);
    vec![short, long]
}

/// `current_schemas`: the schema that names are looked up in, and, where they are asked
/// for, those that are always looked up in.
pub fn current_schemas(include_implicit: bool) -> (r: Vec<String>)
    ensures
        text::views(r@) == (if include_implicit {
            seq!["public"@, "information_schema"@, "pg_catalog"@]
        } else {
            seq!["public"@]
        }),
{
    let mut schemas: Vec<String> = vec!["public".to_owned()];
    if include_implicit {
        schemas.push("information_schema".to_owned());
        schemas.push("pg_catalog".to_owned());
    }
    assert(text::views(schemas@) == (if include_implicit {
        seq!["public"@, "information_schema"@, "pg_catalog"@]
    } else {
        seq!["public"@]
    }));
    schemas
}

/// `current_schema`.
pub fn current_schema() -> (r: String)
    ensures
        r@ == "public"@,
{
    "public".to_owned()
}

/// `current_database`: the catalog that the session was set up with.
pub fn current_database(database_name: &str) -> (r: String)
    ensures
        r@ == database_name@,
{
    database_name.to_owned()
}

/// The name of the one user that there is.
pub fn session_user() -> (r: String)
    ensures
        r@ == "postgres"@,
{
    "postgres".to_owned()
}

/// A text in every row.
fn repeat_text(value: &str, rows: usize) -> (r: Vec<String>)
    ensures
        text::views(r@) == Seq::new(rows as nat, |i: int| value@),
{
    let mut out: Vec<String> = Vec::new();
    while out.len() < rows
        invariant
            out@.len() <= rows,
            forall|i: int| 0 <= i < out@.len() ==> (#[trigger] out@[i])@ == value@,
        decreases rows - out@.len(),
    {
        out.push(value.to_owned());
    }
    assert(text::views(out@) == Seq::new(rows as nat, |i: int| value@));
    out
}

fn repeat_true(rows: usize) -> (r: Vec<bool>)
    ensures
        r@ == Seq::new(rows as nat, |i: int| true),
{
    let mut out: Vec<bool> = Vec::new();
    while out.len() < rows
        invariant
            out@.len() <= rows,
            forall|i: int| 0 <= i < out@.len() ==> out@[i],
        decreases rows - out@.len(),
    {
        out.push(true);
    }
    out
}

fn repeat_zero(rows: usize) -> (r: Vec<i32>)
    ensures
        r@ == Seq::new(rows as nat, |i: int| 0i32),
{
    let mut out: Vec<i32> = Vec::new();
    while out.len() < rows
        invariant
            out@.len() <= rows,
            forall|i: int| 0 <= i < out@.len() ==> out@[i] == 0,
        decreases rows - out@.len(),
    {
        out.push(0);
    }
    out
}

/// `pg_get_userbyid`: the one user, whatever the oid.
pub fn pg_get_userbyid(rows: usize) -> (r: Vec<String>)
    ensures
        text::views(r@) == Seq::new(rows as nat, |i: int| "postgres"@),
{
    repeat_text("postgres", rows)
}

/// `pg_table_is_visible`: every table is.
pub fn pg_table_is_visible(rows: usize) -> (r: Vec<bool>)
    ensures
        r@ == Seq::new(rows as nat, |i: int| true),
{
    repeat_true(rows)
}

/// `pg_get_partkeydef`: no table has partitions.
pub fn pg_get_partkeydef(rows: usize) -> (r: Vec<String>)
    ensures
        text::views(r@) == Seq::new(rows as nat, |i: int| ""@),
{
    repeat_text("", rows)
}

/// `pg_relation_is_publishable`: every relation is.
pub fn pg_relation_is_publishable(rows: usize) -> (r: Vec<bool>)
    ensures
        r@ == Seq::new(rows as nat, |i: int| true),
{
    repeat_true(rows)
}

/// `pg_get_statisticsobjdef_columns`: null in every row.
pub fn pg_get_statisticsobjdef_columns(rows: usize) -> (r: Vec<Option<String>>)
    ensures
        r@ == Seq::new(rows as nat, |i: int| None::<String>),
{
    let mut out: Vec<Option<String>> = Vec::new();
    while out.len() < rows
        invariant
            out@.len() <= rows,
            forall|i: int| 0 <= i < out@.len() ==> (#[trigger] out@[i]) is None,
        decreases rows - out@.len(),
    {
        out.push(None);
    }
    assert(out@ =~= Seq::new(rows as nat, |i: int| None::<String>));
    out
}

/// The number of the encoding UTF-8.
pub const UTF8_ENCODING: i32 = 6;

/// `pg_encoding_to_char`: the name of UTF-8, and null for every other encoding.
pub fn pg_encoding_to_char(encodings: &Vec<i32>) -> (r: Vec<Option<String>>)
    ensures
        wire::opt_texts(r@) == encodings@.map_values(
            |e: i32|
                if e == UTF8_ENCODING {
                    Some("UTF-8"@)
                } else {
                    None
                },
        ),
{
    let mut out: Vec<Option<String>> = Vec::new();
    let mut i: usize = 0;
    while i < encodings.len()
        invariant
            i <= encodings@.len(),
            out@.len() == i,
            forall|j: int|
                0 <= j < i ==> schema::opt_text(#[trigger] out@[j]) == (if encodings@[j]
                    == UTF8_ENCODING {
                    Some("UTF-8"@)
                } else {
                    None
                }),
        decreases encodings@.len() - i,
    {
        if encodings[i] == UTF8_ENCODING {
            out.push(Some("UTF-8".to_owned()));
        } else {
            out.push(None);
        }
        i += 1;
    }
    assert(wire::opt_texts(out@) =~= encodings@.map_values(
        |e: i32|
            if e == UTF8_ENCODING {
                Some("UTF-8"@)
            } else {
                None
            },
    )) by {
        assert forall|j: int| 0 <= j < out@.len() implies wire::opt_texts(out@)[j]
            == schema::opt_text(#[trigger] out@[j]) by {}
    }
    out
}

/// The process number that every session has.
pub const BACKEND_PID: i32 = 1;

/// `pg_backend_pid`.
pub fn pg_backend_pid() -> (r: i32)
    ensures
        r == BACKEND_PID,
{
    BACKEND_PID
}

/// `pg_relation_size`: no relation has a size.
pub fn pg_relation_size(rows: usize) -> (r: Vec<i32>)
    ensures
        r@ == Seq::new(rows as nat, |i: int| 0i32),
{
    repeat_zero(rows)
}

/// `pg_total_relation_size`: no relation has a size.
pub fn pg_total_relation_size(rows: usize) -> (r: Vec<i32>)
    ensures
        r@ == Seq::new(rows as nat, |i: int| 0i32),
{
    repeat_zero(rows)
}

/// `pg_stat_get_numscans`: no index was scanned.
pub fn pg_stat_get_numscans(rows: usize) -> (r: Vec<i32>)
    ensures
        r@ == Seq::new(rows as nat, |i: int| 0i32),
{
    repeat_zero(rows)
}

/// `pg_get_constraintdef`: no constraint has a definition.
pub fn pg_get_constraintdef(rows: usize) -> (r: Vec<String>)
    ensures
        text::views(r@) == Seq::new(rows as nat, |i: int| ""@),
{
    repeat_text("", rows)
}

/// `pg_partition_ancestors`: each table alone, as no table has partitions.
pub fn pg_partition_ancestors(tables: &Vec<Option<String>>) -> (r: Vec<Option<String>>)
    ensures
        r@ == tables@,
{
    let mut out: Vec<Option<String>> = Vec::new();
    let mut i: usize = 0;
    while i < tables.len()
        invariant
            i <= tables@.len(),
            out@ == tables@.take(i as int),
        decreases tables@.len() - i,
    {
        out.push(schema::copy_opt_text(&tables[i]));
        assert(tables@.take(i + 1) == tables@.take(i as int).push(tables@[i as int]));
        i += 1;
    }
    assert(tables@.take(i as int) == tables@);
    out
}

} // verus!
