//! What the catalog holds, told by the names of its relations, functions and types.
use crate::datatypes;
use crate::pg_catalog;
use crate::pg_catalog::functions::{CatalogFunction, Volatility};
use crate::pg_catalog::oid;
use crate::pg_catalog::oid::OidKeyV;
use crate::pg_catalog::oid_type_planner;
use crate::pg_catalog::oid_type_planner::SqlTypeV;
use crate::pg_catalog::pgvector;
use crate::pg_catalog::TableKind;
use crate::scalar::ScalarV;
use crate::schema;
use crate::schema::{DataTypeV, FieldV};
use crate::sql::tree::{IdentV, PartV};
use crate::text;
use crate::type_laws;
use vstd::prelude::*;

verus! {

/// The relations whose rows are those of the session at the time of the query.
pub open spec fn session_relations() -> Seq<Seq<char>> {
    seq![
        "pg_attribute"@,
        "pg_class"@,
        "pg_database"@,
        "pg_namespace"@,
        "pg_roles"@,
        "pg_settings"@,
        "pg_stat_gssapi"@,
        "pg_tables"@,
    ]
}

/// The relations that never have rows.
pub open spec fn empty_relations() -> Seq<Seq<char>> {
    seq![
        "pg_views"@,
        "pg_matviews"@,
        "pg_stat_user_tables"@,
        "pg_replication_slots"@,
    ]
}

/// The relations whose rows never change.
pub open spec fn constant_relations() -> Seq<Seq<char>> {
    seq![
        "pg_aggregate"@,
        "pg_am"@,
        "pg_amop"@,
        "pg_amproc"@,
        "pg_cast"@,
        "pg_collation"@,
        "pg_conversion"@,
        "pg_language"@,
        "pg_opclass"@,
        "pg_operator"@,
        "pg_opfamily"@,
        "pg_proc"@,
        "pg_range"@,
        "pg_ts_config"@,
        "pg_ts_dict"@,
        "pg_ts_parser"@,
        "pg_ts_template"@,
        "pg_type"@,
        "pg_attrdef"@,
        "pg_auth_members"@,
        "pg_authid"@,
        "pg_constraint"@,
        "pg_db_role_setting"@,
        "pg_default_acl"@,
        "pg_depend"@,
        "pg_description"@,
        "pg_enum"@,
        "pg_event_trigger"@,
        "pg_extension"@,
        "pg_foreign_data_wrapper"@,
        "pg_foreign_server"@,
        "pg_foreign_table"@,
        "pg_index"@,
        "pg_inherits"@,
        "pg_init_privs"@,
        "pg_largeobject"@,
        "pg_largeobject_metadata"@,
        "pg_partitioned_table"@,
        "pg_policy"@,
        "pg_publication"@,
        "pg_publication_namespace"@,
        "pg_publication_rel"@,
        "pg_replication_origin"@,
        "pg_rewrite"@,
        "pg_seclabel"@,
        "pg_sequence"@,
        "pg_shdepend"@,
        "pg_shdescription"@,
        "pg_shseclabel"@,
        "pg_statistic"@,
        "pg_statistic_ext"@,
        "pg_statistic_ext_data"@,
        "pg_subscription"@,
        "pg_subscription_rel"@,
        "pg_tablespace"@,
        "pg_trigger"@,
        "pg_user_mapping"@,
    ]
}

/// The relations that tell of the session are read from it, those of views, replication and
/// statistics are empty, and the others hold what Postgres starts with. There are no more.
pub proof fn law_relations_have_their_rows(i: int)
    ensures
        0 <= i < session_relations().len() ==> pg_catalog::catalog_tables().contains(
            (session_relations()[i], TableKind::Dynamic),
        ),
        0 <= i < empty_relations().len() ==> pg_catalog::catalog_tables().contains(
            (empty_relations()[i], TableKind::Empty),
        ),
        0 <= i < constant_relations().len() ==> pg_catalog::catalog_tables().contains(
            (constant_relations()[i], TableKind::Static),
        ),
        pg_catalog::catalog_tables().len() == session_relations().len() + empty_relations().len()
            + constant_relations().len(),
{
    let all = pg_catalog::catalog_tables();
    let places_of_session: Seq<int> = seq![18, 22, 24, 40, 61, 62, 63, 64];
    let places_of_empty: Seq<int> = seq![65, 66, 67, 68];
    let places_of_constant: Seq<int> = seq![0, 1, 2, 3, 4, 5, 6, 7, 8, 9, 10, 11, 12, 13, 14, 15, 16, 17, 19, 20, 21, 23, 25, 26, 27, 28, 29, 30, 31, 32, 33, 34, 35, 36, 37, 38, 39, 41, 42, 43, 44, 45, 46, 47, 48, 49, 50, 51, 52, 53, 54, 55, 56, 57, 58, 59, 60];
    if 0 <= i < session_relations().len() {
        assert(all[places_of_session[i]] == (session_relations()[i], TableKind::Dynamic));
    }
    if 0 <= i < empty_relations().len() {
        assert(all[places_of_empty[i]] == (empty_relations()[i], TableKind::Empty));
    }
    if 0 <= i < constant_relations().len() {
        assert(all[places_of_constant[i]] == (constant_relations()[i], TableKind::Static));
    }
}

/// A name is that of a relation where it differs from one at most in the case of its ASCII
/// letters, and the first such relation is meant.
pub proof fn law_relations_are_named(name: Seq<char>, i: int)
    requires
        0 <= i < pg_catalog::catalog_tables().len(),
    ensures
        ({
            let all = pg_catalog::catalog_tables();
            let named = |j: int| text::same_ignoring_ascii_case(all[j].0, name);
            &&& named(i) ==> pg_catalog::is_catalog_table(name)
            &&& named(i) && (forall|j: int| 0 <= j < i ==> !#[trigger] named(j))
                ==> pg_catalog::table_named(name) == Some(all[i])
            &&& (forall|j: int| 0 <= j < all.len() ==> !#[trigger] named(j))
                ==> !pg_catalog::is_catalog_table(name) && pg_catalog::table_named(name) is None
        }),
{
    let all = pg_catalog::catalog_tables();
    let named = |j: int| text::same_ignoring_ascii_case(all[j].0, name);
    if named(i) {
        assert(pg_catalog::names_table(name, i));
    }
    if forall|j: int| 0 <= j < i ==> !#[trigger] named(j) {
        assert forall|j: int| 0 <= j < i implies !text::same_ignoring_ascii_case(
            (#[trigger] pg_catalog::catalog_tables()[j]).0,
            name,
        ) by {
            assert(!named(j));
        }
        lemma_first_named(name, 0, i);
    }
    if forall|j: int| 0 <= j < all.len() ==> !#[trigger] named(j) {
        assert forall|j: int| !pg_catalog::names_table(name, j) by {
            if 0 <= j < all.len() {
                assert(!named(j));
            }
        }
        pg_catalog::law_exists_iff_built(name);
    }
}

proof fn lemma_first_named(name: Seq<char>, from: int, i: int)
    requires
        0 <= from <= i < pg_catalog::catalog_tables().len(),
        forall|j: int|
            from <= j < i ==> !text::same_ignoring_ascii_case(
                (#[trigger] pg_catalog::catalog_tables()[j]).0,
                name,
            ),
    ensures
        text::same_ignoring_ascii_case(pg_catalog::catalog_tables()[i].0, name)
            ==> pg_catalog::first_named(name, from) == Some(i),
    decreases i - from,
{
    if from < i {
        assert(!text::same_ignoring_ascii_case(pg_catalog::catalog_tables()[from].0, name));
        lemma_first_named(name, from + 1, i);
    }
}

/// True of a name in any case.
pub open spec fn reads(name: Seq<char>, word: Seq<char>) -> bool {
    text::same_ignoring_ascii_case(name, word)
}

proof fn lemma_letters(x: Seq<char>, word: Seq<char>)
    requires
        reads(x, word),
    ensures
        x.len() == word.len(),
        x.len() > 0 ==> text::ascii_lower(x[0]) == text::ascii_lower(word[0]),
        x.len() > 1 ==> text::ascii_lower(x[1]) == text::ascii_lower(word[1]),
        x.len() > 3 ==> text::ascii_lower(x[3]) == text::ascii_lower(word[3]),
        x.len() > 5 ==> text::ascii_lower(x[5]) == text::ascii_lower(word[5]),
{
}

/// A built-in type under the schema `pg_catalog` has the column type that holds its values:
/// integers by their number of bytes, floats by their precision, and texts, bytes and truth
/// values as such.
pub proof fn law_built_in_types(schema: IdentV, last: IdentV)
    requires
        reads(schema.value, "pg_catalog"@),
        datatypes::alias_type(text::lowered(last.value)) is None,
        !reads(last.value, "vector"@),
    ensures
        ({
            let t = SqlTypeV::Custom {
                name: seq![PartV::Identifier(schema), PartV::Identifier(last)],
                modifiers: Seq::empty(),
            };
            let x = last.value;
            let r = oid_type_planner::planned(t);
            let is = |d: DataTypeV| r matches Some(f) && f.data_type == d && f.name == ""@
                && f.nullable && f.metadata.len() == 0;
            &&& reads(x, "bool"@) || reads(x, "boolean"@) ==> is(DataTypeV::Boolean)
            &&& reads(x, "int2"@) || reads(x, "smallint"@) ==> is(DataTypeV::Int16)
            &&& reads(x, "int4"@) || reads(x, "integer"@) || reads(x, "int"@) ==> is(
                DataTypeV::Int32,
            )
            &&& reads(x, "int8"@) || reads(x, "bigint"@) ==> is(DataTypeV::Int64)
            &&& reads(x, "float4"@) || reads(x, "real"@) ==> is(DataTypeV::Float32)
            &&& reads(x, "float8"@) ==> is(DataTypeV::Float64)
            &&& reads(x, "text"@) || reads(x, "varchar"@) || reads(x, "bpchar"@) || reads(
                x,
                "char"@,
            ) || reads(x, "name"@) ==> is(DataTypeV::Utf8)
            &&& reads(x, "bytea"@) ==> is(DataTypeV::Binary)
            &&& r matches Some(f) ==> f.data_type is Boolean || f.data_type is Int16 || f.data_type
                is Int32 || f.data_type is Int64 || f.data_type is Float32 || f.data_type is Float64
                || f.data_type is Utf8 || f.data_type is Binary
        }),
{
    let x = last.value;
    reveal_strlit("bool");
    reveal_strlit("boolean");
    reveal_strlit("int2");
    reveal_strlit("smallint");
    reveal_strlit("int4");
    reveal_strlit("integer");
    reveal_strlit("int");
    reveal_strlit("int8");
    reveal_strlit("bigint");
    reveal_strlit("float4");
    reveal_strlit("real");
    reveal_strlit("float8");
    reveal_strlit("text");
    reveal_strlit("varchar");
    reveal_strlit("bpchar");
    reveal_strlit("char");
    reveal_strlit("name");
    reveal_strlit("bytea");
    assert("bool"@.len() == 4 && "bool"@[0] == 'b');
    assert("int2"@.len() == 4 && "int2"@[0] == 'i' && "int2"@[3] == '2');
    assert("int4"@.len() == 4 && "int4"@[0] == 'i' && "int4"@[3] == '4');
    assert("int8"@.len() == 4 && "int8"@[0] == 'i' && "int8"@[3] == '8');
    assert("real"@.len() == 4 && "real"@[0] == 'r');
    assert("text"@.len() == 4 && "text"@[0] == 't');
    assert("char"@.len() == 4 && "char"@[0] == 'c');
    assert("name"@.len() == 4 && "name"@[0] == 'n');
    assert("boolean"@.len() == 7 && "boolean"@[0] == 'b');
    assert("integer"@.len() == 7 && "integer"@[0] == 'i');
    assert("varchar"@.len() == 7 && "varchar"@[0] == 'v');
    assert("bigint"@.len() == 6 && "bigint"@[0] == 'b' && "bigint"@[1] == 'i');
    assert("bpchar"@.len() == 6 && "bpchar"@[0] == 'b' && "bpchar"@[1] == 'p');
    assert("float4"@.len() == 6 && "float4"@[0] == 'f' && "float4"@[5] == '4');
    assert("float8"@.len() == 6 && "float8"@[0] == 'f' && "float8"@[5] == '8');
    assert("smallint"@.len() == 8);
    assert("int"@.len() == 3);
    assert("bytea"@.len() == 5);
    if reads(x, "bool"@) {
        lemma_letters(x, "bool"@);
    }
    if reads(x, "boolean"@) {
        lemma_letters(x, "boolean"@);
    }
    if reads(x, "int2"@) {
        lemma_letters(x, "int2"@);
    }
    if reads(x, "smallint"@) {
        lemma_letters(x, "smallint"@);
    }
    if reads(x, "int4"@) {
        lemma_letters(x, "int4"@);
    }
    if reads(x, "integer"@) {
        lemma_letters(x, "integer"@);
    }
    if reads(x, "int"@) {
        lemma_letters(x, "int"@);
    }
    if reads(x, "int8"@) {
        lemma_letters(x, "int8"@);
    }
    if reads(x, "bigint"@) {
        lemma_letters(x, "bigint"@);
    }
    if reads(x, "float4"@) {
        lemma_letters(x, "float4"@);
    }
    if reads(x, "real"@) {
        lemma_letters(x, "real"@);
    }
    if reads(x, "float8"@) {
        lemma_letters(x, "float8"@);
    }
    if reads(x, "text"@) {
        lemma_letters(x, "text"@);
    }
    if reads(x, "varchar"@) {
        lemma_letters(x, "varchar"@);
    }
    if reads(x, "bpchar"@) {
        lemma_letters(x, "bpchar"@);
    }
    if reads(x, "char"@) {
        lemma_letters(x, "char"@);
    }
    if reads(x, "name"@) {
        lemma_letters(x, "name"@);
    }
    if reads(x, "bytea"@) {
        lemma_letters(x, "bytea"@);
    }
    let name = seq![PartV::Identifier(schema), PartV::Identifier(last)];
    assert(name.last() == PartV::Identifier(last));
}

/// An oid alias is a number without marks, whatever its schema. It has no modifiers.
pub proof fn law_oid_aliases(name: Seq<PartV>, x: IdentV)
    requires
        name.len() > 0,
        name.last() == PartV::Identifier(x),
        !reads(x.value, "vector"@),
    ensures
        ({
            let plain = SqlTypeV::Custom { name, modifiers: Seq::empty() };
            type_laws::alias_oid(text::lowered(x.value)) is Some ==> (
            oid_type_planner::planned(plain) matches Some(f) && f.data_type is Int32
                && f.metadata.len() == 0)
        }),
        oid_type_planner::planned(SqlTypeV::Regclass) matches Some(f) && f.data_type is Int32
            && f.metadata.len() == 0,
        oid_type_planner::planned(SqlTypeV::Other) is None,
{
    type_laws::lemma_alias_names();
    assert(type_laws::alias_oid(text::lowered(x.value)) is Some
        ==> datatypes::alias_type(text::lowered(x.value)) is Some);
}

/// A vector of any schema is a list of single-precision numbers, marked as a vector. It has
/// the number of dimensions that its one modifier gives, where that is a positive number.
pub proof fn law_vector_types(name: Seq<PartV>, x: IdentV, modifiers: Seq<Seq<char>>)
    requires
        name.len() > 0,
        name.last() == PartV::Identifier(x),
        reads(x.value, "vector"@),
    ensures
        ({
            let r = oid_type_planner::planned(SqlTypeV::Custom { name, modifiers });
            let n = text::int_text(text::trimmed(modifiers[0]));
            let is_mark = r matches Some(f) && schema::lookup(f.metadata, "pg.vector"@) == Some(
                "vector"@,
            );
            &&& modifiers.len() == 0 ==> is_mark && (r->0.data_type matches DataTypeV::List(item)
                && item.data_type is Float32)
            &&& modifiers.len() == 1 && n is Some && 0 < n->0 <= i32::MAX ==> is_mark && (
            r->0.data_type matches DataTypeV::FixedSizeList(item, size) && item.data_type
                is Float32 && size == n->0)
            &&& modifiers.len() > 1 ==> r is None
            &&& modifiers.len() == 1 && !(n is Some && 0 < n->0 <= i32::MAX) ==> r is None
        }),
{
    reveal_with_fuel(schema::lookup, 2);
    if let Some(f) = oid_type_planner::vector_column(SqlTypeV::Custom { name, modifiers }) {
        assert(f.metadata[0] == ("pg.vector"@, "vector"@));
    }
}

/// A type of another schema or with modifiers that is neither an oid alias nor a vector is
/// left to the planner of SQL.
pub proof fn law_other_types(name: Seq<PartV>, x: IdentV, modifiers: Seq<Seq<char>>)
    requires
        name.len() > 0,
        name.last() == PartV::Identifier(x),
        !reads(x.value, "vector"@),
        modifiers.len() > 0 || type_laws::alias_oid(text::lowered(x.value)) is None && (name.len()
            != 2 || !(name[0] matches PartV::Identifier(s) && reads(s.value, "pg_catalog"@))),
    ensures
        oid_type_planner::planned(SqlTypeV::Custom { name, modifiers }) is None,
{
    type_laws::lemma_alias_names();
    assert(type_laws::alias_oid(text::lowered(x.value)) is None
        ==> datatypes::alias_type(text::lowered(x.value)) is None);
}

/// The functions by name: what they take and what they give. Those that say something of a
/// relation or a user take its oid.
pub proof fn law_functions_are_called(f: CatalogFunction)
    ensures
        ({
            let s = f.spec_signature();
            let none = s.arguments == seq![Seq::<DataTypeV>::empty()];
            let oid = s.arguments == seq![seq![DataTypeV::Int32]];
            let name = s.arguments == seq![seq![DataTypeV::Utf8]];
            &&& f is CurrentSchemas ==> s.name == "current_schemas"@ && s.arguments == seq![
                seq![DataTypeV::Boolean],
            ] && (s.returns matches DataTypeV::List(item) && item.data_type is Utf8)
            &&& f is CurrentSchema ==> s.name == "current_schema"@ && none && s.returns is Utf8
            &&& f is CurrentDatabase ==> s.name == "current_database"@ && none && s.returns is Utf8
            &&& f is SessionUser ==> s.name == "session_user"@ && none && s.returns is Utf8
            &&& f is PgBackendPid ==> s.name == "pg_backend_pid"@ && none && s.returns is Int32
            &&& f is PgGetUserbyid ==> s.name == "pg_get_userbyid"@ && oid && s.returns is Utf8
            &&& f is PgTableIsVisible ==> s.name == "pg_table_is_visible"@ && oid && s.returns
                is Boolean
            &&& f is PgRelationIsPublishable ==> s.name == "pg_relation_is_publishable"@ && oid
                && s.returns is Boolean
            &&& f is PgGetStatisticsobjdefColumns ==> s.name == "pg_get_statisticsobjdef_columns"@
                && oid && s.returns is Utf8
            &&& f is PgEncodingToChar ==> s.name == "pg_encoding_to_char"@ && oid && s.returns
                is Utf8
            &&& f is PgRelationSize ==> s.name == "pg_relation_size"@ && oid && s.returns is Int32
            &&& f is PgTotalRelationSize ==> s.name == "pg_total_relation_size"@ && oid
                && s.returns is Int32
            &&& f is PgStatGetNumscans ==> s.name == "pg_stat_get_numscans"@ && oid && s.returns
                is Int32
            &&& f is PgGetPartkeydef ==> s.name == "pg_get_partkeydef"@ && name && s.returns is Utf8
            &&& f is PgPartitionAncestors ==> s.name == "pg_partition_ancestors"@ && name
                && s.returns is Utf8
            &&& f is PgGetConstraintdef ==> s.name == "pg_get_constraintdef"@ && s.returns is Utf8
                && s.arguments == seq![
                seq![DataTypeV::Int32],
                seq![DataTypeV::Int32, DataTypeV::Boolean],
            ]
            &&& s.volatility == Volatility::Immutable <==> f is CurrentSchemas || f is CurrentSchema
                || f is CurrentDatabase
        }),
{
}

/// The oid of an object: that of the namespace `pg_catalog` is the one that Postgres gives
/// it, and every other object keeps the one that it has or takes the next one, after which
/// the counter stands one further.
pub proof fn law_oids_are_given_out(key: OidKeyV, cache: Map<OidKeyV, u32>, next: u32)
    ensures
        ({
            let r = oid::resolved(key, cache, next);
            let later = oid::next_after(key, cache, next);
            if key matches OidKeyV::Schema(_, s) && s == "pg_catalog"@ {
                r == 11 && later == next
            } else if cache.dom().contains(key) {
                r == cache[key] && later == next
            } else {
                r == next && later as int == (next + 1) % 0x1_0000_0000
            }
        }),
        oid::FIRST_DYNAMIC_OID == 16384,
{
}

/// The row of the type `vector` in `pg_type`: a base type of that name in the namespace
/// `pg_catalog`, with the oid that columns of vectors are announced with. Every other column
/// holds the empty value of its type.
pub proof fn law_vector_row(f: FieldV)
    ensures
        ({
            let v = pgvector::vector_cell(f);
            if f.name == "oid"@ {
                v == ScalarV::Int32(Some(16385))
            } else if f.name == "typname"@ {
                v == ScalarV::Utf8(Some("vector"@))
            } else if f.name == "typtype"@ {
                v == ScalarV::Utf8(Some("b"@))
            } else if f.name == "typnamespace"@ {
                v == ScalarV::Int32(Some(11))
            } else {
                match f.data_type {
                    DataTypeV::Null => v is Null,
                    DataTypeV::Boolean => v == ScalarV::Boolean(Some(false)),
                    DataTypeV::Int16 => v == ScalarV::Int16(Some(0)),
                    DataTypeV::Int32 => v == ScalarV::Int32(Some(0)),
                    DataTypeV::Int64 => v == ScalarV::Int64(Some(0)),
                    DataTypeV::Utf8 => v matches ScalarV::Utf8(Some(s)) && s.len() == 0,
                    DataTypeV::LargeUtf8 => v matches ScalarV::LargeUtf8(Some(s)) && s.len() == 0,
                    _ => pgvector::default_of(f.data_type) is None,
                }
            }
        }),
{
}

/// The row of a relation is made exactly where every column has a type with an empty value,
/// and otherwise the first column without one is the error.
pub proof fn law_first_type_without_default(fields: Seq<FieldV>, i: int)
    requires
        0 <= i <= fields.len(),
        forall|j: int|
            0 <= j < i ==> pgvector::default_of((#[trigger] fields[j]).data_type) is Some,
    ensures
        i < fields.len() && pgvector::default_of(fields[i].data_type) is None
            ==> pgvector::first_without_default(fields, 0) == Some(i),
        i == fields.len() ==> pgvector::first_without_default(fields, 0) is None,
{
    lemma_first_without_default(fields, 0, i);
}

proof fn lemma_first_without_default(fields: Seq<FieldV>, from: int, i: int)
    requires
        0 <= from <= i <= fields.len(),
        forall|j: int|
            0 <= j < i ==> pgvector::default_of((#[trigger] fields[j]).data_type) is Some,
    ensures
        i < fields.len() && pgvector::default_of(fields[i].data_type) is None
            ==> pgvector::first_without_default(fields, from) == Some(i),
        i == fields.len() ==> pgvector::first_without_default(fields, from) is None,
    decreases i - from,
{
    if from < i {
        lemma_first_without_default(fields, from + 1, i);
    }
}

/// A field gets a mark where it has the name, and nothing else of it changes. Other fields
/// are kept.
pub proof fn law_fields_are_marked(
    f: FieldV,
    name: Seq<char>,
    key: Seq<char>,
    value: Seq<char>,
    other: Seq<char>,
)
    ensures
        ({
            let r = pgvector::with_mark(f, name, key, value);
            if f.name == name {
                &&& r.name == f.name && r.data_type == f.data_type && r.nullable == f.nullable
                &&& schema::lookup(r.metadata, key) == Some(value)
                &&& other != key ==> schema::lookup(r.metadata, other) == schema::lookup(
                    f.metadata,
                    other,
                )
            } else {
                r == f
            }
        }),
{
    pgvector::law_entry_is_found(f.metadata, key, value, other);
}

} // verus!
