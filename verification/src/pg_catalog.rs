//! The relations of the `pg_catalog` schema.
use crate::errors::Error;
use crate::text;
use oid::{OidCache, OidCacheKey, OidCounter, FIRST_DYNAMIC_OID};
use vstd::prelude::*;

pub mod catalog_laws;
pub mod functions;
pub mod oid;
pub mod oid_type_planner;
pub mod pgvector;

verus! {

/// Where the rows of a catalog relation come from.
#[derive(Clone, Copy, Debug, PartialEq, Eq, Structural)]
pub enum TableKind {
    /// From the rows that come with the library.
    Static,
    /// From the state of the session's catalog, at the time of the query.
    Dynamic,
    /// The relation never has rows.
    Empty,
}

/// The relations of the `pg_catalog` schema, each with the source of its rows.
pub open spec fn catalog_tables() -> Seq<(Seq<char>, TableKind)> {
    seq![
        ("pg_aggregate"@, TableKind::Static),
        ("pg_am"@, TableKind::Static),
        ("pg_amop"@, TableKind::Static),
        ("pg_amproc"@, TableKind::Static),
        ("pg_cast"@, TableKind::Static),
        ("pg_collation"@, TableKind::Static),
        ("pg_conversion"@, TableKind::Static),
        ("pg_language"@, TableKind::Static),
        ("pg_opclass"@, TableKind::Static),
        ("pg_operator"@, TableKind::Static),
        ("pg_opfamily"@, TableKind::Static),
        ("pg_proc"@, TableKind::Static),
        ("pg_range"@, TableKind::Static),
        ("pg_ts_config"@, TableKind::Static),
        ("pg_ts_dict"@, TableKind::Static),
        ("pg_ts_parser"@, TableKind::Static),
        ("pg_ts_template"@, TableKind::Static),
        ("pg_type"@, TableKind::Static),
        ("pg_attribute"@, TableKind::Dynamic),
        ("pg_attrdef"@, TableKind::Static),
        ("pg_auth_members"@, TableKind::Static),
        ("pg_authid"@, TableKind::Static),
        ("pg_class"@, TableKind::Dynamic),
        ("pg_constraint"@, TableKind::Static),
        ("pg_database"@, TableKind::Dynamic),
        ("pg_db_role_setting"@, TableKind::Static),
        ("pg_default_acl"@, TableKind::Static),
        ("pg_depend"@, TableKind::Static),
        ("pg_description"@, TableKind::Static),
        ("pg_enum"@, TableKind::Static),
        ("pg_event_trigger"@, TableKind::Static),
        ("pg_extension"@, TableKind::Static),
        ("pg_foreign_data_wrapper"@, TableKind::Static),
        ("pg_foreign_server"@, TableKind::Static),
        ("pg_foreign_table"@, TableKind::Static),
        ("pg_index"@, TableKind::Static),
        ("pg_inherits"@, TableKind::Static),
        ("pg_init_privs"@, TableKind::Static),
        ("pg_largeobject"@, TableKind::Static),
        ("pg_largeobject_metadata"@, TableKind::Static),
        ("pg_namespace"@, TableKind::Dynamic),
        ("pg_partitioned_table"@, TableKind::Static),
        ("pg_policy"@, TableKind::Static),
        ("pg_publication"@, TableKind::Static),
        ("pg_publication_namespace"@, TableKind::Static),
        ("pg_publication_rel"@, TableKind::Static),
        ("pg_replication_origin"@, TableKind::Static),
        ("pg_rewrite"@, TableKind::Static),
        ("pg_seclabel"@, TableKind::Static),
        ("pg_sequence"@, TableKind::Static),
        ("pg_shdepend"@, TableKind::Static),
        ("pg_shdescription"@, TableKind::Static),
        ("pg_shseclabel"@, TableKind::Static),
        ("pg_statistic"@, TableKind::Static),
        ("pg_statistic_ext"@, TableKind::Static),
        ("pg_statistic_ext_data"@, TableKind::Static),
        ("pg_subscription"@, TableKind::Static),
        ("pg_subscription_rel"@, TableKind::Static),
        ("pg_tablespace"@, TableKind::Static),
        ("pg_trigger"@, TableKind::Static),
        ("pg_user_mapping"@, TableKind::Static),
        ("pg_roles"@, TableKind::Dynamic),
        ("pg_settings"@, TableKind::Dynamic),
        ("pg_stat_gssapi"@, TableKind::Dynamic),
        ("pg_tables"@, TableKind::Dynamic),
        ("pg_views"@, TableKind::Empty),
        ("pg_matviews"@, TableKind::Empty),
        ("pg_stat_user_tables"@, TableKind::Empty),
        ("pg_replication_slots"@, TableKind::Empty),
    ]
}

/// The relations of the `pg_catalog` schema, each with the source of its rows.
pub fn pg_catalog_tables() -> (r: Vec<(&'static str, TableKind)>)
    ensures
        r@.len() == catalog_tables().len(),
        forall|i: int|
            0 <= i < r@.len() ==> ((#[trigger] r@[i]).0@, r@[i].1) == catalog_tables()[i],
{
    vec![
        ("pg_aggregate", TableKind::Static),
        ("pg_am", TableKind::Static),
        ("pg_amop", TableKind::Static),
        ("pg_amproc", TableKind::Static),
        ("pg_cast", TableKind::Static),
        ("pg_collation", TableKind::Static),
        ("pg_conversion", TableKind::Static),
        ("pg_language", TableKind::Static),
        ("pg_opclass", TableKind::Static),
        ("pg_operator", TableKind::Static),
        ("pg_opfamily", TableKind::Static),
        ("pg_proc", TableKind::Static),
        ("pg_range", TableKind::Static),
        ("pg_ts_config", TableKind::Static),
        ("pg_ts_dict", TableKind::Static),
        ("pg_ts_parser", TableKind::Static),
        ("pg_ts_template", TableKind::Static),
        ("pg_type", TableKind::Static),
        ("pg_attribute", TableKind::Dynamic),
        ("pg_attrdef", TableKind::Static),
        ("pg_auth_members", TableKind::Static),
        ("pg_authid", TableKind::Static),
        ("pg_class", TableKind::Dynamic),
        ("pg_constraint", TableKind::Static),
        ("pg_database", TableKind::Dynamic),
        ("pg_db_role_setting", TableKind::Static),
        ("pg_default_acl", TableKind::Static),
        ("pg_depend", TableKind::Static),
        ("pg_description", TableKind::Static),
        ("pg_enum", TableKind::Static),
        ("pg_event_trigger", TableKind::Static),
        ("pg_extension", TableKind::Static),
        ("pg_foreign_data_wrapper", TableKind::Static),
        ("pg_foreign_server", TableKind::Static),
        ("pg_foreign_table", TableKind::Static),
        ("pg_index", TableKind::Static),
        ("pg_inherits", TableKind::Static),
        ("pg_init_privs", TableKind::Static),
        ("pg_largeobject", TableKind::Static),
        ("pg_largeobject_metadata", TableKind::Static),
        ("pg_namespace", TableKind::Dynamic),
        ("pg_partitioned_table", TableKind::Static),
        ("pg_policy", TableKind::Static),
        ("pg_publication", TableKind::Static),
        ("pg_publication_namespace", TableKind::Static),
        ("pg_publication_rel", TableKind::Static),
        ("pg_replication_origin", TableKind::Static),
        ("pg_rewrite", TableKind::Static),
        ("pg_seclabel", TableKind::Static),
        ("pg_sequence", TableKind::Static),
        ("pg_shdepend", TableKind::Static),
        ("pg_shdescription", TableKind::Static),
        ("pg_shseclabel", TableKind::Static),
        ("pg_statistic", TableKind::Static),
        ("pg_statistic_ext", TableKind::Static),
        ("pg_statistic_ext_data", TableKind::Static),
        ("pg_subscription", TableKind::Static),
        ("pg_subscription_rel", TableKind::Static),
        ("pg_tablespace", TableKind::Static),
        ("pg_trigger", TableKind::Static),
        ("pg_user_mapping", TableKind::Static),
        ("pg_roles", TableKind::Dynamic),
        ("pg_settings", TableKind::Dynamic),
        ("pg_stat_gssapi", TableKind::Dynamic),
        ("pg_tables", TableKind::Dynamic),
        ("pg_views", TableKind::Empty),
        ("pg_matviews", TableKind::Empty),
        ("pg_stat_user_tables", TableKind::Empty),
        ("pg_replication_slots", TableKind::Empty),
    ]
}

/// True of a name that is, but for the case of its ASCII letters, that of
/// relation number `i`.
pub open spec fn names_table(name: Seq<char>, i: int) -> bool {
    &&& 0 <= i < catalog_tables().len()
    &&& text::same_ignoring_ascii_case(catalog_tables()[i].0, name)
}

/// True of the name of a relation of `pg_catalog`, but for the case of its ASCII
/// letters.
pub open spec fn is_catalog_table(name: Seq<char>) -> bool {
    exists|i: int| names_table(name, i)
}

/// A relation of `pg_catalog` by its name, and where its rows come from.
#[derive(Clone, Copy, Debug, PartialEq, Eq)]
pub enum PgCatalogTable {
    Static(&'static str),
    Dynamic(&'static str),
    Empty(&'static str),
}

impl PgCatalogTable {
    /// The name and the source of the rows.
    pub open spec fn entry(self) -> (Seq<char>, TableKind) {
        match self {
            PgCatalogTable::Static(name) => (name@, TableKind::Static),
            PgCatalogTable::Dynamic(name) => (name@, TableKind::Dynamic),
            PgCatalogTable::Empty(name) => (name@, TableKind::Empty),
        }
    }

    /// The relation of a name and a source of rows.
    pub fn new(name: &'static str, kind: TableKind) -> (r: PgCatalogTable)
        ensures
            r.entry() == (name@, kind),
    {
        match kind {
            TableKind::Static => PgCatalogTable::Static(name),
            TableKind::Dynamic => PgCatalogTable::Dynamic(name),
            TableKind::Empty => PgCatalogTable::Empty(name),
        }
    }

    /// The name of the relation.
    pub fn name(&self) -> (r: &'static str)
        ensures
            r@ == self.entry().0,
    {
        match self {
            PgCatalogTable::Static(name) => *name,
            PgCatalogTable::Dynamic(name) => *name,
            PgCatalogTable::Empty(name) => *name,
        }
    }
}

/// The number of the first relation, from number `from` on, that `name` names.
pub open spec fn first_named(name: Seq<char>, from: int) -> Option<int>
    decreases catalog_tables().len() - from,
{
    if from < 0 || from >= catalog_tables().len() {
        None
    } else if names_table(name, from) {
        Some(from)
    } else {
        first_named(name, from + 1)
    }
}

/// The relation that `name` names.
pub open spec fn table_named(name: Seq<char>) -> Option<(Seq<char>, TableKind)> {
    match first_named(name, 0) {
        Some(i) => Some(catalog_tables()[i]),
        None => None,
    }
}

proof fn lemma_first_named(name: Seq<char>, from: int)
    requires
        0 <= from,
    ensures
        match first_named(name, from) {
            Some(i) => from <= i < catalog_tables().len() && names_table(name, i),
            None => forall|j: int| from <= j ==> !names_table(name, j),
        },
    decreases catalog_tables().len() - from,
{
    if from < catalog_tables().len() && !names_table(name, from) {
        lemma_first_named(name, from + 1);
    }
}

/// True when `name` names a relation of `pg_catalog`, in any case.
pub fn is_pg_catalog_table(name: &str) -> (r: bool)
    ensures
        r == is_catalog_table(name@),
{
    let r = find_table(name).is_some();
    proof {
        lemma_first_named(name@, 0);
    }
    r
}

/// The relation that `name` names.
fn find_table(name: &str) -> (r: Option<PgCatalogTable>)
    ensures
        entry_of(r) == table_named(name@),
{
    let tables = pg_catalog_tables();
    let mut i: usize = 0;
    while i < tables.len()
        invariant
            i <= tables@.len(),
            tables@.len() == catalog_tables().len(),
            forall|j: int|
                0 <= j < tables@.len() ==> ((#[trigger] tables@[j]).0@, tables@[j].1)
                    == catalog_tables()[j],
            first_named(name@, 0) == first_named(name@, i as int),
        decreases tables@.len() - i,
    {
        let table = tables[i];
        assert((tables@[i as int].0@, tables@[i as int].1) == catalog_tables()[i as int]);
        if text::eq_ignore_ascii_case(table.0, name) {
            assert(names_table(name@, i as int));
            return Some(PgCatalogTable::new(table.0, table.1));
        }
        assert(!names_table(name@, i as int));
        i += 1;
    }
    None
}

/// The name and the source of the rows of a relation.
pub open spec fn entry_of(t: Option<PgCatalogTable>) -> Option<(Seq<char>, TableKind)> {
    match t {
        Some(t) => Some(t.entry()),
        None => None,
    }
}

/// The `pg_catalog` schema of a session: the oids that its relations share.
pub struct PgCatalogSchemaProvider {
    pub oid_counter: OidCounter,
    pub oid_cache: OidCache,
}

impl PgCatalogSchemaProvider {
    /// A schema that has given out no oid.
    pub fn try_new() -> (r: Result<PgCatalogSchemaProvider, Error>)
        ensures
            r matches Ok(p) && p.oid_counter.next == FIRST_DYNAMIC_OID && p.oid_cache@ == Map::<
                oid::OidKeyV,
                u32,
            >::empty(),
    {
        Ok(PgCatalogSchemaProvider { oid_counter: OidCounter::new(), oid_cache: OidCache::new() })
    }

    /// The names of the relations.
    pub fn table_names(&self) -> (r: Vec<String>)
        ensures
            text::views(r@) == catalog_tables().map_values(|t: (Seq<char>, TableKind)| t.0),
    {
        let tables = pg_catalog_tables();
        let mut names: Vec<String> = Vec::new();
        let mut i: usize = 0;
        while i < tables.len()
            invariant
                i <= tables@.len(),
                names@.len() == i,
                forall|j: int| 0 <= j < i ==> (#[trigger] names@[j])@ == tables@[j].0@,
            decreases tables@.len() - i,
        {
            names.push(tables[i].0.to_owned());
            i += 1;
        }
        assert forall|j: int| 0 <= j < names@.len() implies (#[trigger] names@[j])@
            == catalog_tables()[j].0 by {
            assert((tables@[j].0@, tables@[j].1) == catalog_tables()[j]);
        }
        assert(text::views(names@) == catalog_tables().map_values(
            |t: (Seq<char>, TableKind)| t.0,
        ));
        names
    }

    /// True when `name` names a relation, in any case.
    pub fn table_exist(&self, name: &str) -> (r: bool)
        ensures
            r == is_catalog_table(name@),
    {
        is_pg_catalog_table(name)
    }

    /// The relation that `name` names, in any case.
    pub fn build_table_by_name(&self, name: &str) -> (r: Option<PgCatalogTable>)
        ensures
            entry_of(r) == table_named(name@),
    {
        find_table(name)
    }

    /// The oid of an object, which stays the same from then on.
    pub fn assign_oid(&mut self, key: OidCacheKey) -> (r: u32)
        ensures
            r == oid::resolved(key@, old(self).oid_cache@, old(self).oid_counter.next),
            final(self).oid_counter.next == oid::next_after(
                key@,
                old(self).oid_cache@,
                old(self).oid_counter.next,
            ),
            final(self).oid_cache@ == old(self).oid_cache@.insert(key@, r),
    {
        let oid = oid::resolve_oid(&key, &self.oid_cache, &mut self.oid_counter);
        self.oid_cache.insert(key, oid);
        oid
    }
}

/// A relation can be built exactly where it is said to exist, and it is one of the
/// list, under a name that differs in the case of ASCII letters at most.
pub proof fn law_exists_iff_built(name: Seq<char>)
    ensures
        table_named(name) is Some <==> is_catalog_table(name),
        table_named(name) matches Some(t) ==> catalog_tables().contains(t)
            && text::same_ignoring_ascii_case(t.0, name),
{
    lemma_first_named(name, 0);
}

/// Every listed relation exists, and is built from a source of rows.
pub proof fn law_listed_tables_exist(i: int)
    requires
        0 <= i < catalog_tables().len(),
    ensures
        is_catalog_table(catalog_tables()[i].0),
        table_named(catalog_tables()[i].0) is Some,
{
    assert(names_table(catalog_tables()[i].0, i));
    law_exists_iff_built(catalog_tables()[i].0);
}

/// The case of ASCII letters makes no difference to which relation is named.
pub proof fn law_case_does_not_matter(a: Seq<char>, b: Seq<char>)
    requires
        text::same_ignoring_ascii_case(a, b),
    ensures
        table_named(a) == table_named(b),
{
    lemma_same_first(a, b, 0);
}

proof fn lemma_same_first(a: Seq<char>, b: Seq<char>, from: int)
    requires
        text::same_ignoring_ascii_case(a, b),
    ensures
        first_named(a, from) == first_named(b, from),
    decreases catalog_tables().len() - from,
{
    if 0 <= from < catalog_tables().len() {
        let t = catalog_tables()[from].0;
        if text::same_ignoring_ascii_case(t, a) {
            assert forall|i: int| 0 <= i < t.len() implies text::ascii_lower(#[trigger] t[i])
                == text::ascii_lower(b[i]) by {
                assert(text::ascii_lower(a[i]) == text::ascii_lower(b[i]));
            }
        }
        if text::same_ignoring_ascii_case(t, b) {
            assert forall|i: int| 0 <= i < t.len() implies text::ascii_lower(#[trigger] t[i])
                == text::ascii_lower(a[i]) by {
                assert(text::ascii_lower(a[i]) == text::ascii_lower(b[i]));
            }
        }
        lemma_same_first(a, b, from + 1);
    }
}

} // verus!
