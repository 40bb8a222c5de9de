use datafusion_postgres::pg_catalog::functions::{
    current_database, current_schema, current_schemas, pg_backend_pid, pg_encoding_to_char,
    pg_get_constraintdef, pg_get_partkeydef, pg_get_statisticsobjdef_columns, pg_get_userbyid,
    pg_partition_ancestors, pg_relation_is_publishable, pg_relation_size, pg_stat_get_numscans,
    pg_table_is_visible, pg_total_relation_size, session_user, CatalogFunction, Volatility,
};
use datafusion_postgres::pg_catalog::oid::{
    fixed_oid, resolve_oid, OidCache, OidCacheKey, OidCounter,
};
use datafusion_postgres::pg_catalog::pgvector::{
    default_scalar, with_field_metadata, with_pg_vector_support,
};
use datafusion_postgres::pg_catalog::{
    is_pg_catalog_table, PgCatalogSchemaProvider, PgCatalogTable,
};
use datafusion_postgres::scalar::ScalarValue;
use datafusion_postgres::schema::{DataType, Field};

fn schema(catalog: &str, name: &str) -> OidCacheKey {
    OidCacheKey::Schema(catalog.to_string(), name.to_string())
}

#[test]
fn current_database_returns_the_configured_catalog_name() {
    assert_eq!(current_database("my_database"), "my_database");
}

#[test]
fn schema_oid_is_stable_across_pg_attribute_query() {
    let mut provider = PgCatalogSchemaProvider::try_new().unwrap();
    let before = provider.assign_oid(schema("datafusion", "public"));
    // The oids of tables are asked for in between.
    let table = OidCacheKey::Table("datafusion".to_string(), "public".to_string(), "t".to_string());
    let table_oid = provider.assign_oid(table);
    let after = provider.assign_oid(schema("datafusion", "public"));
    assert_eq!(before, after);
    assert_ne!(before, table_oid);
}

#[test]
fn pg_catalog_namespace_keeps_fixed_oid_eleven() {
    let mut provider = PgCatalogSchemaProvider::try_new().unwrap();
    provider.assign_oid(OidCacheKey::Catalog("datafusion".to_string()));
    assert_eq!(provider.assign_oid(schema("datafusion", "pg_catalog")), 11);
    assert_eq!(provider.assign_oid(schema("other", "pg_catalog")), 11);
}

#[test]
fn a_fixed_oid_goes_before_the_cache() {
    let mut cache = OidCache::new();
    let mut counter = OidCounter::new();
    cache.insert(schema("c", "pg_catalog"), 99);
    assert_eq!(fixed_oid(&schema("c", "pg_catalog")), Some(11));
    assert_eq!(fixed_oid(&schema("pg_catalog", "public")), None);
    assert_eq!(resolve_oid(&schema("c", "pg_catalog"), &cache, &mut counter), 11);
    assert_eq!(counter.next, 16384);
}

#[test]
fn the_cache_goes_before_the_counter() {
    let mut cache = OidCache::new();
    let mut counter = OidCounter::new();
    assert_eq!(resolve_oid(&schema("c", "public"), &cache, &mut counter), 16384);
    assert_eq!(resolve_oid(&schema("c", "public"), &cache, &mut counter), 16385);
    cache.insert(schema("c", "public"), 16384);
    assert_eq!(resolve_oid(&schema("c", "public"), &cache, &mut counter), 16384);
    assert_eq!(counter.next, 16386);
    cache.insert(schema("d", "other"), 8);
    cache.insert(schema("c", "public"), 7);
    assert_eq!(cache.get(&schema("c", "public")), Some(7));
    assert_eq!(cache.get(&schema("d", "other")), Some(8));
    assert_eq!(cache.get(&schema("d", "public")), None);
}

#[test]
fn the_counter_wraps() {
    let mut counter = OidCounter { next: u32::MAX };
    assert_eq!(counter.allocate(), u32::MAX);
    assert_eq!(counter.allocate(), 0);
}

#[test]
fn relations_are_found_in_any_case() {
    let provider = PgCatalogSchemaProvider::try_new().unwrap();
    assert!(provider.table_exist("PG_Class"));
    assert!(!provider.table_exist("pg_classes"));
    assert!(is_pg_catalog_table("pg_type"));
    assert_eq!(
        provider.build_table_by_name("PG_TYPE"),
        Some(PgCatalogTable::Static("pg_type"))
    );
    assert_eq!(
        provider.build_table_by_name("pg_class"),
        Some(PgCatalogTable::Dynamic("pg_class"))
    );
    assert_eq!(
        provider.build_table_by_name("pg_views"),
        Some(PgCatalogTable::Empty("pg_views"))
    );
    assert_eq!(provider.build_table_by_name("items"), None);
}

#[test]
fn every_listed_relation_is_built() {
    let provider = PgCatalogSchemaProvider::try_new().unwrap();
    let names = provider.table_names();
    assert_eq!(names.len(), 69);
    for name in &names {
        assert!(provider.table_exist(name));
        assert_eq!(provider.build_table_by_name(name).unwrap().name(), name.as_str());
    }
    let count = |t: fn(&PgCatalogTable) -> bool| {
        names.iter().filter(|n| t(&provider.build_table_by_name(n).unwrap())).count()
    };
    assert_eq!(count(|t| matches!(t, PgCatalogTable::Dynamic(_))), 8);
    assert_eq!(count(|t| matches!(t, PgCatalogTable::Empty(_))), 4);
}

#[test]
fn schemas_with_the_implicit_ones() {
    assert_eq!(current_schemas(false), vec!["public"]);
    assert_eq!(current_schemas(true), vec!["public", "information_schema", "pg_catalog"]);
    assert_eq!(current_schema(), "public");
    assert_eq!(session_user(), "postgres");
}

#[test]
fn functions_give_one_value_for_each_row() {
    assert_eq!(pg_get_userbyid(2), vec!["postgres", "postgres"]);
    assert_eq!(pg_table_is_visible(3), vec![true, true, true]);
    assert_eq!(pg_relation_is_publishable(1), vec![true]);
    assert_eq!(pg_get_partkeydef(2), vec!["", ""]);
    assert_eq!(pg_get_constraintdef(1), vec![""]);
    assert_eq!(pg_get_statisticsobjdef_columns(2), vec![None, None]);
    assert_eq!(pg_relation_size(2), vec![0, 0]);
    assert_eq!(pg_total_relation_size(0), Vec::<i32>::new());
    assert_eq!(pg_stat_get_numscans(1), vec![0]);
    assert_eq!(pg_backend_pid(), 1);
}

#[test]
fn only_utf8_has_a_name() {
    assert_eq!(
        pg_encoding_to_char(&vec![6, 0, 6]),
        vec![Some("UTF-8".to_string()), None, Some("UTF-8".to_string())]
    );
}

#[test]
fn a_table_is_its_own_ancestor() {
    let tables = vec![Some("a".to_string()), None];
    assert_eq!(pg_partition_ancestors(&tables), tables);
}

#[test]
fn signatures_of_functions() {
    let s = CatalogFunction::CurrentSchemas.signature();
    assert_eq!(s.name, "current_schemas");
    assert_eq!(s.arguments, vec![vec![DataType::Boolean]]);
    assert_eq!(
        s.returns,
        DataType::List(Box::new(Field::new_list_field(DataType::Utf8, true)))
    );
    assert_eq!(s.volatility, Volatility::Immutable);
    let s = CatalogFunction::PgGetConstraintdef.signature();
    assert_eq!(s.name, "pg_get_constraintdef");
    assert_eq!(
        s.arguments,
        vec![vec![DataType::Int32], vec![DataType::Int32, DataType::Boolean]]
    );
    assert_eq!(s.volatility, Volatility::Stable);
    let s = CatalogFunction::PgBackendPid.signature();
    assert_eq!(s.arguments, vec![Vec::new()]);
    assert_eq!(s.returns, DataType::Int32);
}

#[test]
fn the_vector_type_in_pg_type() {
    let fields = vec![
        Field::new("oid", DataType::Int32, true),
        Field::new("typname", DataType::Utf8, true),
        Field::new("typnamespace", DataType::Int32, true),
        Field::new("typtype", DataType::Utf8, true),
        Field::new("typlen", DataType::Int16, true),
        Field::new("typbyval", DataType::Boolean, true),
    ];
    let (marked, row) = with_pg_vector_support(&fields).unwrap();
    assert_eq!(marked.len(), 6);
    assert_eq!(marked[3].get_metadata("pg.char"), Some("char"));
    assert_eq!(marked[0].get_metadata("pg.char"), None);
    assert_eq!(
        row,
        vec![
            ScalarValue::Int32(Some(16385)),
            ScalarValue::Utf8(Some("vector".to_string())),
            ScalarValue::Int32(Some(11)),
            ScalarValue::Utf8(Some("b".to_string())),
            ScalarValue::Int16(Some(0)),
            ScalarValue::Boolean(Some(false)),
        ]
    );
}

#[test]
fn a_column_without_a_default_is_an_error() {
    let fields = vec![
        Field::new("oid", DataType::Int32, true),
        Field::new("x", DataType::Float32, true),
        Field::new("y", DataType::Float64, true),
    ];
    let error = with_pg_vector_support(&fields).unwrap_err();
    assert_eq!(error.data_type, DataType::Float32);
    assert_eq!(default_scalar(&DataType::Null).unwrap(), ScalarValue::Null);
    assert_eq!(
        default_scalar(&DataType::LargeUtf8).unwrap(),
        ScalarValue::LargeUtf8(Some(String::new()))
    );
}

#[test]
fn an_entry_of_metadata_replaces_the_one_before() {
    let mut field = Field::new("a", DataType::Utf8, true);
    field.metadata.push(("k".to_string(), "old".to_string()));
    field.metadata.push(("l".to_string(), "kept".to_string()));
    let fields = with_field_metadata(&vec![field], "a", "k", "new");
    assert_eq!(fields[0].get_metadata("k"), Some("new"));
    assert_eq!(fields[0].get_metadata("l"), Some("kept"));
    assert_eq!(fields[0].metadata.len(), 2);
}
