use datafusion_postgres::datatypes::PG_VECTOR_KEY;
use datafusion_postgres::pg_catalog::oid_type_planner::{PgOidTypePlanner, SqlType};
use datafusion_postgres::schema::{DataType, Field};
use datafusion_postgres::sql::tree::{Ident, NamePart};
use sqlparser::ast::{DataType as SQLDataType, Expr, ObjectNamePart, SelectItem, SetExpr, Statement};
use sqlparser::dialect::PostgreSqlDialect;
use sqlparser::parser::Parser;

fn sql_type(t: &SQLDataType) -> SqlType {
    match t {
        SQLDataType::Regclass => SqlType::Regclass,
        SQLDataType::Custom(name, modifiers) => SqlType::Custom {
            name: name
                .0
                .iter()
                .map(|part| match part {
                    ObjectNamePart::Identifier(ident) => {
                        NamePart::Identifier(Ident { value: ident.value.clone(), quote_style: None })
                    }
                    ObjectNamePart::Function(_) => NamePart::Function(0),
                })
                .collect(),
            modifiers: modifiers.clone(),
        },
        _ => SqlType::Other,
    }
}

/// The target type of the cast in `SELECT 'x'::<TYPE> AS c`.
fn cast_target_type(sql: &str) -> SqlType {
    let mut stmts = Parser::parse_sql(&PostgreSqlDialect {}, sql).unwrap();
    let Statement::Query(q) = stmts.remove(0) else {
        panic!("not a query");
    };
    let SetExpr::Select(sel) = *q.body else {
        panic!("not a select");
    };
    let cast = match &sel.projection[0] {
        SelectItem::UnnamedExpr(e) => e,
        SelectItem::ExprWithAlias { expr, .. } => expr,
        other => panic!("unexpected projection {other:?}"),
    };
    let Expr::Cast { data_type, .. } = cast else {
        panic!("not a cast: {cast:?}");
    };
    sql_type(data_type)
}

fn plan(sql: &str) -> Option<Field> {
    PgOidTypePlanner.plan_type_field(&cast_target_type(sql))
}

fn float_item() -> Box<Field> {
    Box::new(Field::new_list_field(DataType::Float32, true))
}

#[test]
fn recognizes_all_oid_alias_type_names() {
    for t in [
        "regclass",
        "regproc",
        "regtype",
        "regnamespace",
        "oid",
        "pg_catalog.regclass",
        "pg_catalog.regtype",
        "regrole",
    ] {
        let field = plan(&format!("SELECT 'x'::{t} AS c")).unwrap();
        assert_eq!(field.data_type, DataType::Int32, "{t}");
        assert!(field.metadata.is_empty(), "{t}");
    }
}

#[test]
fn leaves_non_oid_types_alone() {
    for t in ["int4", "text", "varchar", "timestamp"] {
        assert_eq!(plan(&format!("SELECT 'x'::{t} AS c")), None, "{t}");
    }
}

#[test]
fn pg_catalog_prefix_normalizes_to_kind() {
    for sql in ["regproc", "pg_catalog.regproc"] {
        let field = plan(&format!("SELECT 'x'::{sql} AS c")).unwrap();
        assert_eq!(field.data_type, DataType::Int32, "{sql}");
        assert!(field.metadata.is_empty(), "{sql}");
    }
}

#[test]
fn pg_catalog_builtins_map_to_arrow_types() {
    for (sql, expected) in [
        ("pg_catalog.text", DataType::Utf8),
        ("pg_catalog.varchar", DataType::Utf8),
        ("pg_catalog.bpchar", DataType::Utf8),
        ("pg_catalog.name", DataType::Utf8),
        ("pg_catalog.bool", DataType::Boolean),
        ("pg_catalog.boolean", DataType::Boolean),
        ("pg_catalog.int2", DataType::Int16),
        ("pg_catalog.smallint", DataType::Int16),
        ("pg_catalog.int4", DataType::Int32),
        ("pg_catalog.int8", DataType::Int64),
        ("pg_catalog.bigint", DataType::Int64),
        ("pg_catalog.float4", DataType::Float32),
        ("pg_catalog.real", DataType::Float32),
        ("pg_catalog.float8", DataType::Float64),
        ("pg_catalog.bytea", DataType::Binary),
    ] {
        let field = plan(&format!("SELECT 'x'::{sql} AS c"))
            .unwrap_or_else(|| panic!("{sql} should be handled by the planner"));
        assert_eq!(field.data_type, expected, "{sql}");
        assert!(field.metadata.is_empty(), "{sql}");
    }
}

#[test]
fn pg_catalog_builtin_rejects_non_builtins_and_unknown_schemas() {
    assert_eq!(plan("SELECT 'x'::pg_catalog.some_udt AS c"), None);
    assert_eq!(plan("SELECT 'x'::public.text AS c"), None);
    let field = plan("SELECT 'x'::pg_catalog.regclass AS c").unwrap();
    assert_eq!(field.data_type, DataType::Int32);
    assert!(field.metadata.is_empty());
}

#[test]
fn pg_catalog_builtin_does_not_need_array_arm() {
    assert_eq!(plan("SELECT 'x'::pg_catalog.int2[] AS c"), None);
    let field = plan("SELECT 'x'::pg_catalog.int2 AS c").unwrap();
    assert_eq!(field.data_type, DataType::Int16);
}

#[test]
fn vector_with_dimension_is_fixed_size_list_of_float32() {
    let field = plan("SELECT 'x'::vector(3) AS c").unwrap();
    assert_eq!(field.data_type, DataType::FixedSizeList(float_item(), 3));
    assert_eq!(field.get_metadata(PG_VECTOR_KEY), Some("vector"));
}

#[test]
fn bare_vector_is_a_list_of_float32() {
    let field = plan("SELECT 'x'::vector AS c").unwrap();
    assert_eq!(field.data_type, DataType::List(float_item()));
    assert_eq!(field.get_metadata(PG_VECTOR_KEY), Some("vector"));
}

#[test]
fn vector_with_invalid_dimension_falls_through() {
    assert_eq!(plan("SELECT 'x'::vector(0) AS c"), None);
    assert_eq!(plan("SELECT 'x'::public.my_type AS c"), None);
}

#[test]
fn names_of_types_are_read_in_any_case() {
    assert_eq!(plan("SELECT 'x'::\"RegType\" AS c").unwrap().data_type, DataType::Int32);
    assert_eq!(
        plan("SELECT 'x'::PG_CATALOG.\"TEXT\" AS c").unwrap().data_type,
        DataType::Utf8
    );
    assert_eq!(
        plan("SELECT 'x'::public.\"Vector\"(2) AS c").unwrap().data_type,
        DataType::FixedSizeList(float_item(), 2)
    );
}

#[test]
fn an_alias_with_modifiers_is_none() {
    let t = SqlType::Custom {
        name: vec![NamePart::Identifier(Ident { value: "oid".to_string(), quote_style: None })],
        modifiers: vec!["3".to_string()],
    };
    assert_eq!(PgOidTypePlanner.plan_type_field(&t), None);
}
