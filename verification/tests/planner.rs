use datafusion_postgres::datatypes::{
    pg_vector_type, Builtin, Type, PG_OID_ALIAS_KEY, PG_VECTOR_KEY,
};
use datafusion_postgres::errors::Error;
use datafusion_postgres::planner::{
    entry_wire_types, get_inferred_parameter_types, ordered_param_types,
    ordered_parameter_entries, parameter_override_types, parameter_visits, parameter_wire_types,
    PlanExpr,
};
use datafusion_postgres::schema::{DataType, Field};

fn placeholder(id: &str, field: Option<Field>) -> PlanExpr {
    PlanExpr::Placeholder { id: id.to_string(), field }
}

fn cast(data_type: DataType, expr: PlanExpr) -> PlanExpr {
    PlanExpr::Cast { data_type, expr: Box::new(expr) }
}

fn vector_field() -> Field {
    let list =
        DataType::FixedSizeList(Box::new(Field::new_list_field(DataType::Float32, true)), 3);
    let mut field = Field::new("embedding", list, false);
    field.metadata.push((PG_VECTOR_KEY.to_string(), "vector".to_string()));
    field
}

fn regclass_field() -> Field {
    let mut field = Field::new("rel", DataType::Int32, true);
    field.metadata.push((PG_OID_ALIAS_KEY.to_string(), "regclass".to_string()));
    field
}

fn named(types: Vec<(&str, Option<DataType>)>) -> Vec<(String, Option<DataType>)> {
    types.into_iter().map(|(id, t)| (id.to_string(), t)).collect()
}

#[test]
fn test_ordered_param_types_sorts_placeholders_numerically() {
    let orders = [["$1", "$2", "$10"], ["$10", "$2", "$1"], ["$2", "$10", "$1"]];
    for order in orders {
        let params = order
            .iter()
            .map(|id| {
                let data_type = match *id {
                    "$1" => DataType::Boolean,
                    "$2" => DataType::Int64,
                    _ => DataType::Utf8,
                };
                (id.to_string(), Some(data_type))
            })
            .collect();

        assert_eq!(
            ordered_param_types(&params),
            vec![
                Some(DataType::Boolean),
                Some(DataType::Int64),
                Some(DataType::Utf8)
            ]
        );
    }
}

#[test]
fn parameters_without_a_number_come_last() {
    let params = named(vec![("$x", None), ("$3", Some(DataType::Int8)), ("$", None)]);
    let ordered = ordered_parameter_entries(&params);
    assert_eq!(ordered.len(), 3);
    assert_eq!(ordered[0], ("$3".to_string(), Some(DataType::Int8)));
}

#[test]
fn the_last_cast_counts() {
    let plan = vec![
        cast(DataType::Int32, placeholder("$1", None)),
        PlanExpr::Other {
            exprs: vec![cast(DataType::Int64, placeholder("$1", None)), placeholder("$2", None)],
        },
        placeholder("$1", None),
    ];
    let types = get_inferred_parameter_types(
        named(vec![("$1", None), ("$2", None), ("$3", Some(DataType::Utf8))]),
        &plan,
    );
    assert_eq!(
        types,
        named(vec![("$1", Some(DataType::Int64)), ("$2", None), ("$3", Some(DataType::Utf8))])
    );
}

#[test]
fn known_types_stay() {
    let plan = vec![
        cast(DataType::Int32, placeholder("$1", None)),
        cast(DataType::Int32, placeholder("$2", None)),
    ];
    let types = get_inferred_parameter_types(
        named(vec![("$1", Some(DataType::Float64)), ("$2", None)]),
        &plan,
    );
    assert_eq!(
        types,
        named(vec![("$1", Some(DataType::Float64)), ("$2", Some(DataType::Int32))])
    );
}

#[test]
fn casts_of_other_expressions_tell_nothing() {
    let plan = vec![cast(
        DataType::Int32,
        PlanExpr::Other { exprs: vec![placeholder("$1", None)] },
    )];
    assert_eq!(parameter_visits(&plan).len(), 1);
    assert_eq!(
        get_inferred_parameter_types(named(vec![("$1", None)]), &plan),
        named(vec![("$1", None)])
    );
}

#[test]
fn columns_decide_on_wire_types() {
    let plan = vec![
        placeholder("$2", Some(vector_field())),
        placeholder("$1", Some(regclass_field())),
        placeholder("$3", Some(Field::new("n", DataType::Int64, true))),
    ];
    let overrides = parameter_override_types(&plan);
    assert_eq!(
        overrides,
        vec![
            ("$2".to_string(), pg_vector_type()),
            ("$1".to_string(), Type::Builtin(Builtin::REGCLASS))
        ]
    );
    let types = named(vec![
        ("$3", Some(DataType::Int64)),
        ("$2", Some(vector_field().data_type)),
        ("$1", Some(DataType::Int32)),
    ]);
    assert_eq!(
        parameter_wire_types(types, &plan).unwrap(),
        vec![
            Type::Builtin(Builtin::REGCLASS),
            pg_vector_type(),
            Type::Builtin(Builtin::INT8)
        ]
    );
}

#[test]
fn the_last_column_counts() {
    let plan = vec![
        placeholder("$1", Some(vector_field())),
        placeholder("$1", Some(regclass_field())),
        placeholder("$1", None),
    ];
    assert_eq!(
        parameter_override_types(&plan),
        vec![("$1".to_string(), Type::Builtin(Builtin::REGCLASS))]
    );
}

#[test]
fn parameters_without_a_type_are_unknown() {
    assert_eq!(
        entry_wire_types(&named(vec![("$1", None)]), &vec![]).unwrap(),
        vec![Type::Builtin(Builtin::UNKNOWN)]
    );
    assert!(matches!(
        entry_wire_types(
            &named(vec![("$1", Some(DataType::Union(1)))]),
            &vec![("$2".to_string(), pg_vector_type())]
        ),
        Err(Error::UnsupportedType(DataType::Union(1)))
    ));
}
