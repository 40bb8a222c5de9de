use datafusion_postgres::encoder::Single;
use datafusion_postgres::pgvector::{
    coerce_vector_operand, is_float_list, parse_vector_list, utf8_literal, vector_operand_text,
    DistanceFunction, Operand, PgVectorExprPlanner, VectorOperator,
};
use datafusion_postgres::scalar::ScalarValue;
use datafusion_postgres::schema::{DataType, Field};
use datafusion_postgres::sql::vector_insert::parse_vector_floats;

/// Reads the items between commas as numbers.
fn numbers(text: &str) -> Vec<(String, Option<Single>)> {
    text.trim_matches(|c| c == '[' || c == ']')
        .split(',')
        .map(|item| {
            let number = item
                .trim()
                .parse::<f32>()
                .ok()
                .map(|n| Single { bits: n.to_bits(), text: n.to_string() });
            (item.trim().to_string(), number)
        })
        .collect()
}

fn floats(text: &str) -> Option<Vec<f32>> {
    let items = parse_vector_floats(text, &numbers(text))?;
    Some(items.iter().map(|n| f32::from_bits(n.bits)).collect())
}

fn literal(text: &str) -> Operand {
    Operand::Literal(ScalarValue::Utf8(Some(text.to_string())))
}

fn list(items: &[f32]) -> ScalarValue {
    ScalarValue::List(
        items.iter().map(|n| ScalarValue::Float32(Some(n.to_bits()))).collect(),
        DataType::Float32,
    )
}

#[test]
fn parses_vector_literal_floats() {
    assert_eq!(floats("[1, -2.5, 3]"), Some(vec![1.0, -2.5, 3.0]));
}

#[test]
fn rejects_non_vector_literals() {
    assert_eq!(floats("[a,b]"), None);
    assert_eq!(floats("1,2,3"), None);
    assert_eq!(floats("[]"), None);
}

#[test]
fn detects_float_list_columns() {
    assert!(is_float_list(&DataType::List(Box::new(Field::new_list_field(
        DataType::Float32,
        true
    )))));
    assert!(!is_float_list(&DataType::List(Box::new(Field::new_list_field(
        DataType::Int32,
        true
    )))));
}

#[test]
fn operators_are_functions() {
    let text = "[1,2]";
    let plan = |op| {
        PgVectorExprPlanner.plan_binary_op(&op, &Operand::Other, &literal(text), &numbers(text))
    };
    for (op, function, name, negate) in [
        (VectorOperator::LtDashGt, DistanceFunction::ArrayDistance, "array_distance", false),
        (VectorOperator::Spaceship, DistanceFunction::CosineDistance, "cosine_distance", false),
        (
            VectorOperator::Custom("<#>".to_string()),
            DistanceFunction::InnerProduct,
            "inner_product",
            true,
        ),
    ] {
        let call = plan(op).unwrap();
        assert_eq!(call.function, function);
        assert_eq!(call.function.name(), name);
        assert_eq!(call.negate, negate);
        assert_eq!(call.left, None);
        assert_eq!(call.right, Some(list(&[1.0, 2.0])));
    }
    assert!(plan(VectorOperator::Other).is_none());
    assert!(plan(VectorOperator::Custom("<+>".to_string())).is_none());
}

#[test]
fn casts_to_vectors_make_no_difference() {
    let text = "[3, 4]";
    let vector =
        DataType::FixedSizeList(Box::new(Field::new_list_field(DataType::Float32, true)), 2);
    let cast = |data_type| Operand::CastLiteral {
        literal: ScalarValue::Utf8View(Some(text.to_string())),
        data_type,
    };
    assert_eq!(
        coerce_vector_operand(&cast(vector), &numbers(text)),
        coerce_vector_operand(&literal(text), &numbers(text))
    );
    assert_eq!(vector_operand_text(&cast(DataType::Utf8)), None);
    assert_eq!(coerce_vector_operand(&Operand::Other, &numbers(text)), None);
}

#[test]
fn texts_of_literals() {
    assert_eq!(utf8_literal(&ScalarValue::LargeUtf8(Some("a".to_string()))), Some("a"));
    assert_eq!(utf8_literal(&ScalarValue::Utf8(None)), None);
    assert_eq!(utf8_literal(&ScalarValue::Int64(Some(1))), None);
    assert_eq!(parse_vector_list("[7]", &numbers("[7]")), Some(list(&[7.0])));
}
