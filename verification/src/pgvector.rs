//! The distance operators of vectors, and insertions of vectors.
use crate::encoder::Single;
use crate::scalar;
use crate::scalar::{ScalarV, ScalarValue};
use crate::schema;
use crate::schema::{DataType, DataTypeV, Field};
use crate::sql::tree::Node;
use crate::sql::vector_insert;
use crate::text;
use vstd::prelude::*;

verus! {

/// An operator between two expressions.
#[derive(Debug, PartialEq, Eq)]
pub enum VectorOperator {
    /// `<->`.
    LtDashGt,
    /// `<=>`.
    Spaceship,
    /// An operator that is known by its text.
    Custom(String),
    /// Another operator.
    Other,
}

/// A function of two vectors.
#[derive(Clone, Copy, Debug, PartialEq, Eq, Structural)]
pub enum DistanceFunction {
    ArrayDistance,
    InnerProduct,
    CosineDistance,
}

impl DistanceFunction {
    /// The name of the function.
    pub open spec fn spec_name(self) -> Seq<char> {
        match self {
            DistanceFunction::ArrayDistance => "array_distance"@,
            DistanceFunction::InnerProduct => "inner_product"@,
            DistanceFunction::CosineDistance => "cosine_distance"@,
        }
    }

    /// The name of the function.
    pub fn name(self) -> (r: &'static str)
        ensures
            r@ == self.spec_name(),
    {
        match self {
            DistanceFunction::ArrayDistance => "array_distance",
            DistanceFunction::InnerProduct => "inner_product",
            DistanceFunction::CosineDistance => "cosine_distance",
        }
    }
}

/// An operand of an operator.
#[derive(Debug, PartialEq, Eq)]
pub enum Operand {
    Literal(ScalarValue),
    /// A cast of a literal to a type.
    CastLiteral { literal: ScalarValue, data_type: DataType },
    /// Another expression.
    Other,
}

/// The model of an [`Operand`].
#[verifier::ext_equal]
pub enum OperandV {
    Literal(ScalarV),
    CastLiteral { literal: ScalarV, data_type: DataTypeV },
    Other,
}

impl View for Operand {
    type V = OperandV;

    open spec fn view(&self) -> OperandV {
        match *self {
            Operand::Literal(v) => OperandV::Literal(v@),
            Operand::CastLiteral { literal, data_type } => OperandV::CastLiteral {
                literal: literal@,
                data_type: data_type@,
            },
            Operand::Other => OperandV::Other,
        }
    }
}

/// True of a list of single-precision numbers.
pub open spec fn float_list(t: DataTypeV) -> bool {
    match t {
        DataTypeV::FixedSizeList(field, _) => field.data_type is Float32,
        DataTypeV::List(field) => field.data_type is Float32,
        _ => false,
    }
}

/// True of a list of single-precision numbers.
pub fn is_float_list(data_type: &DataType) -> (r: bool)
    ensures
        r == float_list(data_type@),
{
    vector_insert::vector_dimension(data_type).is_some()
}

/// The text of a literal.
pub open spec fn literal_text(v: ScalarV) -> Option<Seq<char>> {
    match v {
        ScalarV::Utf8(s) => s,
        ScalarV::LargeUtf8(s) => s,
        ScalarV::Utf8View(s) => s,
        _ => None,
    }
}

/// The text of a literal.
pub fn utf8_literal(v: &ScalarValue) -> (r: Option<&str>)
    ensures
        match r {
            Some(s) => literal_text(v@) == Some(s@),
            None => literal_text(v@) is None,
        },
{
    match v {
        ScalarValue::Utf8(Some(s)) => Some(s.as_str()),
        ScalarValue::LargeUtf8(Some(s)) => Some(s.as_str()),
        ScalarValue::Utf8View(Some(s)) => Some(s.as_str()),
        _ => None,
    }
}

/// The list of the numbers of a vector.
pub open spec fn vector_list(items: Seq<Single>) -> ScalarV {
    ScalarV::List(
        items.map_values(|x: Single| ScalarV::Float32(Some(x.bits))),
        DataTypeV::Float32,
    )
}

/// The list of the numbers of a vector that is written as a text.
pub fn parse_vector_list(text: &str, numbers: &Vec<(String, Option<Single>)>) -> (r: Option<
    ScalarValue,
>)
    ensures
        match (r, vector_insert::vector_floats(text@, numbers@)) {
            (Some(v), Some(items)) => v@ == vector_list(items),
            (None, None) => true,
            _ => false,
        },
{
    let items = match vector_insert::parse_vector_floats(text, numbers) {
        Some(items) => items,
        None => return None,
    };
    let mut values: Vec<ScalarValue> = Vec::new();
    let mut i: usize = 0;
    while i < items.len()
        invariant
            i <= items@.len(),
            values@.len() == i,
            forall|j: int|
                0 <= j < i ==> (#[trigger] values@[j])@ == ScalarV::Float32(Some(items@[j].bits)),
        decreases items@.len() - i,
    {
        values.push(ScalarValue::Float32(Some(items[i].bits)));
        i += 1;
    }
    let r = ScalarValue::List(values, DataType::Float32);
    assert(r@->List_0 == vector_list(items@)->List_0);
    Some(r)
}

/// The text of an operand that stands for a vector: a literal, or a literal that is
/// cast to a list of numbers.
pub open spec fn operand_text(e: OperandV) -> Option<Seq<char>> {
    match e {
        OperandV::Literal(v) => literal_text(v),
        OperandV::CastLiteral { literal, data_type } => if float_list(data_type) {
            literal_text(literal)
        } else {
            None
        },
        OperandV::Other => None,
    }
}

/// The text of an operand that stands for a vector: the text whose items have to be
/// read as numbers.
pub fn vector_operand_text(e: &Operand) -> (r: Option<&str>)
    ensures
        match r {
            Some(s) => operand_text(e@) == Some(s@),
            None => operand_text(e@) is None,
        },
{
    match e {
        Operand::Literal(v) => utf8_literal(v),
        Operand::CastLiteral { literal, data_type } => if is_float_list(data_type) {
            utf8_literal(literal)
        } else {
            None
        },
        Operand::Other => None,
    }
}

/// The list that an operand becomes. Nothing where the operand stays as it is.
pub open spec fn coerced(e: OperandV, numbers: Seq<(String, Option<Single>)>) -> Option<ScalarV> {
    match operand_text(e) {
        Some(s) => match vector_insert::vector_floats(s, numbers) {
            Some(items) => Some(vector_list(items)),
            None => None,
        },
        None => None,
    }
}

/// The list that an operand becomes. Nothing where the operand stays as it is.
pub fn coerce_vector_operand(e: &Operand, numbers: &Vec<(String, Option<Single>)>) -> (r: Option<
    ScalarValue,
>)
    ensures
        match (r, coerced(e@, numbers@)) {
            (Some(v), Some(w)) => v@ == w,
            (None, None) => true,
            _ => false,
        },
{
    match vector_operand_text(e) {
        Some(s) => parse_vector_list(s, numbers),
        None => None,
    }
}

/// The function that an operator stands for, and whether its result is negated. Nothing
/// for an operator that is not one of vectors.
pub open spec fn distance_function(op: VectorOperator) -> Option<(DistanceFunction, bool)> {
    match op {
        VectorOperator::LtDashGt => Some((DistanceFunction::ArrayDistance, false)),
        VectorOperator::Spaceship => Some((DistanceFunction::CosineDistance, false)),
        VectorOperator::Custom(name) => if name@ == "<#>"@ {
            Some((DistanceFunction::InnerProduct, true))
        } else {
            None
        },
        VectorOperator::Other => None,
    }
}

/// A call of a function of two vectors in the place of an operator. An operand that is
/// absent stays as it is.
#[derive(Debug)]
pub struct PlannedCall {
    pub function: DistanceFunction,
    pub negate: bool,
    pub left: Option<ScalarValue>,
    pub right: Option<ScalarValue>,
}

/// Plans the distance operators of vectors as calls of functions.
#[derive(Debug, Clone, Copy)]
pub struct PgVectorExprPlanner;

impl PgVectorExprPlanner {
    /// The call that an operator becomes. Nothing where it is not one of vectors.
    pub fn plan_binary_op(
        &self,
        op: &VectorOperator,
        left: &Operand,
        right: &Operand,
        numbers: &Vec<(String, Option<Single>)>,
    ) -> (r: Option<PlannedCall>)
        ensures
            match (r, distance_function(*op)) {
                (Some(call), Some((function, negate))) => {
                    &&& call.function == function
                    &&& call.negate == negate
                    &&& opt_scalar(call.left) == coerced(left@, numbers@)
                    &&& opt_scalar(call.right) == coerced(right@, numbers@)
                },
                (None, None) => true,
                _ => false,
            },
    {
        let (function, negate) = match op {
            VectorOperator::LtDashGt => (DistanceFunction::ArrayDistance, false),
            VectorOperator::Spaceship => (DistanceFunction::CosineDistance, false),
            VectorOperator::Custom(name) => if text::same(name.as_str(), "<#>") {
                (DistanceFunction::InnerProduct, true)
            } else {
                return None;
            },
            VectorOperator::Other => return None,
        };
        let left = coerce_vector_operand(left, numbers);
        let right = coerce_vector_operand(right, numbers);
        Some(PlannedCall { function, negate, left, right })
    }
}

/// The model of an optional value.
pub open spec fn opt_scalar(o: Option<ScalarValue>) -> Option<ScalarV> {
    match o {
        Some(v) => Some(v@),
        None => None,
    }
}

/// Writes the texts that insertions put into columns of vectors as arrays.
#[derive(Debug, Clone, Copy)]
pub struct PgVectorInsertHook;

impl PgVectorInsertHook {
    /// The insertion to run in place of a statement, where the table of the insertion has
    /// the given fields. Nothing where the statement is not changed, and so is left to
    /// others.
    pub fn rewrite_insert(
        &self,
        statement: &Node,
        fields: Option<&Vec<Field>>,
        numbers: &Vec<(String, Option<Single>)>,
    ) -> (r: Option<Node>)
        ensures
            ({
                let new = vector_insert::new_insert_into(statement@, fields, numbers@);
                match r {
                    Some(n) => n@ == new && new != statement@,
                    None => new == statement@,
                }
            }),
    {
        let (new, changed) = vector_insert::rewrite_vector_insert(
            statement.copy(),
            fields,
            numbers,
        );
        if changed {
            Some(new)
        } else {
            None
        }
    }
}

/// A text that stands for a vector means the same with a cast to a vector and without.
pub proof fn law_cast_makes_no_difference(
    literal: ScalarV,
    data_type: DataTypeV,
    numbers: Seq<(String, Option<Single>)>,
)
    requires
        float_list(data_type),
    ensures
        coerced(OperandV::CastLiteral { literal, data_type }, numbers) == coerced(
            OperandV::Literal(literal),
            numbers,
        ),
{
}

} // verus!
