//! What the handling of vectors is for: laws over the texts of vectors, the columns that they
//! go into, and the operators between them.
use crate::encoder::Single;
use crate::errors::Malformed;
use crate::params;
use crate::pgvector;
use crate::pgvector::{OperandV, VectorOperator};
use crate::scalar::ScalarV;
use crate::schema;
use crate::schema::{DataTypeV, Field, FieldV};
use crate::sql::tree::{HeadV, IdentV, NodeV, PartV};
use crate::sql::vector_insert;
use crate::sql::vector_insert::TableReferenceV;
use crate::text;
use vstd::prelude::*;

verus! {

/// A text is one of a vector where it has square brackets around something other than white
/// space. Its items are the texts between its commas, without the white space around them.
pub proof fn law_vector_texts(s: Seq<char>)
    ensures
        ({
            let t = text::trimmed(s);
            let bracketed = t.len() > 0 && t[0] == '[' && t[t.len() - 1] == ']';
            let inner = text::trimmed(t.subrange(1, t.len() - 1));
            let pieces = text::split_on(inner, ',');
            match params::vector_text(s) {
                Ok(items) => bracketed && inner.len() > 0 && items.len() == pieces.len() && forall|
                    i: int,
                |
                    0 <= i < items.len() ==> #[trigger] items[i] == text::trimmed(pieces[i]),
                Err(m) => if bracketed {
                    inner.len() == 0 && m == Malformed::VectorEmpty
                } else {
                    m == Malformed::VectorText
                },
            }
        }),
{
}

/// The number of an item is the one that is listed with it first. An item that is not listed
/// has none.
pub proof fn law_numbers_are_listed(
    numbers: Seq<(String, Option<Single>)>,
    item: Seq<char>,
    k: int,
)
    requires
        0 <= k <= numbers.len(),
        forall|j: int| 0 <= j < k ==> (#[trigger] numbers[j]).0@ != item,
    ensures
        k < numbers.len() && numbers[k].0@ == item ==> vector_insert::number_of(numbers, item)
            == numbers[k].1,
        k == numbers.len() ==> vector_insert::number_of(numbers, item) is None,
    decreases k,
{
    if k > 0 {
        let rest = numbers.skip(1);
        assert(numbers[0].0@ != item);
        assert forall|j: int| 0 <= j < k - 1 implies (#[trigger] rest[j]).0@ != item by {
            assert(rest[j] == numbers[j + 1]);
        }
        law_numbers_are_listed(rest, item, k - 1);
        if k < numbers.len() {
            assert(rest[k - 1] == numbers[k]);
        }
    }
}

/// True of an insertion of rows of values into a table that is called by its name, with
/// columns that are called by one part each.
pub open spec fn is_insert_of_values(s: NodeV) -> bool {
    &&& s.head matches HeadV::Insert { table: Some(_), columns, has_source: true } && forall|
        i: int,
    |
        0 <= i < columns.len() ==> (#[trigger] columns[i]).len() == 1
    &&& s.kids.len() > 0 && s.kids[0].head is Query
    &&& s.kids[0].kids.len() > 0 && s.kids[0].kids[0].head is Values
}

/// True when the values at a place of the rows go into a field: the one at that place, or the
/// first one with the name of the column that is given there, in any case.
pub open spec fn goes_into(
    columns: Seq<Seq<PartV>>,
    fields: Seq<FieldV>,
    place: int,
    k: int,
) -> bool {
    &&& 0 <= k < fields.len()
    &&& if columns.len() == 0 {
        k == place
    } else {
        &&& 0 <= place < columns.len()
        &&& columns[place][0] matches PartV::Identifier(x) && text::same_ignoring_ascii_case(
            fields[k].name,
            x.value,
        ) && forall|j: int|
            0 <= j < k ==> !text::same_ignoring_ascii_case((#[trigger] fields[j]).name, x.value)
    }
}

/// True when the values at a place of the rows go into no field.
pub open spec fn goes_nowhere(columns: Seq<Seq<PartV>>, fields: Seq<FieldV>, place: int) -> bool {
    forall|k: int| !#[trigger] goes_into(columns, fields, place, k)
}

proof fn lemma_field_type(fields: Seq<FieldV>, name: Seq<char>, k: int)
    requires
        0 <= k <= fields.len(),
        forall|j: int|
            0 <= j < k ==> !text::same_ignoring_ascii_case((#[trigger] fields[j]).name, name),
    ensures
        k < fields.len() && text::same_ignoring_ascii_case(fields[k].name, name)
            ==> vector_insert::field_type(fields, name) == Some(fields[k].data_type),
        k == fields.len() ==> vector_insert::field_type(fields, name) is None,
    decreases k,
{
    if k > 0 {
        let rest = fields.skip(1);
        assert(!text::same_ignoring_ascii_case(fields[0].name, name));
        assert forall|j: int| 0 <= j < k - 1 implies !text::same_ignoring_ascii_case(
            (#[trigger] rest[j]).name,
            name,
        ) by {
            assert(rest[j] == fields[j + 1]);
        }
        lemma_field_type(rest, name, k - 1);
        if k < fields.len() {
            assert(rest[k - 1] == fields[k]);
        }
    }
}

/// The text of a string literal, or of a string literal that is cast to `vector` of any
/// schema.
pub open spec fn written_vector(n: NodeV) -> Option<Seq<char>> {
    match n.head {
        HeadV::SingleQuotedString(s) => Some(s),
        HeadV::Cast { data_type, .. } => if n.kids.len() > 0 && (n.kids[0].head
            is SingleQuotedString) && (data_type.name matches Some(name) && name.len() > 0 && (
        name[name.len() - 1] matches PartV::Identifier(x) && text::same_ignoring_ascii_case(
            x.value,
            "vector"@,
        ))) {
            Some(n.kids[0].head->SingleQuotedString_0)
        } else {
            None
        },
        _ => None,
    }
}

/// True of a column type that takes vectors of a number of dimensions: a list of
/// single-precision numbers, of that size where it has a fixed one.
pub open spec fn takes_vectors(t: DataTypeV, dimensions: nat) -> bool {
    ||| t matches DataTypeV::List(item) && item.data_type is Float32
    ||| t matches DataTypeV::FixedSizeList(item, n) && item.data_type is Float32 && n == dimensions
}

/// True of the literal of a number: the digits, behind an operator where there is a minus
/// sign.
pub open spec fn is_number_literal(n: NodeV, x: Single) -> bool {
    if x.text@.len() > 0 && x.text@[0] == '-' {
        n.head is Minus && n.kids.len() == 1 && n.kids[0].head == HeadV::Number(x.text@.skip(1))
            && n.kids[0].kids.len() == 0
    } else {
        n.head == HeadV::Number(x.text@) && n.kids.len() == 0
    }
}

/// The text of a vector that is inserted into a column of vectors becomes an array of its
/// numbers, whether the column fixes the number of dimensions or not. One of another number
/// of dimensions than the column fixes is kept, and so is one with an item that is no number.
pub proof fn law_vectors_are_inserted_as_arrays(
    s: NodeV,
    fields: Seq<FieldV>,
    numbers: Seq<(String, Option<Single>)>,
    row: int,
    place: int,
    k: int,
)
    requires
        is_insert_of_values(s),
        0 <= row < s.kids[0].kids[0].kids.len(),
        0 <= place < s.kids[0].kids[0].kids[row].kids.len(),
        goes_into(s.head->Insert_columns, fields, place, k),
    ensures
        ({
            let value = s.kids[0].kids[0].kids[row].kids[place];
            let new = vector_insert::new_insert(s, fields, numbers).kids[0].kids[0].kids[row].kids[place];
            match written_vector(value) {
                Some(t) => match params::vector_text(t) {
                    Ok(items) => {
                        let read = forall|i: int|
                            0 <= i < items.len() ==> vector_insert::number_of(
                                numbers,
                                #[trigger] items[i],
                            ) is Some;
                        if read && takes_vectors(fields[k].data_type, items.len()) {
                            &&& new.head == (HeadV::Array { named: true })
                            &&& new.kids.len() == items.len()
                            &&& forall|i: int|
                                0 <= i < items.len() ==> is_number_literal(
                                    #[trigger] new.kids[i],
                                    vector_insert::number_of(numbers, items[i])->0,
                                )
                        } else {
                            new == value
                        }
                    },
                    Err(_) => new == value,
                },
                None => new == value,
            }
        }),
{
    lemma_new_value(s, fields, numbers, row, place);
    let columns = s.head->Insert_columns;
    let types = vector_insert::target_types(columns, fields);
    if columns.len() > 0 {
        if let PartV::Identifier(x) = columns[place][0] {
            lemma_field_type(fields, x.value, k);
        }
    }
    assert(vector_insert::type_at(types, place) == Some(fields[k].data_type));
}

/// A value that goes into no field of the table is kept.
pub proof fn law_values_without_a_field_are_kept(
    s: NodeV,
    fields: Seq<FieldV>,
    numbers: Seq<(String, Option<Single>)>,
    row: int,
    place: int,
)
    requires
        is_insert_of_values(s),
        0 <= row < s.kids[0].kids[0].kids.len(),
        0 <= place < s.kids[0].kids[0].kids[row].kids.len(),
        goes_nowhere(s.head->Insert_columns, fields, place),
    ensures
        vector_insert::new_insert(s, fields, numbers).kids[0].kids[0].kids[row].kids[place]
            == s.kids[0].kids[0].kids[row].kids[place],
{
    lemma_new_value(s, fields, numbers, row, place);
    let columns = s.head->Insert_columns;
    let types = vector_insert::target_types(columns, fields);
    if columns.len() == 0 {
        if place < fields.len() {
            assert(goes_into(columns, fields, place, place));
        }
    } else if place < columns.len() {
        if let PartV::Identifier(x) = columns[place][0] {
            lemma_no_field(columns, fields, place, x, fields.len() as int);
            lemma_field_type(fields, x.value, fields.len() as int);
        }
    }
    assert(vector_insert::type_at(types, place) is None);
}

proof fn lemma_no_field(
    columns: Seq<Seq<PartV>>,
    fields: Seq<FieldV>,
    place: int,
    x: IdentV,
    n: int,
)
    requires
        goes_nowhere(columns, fields, place),
        0 <= place < columns.len(),
        columns[place][0] == PartV::Identifier(x),
        0 <= n <= fields.len(),
    ensures
        forall|j: int|
            0 <= j < n ==> !text::same_ignoring_ascii_case((#[trigger] fields[j]).name, x.value),
    decreases n,
{
    if n > 0 {
        lemma_no_field(columns, fields, place, x, n - 1);
        assert(!goes_into(columns, fields, place, n - 1));
    }
}

proof fn lemma_new_value(
    s: NodeV,
    fields: Seq<FieldV>,
    numbers: Seq<(String, Option<Single>)>,
    row: int,
    place: int,
)
    requires
        is_insert_of_values(s),
        0 <= row < s.kids[0].kids[0].kids.len(),
        0 <= place < s.kids[0].kids[0].kids[row].kids.len(),
    ensures
        vector_insert::new_insert(s, fields, numbers).kids[0].kids[0].kids[row].kids[place]
            == vector_insert::new_value(
            s.kids[0].kids[0].kids[row].kids[place],
            vector_insert::type_at(
                vector_insert::target_types(s.head->Insert_columns, fields),
                place,
            ),
            numbers,
        ),
{
    assert(vector_insert::inserts_values(s));
}

/// An insertion keeps its shape: all but the values stays as it is. Other statements are kept
/// altogether.
pub proof fn law_insertions_keep_their_shape(
    s: NodeV,
    fields: Seq<FieldV>,
    numbers: Seq<(String, Option<Single>)>,
    row: int,
)
    ensures
        ({
            let r = vector_insert::new_insert(s, fields, numbers);
            if is_insert_of_values(s) {
                let query = s.kids[0];
                let values = query.kids[0];
                let new = r.kids[0].kids[0];
                &&& r.head == s.head && r.tag == s.tag && r.kids == s.kids.update(0, r.kids[0])
                &&& r.kids[0].head == query.head && r.kids[0].tag == query.tag && r.kids[0].kids
                    == query.kids.update(0, new)
                &&& new.head == values.head && new.tag == values.tag && new.kids.len()
                    == values.kids.len()
                &&& 0 <= row < values.kids.len() ==> new.kids[row].head == values.kids[row].head
                    && new.kids[row].tag == values.kids[row].tag && new.kids[row].kids.len()
                    == values.kids[row].kids.len()
            } else {
                r == s
            }
        }),
{
    assert(is_insert_of_values(s) == vector_insert::inserts_values(s));
}

/// An insertion into a table that there is not is kept.
pub proof fn law_missing_tables(s: NodeV, fields: &Vec<Field>, numbers: Seq<(String, Option<Single>)>)
    ensures
        vector_insert::new_insert_into(s, None, numbers) == s,
        vector_insert::new_insert_into(s, Some(fields), numbers) == vector_insert::new_insert(
            s,
            schema::fields_view(fields@),
            numbers,
        ),
{
}

/// The items that have to be read are all those that the insertion needs.
pub proof fn law_needed_items_are_listed(
    s: NodeV,
    fields: Seq<FieldV>,
    row: int,
    place: int,
    k: int,
    i: int,
)
    requires
        is_insert_of_values(s),
        0 <= row < s.kids[0].kids[0].kids.len(),
        0 <= place < s.kids[0].kids[0].kids[row].kids.len(),
        goes_into(s.head->Insert_columns, fields, place, k),
        exists|n: nat| #[trigger] takes_vectors(fields[k].data_type, n),
        written_vector(s.kids[0].kids[0].kids[row].kids[place]) matches Some(t)
            && params::vector_text(t) matches Ok(items) && 0 <= i < items.len(),
    ensures
        vector_insert::insert_items(s, fields).contains(
            params::vector_text(
                written_vector(s.kids[0].kids[0].kids[row].kids[place])->0,
            )->Ok_0[i],
        ),
{
    let rows = s.kids[0].kids[0].kids;
    let value = rows[row].kids[place];
    let columns = s.head->Insert_columns;
    let types = vector_insert::target_types(columns, fields);
    if columns.len() > 0 {
        if let PartV::Identifier(x) = columns[place][0] {
            lemma_field_type(fields, x.value, k);
        }
    }
    assert(vector_insert::type_at(types, place) == Some(fields[k].data_type));
    let items = params::vector_text(written_vector(value)->0)->Ok_0;
    let n = choose|n: nat| #[trigger] takes_vectors(fields[k].data_type, n);
    assert(vector_insert::value_items(value, Some(fields[k].data_type)) == items);
    assert(items.contains(items[i]));
    vector_insert::lemma_row_contains(
        rows[row].kids,
        types,
        rows[row].kids.len() as int,
        place,
        items[i],
    );
    vector_insert::lemma_rows_contain(rows, types, rows.len() as int, row, items[i]);
    assert(vector_insert::inserts_values(s));
}

/// A table is looked up by the parts of its name, the last of which is the table.
pub proof fn law_table_names(a: IdentV, b: IdentV, c: IdentV)
    ensures
        vector_insert::reference_of(seq![PartV::Identifier(a)]) == (TableReferenceV::Bare {
            table: a.value,
        }),
        vector_insert::reference_of(seq![PartV::Identifier(a), PartV::Identifier(b)]) == (
        TableReferenceV::Partial { schema: a.value, table: b.value }),
        vector_insert::reference_of(
            seq![PartV::Identifier(a), PartV::Identifier(b), PartV::Identifier(c)],
        ) == (TableReferenceV::Full { catalog: a.value, schema: b.value, table: c.value }),
{
    let one = seq![PartV::Identifier(a)];
    let two = seq![PartV::Identifier(a), PartV::Identifier(b)];
    let three = seq![PartV::Identifier(a), PartV::Identifier(b), PartV::Identifier(c)];
    assert(one.drop_last() == Seq::<PartV>::empty());
    assert(two.drop_last() == one);
    assert(three.drop_last() == two);
    assert(vector_insert::identifiers(Seq::empty()) == Seq::<Seq<char>>::empty());
    assert(vector_insert::identifiers(one) == seq![a.value]);
    assert(vector_insert::identifiers(two) == seq![a.value, b.value]);
    assert(vector_insert::identifiers(three) == seq![a.value, b.value, c.value]);
}

/// The operators of vectors are calls of functions: `<->` of the distance, `<=>` of the
/// cosine distance, and `<#>` of the negated inner product. No other operator is.
pub proof fn law_distance_operators(op: VectorOperator)
    ensures
        match pgvector::distance_function(op) {
            Some((function, negate)) => {
                &&& op is LtDashGt ==> function.spec_name() == "array_distance"@ && !negate
                &&& op is Spaceship ==> function.spec_name() == "cosine_distance"@ && !negate
                &&& op matches VectorOperator::Custom(name) ==> name@ == "<#>"@
                    && function.spec_name() == "inner_product"@ && negate
                &&& !(op is Other)
            },
            None => op is Other || (op matches VectorOperator::Custom(name) && name@ != "<#>"@),
        },
{
}

/// The text of a literal that an operand is, or that it casts to a list of numbers.
pub open spec fn written_operand(e: OperandV) -> Option<Seq<char>> {
    let literal = match e {
        OperandV::Literal(v) => Some(v),
        OperandV::CastLiteral { literal, data_type } => if data_type matches DataTypeV::List(item)
            && item.data_type is Float32 || (data_type matches DataTypeV::FixedSizeList(item, _)
            && item.data_type is Float32) {
            Some(literal)
        } else {
            None
        },
        OperandV::Other => None,
    };
    match literal {
        Some(ScalarV::Utf8(Some(s))) => Some(s),
        Some(ScalarV::LargeUtf8(Some(s))) => Some(s),
        Some(ScalarV::Utf8View(Some(s))) => Some(s),
        _ => None,
    }
}

/// An operand that is the text of a vector, cast to one or not, becomes the list of its
/// numbers. Other operands stay as they are.
pub proof fn law_operands_are_lists(e: OperandV, numbers: Seq<(String, Option<Single>)>)
    ensures
        match written_operand(e) {
            Some(s) => match params::vector_text(s) {
                Ok(items) => if forall|i: int|
                    0 <= i < items.len() ==> vector_insert::number_of(numbers, #[trigger] items[i])
                        is Some {
                    pgvector::coerced(e, numbers) matches Some(ScalarV::List(values, t)) && t
                        is Float32 && values.len() == items.len() && forall|i: int|
                        0 <= i < items.len() ==> #[trigger] values[i] == ScalarV::Float32(
                            Some(vector_insert::number_of(numbers, items[i])->0.bits),
                        )
                } else {
                    pgvector::coerced(e, numbers) is None
                },
                Err(_) => pgvector::coerced(e, numbers) is None,
            },
            None => pgvector::coerced(e, numbers) is None,
        },
{
}

} // verus!
