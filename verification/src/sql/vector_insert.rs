//! Vectors that are inserted as texts.
//!
//! A value `'[1,2,3]'` of an `INSERT ... VALUES` is written as an array of numbers
//! where it goes into a column of vectors. The items of such texts are read as
//! numbers outside of this library; [`vector_items`] says which texts have to be.
use crate::encoder::Single;
use crate::params;
use crate::pg_catalog::oid_type_planner;
use crate::schema;
use crate::schema::{DataType, DataTypeV, Field, FieldV};
use crate::sql::tree;
use crate::sql::tree::{Head, HeadV, NamePart, Node, NodeV, PartV, NEW_NODE};
use crate::text;
use vstd::prelude::*;

verus! {

/// The number that a text stands for, in a list of texts. A text that is not listed
/// stands for none.
pub open spec fn number_of(numbers: Seq<(String, Option<Single>)>, item: Seq<char>) -> Option<
    Single,
>
    decreases numbers.len(),
{
    if numbers.len() == 0 {
        None
    } else if numbers[0].0@ == item {
        numbers[0].1
    } else {
        number_of(numbers.skip(1), item)
    }
}

fn find_number(numbers: &Vec<(String, Option<Single>)>, item: &str) -> (r: Option<Single>)
    ensures
        r == number_of(numbers@, item@),
{
    let mut i: usize = 0;
    assert(numbers@.skip(0) == numbers@);
    while i < numbers.len()
        invariant
            i <= numbers@.len(),
            number_of(numbers@, item@) == number_of(numbers@.skip(i as int), item@),
        decreases numbers@.len() - i,
    {
        assert(numbers@.skip(i as int)[0] == numbers@[i as int]);
        assert(numbers@.skip(i as int).skip(1) == numbers@.skip(i + 1));
        if text::same(numbers[i].0.as_str(), item) {
            return match &numbers[i].1 {
                Some(x) => Some(x.copy()),
                None => None,
            };
        }
        i += 1;
    }
    None
}

/// The numbers of a vector that is written as a text, such as `[1,-2.5,3]`. Nothing
/// where an item is no number.
pub open spec fn vector_floats(
    text: Seq<char>,
    numbers: Seq<(String, Option<Single>)>,
) -> Option<Seq<Single>> {
    match params::vector_text(text) {
        Ok(items) => if forall|i: int|
            0 <= i < items.len() ==> number_of(numbers, #[trigger] items[i]) is Some {
            Some(items.map_values(|item: Seq<char>| number_of(numbers, item)->0))
        } else {
            None
        },
        Err(_) => None,
    }
}

/// The numbers of a vector that is written as a text.
pub fn parse_vector_floats(text: &str, numbers: &Vec<(String, Option<Single>)>) -> (r: Option<
    Vec<Single>,
>)
    ensures
        match r {
            Some(v) => vector_floats(text@, numbers@) == Some(v@),
            None => vector_floats(text@, numbers@) is None,
        },
{
    let items = match params::split_vector_text(text) {
        Ok(items) => items,
        Err(_) => return None,
    };
    let ghost views = text::views(items@);
    let mut out: Vec<Single> = Vec::new();
    let mut i: usize = 0;
    while i < items.len()
        invariant
            i <= items@.len(),
            out@.len() == i,
            views == text::views(items@),
            params::vector_text(text@) == Ok::<Seq<Seq<char>>, crate::errors::Malformed>(views),
            forall|j: int|
                0 <= j < i ==> number_of(numbers@, #[trigger] views[j]) == Some(out@[j]),
        decreases items@.len() - i,
    {
        assert(views[i as int] == items@[i as int]@);
        match find_number(numbers, items[i].as_str()) {
            Some(x) => {
                out.push(x);
            },
            None => {
                return None;
            },
        }
        i += 1;
    }
    assert(out@ == views.map_values(|item: Seq<char>| number_of(numbers@, item)->0));
    Some(out)
}

/// The literal of a number. A minus sign is an operator before it.
pub open spec fn number_literal(x: Single) -> NodeV {
    if x.text@.len() > 0 && x.text@[0] == '-' {
        NodeV {
            head: HeadV::Minus,
            tag: NEW_NODE,
            kids: seq![tree::leaf_view(HeadV::Number(x.text@.skip(1)))],
        }
    } else {
        tree::leaf_view(HeadV::Number(x.text@))
    }
}

fn float_literal(x: &Single) -> (r: Node)
    ensures
        r@ == number_literal(*x),
{
    let chars = text::chars_of(x.text.as_str());
    if chars.len() > 0 && chars[0] == '-' {
        let digits = text::text_of(&chars, 1, chars.len());
        assert(digits@ == x.text@.skip(1));
        let number = Node::leaf(Head::Number(digits));
        let r = Node { head: Head::Minus, tag: NEW_NODE, kids: vec![number] };
        proof {
            tree::lemma_model(r);
            assert(r@.kids == seq![tree::leaf_view(HeadV::Number(x.text@.skip(1)))]);
        }
        r
    } else {
        Node::leaf(Head::Number(x.text.clone()))
    }
}

/// The array of the numbers of a vector.
pub open spec fn vector_array(items: Seq<Single>) -> NodeV {
    NodeV {
        head: HeadV::Array { named: true },
        tag: NEW_NODE,
        kids: items.map_values(|x: Single| number_literal(x)),
    }
}

/// The array of the numbers of a vector that is written as a text.
pub fn vector_literal_to_array(text: &str, numbers: &Vec<(String, Option<Single>)>) -> (r: Option<
    Node,
>)
    ensures
        match (r, vector_floats(text@, numbers@)) {
            (Some(n), Some(items)) => n@ == vector_array(items),
            (None, None) => true,
            _ => false,
        },
{
    let items = match parse_vector_floats(text, numbers) {
        Some(items) => items,
        None => return None,
    };
    let mut kids: Vec<Node> = Vec::new();
    let mut i: usize = 0;
    while i < items.len()
        invariant
            i <= items@.len(),
            kids@.len() == i,
            forall|j: int| 0 <= j < i ==> (#[trigger] kids@[j])@ == number_literal(items@[j]),
        decreases items@.len() - i,
    {
        kids.push(float_literal(&items[i]));
        i += 1;
    }
    let r = Node { head: Head::Array { named: true }, tag: NEW_NODE, kids };
    proof {
        tree::lemma_model(r);
        assert(r@.kids == vector_array(items@).kids);
    }
    Some(r)
}

/// True of a cast to a vector, under any schema.
pub open spec fn is_vector_name(name: Option<Seq<PartV>>) -> bool {
    match name {
        Some(parts) => match oid_type_planner::last_ident(parts) {
            Some(last) => text::same_ignoring_ascii_case(last, "vector"@),
            None => false,
        },
        None => false,
    }
}

/// The text of a literal, or of a literal that is cast to a vector.
pub open spec fn literal_text(n: NodeV) -> Option<Seq<char>> {
    match n.head {
        HeadV::SingleQuotedString(s) => Some(s),
        HeadV::Cast { data_type, .. } => if is_vector_name(data_type.name) && n.kids.len() > 0 {
            tree::string_literal(n.kids[0])
        } else {
            None
        },
        _ => None,
    }
}

fn is_vector_sql_type(name: &Option<Vec<NamePart>>) -> (r: bool)
    ensures
        r == is_vector_name(tree::opt_name_view(*name)),
{
    match name {
        Some(parts) => match oid_type_planner::last_name(parts) {
            Some(last) => text::eq_ignore_ascii_case(last, "vector"),
            None => false,
        },
        None => false,
    }
}

fn vector_literal_text(n: &Node) -> (r: Option<String>)
    ensures
        schema::opt_text(r) == literal_text(n@),
{
    proof {
        tree::lemma_model(*n);
    }
    match &n.head {
        Head::SingleQuotedString(s) => Some(s.clone()),
        Head::Cast { data_type, .. } => {
            if is_vector_sql_type(&data_type.name) && n.kids.len() > 0 {
                proof {
                    tree::lemma_model(n.kids@[0]);
                    assert(n@.kids[0] == n.kids@[0]@);
                }
                match &n.kids[0].head {
                    Head::SingleQuotedString(s) => Some(s.clone()),
                    _ => None,
                }
            } else {
                None
            }
        },
        _ => None,
    }
}

/// The dimensions of a column of vectors: their number where the column fixes it.
/// Nothing for a column of another type.
pub open spec fn dimension_of(t: DataTypeV) -> Option<Option<i32>> {
    match t {
        DataTypeV::FixedSizeList(field, n) => if field.data_type is Float32 {
            Some(Some(n))
        } else {
            None
        },
        DataTypeV::List(field) => if field.data_type is Float32 {
            Some(None)
        } else {
            None
        },
        _ => None,
    }
}

/// The dimensions of a column of vectors.
pub fn vector_dimension(field_type: &DataType) -> (r: Option<Option<i32>>)
    ensures
        r == dimension_of(field_type@),
{
    proof {
        reveal_with_fuel(DataType::model, 3);
        reveal_with_fuel(Field::model, 3);
    }
    match field_type {
        DataType::FixedSizeList(field, n) => match field.data_type {
            DataType::Float32 => Some(Some(*n)),
            _ => None,
        },
        DataType::List(field) => match field.data_type {
            DataType::Float32 => Some(None),
            _ => None,
        },
        _ => None,
    }
}

/// What a value becomes that goes into a column of the type.
pub open spec fn new_value(
    n: NodeV,
    t: Option<DataTypeV>,
    numbers: Seq<(String, Option<Single>)>,
) -> NodeV {
    match candidate(n, t) {
        Some((dim, text)) => match vector_floats(text, numbers) {
            Some(items) => if dim matches Some(expected) && expected != items.len() {
                n
            } else {
                vector_array(items)
            },
            None => n,
        },
        None => n,
    }
}

/// The text of a value that goes into a column of vectors, with the dimensions of the
/// column.
pub open spec fn candidate(n: NodeV, t: Option<DataTypeV>) -> Option<(Option<i32>, Seq<char>)> {
    match t {
        Some(t) => match (dimension_of(t), literal_text(n)) {
            (Some(dim), Some(text)) => Some((dim, text)),
            _ => None,
        },
        None => None,
    }
}

fn find_candidate(n: &Node, t: &Option<DataType>) -> (r: Option<(Option<i32>, String)>)
    ensures
        match (r, candidate(n@, oid_type_planner::opt_type_view(*t))) {
            (Some(c), Some(d)) => c.0 == d.0 && c.1@ == d.1,
            (None, None) => true,
            _ => false,
        },
{
    match t {
        Some(t) => match vector_dimension(t) {
            Some(dim) => match vector_literal_text(n) {
                Some(text) => Some((dim, text)),
                None => None,
            },
            None => None,
        },
        None => None,
    }
}

fn rewrite_value(n: Node, t: &Option<DataType>, numbers: &Vec<(String, Option<Single>)>) -> (r: (
    Node,
    bool,
))
    ensures
        r.0@ == new_value(n@, oid_type_planner::opt_type_view(*t), numbers@),
        r.1 == (r.0@ != n@),
{
    proof {
        tree::lemma_model(n);
    }
    match find_candidate(&n, t) {
        Some((dim, text)) => match parse_vector_floats(text.as_str(), numbers) {
            Some(items) => {
                if let Some(expected) = dim {
                    if expected < 0 || expected as u64 != items.len() as u64 {
                        return (n, false);
                    }
                }
                match vector_literal_to_array(text.as_str(), numbers) {
                    Some(array) => {
                        assert(array@.head is Array);
                        assert(!(n@.head is Array));
                        (array, true)
                    },
                    None => (n, false),
                }
            },
            None => (n, false),
        },
        None => (n, false),
    }
}

/// The type that goes with position `i`, if any.
pub open spec fn type_at(types: Seq<Option<DataTypeV>>, i: int) -> Option<DataTypeV> {
    if 0 <= i < types.len() {
        types[i]
    } else {
        None
    }
}

/// The models of the types that go with positions.
pub open spec fn types_view(v: Seq<Option<DataType>>) -> Seq<Option<DataTypeV>> {
    v.map_values(|t: Option<DataType>| oid_type_planner::opt_type_view(t))
}

/// What a row of values becomes.
pub open spec fn new_row(
    n: NodeV,
    types: Seq<Option<DataTypeV>>,
    numbers: Seq<(String, Option<Single>)>,
) -> NodeV {
    NodeV {
        kids: Seq::new(
            n.kids.len(),
            |i: int| new_value(n.kids[i], type_at(types, i), numbers),
        ),
        ..n
    }
}

/// What the rows of a `VALUES` become.
pub open spec fn new_rows(
    n: NodeV,
    types: Seq<Option<DataTypeV>>,
    numbers: Seq<(String, Option<Single>)>,
) -> NodeV {
    NodeV {
        kids: Seq::new(n.kids.len(), |i: int| new_row(n.kids[i], types, numbers)),
        ..n
    }
}

#[verifier::loop_isolation(false)]
fn rewrite_row(
    n: Node,
    types: &Vec<Option<DataType>>,
    numbers: &Vec<(String, Option<Single>)>,
) -> (r: (Node, bool))
    ensures
        r.0@ == new_row(n@, types_view(types@), numbers@),
        r.1 == (r.0@ != n@),
{
    let ghost n0 = n;
    let ghost views = types_view(types@);
    proof {
        tree::lemma_model(n0);
    }
    let Node { head, tag, kids } = n;
    let mut out: Vec<Node> = Vec::new();
    let mut changed = false;
    let no_type: Option<DataType> = None;
    for kid in it: kids
        invariant
            it.seq() == n0.kids@,
            out@.len() == it.index(),
            forall|j: int|
                0 <= j < out@.len() ==> (#[trigger] out@[j])@ == new_value(
                    n0.kids@[j]@,
                    type_at(views, j),
                    numbers@,
                ),
            changed == exists|j: int| 0 <= j < out@.len() && (#[trigger] out@[j])@ != n0.kids@[j]@,
    {
        let i: usize = out.len();
        let t = if i < types.len() {
            assert(views[i as int] == oid_type_planner::opt_type_view(types@[i as int]));
            &types[i]
        } else {
            &no_type
        };
        let ghost before = out@;
        let (value, new) = rewrite_value(kid, t, numbers);
        out.push(value);
        if new {
            assert(out@[i as int]@ != n0.kids@[i as int]@);
            changed = true;
        }
        proof {
            assert forall|j: int| 0 <= j < before.len() implies #[trigger] out@[j] == before[j] by {}
            if !new && (exists|j: int|
                0 <= j < out@.len() && (#[trigger] out@[j])@ != n0.kids@[j]@) {
                let j = choose|j: int|
                    0 <= j < out@.len() && (#[trigger] out@[j])@ != n0.kids@[j]@;
                assert(before[j]@ != n0.kids@[j]@);
            }
            if !new && (exists|j: int|
                0 <= j < before.len() && (#[trigger] before[j])@ != n0.kids@[j]@) {
                let j = choose|j: int|
                    0 <= j < before.len() && (#[trigger] before[j])@ != n0.kids@[j]@;
                assert(out@[j]@ != n0.kids@[j]@);
            }
        }
    }
    let r = Node { head, tag, kids: out };
    proof {
        tree::lemma_model(r);
        assert(r@.kids == new_row(n0@, views, numbers@).kids);
        if changed {
            let j = choose|j: int| 0 <= j < out@.len() && (#[trigger] out@[j])@ != n0.kids@[j]@;
            assert(r@.kids[j] != n0@.kids[j]);
        } else {
            assert forall|j: int| 0 <= j < r@.kids.len() implies #[trigger] r@.kids[j]
                == n0@.kids[j] by {
                assert(out@[j]@ == n0.kids@[j]@);
            }
            assert(r@.kids == n0@.kids);
        }
    }
    (r, changed)
}

#[verifier::loop_isolation(false)]
fn rewrite_rows(
    n: Node,
    types: &Vec<Option<DataType>>,
    numbers: &Vec<(String, Option<Single>)>,
) -> (r: (Node, bool))
    ensures
        r.0@ == new_rows(n@, types_view(types@), numbers@),
        r.1 == (r.0@ != n@),
{
    let ghost n0 = n;
    let ghost views = types_view(types@);
    proof {
        tree::lemma_model(n0);
    }
    let Node { head, tag, kids } = n;
    let mut out: Vec<Node> = Vec::new();
    let mut changed = false;
    for kid in it: kids
        invariant
            it.seq() == n0.kids@,
            out@.len() == it.index(),
            forall|j: int|
                0 <= j < out@.len() ==> (#[trigger] out@[j])@ == new_row(
                    n0.kids@[j]@,
                    views,
                    numbers@,
                ),
            changed == exists|j: int| 0 <= j < out@.len() && (#[trigger] out@[j])@ != n0.kids@[j]@,
    {
        let ghost before = out@;
        let (row, new) = rewrite_row(kid, types, numbers);
        out.push(row);
        if new {
            assert(out@[before.len() as int]@ != n0.kids@[before.len() as int]@);
            changed = true;
        }
        proof {
            assert forall|j: int| 0 <= j < before.len() implies #[trigger] out@[j] == before[j] by {}
            if !new && (exists|j: int|
                0 <= j < out@.len() && (#[trigger] out@[j])@ != n0.kids@[j]@) {
                let j = choose|j: int|
                    0 <= j < out@.len() && (#[trigger] out@[j])@ != n0.kids@[j]@;
                assert(before[j]@ != n0.kids@[j]@);
            }
            if !new && (exists|j: int|
                0 <= j < before.len() && (#[trigger] before[j])@ != n0.kids@[j]@) {
                let j = choose|j: int|
                    0 <= j < before.len() && (#[trigger] before[j])@ != n0.kids@[j]@;
                assert(out@[j]@ != n0.kids@[j]@);
            }
        }
    }
    let r = Node { head, tag, kids: out };
    proof {
        tree::lemma_model(r);
        assert(r@.kids == new_rows(n0@, views, numbers@).kids);
        if changed {
            let j = choose|j: int| 0 <= j < out@.len() && (#[trigger] out@[j])@ != n0.kids@[j]@;
            assert(r@.kids[j] != n0@.kids[j]);
        } else {
            assert forall|j: int| 0 <= j < r@.kids.len() implies #[trigger] r@.kids[j]
                == n0@.kids[j] by {
                assert(out@[j]@ == n0.kids@[j]@);
            }
            assert(r@.kids == n0@.kids);
        }
    }
    (r, changed)
}

/// Where a table is looked up.
#[derive(Debug, PartialEq, Eq)]
pub enum TableReference {
    /// A table of a schema of a catalog.
    Full { catalog: String, schema: String, table: String },
    /// A table of a schema.
    Partial { schema: String, table: String },
    /// A table.
    Bare { table: String },
    /// A table that is called by the whole text of the name.
    Text,
}

/// The model of a [`TableReference`].
#[allow(inconsistent_fields)]
#[verifier::ext_equal]
pub enum TableReferenceV {
    Full { catalog: Seq<char>, schema: Seq<char>, table: Seq<char> },
    Partial { schema: Seq<char>, table: Seq<char> },
    Bare { table: Seq<char> },
    Text,
}

impl View for TableReference {
    type V = TableReferenceV;

    open spec fn view(&self) -> TableReferenceV {
        match *self {
            TableReference::Full { catalog, schema, table } => TableReferenceV::Full {
                catalog: catalog@,
                schema: schema@,
                table: table@,
            },
            TableReference::Partial { schema, table } => TableReferenceV::Partial {
                schema: schema@,
                table: table@,
            },
            TableReference::Bare { table } => TableReferenceV::Bare { table: table@ },
            TableReference::Text => TableReferenceV::Text,
        }
    }
}

/// The identifiers of a name.
pub open spec fn identifiers(name: Seq<PartV>) -> Seq<Seq<char>>
    decreases name.len(),
{
    if name.len() == 0 {
        Seq::empty()
    } else {
        let rest = identifiers(name.drop_last());
        match name.last() {
            PartV::Identifier(ident) => rest.push(ident.value),
            PartV::Function(_) => rest,
        }
    }
}

/// Where the table of a name is looked up.
pub open spec fn reference_of(name: Seq<PartV>) -> TableReferenceV {
    let parts = identifiers(name);
    if parts.len() == 3 {
        TableReferenceV::Full { catalog: parts[0], schema: parts[1], table: parts[2] }
    } else if parts.len() == 2 {
        TableReferenceV::Partial { schema: parts[0], table: parts[1] }
    } else if parts.len() == 1 {
        TableReferenceV::Bare { table: parts[0] }
    } else {
        TableReferenceV::Text
    }
}

/// Where the table of a name is looked up.
pub fn object_name_to_table_reference(name: &Vec<NamePart>) -> (r: TableReference)
    ensures
        r@ == reference_of(tree::name_view(name@)),
{
    let ghost views = tree::name_view(name@);
    let mut parts: Vec<String> = Vec::new();
    let mut i: usize = 0;
    assert(views.take(0) == Seq::<PartV>::empty());
    assert(text::views(parts@) == Seq::<Seq<char>>::empty());
    while i < name.len()
        invariant
            i <= name@.len(),
            views == tree::name_view(name@),
            text::views(parts@) == identifiers(views.take(i as int)),
        decreases name@.len() - i,
    {
        let ghost before = parts@;
        assert(views.take(i + 1).drop_last() == views.take(i as int));
        assert(views[i as int] == name@[i as int]@);
        if let NamePart::Identifier(ident) = &name[i] {
            parts.push(ident.value.clone());
            assert(text::views(parts@) == text::views(before).push(ident.value@));
        }
        i += 1;
    }
    assert(views.take(i as int) == views);
    proof {
        assert forall|j: int| 0 <= j < parts@.len() implies identifiers(views)[j]
            == (#[trigger] parts@[j])@ by {
            assert(text::views(parts@)[j] == parts@[j]@);
        }
    }
    if parts.len() == 3 {
        TableReference::Full {
            catalog: parts[0].clone(),
            schema: parts[1].clone(),
            table: parts[2].clone(),
        }
    } else if parts.len() == 2 {
        TableReference::Partial { schema: parts[0].clone(), table: parts[1].clone() }
    } else if parts.len() == 1 {
        TableReference::Bare { table: parts[0].clone() }
    } else {
        TableReference::Text
    }
}

/// True of an insertion of rows of values into a table that is called by its name,
/// with column names of one part each.
pub open spec fn inserts_values(s: NodeV) -> bool {
    &&& s.head matches HeadV::Insert { table, columns, has_source } && table is Some && has_source
        && forall|i: int| 0 <= i < columns.len() ==> (#[trigger] columns[i]).len() == 1
    &&& s.kids.len() > 0
    &&& s.kids[0].head is Query
    &&& s.kids[0].kids.len() > 0
    &&& s.kids[0].kids[0].head is Values
}

fn columns_are_plain(columns: &Vec<Vec<NamePart>>) -> (r: bool)
    ensures
        r == (forall|i: int|
            0 <= i < columns@.len() ==> (#[trigger] tree::names_view(columns@)[i]).len() == 1),
{
    let mut i: usize = 0;
    while i < columns.len()
        invariant
            i <= columns@.len(),
            forall|j: int| 0 <= j < i ==> (#[trigger] tree::names_view(columns@)[j]).len() == 1,
        decreases columns@.len() - i,
    {
        assert(tree::names_view(columns@)[i as int].len() == columns@[i as int]@.len());
        if columns[i].len() != 1 {
            return false;
        }
        i += 1;
    }
    true
}

fn is_values_insert(s: &Node) -> (r: bool)
    ensures
        r == inserts_values(s@),
{
    proof {
        tree::lemma_model(*s);
    }
    match &s.head {
        Head::Insert { table, columns, has_source } => {
            assert(s@.head == (HeadV::Insert {
                table: tree::opt_name_view(*table),
                columns: tree::names_view(columns@),
                has_source: *has_source,
            }));
            if table.is_none() || !*has_source || s.kids.len() == 0 {
                return false;
            }
            if !columns_are_plain(columns) {
                proof {
                    let names = tree::names_view(columns@);
                    let i = choose|i: int|
                        0 <= i < names.len() && (#[trigger] names[i]).len() != 1;
                    assert(s@.head->Insert_columns[i].len() != 1);
                }
                return false;
            }
            let source = &s.kids[0];
            proof {
                tree::lemma_model(*source);
                assert(s@.kids[0] == source@);
            }
            match &source.head {
                Head::Query { .. } => {},
                _ => return false,
            }
            if source.kids.len() == 0 {
                return false;
            }
            let body = &source.kids[0];
            proof {
                tree::lemma_model(*body);
                assert(source@.kids[0] == body@);
            }
            match &body.head {
                Head::Values => true,
                _ => false,
            }
        },
        _ => false,
    }
}

/// The table whose columns decide on what an insertion becomes. Nothing where it
/// stays as it is.
pub fn insert_target(statement: &Node) -> (r: Option<TableReference>)
    ensures
        match r {
            Some(t) => inserts_values(statement@) && t@ == reference_of(
                statement@.head->Insert_table->0,
            ),
            None => !inserts_values(statement@),
        },
{
    if !is_values_insert(statement) {
        return None;
    }
    match &statement.head {
        Head::Insert { table: Some(name), .. } => Some(object_name_to_table_reference(name)),
        _ => None,
    }
}

/// The type of the first field of a name, in any case.
pub open spec fn field_type(fields: Seq<FieldV>, name: Seq<char>) -> Option<DataTypeV>
    decreases fields.len(),
{
    if fields.len() == 0 {
        None
    } else if text::same_ignoring_ascii_case(fields[0].name, name) {
        Some(fields[0].data_type)
    } else {
        field_type(fields.skip(1), name)
    }
}

/// The types that go with the positions of the values: those of the table's columns,
/// or those of the named columns.
pub open spec fn target_types(columns: Seq<Seq<PartV>>, fields: Seq<FieldV>) -> Seq<
    Option<DataTypeV>,
> {
    if columns.len() == 0 {
        fields.map_values(|f: FieldV| Some(f.data_type))
    } else {
        columns.map_values(
            |c: Seq<PartV>|
                match c[0] {
                    PartV::Identifier(ident) => field_type(fields, ident.value),
                    PartV::Function(_) => None,
                },
        )
    }
}

fn find_field_type(fields: &Vec<Field>, name: &str) -> (r: Option<DataType>)
    ensures
        oid_type_planner::opt_type_view(r) == field_type(schema::fields_view(fields@), name@),
{
    let ghost views = schema::fields_view(fields@);
    let mut i: usize = 0;
    assert(views.skip(0) == views);
    while i < fields.len()
        invariant
            i <= fields@.len(),
            views == schema::fields_view(fields@),
            field_type(views, name@) == field_type(views.skip(i as int), name@),
        decreases fields@.len() - i,
    {
        assert(views.skip(i as int)[0] == fields@[i as int]@);
        assert(views.skip(i as int).skip(1) == views.skip(i + 1));
        if text::eq_ignore_ascii_case(fields[i].name.as_str(), name) {
            return Some(fields[i].data_type.copy());
        }
        i += 1;
    }
    None
}

fn types_of_targets(columns: &Vec<Vec<NamePart>>, fields: &Vec<Field>) -> (r: Vec<
    Option<DataType>,
>)
    requires
        forall|i: int| 0 <= i < columns@.len() ==> (#[trigger] tree::names_view(columns@)[i]).len() == 1,
    ensures
        types_view(r@) == target_types(tree::names_view(columns@), schema::fields_view(fields@)),
{
    let ghost goal = target_types(tree::names_view(columns@), schema::fields_view(fields@));
    let mut out: Vec<Option<DataType>> = Vec::new();
    if columns.len() == 0 {
        let mut i: usize = 0;
        while i < fields.len()
            invariant
                i <= fields@.len(),
                out@.len() == i,
                goal == schema::fields_view(fields@).map_values(|f: FieldV| Some(f.data_type)),
                forall|j: int|
                    0 <= j < i ==> oid_type_planner::opt_type_view(#[trigger] out@[j]) == goal[j],
            decreases fields@.len() - i,
        {
            out.push(Some(fields[i].data_type.copy()));
            assert(goal[i as int] == Some(fields@[i as int]@.data_type));
            i += 1;
        }
    } else {
        let mut i: usize = 0;
        while i < columns.len()
            invariant
                i <= columns@.len(),
                out@.len() == i,
                goal.len() == columns@.len(),
                columns@.len() > 0,
                goal == target_types(tree::names_view(columns@), schema::fields_view(fields@)),
                forall|j: int|
                    0 <= j < columns@.len() ==> (#[trigger] tree::names_view(columns@)[j]).len()
                        == 1,
                forall|j: int|
                    0 <= j < i ==> oid_type_planner::opt_type_view(#[trigger] out@[j]) == goal[j],
            decreases columns@.len() - i,
        {
            let column = &columns[i];
            assert(tree::names_view(columns@)[i as int] == tree::name_view(column@));
            assert(tree::name_view(column@)[0] == column@[0]@);
            let t = match &column[0] {
                NamePart::Identifier(ident) => find_field_type(fields, ident.value.as_str()),
                NamePart::Function(_) => None,
            };
            out.push(t);
            i += 1;
        }
    }
    assert(types_view(out@) == goal);
    out
}

/// What an insertion into a table with the fields becomes.
pub open spec fn new_insert(
    s: NodeV,
    fields: Seq<FieldV>,
    numbers: Seq<(String, Option<Single>)>,
) -> NodeV {
    if inserts_values(s) {
        let query = s.kids[0];
        let types = target_types(s.head->Insert_columns, fields);
        let values = new_rows(query.kids[0], types, numbers);
        NodeV {
            kids: s.kids.update(0, NodeV { kids: query.kids.update(0, values), ..query }),
            ..s
        }
    } else {
        s
    }
}

/// What becomes of an insertion into a table with the given fields, where there is one.
pub open spec fn new_insert_into(
    s: NodeV,
    fields: Option<&Vec<Field>>,
    numbers: Seq<(String, Option<Single>)>,
) -> NodeV {
    match fields {
        Some(fields) => new_insert(s, schema::fields_view(fields@), numbers),
        None => s,
    }
}

/// Writes the texts that an insertion puts into columns of vectors as arrays, and says
/// whether there were any. An insertion into a table that there is not is kept.
pub fn rewrite_vector_insert(
    statement: Node,
    fields: Option<&Vec<Field>>,
    numbers: &Vec<(String, Option<Single>)>,
) -> (r: (Node, bool))
    ensures
        r.0@ == new_insert_into(statement@, fields, numbers@),
        r.1 == (r.0@ != statement@),
{
    let fields = match fields {
        Some(fields) => fields,
        None => {
            return (statement, false);
        },
    };
    if !is_values_insert(&statement) {
        return (statement, false);
    }
    let ghost s0 = statement;
    let ghost goal = new_insert(s0@, schema::fields_view(fields@), numbers@);
    proof {
        tree::lemma_model(s0);
    }
    let Node { head, tag, kids } = statement;
    let types = match &head {
        Head::Insert { columns, .. } => types_of_targets(columns, fields),
        _ => Vec::new(),
    };
    let mut outer = kids;
    let ghost query0 = outer@[0];
    proof {
        tree::lemma_model(query0);
        assert(s0@.kids[0] == query0@);
    }
    let Node { head: query_head, tag: query_tag, kids: query_kids } = outer.remove(0);
    let mut inner = query_kids;
    let ghost values0 = inner@[0];
    assert(query0@.kids[0] == values0@);
    let (values, changed) = rewrite_rows(inner.remove(0), &types, numbers);
    inner.insert(0, values);
    let query = Node { head: query_head, tag: query_tag, kids: inner };
    outer.insert(0, query);
    let r = Node { head, tag, kids: outer };
    proof {
        tree::lemma_model(query);
        tree::lemma_model(r);
        assert(query@.kids == query0@.kids.update(0, values@));
        assert(r@.kids == s0@.kids.update(0, query@));
        assert(r@ == goal);
        if changed {
            assert(r@.kids[0].kids[0] != s0@.kids[0].kids[0]);
        } else {
            assert(query@.kids == query0@.kids);
            assert(r@.kids == s0@.kids);
        }
    }
    (r, changed)
}

/// The items of the text of a value that goes into a column of vectors.
pub open spec fn value_items(n: NodeV, t: Option<DataTypeV>) -> Seq<Seq<char>> {
    match candidate(n, t) {
        Some((_, text)) => match params::vector_text(text) {
            Ok(items) => items,
            Err(_) => Seq::empty(),
        },
        None => Seq::empty(),
    }
}

/// The items of the first `n` values of a row.
pub open spec fn row_items(kids: Seq<NodeV>, types: Seq<Option<DataTypeV>>, n: int) -> Seq<
    Seq<char>,
>
    decreases n,
{
    if n <= 0 {
        Seq::empty()
    } else {
        row_items(kids, types, n - 1) + value_items(kids[n - 1], type_at(types, n - 1))
    }
}

/// The items of the first `n` rows.
pub open spec fn rows_items(rows: Seq<NodeV>, types: Seq<Option<DataTypeV>>, n: int) -> Seq<
    Seq<char>,
>
    decreases n,
{
    if n <= 0 {
        Seq::empty()
    } else {
        rows_items(rows, types, n - 1) + row_items(
            rows[n - 1].kids,
            types,
            rows[n - 1].kids.len() as int,
        )
    }
}

/// The items of the texts that an insertion puts into columns of vectors.
pub open spec fn insert_items(s: NodeV, fields: Seq<FieldV>) -> Seq<Seq<char>> {
    if inserts_values(s) {
        let rows = s.kids[0].kids[0].kids;
        rows_items(rows, target_types(s.head->Insert_columns, fields), rows.len() as int)
    } else {
        Seq::empty()
    }
}

fn append_texts(out: &mut Vec<String>, more: Vec<String>)
    ensures
        text::views(final(out)@) == text::views(old(out)@) + text::views(more@),
{
    let mut i: usize = 0;
    assert(text::views(out@) + text::views(more@).take(0) == text::views(out@));
    while i < more.len()
        invariant
            i <= more@.len(),
            text::views(out@) == text::views(old(out)@) + text::views(more@).take(i as int),
        decreases more@.len() - i,
    {
        let ghost before = out@;
        out.push(more[i].clone());
        assert(text::views(out@) == text::views(before).push(more@[i as int]@));
        assert(text::views(more@).take(i + 1) == text::views(more@).take(i as int).push(
            more@[i as int]@,
        ));
        i += 1;
    }
    assert(text::views(more@).take(i as int) == text::views(more@));
}

fn collect_row(row: &Node, types: &Vec<Option<DataType>>, out: &mut Vec<String>)
    ensures
        text::views(final(out)@) == text::views(old(out)@) + row_items(
            row@.kids,
            types_view(types@),
            row@.kids.len() as int,
        ),
{
    proof {
        tree::lemma_model(*row);
    }
    let ghost views = types_view(types@);
    let no_type: Option<DataType> = None;
    let mut i: usize = 0;
    assert(text::views(out@) + row_items(row@.kids, views, 0) == text::views(out@));
    while i < row.kids.len()
        invariant
            i <= row.kids@.len(),
            no_type is None,
            views == types_view(types@),
            row@.kids == tree::nodes_view(row.kids@),
            text::views(out@) == text::views(old(out)@) + row_items(row@.kids, views, i as int),
        decreases row.kids@.len() - i,
    {
        let t = if i < types.len() {
            assert(views[i as int] == oid_type_planner::opt_type_view(types@[i as int]));
            &types[i]
        } else {
            &no_type
        };
        assert(row@.kids[i as int] == row.kids@[i as int]@);
        let ghost before = text::views(out@);
        let ghost more = value_items(row@.kids[i as int], type_at(views, i as int));
        if let Some((_, text)) = find_candidate(&row.kids[i], t) {
            if let Ok(items) = params::split_vector_text(text.as_str()) {
                append_texts(out, items);
            }
        }
        assert(text::views(out@) == before + more);
        assert(text::views(out@) == text::views(old(out)@) + (row_items(row@.kids, views, i as int)
            + more));
        i += 1;
    }
}

/// The items of the texts that an insertion puts into columns of vectors: the texts
/// that have to be read as numbers.
pub fn vector_items(statement: &Node, fields: &Vec<Field>) -> (r: Vec<String>)
    ensures
        text::views(r@) == insert_items(statement@, schema::fields_view(fields@)),
{
    let mut out: Vec<String> = Vec::new();
    assert(text::views(out@) == Seq::<Seq<char>>::empty());
    if !is_values_insert(statement) {
        return out;
    }
    proof {
        tree::lemma_model(*statement);
        tree::lemma_model(statement.kids@[0]);
        assert(statement@.kids[0] == statement.kids@[0]@);
        tree::lemma_model(statement.kids@[0].kids@[0]);
        assert(statement@.kids[0].kids[0] == statement.kids@[0].kids@[0]@);
    }
    let types = match &statement.head {
        Head::Insert { columns, .. } => {
            assert(statement@.head->Insert_columns == tree::names_view(columns@));
            types_of_targets(columns, fields)
        },
        _ => Vec::new(),
    };
    let rows = &statement.kids[0].kids[0].kids;
    let ghost views = tree::nodes_view(rows@);
    let mut i: usize = 0;
    while i < rows.len()
        invariant
            i <= rows@.len(),
            views == tree::nodes_view(rows@),
            text::views(out@) == rows_items(views, types_view(types@), i as int),
        decreases rows@.len() - i,
    {
        assert(views[i as int] == rows@[i as int]@);
        collect_row(&rows[i], &types, &mut out);
        i += 1;
    }
    out
}

/// A rewritten insertion is rewritten no further.
pub proof fn law_insert_is_rewritten_once(
    s: NodeV,
    fields: Seq<FieldV>,
    numbers: Seq<(String, Option<Single>)>,
)
    ensures
        new_insert(new_insert(s, fields, numbers), fields, numbers) == new_insert(
            s,
            fields,
            numbers,
        ),
{
    let once = new_insert(s, fields, numbers);
    if inserts_values(s) {
        let types = target_types(s.head->Insert_columns, fields);
        let rows = s.kids[0].kids[0];
        let new = new_rows(rows, types, numbers);
        let twice = new_rows(new, types, numbers);
        assert(once.kids[0].kids[0] == new);
        assert forall|i: int| 0 <= i < rows.kids.len() implies #[trigger] twice.kids[i]
            == new.kids[i] by {
            assert forall|j: int| 0 <= j < rows.kids[i].kids.len() implies #[trigger] twice.kids[i].kids[j]
                == new.kids[i].kids[j] by {}
            assert(twice.kids[i].kids == new.kids[i].kids);
        }
        assert(twice.kids == new.kids);
        let again = new_insert(once, fields, numbers);
        assert(again.kids[0].kids == once.kids[0].kids);
        assert(again.kids == once.kids);
    }
}

/// An insertion keeps its table, its columns, its rows and the number of values in
/// each. A value changes only where it is the text of a vector of the right number of
/// dimensions and its column is one of vectors.
pub proof fn law_other_values_are_kept(
    s: NodeV,
    fields: Seq<FieldV>,
    numbers: Seq<(String, Option<Single>)>,
    row: int,
    pos: int,
)
    requires
        inserts_values(s),
        0 <= row < s.kids[0].kids[0].kids.len(),
        0 <= pos < s.kids[0].kids[0].kids[row].kids.len(),
    ensures
        ({
            let r = new_insert(s, fields, numbers);
            let old_rows = s.kids[0].kids[0].kids;
            let new_rows = r.kids[0].kids[0].kids;
            let types = target_types(s.head->Insert_columns, fields);
            let value = old_rows[row].kids[pos];
            &&& r.head == s.head
            &&& new_rows.len() == old_rows.len()
            &&& new_rows[row].kids.len() == old_rows[row].kids.len()
            &&& new_rows[row].kids[pos] != value ==> {
                &&& candidate(value, type_at(types, pos)) is Some
                &&& vector_floats(literal_text(value)->0, numbers) matches Some(items)
                    && new_rows[row].kids[pos] == vector_array(items) && (dimension_of(
                    type_at(types, pos)->0,
                ) == Some(None::<i32>) || dimension_of(type_at(types, pos)->0) == Some(
                    Some(items.len() as i32),
                ))
            }
        }),
{
    let types = target_types(s.head->Insert_columns, fields);
    let value = s.kids[0].kids[0].kids[row].kids[pos];
    assert(new_insert(s, fields, numbers).kids[0].kids[0].kids[row].kids[pos] == new_value(
        value,
        type_at(types, pos),
        numbers,
    ));
}

/// Only the numbers of the listed items decide on what an insertion becomes.
pub proof fn law_items_decide(
    s: NodeV,
    fields: Seq<FieldV>,
    a: Seq<(String, Option<Single>)>,
    b: Seq<(String, Option<Single>)>,
)
    requires
        forall|item: Seq<char>|
            insert_items(s, fields).contains(item) ==> #[trigger] number_of(a, item) == number_of(
                b,
                item,
            ),
    ensures
        new_insert(s, fields, a) == new_insert(s, fields, b),
{
    if inserts_values(s) {
        let types = target_types(s.head->Insert_columns, fields);
        let rows = s.kids[0].kids[0];
        let x = new_rows(rows, types, a);
        let y = new_rows(rows, types, b);
        assert forall|i: int| 0 <= i < rows.kids.len() implies #[trigger] x.kids[i]
            == y.kids[i] by {
            let row = rows.kids[i];
            assert forall|j: int| 0 <= j < row.kids.len() implies #[trigger] x.kids[i].kids[j]
                == y.kids[i].kids[j] by {
                let t = type_at(types, j);
                if let Some((_, text)) = candidate(row.kids[j], t) {
                    if let Ok(items) = params::vector_text(text) {
                        assert forall|k: int| 0 <= k < items.len() implies number_of(
                            a,
                            #[trigger] items[k],
                        ) == number_of(b, items[k]) by {
                            lemma_row_contains(
                                row.kids,
                                types,
                                row.kids.len() as int,
                                j,
                                items[k],
                            );
                            lemma_rows_contain(
                                rows.kids,
                                types,
                                rows.kids.len() as int,
                                i,
                                items[k],
                            );
                        }
                        assert(items.map_values(|item: Seq<char>| number_of(a, item)->0)
                            == items.map_values(|item: Seq<char>| number_of(b, item)->0));
                        assert(vector_floats(text, a) == vector_floats(text, b));
                    }
                }
            }
            assert(x.kids[i].kids == y.kids[i].kids);
        }
        assert(x.kids == y.kids);
    }
}

pub(crate) proof fn lemma_row_contains(
    kids: Seq<NodeV>,
    types: Seq<Option<DataTypeV>>,
    n: int,
    j: int,
    item: Seq<char>,
)
    requires
        0 <= j < n <= kids.len(),
        value_items(kids[j], type_at(types, j)).contains(item),
    ensures
        row_items(kids, types, n).contains(item),
    decreases n,
{
    let rest = row_items(kids, types, n - 1);
    let last = value_items(kids[n - 1], type_at(types, n - 1));
    if j == n - 1 {
        let k = choose|k: int| 0 <= k < last.len() && last[k] == item;
        assert((rest + last)[rest.len() + k] == item);
    } else {
        lemma_row_contains(kids, types, n - 1, j, item);
        let k = choose|k: int| 0 <= k < rest.len() && rest[k] == item;
        assert((rest + last)[k] == item);
    }
}

pub(crate) proof fn lemma_rows_contain(
    rows: Seq<NodeV>,
    types: Seq<Option<DataTypeV>>,
    n: int,
    i: int,
    item: Seq<char>,
)
    requires
        0 <= i < n <= rows.len(),
        row_items(rows[i].kids, types, rows[i].kids.len() as int).contains(item),
    ensures
        rows_items(rows, types, n).contains(item),
    decreases n,
{
    let rest = rows_items(rows, types, n - 1);
    let last = row_items(rows[n - 1].kids, types, rows[n - 1].kids.len() as int);
    if i == n - 1 {
        let k = choose|k: int| 0 <= k < last.len() && last[k] == item;
        assert((rest + last)[rest.len() + k] == item);
    } else {
        lemma_rows_contain(rows, types, n - 1, i, item);
        let k = choose|k: int| 0 <= k < rest.len() && rest[k] == item;
        assert((rest + last)[k] == item);
    }
}

} // verus!
