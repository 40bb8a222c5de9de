//! The type `vector` in the relation `pg_type`.
use crate::datatypes::{PG_CHAR_KEY, PG_VECTOR_TYPE_OID};
use crate::pg_catalog::oid::PG_CATALOG_NAMESPACE_OID;
use crate::scalar;
use crate::scalar::{ScalarV, ScalarValue};
use crate::schema;
use crate::schema::{DataType, DataTypeV, Field, FieldV};
use crate::text;
use vstd::prelude::*;

verus! {

/// A column type without a default value.
#[derive(Debug)]
pub struct NoDefault {
    pub data_type: DataType,
}

/// Metadata with the value of a key, in place of the one that the key had.
pub open spec fn with_entry(
    metadata: Seq<(Seq<char>, Seq<char>)>,
    key: Seq<char>,
    value: Seq<char>,
) -> Seq<(Seq<char>, Seq<char>)>
    decreases metadata.len(),
{
    if metadata.len() == 0 {
        seq![(key, value)]
    } else if metadata[0].0 == key {
        seq![(key, value)] + metadata.skip(1)
    } else {
        seq![metadata[0]] + with_entry(metadata.skip(1), key, value)
    }
}

/// A field with an entry of metadata, if it has the name.
pub open spec fn with_mark(f: FieldV, name: Seq<char>, key: Seq<char>, value: Seq<char>) -> FieldV {
    if f.name == name {
        FieldV { metadata: with_entry(f.metadata, key, value), ..f }
    } else {
        f
    }
}

fn insert_entry(metadata: &mut Vec<(String, String)>, key: &str, value: &str)
    ensures
        schema::metadata_view(final(metadata)@) == with_entry(
            schema::metadata_view(old(metadata)@),
            key@,
            value@,
        ),
{
    let ghost all = schema::metadata_view(metadata@);
    let mut i: usize = 0;
    assert(all.take(0) + with_entry(all.skip(0), key@, value@) == with_entry(all, key@, value@))
        by {
        assert(all.skip(0) == all);
    }
    while i < metadata.len()
        invariant
            metadata@ == old(metadata)@,
            all == schema::metadata_view(metadata@),
            i <= metadata@.len(),
            all.take(i as int) + with_entry(all.skip(i as int), key@, value@) == with_entry(
                all,
                key@,
                value@,
            ),
        decreases metadata@.len() - i,
    {
        let ghost rest = all.skip(i as int);
        assert(rest[0] == all[i as int]);
        assert(rest.skip(1) == all.skip(i + 1));
        if text::same(metadata[i].0.as_str(), key) {
            metadata.set(i, (key.to_owned(), value.to_owned()));
            assert(schema::metadata_view(metadata@) == all.take(i as int) + (seq![(key@, value@)]
                + all.skip(i + 1)));
            return ;
        }
        assert(all.take(i + 1) + with_entry(all.skip(i + 1), key@, value@) == all.take(i as int) + (
        seq![all[i as int]] + with_entry(all.skip(i + 1), key@, value@)));
        i += 1;
    }
    assert(all.skip(i as int) == Seq::<(Seq<char>, Seq<char>)>::empty());
    metadata.push((key.to_owned(), value.to_owned()));
    assert(schema::metadata_view(metadata@) == all.take(i as int) + seq![(key@, value@)]);
}

/// The fields of a relation, those of the name with an entry of metadata.
pub fn with_field_metadata(fields: &Vec<Field>, name: &str, key: &str, value: &str) -> (r: Vec<
    Field,
>)
    ensures
        schema::fields_view(r@) == schema::fields_view(fields@).map_values(
            |f: FieldV| with_mark(f, name@, key@, value@),
        ),
{
    let mut out: Vec<Field> = Vec::new();
    let mut i: usize = 0;
    while i < fields.len()
        invariant
            i <= fields@.len(),
            out@.len() == i,
            forall|j: int|
                0 <= j < i ==> (#[trigger] out@[j])@ == with_mark(
                    fields@[j]@,
                    name@,
                    key@,
                    value@,
                ),
        decreases fields@.len() - i,
    {
        let mut field = fields[i].copy();
        if text::same(field.name.as_str(), name) {
            insert_entry(&mut field.metadata, key, value);
        }
        out.push(field);
        i += 1;
    }
    assert(schema::fields_view(out@) == schema::fields_view(fields@).map_values(
        |f: FieldV| with_mark(f, name@, key@, value@),
    ));
    out
}

/// The default value of a column type: a number 0, an empty text, or false.
pub open spec fn default_of(t: DataTypeV) -> Option<ScalarV> {
    match t {
        DataTypeV::Null => Some(ScalarV::Null),
        DataTypeV::Boolean => Some(ScalarV::Boolean(Some(false))),
        DataTypeV::Int16 => Some(ScalarV::Int16(Some(0))),
        DataTypeV::Int32 => Some(ScalarV::Int32(Some(0))),
        DataTypeV::Int64 => Some(ScalarV::Int64(Some(0))),
        DataTypeV::Utf8 => Some(ScalarV::Utf8(Some(Seq::empty()))),
        DataTypeV::LargeUtf8 => Some(ScalarV::LargeUtf8(Some(Seq::empty()))),
        _ => None,
    }
}

/// The default value of a column type.
pub fn default_scalar(data_type: &DataType) -> (r: Result<ScalarValue, NoDefault>)
    ensures
        match r {
            Ok(v) => default_of(data_type@) == Some(v@),
            Err(e) => default_of(data_type@) is None && e.data_type@ == data_type@,
        },
{
    match data_type {
        DataType::Null => Ok(ScalarValue::Null),
        DataType::Boolean => Ok(ScalarValue::Boolean(Some(false))),
        DataType::Int16 => Ok(ScalarValue::Int16(Some(0))),
        DataType::Int32 => Ok(ScalarValue::Int32(Some(0))),
        DataType::Int64 => Ok(ScalarValue::Int64(Some(0))),
        DataType::Utf8 => Ok(ScalarValue::Utf8(Some(String::new()))),
        DataType::LargeUtf8 => Ok(ScalarValue::LargeUtf8(Some(String::new()))),
        _ => Err(NoDefault { data_type: data_type.copy() }),
    }
}

/// What the row of the type `vector` holds in a column by its name.
pub open spec fn vector_entry(column: Seq<char>) -> Option<ScalarV> {
    if column == "oid"@ {
        Some(ScalarV::Int32(Some(PG_VECTOR_TYPE_OID as i32)))
    } else if column == "typname"@ {
        Some(ScalarV::Utf8(Some("vector"@)))
    } else if column == "typtype"@ {
        Some(ScalarV::Utf8(Some("b"@)))
    } else if column == "typnamespace"@ {
        Some(ScalarV::Int32(Some(PG_CATALOG_NAMESPACE_OID as i32)))
    } else {
        None
    }
}

/// What the row of the type `vector` holds in a column.
pub open spec fn vector_cell(f: FieldV) -> ScalarV {
    match vector_entry(f.name) {
        Some(v) => v,
        None => default_of(f.data_type)->0,
    }
}

/// The first field whose type has no default value, from field `from` on.
pub open spec fn first_without_default(fields: Seq<FieldV>, from: int) -> Option<int>
    decreases fields.len() - from,
{
    if from < 0 || from >= fields.len() {
        None
    } else if default_of(fields[from].data_type) is None {
        Some(from)
    } else {
        first_without_default(fields, from + 1)
    }
}

/// A row of a relation for the type `vector`. Every column must have a default value.
fn vector_row(fields: &Vec<Field>) -> (r: Result<Vec<ScalarValue>, NoDefault>)
    ensures
        match (r, first_without_default(schema::fields_view(fields@), 0)) {
            (Ok(row), None) => scalar::scalars_view(row@) == schema::fields_view(
                fields@,
            ).map_values(|f: FieldV| vector_cell(f)),
            (Err(e), Some(i)) => e.data_type@ == fields@[i]@.data_type,
            _ => false,
        },
{
    let ghost views = schema::fields_view(fields@);
    let mut row: Vec<ScalarValue> = Vec::new();
    let mut i: usize = 0;
    while i < fields.len()
        invariant
            i <= fields@.len(),
            row@.len() == i,
            views == schema::fields_view(fields@),
            forall|j: int| 0 <= j < i ==> (#[trigger] row@[j])@ == vector_cell(fields@[j]@),
            first_without_default(views, 0) == first_without_default(views, i as int),
        decreases fields@.len() - i,
    {
        assert(views[i as int] == fields@[i as int]@);
        let default = match default_scalar(&fields[i].data_type) {
            Ok(v) => v,
            Err(e) => return Err(e),
        };
        let name = fields[i].name.as_str();
        let value = if text::same(name, "oid") {
            ScalarValue::Int32(Some(PG_VECTOR_TYPE_OID as i32))
        } else if text::same(name, "typname") {
            ScalarValue::Utf8(Some("vector".to_owned()))
        } else if text::same(name, "typtype") {
            ScalarValue::Utf8(Some("b".to_owned()))
        } else if text::same(name, "typnamespace") {
            ScalarValue::Int32(Some(PG_CATALOG_NAMESPACE_OID as i32))
        } else {
            default
        };
        row.push(value);
        i += 1;
    }
    assert(scalar::scalars_view(row@) == views.map_values(|f: FieldV| vector_cell(f)));
    Ok(row)
}

/// The relation `pg_type` with the type `vector`: its fields, with the mark of a
/// `"char"` on `typtype`, and the row to append to its rows.
pub fn with_pg_vector_support(pg_type: &Vec<Field>) -> (r: Result<
    (Vec<Field>, Vec<ScalarValue>),
    NoDefault,
>)
    ensures
        ({
            let fields = schema::fields_view(pg_type@);
            match (r, first_without_default(fields, 0)) {
                (Ok((marked, row)), None) => {
                    &&& schema::fields_view(marked@) == fields.map_values(
                        |f: FieldV| with_mark(f, "typtype"@, PG_CHAR_KEY@, "char"@),
                    )
                    &&& scalar::scalars_view(row@) == fields.map_values(|f: FieldV| vector_cell(f))
                },
                (Err(e), Some(i)) => e.data_type@ == fields[i].data_type,
                _ => false,
            }
        }),
{
    let marked = with_field_metadata(pg_type, "typtype", PG_CHAR_KEY, "char");
    let ghost fields = schema::fields_view(pg_type@);
    let ghost views = schema::fields_view(marked@);
    proof {
        assert forall|i: int| 0 <= i < fields.len() implies (#[trigger] views[i]).data_type
            == fields[i].data_type && views[i].name == fields[i].name by {}
        lemma_same_defaults(fields, views, 0);
        lemma_first(views, 0);
        assert(views.map_values(|f: FieldV| vector_cell(f)) == fields.map_values(
            |f: FieldV| vector_cell(f),
        ));
    }
    match vector_row(&marked) {
        Ok(row) => Ok((marked, row)),
        Err(e) => {
            proof {
                let i = first_without_default(views, 0)->0;
                assert(views[i] == marked@[i]@);
            }
            Err(e)
        },
    }
}

proof fn lemma_first(fields: Seq<FieldV>, from: int)
    requires
        0 <= from,
    ensures
        first_without_default(fields, from) matches Some(i) ==> from <= i < fields.len(),
    decreases fields.len() - from,
{
    if from < fields.len() {
        lemma_first(fields, from + 1);
    }
}

proof fn lemma_same_defaults(a: Seq<FieldV>, b: Seq<FieldV>, from: int)
    requires
        a.len() == b.len(),
        forall|i: int| 0 <= i < a.len() ==> (#[trigger] b[i]).data_type == a[i].data_type,
    ensures
        first_without_default(a, from) == first_without_default(b, from),
    decreases a.len() - from,
{
    if 0 <= from < a.len() {
        assert(b[from].data_type == a[from].data_type);
        lemma_same_defaults(a, b, from + 1);
    }
}

/// An entry of metadata is found under its key, and no other key is touched.
pub proof fn law_entry_is_found(
    metadata: Seq<(Seq<char>, Seq<char>)>,
    key: Seq<char>,
    value: Seq<char>,
    other: Seq<char>,
)
    ensures
        schema::lookup(with_entry(metadata, key, value), key) == Some(value),
        other != key ==> schema::lookup(with_entry(metadata, key, value), other) == schema::lookup(
            metadata,
            other,
        ),
    decreases metadata.len(),
{
    reveal_with_fuel(schema::lookup, 2);
    let new = with_entry(metadata, key, value);
    if metadata.len() == 0 {
        assert(new.skip(1) == Seq::<(Seq<char>, Seq<char>)>::empty());
    } else if metadata[0].0 == key {
        assert(new.skip(1) == metadata.skip(1));
    } else {
        law_entry_is_found(metadata.skip(1), key, value, other);
        assert(new[0] == metadata[0]);
        assert(new.skip(1) == with_entry(metadata.skip(1), key, value));
    }
}

} // verus!
