//! What the description of columns is for: laws over column types and the Postgres types
//! that clients are told.
use crate::datatypes;
use crate::datatypes::{Builtin, FieldFormat, Format, KindV, TypeV};
use crate::errors::ErrorV;
use crate::param_laws;
use crate::schema;
use crate::schema::{DataTypeV, FieldV};
use vstd::prelude::*;

verus! {

/// The type of the items of an array type.
pub open spec fn element_of(array: Builtin) -> Option<Builtin> {
    match array {
        Builtin::BOOL_ARRAY => Some(Builtin::BOOL),
        Builtin::BYTEA_ARRAY => Some(Builtin::BYTEA),
        Builtin::INT2_ARRAY => Some(Builtin::INT2),
        Builtin::INT4_ARRAY => Some(Builtin::INT4),
        Builtin::INT8_ARRAY => Some(Builtin::INT8),
        Builtin::TEXT_ARRAY => Some(Builtin::TEXT),
        Builtin::VARCHAR_ARRAY => Some(Builtin::VARCHAR),
        Builtin::FLOAT4_ARRAY => Some(Builtin::FLOAT4),
        Builtin::FLOAT8_ARRAY => Some(Builtin::FLOAT8),
        Builtin::DATE_ARRAY => Some(Builtin::DATE),
        Builtin::TIME_ARRAY => Some(Builtin::TIME),
        Builtin::TIMESTAMP_ARRAY => Some(Builtin::TIMESTAMP),
        Builtin::TIMESTAMPTZ_ARRAY => Some(Builtin::TIMESTAMPTZ),
        Builtin::INTERVAL_ARRAY => Some(Builtin::INTERVAL),
        Builtin::NUMERIC_ARRAY => Some(Builtin::NUMERIC),
        _ => None,
    }
}

/// True of a list type with the given items.
pub open spec fn is_list_of(t: DataTypeV, f: FieldV) -> bool {
    ||| t matches DataTypeV::List(x) && *x == f
    ||| t matches DataTypeV::LargeList(x) && *x == f
    ||| t matches DataTypeV::ListView(x) && *x == f
    ||| t matches DataTypeV::LargeListView(x) && *x == f
    ||| t matches DataTypeV::FixedSizeList(x, _) && *x == f
}

/// True of a list type.
pub open spec fn is_list(t: DataTypeV) -> bool {
    t is List || t is LargeList || t is ListView || t is LargeListView || t is FixedSizeList
}

/// The Postgres type of a list of any kind is the array type of the Postgres type of its
/// items. A list of nulls is an array of texts.
pub proof fn law_lists_are_arrays_of_their_items(t: DataTypeV, f: FieldV)
    requires
        is_list_of(t, f),
    ensures
        !(f.data_type is Null) && !(f.data_type is Dictionary) && !is_list(f.data_type) ==> match datatypes::pg_type(
            f.data_type,
        ) {
            Ok(TypeV::Builtin(b)) => datatypes::pg_type(t) matches Ok(TypeV::Builtin(a))
                && element_of(a) == Some(b),
            _ => true,
        },
        f.data_type is Null ==> datatypes::pg_type(t) == Ok::<_, ErrorV>(
            TypeV::Builtin(Builtin::TEXT_ARRAY),
        ),
{
    reveal_with_fuel(datatypes::pg_type, 2);
    reveal_with_fuel(datatypes::list_type, 2);
}

/// A list of rows is an array of the type of the rows, and there is no type of a list of
/// lists.
pub proof fn law_lists_of_rows_and_lists(t: DataTypeV, f: FieldV)
    requires
        is_list_of(t, f),
    ensures
        f.data_type is Struct ==> match datatypes::field_pg_type(f) {
            Ok(row) => datatypes::pg_type(t) matches Ok(
                TypeV::Custom { name: _, oid, kind: KindV::Array(item), schema: _ },
            ) && oid == 2287 && *item == row,
            Err(e) => datatypes::pg_type(t) == Err::<TypeV, _>(e),
        },
        (is_list(f.data_type) || f.data_type is Dictionary || f.data_type is MapType || f.data_type is Union) ==> datatypes::pg_type(t) == Err::<
            TypeV,
            _,
        >(ErrorV::UnsupportedListType(f.data_type)),
{
    reveal_with_fuel(datatypes::pg_type, 2);
    reveal_with_fuel(datatypes::list_type, 2);
}

/// The least and the greatest number of an integer type of Postgres.
pub open spec fn pg_range(b: Builtin) -> Option<(int, int)> {
    match b {
        Builtin::INT2 => Some((-32_768, 32_767)),
        Builtin::INT4 => Some((-2_147_483_648, 2_147_483_647)),
        Builtin::INT8 => Some((-9_223_372_036_854_775_808, 9_223_372_036_854_775_807)),
        _ => None,
    }
}

/// True when an integer type of Postgres has every number of a range.
pub open spec fn pg_covers(b: Builtin, range: (int, int)) -> bool {
    pg_range(b) matches Some((lo, hi)) && lo <= range.0 && range.1 <= hi
}

/// A column of integers is one of the smallest integer type of Postgres that has all of its
/// numbers, and a numeric where none has.
pub proof fn law_integers_fit_their_type(t: DataTypeV)
    requires
        param_laws::range_of(t) is Some,
    ensures
        ({
            let range = param_laws::range_of(t)->0;
            &&& datatypes::pg_type(t) matches Ok(TypeV::Builtin(b)) && if b == Builtin::NUMERIC {
                !pg_covers(Builtin::INT2, range) && !pg_covers(Builtin::INT4, range) && !pg_covers(
                    Builtin::INT8,
                    range,
                )
            } else {
                pg_covers(b, range) && (pg_covers(Builtin::INT2, range) ==> b == Builtin::INT2) && (
                pg_covers(Builtin::INT4, range) ==> b == Builtin::INT2 || b == Builtin::INT4)
            }
        }),
{
}

/// The Postgres types of the other columns without fields: truth values, floating-point
/// numbers by their precision, decimals, texts and bytes of any size, dates, times,
/// timestamps with a time zone and without, and intervals.
pub proof fn law_plain_columns(t: DataTypeV)
    ensures
        ({
            let r = datatypes::pg_type(t);
            &&& t is Null ==> r == Ok::<_, ErrorV>(TypeV::Builtin(Builtin::UNKNOWN))
            &&& t is Boolean ==> r == Ok::<_, ErrorV>(TypeV::Builtin(Builtin::BOOL))
            &&& t is Float16 || t is Float32 ==> r == Ok::<_, ErrorV>(
                TypeV::Builtin(Builtin::FLOAT4),
            )
            &&& t is Float64 ==> r == Ok::<_, ErrorV>(TypeV::Builtin(Builtin::FLOAT8))
            &&& t is Decimal128 ==> r == Ok::<_, ErrorV>(TypeV::Builtin(Builtin::NUMERIC))
            &&& t is Utf8 || t is LargeUtf8 || t is Utf8View ==> r == Ok::<_, ErrorV>(
                TypeV::Builtin(Builtin::TEXT),
            )
            &&& t is Binary || t is LargeBinary || t is BinaryView || t is FixedSizeBinary ==> r
                == Ok::<_, ErrorV>(TypeV::Builtin(Builtin::BYTEA))
            &&& t is Date32 || t is Date64 ==> r == Ok::<_, ErrorV>(TypeV::Builtin(Builtin::DATE))
            &&& t is Time32 || t is Time64 ==> r == Ok::<_, ErrorV>(TypeV::Builtin(Builtin::TIME))
            &&& t is Interval || t is Duration ==> r == Ok::<_, ErrorV>(
                TypeV::Builtin(Builtin::INTERVAL),
            )
            &&& t matches DataTypeV::Timestamp(_, tz) ==> r == Ok::<_, ErrorV>(
                TypeV::Builtin(
                    if tz is Some {
                        Builtin::TIMESTAMPTZ
                    } else {
                        Builtin::TIMESTAMP
                    },
                ),
            )
            &&& t is Decimal32 || t is Decimal64 || t is Decimal256 || t is MapType || t
                is RunEndEncoded || t is Union ==> r == Err::<TypeV, _>(ErrorV::UnsupportedType(t))
        }),
{
}

/// A dictionary is described as its values are.
pub proof fn law_dictionaries_are_described_by_their_values(k: DataTypeV, v: DataTypeV)
    ensures
        datatypes::pg_type(DataTypeV::Dictionary(Box::new(k), Box::new(v))) == datatypes::pg_type(
            v,
        ),
{
}

/// A column of rows is a record of the fields, each by its name and its Postgres type, in
/// order. It has no type where one of the fields has none.
pub proof fn law_rows_are_records(fields: Seq<FieldV>, i: int)
    requires
        0 <= i < fields.len(),
    ensures
        match datatypes::pg_type(DataTypeV::Struct(fields)) {
            Ok(t) => t matches TypeV::Custom {
                name: _,
                oid,
                kind: KindV::Composite(types),
                schema: _,
            } && oid == 2249 && types.len() == fields.len() && types[i].0 == fields[i].name
                && datatypes::field_pg_type(fields[i]) == Ok::<_, ErrorV>(types[i].1),
            Err(e) => exists|j: int|
                0 <= j < fields.len() && datatypes::field_pg_type(#[trigger] fields[j]) == Err::<
                    TypeV,
                    _,
                >(e),
        },
{
    reveal_with_fuel(datatypes::pg_type, 2);
    let n = fields.len() as int;
    lemma_row_types(fields, i, n);
    assert(fields.take(n) == fields);
}

proof fn lemma_row_types(fields: Seq<FieldV>, i: int, n: int)
    requires
        0 <= i < fields.len(),
        0 <= n <= fields.len(),
    ensures
        match datatypes::row_types(fields.take(n)) {
            Ok(types) => types.len() == n && (i < n ==> types[i].0 == fields[i].name
                && datatypes::field_pg_type(fields[i]) == Ok::<_, ErrorV>(types[i].1)),
            Err(e) => exists|j: int|
                0 <= j < n && datatypes::field_pg_type(#[trigger] fields[j]) == Err::<TypeV, _>(e),
        },
    decreases n,
{
    reveal_with_fuel(datatypes::row_types, 2);
    if n > 0 {
        lemma_row_types(fields, i, n - 1);
        assert(fields.take(n).drop_last() == fields.take(n - 1));
        assert(fields.take(n).last() == fields[n - 1]);
    }
}

/// The first entry of a key in metadata counts, and entries of other keys do not.
pub proof fn law_first_entry_counts(
    first: (Seq<char>, Seq<char>),
    rest: Seq<(Seq<char>, Seq<char>)>,
    key: Seq<char>,
)
    ensures
        schema::lookup(seq![first] + rest, key) == (if first.0 == key {
            Some(first.1)
        } else {
            schema::lookup(rest, key)
        }),
        schema::lookup(Seq::empty(), key) is None,
{
    assert((seq![first] + rest).skip(1) == rest);
}

/// The oid of an oid alias of Postgres.
pub open spec fn alias_oid(kind: Seq<char>) -> Option<u32> {
    if kind == "oid"@ {
        Some(26)
    } else if kind == "regproc"@ {
        Some(24)
    } else if kind == "regprocedure"@ {
        Some(2202)
    } else if kind == "regoper"@ {
        Some(2203)
    } else if kind == "regoperator"@ {
        Some(2204)
    } else if kind == "regclass"@ {
        Some(2205)
    } else if kind == "regtype"@ {
        Some(2206)
    } else if kind == "regconfig"@ {
        Some(3734)
    } else if kind == "regdictionary"@ {
        Some(3769)
    } else if kind == "regnamespace"@ {
        Some(4089)
    } else if kind == "regrole"@ {
        Some(4096)
    } else if kind == "regcollation"@ {
        Some(4191)
    } else {
        None
    }
}

/// What is said of a field gives it its type: the oid alias that it is one of, or else that
/// it is a `"char"`, or else that it is a vector, or else that it is one of geometries,
/// which are texts. Anything else said of it does not matter.
pub proof fn law_marks_give_types(f: FieldV)
    ensures
        ({
            let alias = schema::lookup(f.metadata, "pg.oid_alias"@);
            let char = schema::lookup(f.metadata, "pg.char"@);
            let vector = schema::lookup(f.metadata, "pg.vector"@);
            let geometry = schema::lookup(f.metadata, "ARROW:extension:name"@);
            let r = datatypes::field_pg_type(f);
            if alias is Some && alias_oid(alias->0) is Some {
                r matches Ok(TypeV::Builtin(b)) && Some(b.spec_oid()) == alias_oid(alias->0)
            } else if char is Some {
                r matches Ok(TypeV::Builtin(b)) && b.spec_oid() == 18
            } else if vector == Some("vector"@) {
                r matches Ok(TypeV::Custom { name, oid, kind, schema }) && name == "vector"@
                    && oid == 16385 && kind is Simple && schema == "public"@
            } else if geometry is Some && datatypes::geometry_names().contains(geometry->0) {
                r matches Ok(TypeV::Builtin(b)) && b.spec_oid() == 25
            } else {
                r == datatypes::pg_type(f.data_type)
            }
        }),
{
    lemma_alias_names();
}

pub(crate) proof fn lemma_alias_names()
    ensures
        forall|kind: Seq<char>|
            match #[trigger] alias_oid(kind) {
                Some(oid) => datatypes::alias_type(kind) matches Some(b) && b.spec_oid() == oid,
                None => datatypes::alias_type(kind) is None,
            },
{
    reveal_strlit("oid");
    reveal_strlit("regproc");
    reveal_strlit("regprocedure");
    reveal_strlit("regoper");
    reveal_strlit("regoperator");
    reveal_strlit("regclass");
    reveal_strlit("regtype");
    reveal_strlit("regconfig");
    reveal_strlit("regdictionary");
    reveal_strlit("regnamespace");
    reveal_strlit("regrole");
    reveal_strlit("regcollation");
    assert("oid"@.len() == 3);
    assert("regproc"@.len() == 7 && "regproc"@[3] == 'p');
    assert("regprocedure"@.len() == 12 && "regprocedure"@[3] == 'p');
    assert("regoper"@.len() == 7 && "regoper"@[3] == 'o');
    assert("regoperator"@.len() == 11);
    assert("regclass"@.len() == 8);
    assert("regtype"@.len() == 7 && "regtype"@[3] == 't');
    assert("regconfig"@.len() == 9);
    assert("regdictionary"@.len() == 13);
    assert("regnamespace"@.len() == 12 && "regnamespace"@[3] == 'n');
    assert("regrole"@.len() == 7 && "regrole"@[3] == 'r');
    assert("regcollation"@.len() == 12 && "regcollation"@[3] == 'c');
}

/// A value is binary where the client asks for binary values altogether, or by the code one
/// for this value, and text otherwise.
pub proof fn law_format_codes(format: Format, i: int)
    ensures
        format.at(i) == FieldFormat::Binary <==> match format {
            Format::UnifiedText => false,
            Format::UnifiedBinary => true,
            Format::Individual(codes) => codes@[i] == 1,
        },
        format is UnifiedText || format is UnifiedBinary ==> format.covers(i),
{
}

/// The types that the library tells apart have the oids of Postgres, and each is the type of
/// its oid. An oid of another type is kept as it is.
pub proof fn law_types_have_their_oids(oid: u32)
    ensures
        Builtin::spec_from_oid(16) == Builtin::BOOL && Builtin::BOOL.spec_oid() == 16,
        Builtin::spec_from_oid(17) == Builtin::BYTEA && Builtin::BYTEA.spec_oid() == 17,
        Builtin::spec_from_oid(18) == Builtin::CHAR && Builtin::CHAR.spec_oid() == 18,
        Builtin::spec_from_oid(19) == Builtin::NAME && Builtin::NAME.spec_oid() == 19,
        Builtin::spec_from_oid(20) == Builtin::INT8 && Builtin::INT8.spec_oid() == 20,
        Builtin::spec_from_oid(21) == Builtin::INT2 && Builtin::INT2.spec_oid() == 21,
        Builtin::spec_from_oid(23) == Builtin::INT4 && Builtin::INT4.spec_oid() == 23,
        Builtin::spec_from_oid(24) == Builtin::REGPROC && Builtin::REGPROC.spec_oid() == 24,
        Builtin::spec_from_oid(25) == Builtin::TEXT && Builtin::TEXT.spec_oid() == 25,
        Builtin::spec_from_oid(26) == Builtin::OID && Builtin::OID.spec_oid() == 26,
        Builtin::spec_from_oid(114) == Builtin::JSON && Builtin::JSON.spec_oid() == 114,
        Builtin::spec_from_oid(700) == Builtin::FLOAT4 && Builtin::FLOAT4.spec_oid() == 700,
        Builtin::spec_from_oid(701) == Builtin::FLOAT8 && Builtin::FLOAT8.spec_oid() == 701,
        Builtin::spec_from_oid(705) == Builtin::UNKNOWN && Builtin::UNKNOWN.spec_oid() == 705,
        Builtin::spec_from_oid(790) == Builtin::MONEY && Builtin::MONEY.spec_oid() == 790,
        Builtin::spec_from_oid(829) == Builtin::MACADDR && Builtin::MACADDR.spec_oid() == 829,
        Builtin::spec_from_oid(869) == Builtin::INET && Builtin::INET.spec_oid() == 869,
        Builtin::spec_from_oid(1000) == Builtin::BOOL_ARRAY && Builtin::BOOL_ARRAY.spec_oid() == 1000,
        Builtin::spec_from_oid(1001) == Builtin::BYTEA_ARRAY && Builtin::BYTEA_ARRAY.spec_oid() == 1001,
        Builtin::spec_from_oid(1005) == Builtin::INT2_ARRAY && Builtin::INT2_ARRAY.spec_oid() == 1005,
        Builtin::spec_from_oid(1007) == Builtin::INT4_ARRAY && Builtin::INT4_ARRAY.spec_oid() == 1007,
        Builtin::spec_from_oid(1009) == Builtin::TEXT_ARRAY && Builtin::TEXT_ARRAY.spec_oid() == 1009,
        Builtin::spec_from_oid(1015) == Builtin::VARCHAR_ARRAY && Builtin::VARCHAR_ARRAY.spec_oid() == 1015,
        Builtin::spec_from_oid(1016) == Builtin::INT8_ARRAY && Builtin::INT8_ARRAY.spec_oid() == 1016,
        Builtin::spec_from_oid(1021) == Builtin::FLOAT4_ARRAY && Builtin::FLOAT4_ARRAY.spec_oid() == 1021,
        Builtin::spec_from_oid(1022) == Builtin::FLOAT8_ARRAY && Builtin::FLOAT8_ARRAY.spec_oid() == 1022,
        Builtin::spec_from_oid(1043) == Builtin::VARCHAR && Builtin::VARCHAR.spec_oid() == 1043,
        Builtin::spec_from_oid(1082) == Builtin::DATE && Builtin::DATE.spec_oid() == 1082,
        Builtin::spec_from_oid(1083) == Builtin::TIME && Builtin::TIME.spec_oid() == 1083,
        Builtin::spec_from_oid(1114) == Builtin::TIMESTAMP && Builtin::TIMESTAMP.spec_oid() == 1114,
        Builtin::spec_from_oid(1115) == Builtin::TIMESTAMP_ARRAY && Builtin::TIMESTAMP_ARRAY.spec_oid() == 1115,
        Builtin::spec_from_oid(1182) == Builtin::DATE_ARRAY && Builtin::DATE_ARRAY.spec_oid() == 1182,
        Builtin::spec_from_oid(1183) == Builtin::TIME_ARRAY && Builtin::TIME_ARRAY.spec_oid() == 1183,
        Builtin::spec_from_oid(1184) == Builtin::TIMESTAMPTZ && Builtin::TIMESTAMPTZ.spec_oid() == 1184,
        Builtin::spec_from_oid(1185) == Builtin::TIMESTAMPTZ_ARRAY && Builtin::TIMESTAMPTZ_ARRAY.spec_oid() == 1185,
        Builtin::spec_from_oid(1186) == Builtin::INTERVAL && Builtin::INTERVAL.spec_oid() == 1186,
        Builtin::spec_from_oid(1187) == Builtin::INTERVAL_ARRAY && Builtin::INTERVAL_ARRAY.spec_oid() == 1187,
        Builtin::spec_from_oid(1231) == Builtin::NUMERIC_ARRAY && Builtin::NUMERIC_ARRAY.spec_oid() == 1231,
        Builtin::spec_from_oid(1700) == Builtin::NUMERIC && Builtin::NUMERIC.spec_oid() == 1700,
        Builtin::spec_from_oid(2202) == Builtin::REGPROCEDURE && Builtin::REGPROCEDURE.spec_oid() == 2202,
        Builtin::spec_from_oid(2203) == Builtin::REGOPER && Builtin::REGOPER.spec_oid() == 2203,
        Builtin::spec_from_oid(2204) == Builtin::REGOPERATOR && Builtin::REGOPERATOR.spec_oid() == 2204,
        Builtin::spec_from_oid(2205) == Builtin::REGCLASS && Builtin::REGCLASS.spec_oid() == 2205,
        Builtin::spec_from_oid(2206) == Builtin::REGTYPE && Builtin::REGTYPE.spec_oid() == 2206,
        Builtin::spec_from_oid(2249) == Builtin::RECORD && Builtin::RECORD.spec_oid() == 2249,
        Builtin::spec_from_oid(2287) == Builtin::RECORD_ARRAY && Builtin::RECORD_ARRAY.spec_oid() == 2287,
        Builtin::spec_from_oid(2950) == Builtin::UUID && Builtin::UUID.spec_oid() == 2950,
        Builtin::spec_from_oid(3734) == Builtin::REGCONFIG && Builtin::REGCONFIG.spec_oid() == 3734,
        Builtin::spec_from_oid(3769) == Builtin::REGDICTIONARY && Builtin::REGDICTIONARY.spec_oid() == 3769,
        Builtin::spec_from_oid(3802) == Builtin::JSONB && Builtin::JSONB.spec_oid() == 3802,
        Builtin::spec_from_oid(4089) == Builtin::REGNAMESPACE && Builtin::REGNAMESPACE.spec_oid() == 4089,
        Builtin::spec_from_oid(4096) == Builtin::REGROLE && Builtin::REGROLE.spec_oid() == 4096,
        Builtin::spec_from_oid(4191) == Builtin::REGCOLLATION && Builtin::REGCOLLATION.spec_oid() == 4191,
        Builtin::spec_from_oid(oid).spec_oid() == oid,
{
}

} // verus!
