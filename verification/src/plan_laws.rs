//! What the types of the parameters of a prepared statement are, told by where the
//! parameters stand.
use crate::datatypes;
use crate::datatypes::TypeV;
use crate::errors::ErrorV;
use crate::planner;
use crate::planner::{PlanExprV, VisitV};
use crate::schema;
use crate::schema::{DataTypeV, FieldV};
use crate::text;
use crate::type_laws;
use vstd::prelude::*;
use vstd::seq_lib;

verus! {

/// A parameter is found where it stands, and in a cast with the type of the cast before
/// that. In other expressions all parameters are found from left to right.
pub proof fn law_parameters_are_found(
    id: Seq<char>,
    field: Option<FieldV>,
    data_type: DataTypeV,
    e: PlanExprV,
    v: Seq<PlanExprV>,
    w: Seq<PlanExprV>,
)
    ensures
        ({
            let p = PlanExprV::Placeholder { id, field };
            &&& planner::visits(p) == seq![VisitV::Placeholder { id, field }]
            &&& planner::visits(PlanExprV::Cast { data_type, expr: Box::new(p) }) == seq![
                VisitV::Cast { id, data_type, field },
                VisitV::Placeholder { id, field },
            ]
        }),
        !(e is Placeholder) ==> planner::visits(PlanExprV::Cast { data_type, expr: Box::new(e) })
            == planner::visits(e),
        planner::visits(PlanExprV::Other { exprs: v }) == planner::all_visits(v),
        planner::all_visits(seq![e]) == planner::visits(e),
        planner::all_visits(v + w) == planner::all_visits(v) + planner::all_visits(w),
{
    let p = PlanExprV::Placeholder { id, field };
    assert(planner::visits(p) == seq![VisitV::Placeholder { id, field }]);
    let c = PlanExprV::Cast { data_type, expr: Box::new(p) };
    assert(planner::visits(c) == planner::own_visit(c) + planner::visits(p));
    assert(planner::visits(c) == seq![
        VisitV::Cast { id, data_type, field },
        VisitV::Placeholder { id, field },
    ]);
    if !(e is Placeholder) {
        let d = PlanExprV::Cast { data_type, expr: Box::new(e) };
        assert(planner::own_visit(d) == Seq::<VisitV>::empty());
        assert(planner::visits(d) == planner::own_visit(d) + planner::visits(e));
    }
    let o = PlanExprV::Other { exprs: v };
    assert(planner::own_visit(o) == Seq::<VisitV>::empty());
    assert(planner::visits(o) == planner::own_visit(o) + planner::all_visits(v));
    assert(seq![e].skip(1) == Seq::<PlanExprV>::empty());
    assert(planner::all_visits(seq![e].skip(1)) == Seq::<VisitV>::empty());
    assert(planner::all_visits(seq![e]) == planner::visits(e) + Seq::<VisitV>::empty());
    lemma_all_visits(v, w);
}

proof fn lemma_all_visits(v: Seq<PlanExprV>, w: Seq<PlanExprV>)
    ensures
        planner::all_visits(v + w) == planner::all_visits(v) + planner::all_visits(w),
    decreases v.len(),
{
    if v.len() == 0 {
        assert(v + w == w);
        assert(planner::all_visits(v) == Seq::<VisitV>::empty());
    } else {
        assert((v + w)[0] == v[0]);
        assert((v + w).skip(1) == v.skip(1) + w);
        lemma_all_visits(v.skip(1), w);
        assert(planner::all_visits(v + w) == planner::visits(v[0]) + (planner::all_visits(
            v.skip(1),
        ) + planner::all_visits(w)));
    }
}

/// True of a place where a parameter stands.
pub open spec fn is_of(v: VisitV, id: Seq<char>) -> bool {
    match v {
        VisitV::Cast { id: own, .. } => own == id,
        VisitV::Placeholder { id: own, .. } => own == id,
    }
}

/// True of the place of the last cast of a parameter.
pub open spec fn is_last_cast(v: Seq<VisitV>, id: Seq<char>, k: int) -> bool {
    &&& 0 <= k < v.len() && v[k] is Cast && is_of(v[k], id)
    &&& forall|j: int| k < j < v.len() ==> !((#[trigger] v[j]) is Cast && is_of(v[j], id))
}

/// True where a parameter is in no cast.
pub open spec fn has_no_cast(v: Seq<VisitV>, id: Seq<char>) -> bool {
    forall|j: int| 0 <= j < v.len() ==> !((#[trigger] v[j]) is Cast && is_of(v[j], id))
}

/// True where a parameter stands somewhere.
pub open spec fn occurs(v: Seq<VisitV>, id: Seq<char>) -> bool {
    exists|j: int| 0 <= j < v.len() && is_of(#[trigger] v[j], id)
}

/// The casts give a parameter the type of its last cast. A parameter in no cast is listed
/// without a type, and one that stands nowhere is not listed.
pub proof fn law_casts_give_types(v: Seq<VisitV>, id: Seq<char>, k: int)
    ensures
        is_last_cast(v, id, k) ==> planner::find(planner::cast_types(v), id) == Some(
            Some(v[k]->Cast_data_type),
        ),
        has_no_cast(v, id) && occurs(v, id) ==> planner::find(planner::cast_types(v), id) == Some(
            None::<DataTypeV>,
        ),
        !occurs(v, id) ==> planner::find(planner::cast_types(v), id) is None,
    decreases v.len(),
{
    if v.len() > 0 {
        let init = v.drop_last();
        let n = v.len() - 1;
        let before = planner::cast_types(init);
        law_casts_give_types(init, id, k);
        match v.last() {
            VisitV::Cast { id: other, data_type, .. } => {
                planner::law_put_is_found(before, other, Some(data_type), id);
            },
            VisitV::Placeholder { id: other, .. } => {
                planner::law_put_is_found(before, other, None, id);
            },
        }
        assert(v.last() == v[n]);
        if is_last_cast(v, id, k) && k < n {
            assert forall|j: int| k < j < init.len() implies !((#[trigger] init[j]) is Cast
                && is_of(init[j], id)) by {
                assert(init[j] == v[j]);
            }
            assert(is_last_cast(init, id, k));
        }
        if has_no_cast(v, id) {
            assert forall|j: int| 0 <= j < init.len() implies !((#[trigger] init[j]) is Cast
                && is_of(init[j], id)) by {
                assert(init[j] == v[j]);
            }
        }
        if occurs(init, id) {
            let j = choose|j: int| 0 <= j < init.len() && is_of(#[trigger] init[j], id);
            assert(v[j] == init[j]);
            assert(occurs(v, id));
        } else if occurs(v, id) {
            let j = choose|j: int| 0 <= j < v.len() && is_of(#[trigger] v[j], id);
            if j < n {
                assert(init[j] == v[j]);
            }
            assert(is_of(v.last(), id));
        } else {
            assert(!is_of(v[n], id));
        }
    }
}

/// A parameter keeps the type that the planner knows. One whose type it does not know has
/// the type of its last cast, and no type where it is in none. Where the planner knows all
/// types there are no others.
pub proof fn law_types_are_inferred(
    types: Seq<(Seq<char>, Option<DataTypeV>)>,
    found: Seq<VisitV>,
    id: Seq<char>,
    k: int,
)
    ensures
        ({
            let known = planner::find(types, id);
            let r = planner::find(planner::inferred_types(types, found), id);
            &&& known matches Some(Some(_)) ==> r == known
            &&& known == Some(None::<DataTypeV>) && is_last_cast(found, id, k) ==> r == Some(
                Some(found[k]->Cast_data_type),
            )
            &&& known == Some(None::<DataTypeV>) && has_no_cast(found, id) ==> r == known
            &&& (forall|i: int| 0 <= i < types.len() ==> (#[trigger] types[i]).1 is Some)
                ==> planner::inferred_types(types, found) == types
        }),
{
    planner::law_known_types_stay(types, found, id);
    planner::law_last_cast_counts(found, id);
    law_casts_give_types(found, id, k);
}

/// The column that a parameter goes with asks for a type on the wire where it is one of
/// vectors, or one of numbers that is called an oid alias.
pub proof fn law_columns_ask_for_types(f: FieldV)
    ensures
        ({
            let alias = schema::lookup(f.metadata, "pg.oid_alias"@);
            let r = planner::field_override(f);
            if schema::lookup(f.metadata, "pg.vector"@) == Some("vector"@) {
                r matches Some(TypeV::Custom { name, oid, .. }) && name == "vector"@ && oid == 16385
            } else if f.data_type is Int32 && alias is Some && type_laws::alias_oid(alias->0)
                is Some {
                r matches Some(TypeV::Builtin(b)) && Some(b.spec_oid()) == type_laws::alias_oid(
                    alias->0,
                )
            } else {
                r is None
            }
        }),
{
    type_laws::lemma_alias_names();
}

/// The last column of a parameter that asks for a type gives it that type. A parameter with
/// no such column has none.
pub proof fn law_columns_give_types(v: Seq<VisitV>, id: Seq<char>, k: int)
    requires
        0 <= k <= v.len(),
        k < v.len() ==> is_of(v[k], id) && asked_type(v[k]) is Some,
        k == v.len() ==> forall|j: int|
            0 <= j < v.len() ==> !is_of(#[trigger] v[j], id) || asked_type(v[j]) is None,
        forall|j: int|
            k < j < v.len() ==> !is_of(#[trigger] v[j], id) || asked_type(v[j]) is None,
    ensures
        planner::find(planner::override_types(v), id) == (if k < v.len() {
            asked_type(v[k])
        } else {
            None
        }),
    decreases v.len(),
{
    if v.len() > 0 {
        let init = v.drop_last();
        let n = v.len() - 1;
        let before = planner::override_types(init);
        assert(v.last() == v[n]);
        if let Some(ty) = asked_type(v[n]) {
            planner::law_put_is_found(before, planner::visit_field(v[n]).0, ty, id);
        }
        if k != n {
            let m = if k < n {
                k
            } else {
                n as int
            };
            assert forall|j: int| m < j < init.len() implies !is_of(#[trigger] init[j], id)
                || asked_type(init[j]) is None by {
                assert(init[j] == v[j]);
            }
            if k > n {
                assert forall|j: int| 0 <= j < init.len() implies !is_of(#[trigger] init[j], id)
                    || asked_type(init[j]) is None by {
                    assert(init[j] == v[j]);
                }
            }
            law_columns_give_types(init, id, m);
        }
    }
}

/// The type on the wire that the column of a parameter asks for, where it stands.
pub open spec fn asked_type(v: VisitV) -> Option<TypeV> {
    let field = match v {
        VisitV::Cast { field, .. } => field,
        VisitV::Placeholder { field, .. } => field,
    };
    match field {
        Some(f) => planner::field_override(f),
        None => None,
    }
}

/// Each parameter is announced with the type that its column asks for, or else that of its
/// own type, or else as unknown. Where one has a type that Postgres does not have, the first
/// such one is the error.
pub proof fn law_parameters_are_announced(
    entries: Seq<(Seq<char>, Option<DataTypeV>)>,
    overrides: Seq<(Seq<char>, TypeV)>,
    i: int,
)
    requires
        0 <= i < entries.len(),
    ensures
        ({
            let (id, own) = entries[i];
            let asked = planner::find(overrides, id);
            match planner::wire_types(entries, overrides) {
                Ok(types) => {
                    &&& types.len() == entries.len()
                    &&& asked matches Some(t) ==> types[i] == t
                    &&& asked is None && own is Some ==> datatypes::pg_type(own->0) == Ok::<
                        _,
                        ErrorV,
                    >(types[i])
                    &&& asked is None && own is None ==> (types[i] matches TypeV::Builtin(b)
                        && b.spec_oid() == 705)
                },
                Err(e) => exists|j: int| #[trigger]
                    fails_at(entries, overrides, j, e) && (asked is None && own is Some
                        && datatypes::pg_type(own->0) is Err ==> j <= i),
            }
        }),
    decreases entries.len(),
{
    let init = entries.drop_last();
    let n = entries.len() - 1;
    if i < n {
        law_parameters_are_announced(init, overrides, i);
        if let Err(e) = planner::wire_types(init, overrides) {
            let (id, own) = entries[i];
            assert(init[i] == entries[i]);
            let j = choose|j: int| #[trigger]
                fails_at(init, overrides, j, e) && (planner::find(overrides, id) is None && own
                    is Some && datatypes::pg_type(own->0) is Err ==> j <= i);
            assert(init[j] == entries[j]);
            assert(fails_at(entries, overrides, j, e));
        } else if let Err(e) = planner::wire_types(entries, overrides) {
            assert(init[i] == entries[i]);
            assert(fails_at(entries, overrides, n, e));
        }
    } else {
        lemma_announced(init, overrides);
        if let Err(e) = planner::wire_types(init, overrides) {
            let j = choose|j: int| #[trigger] fails_at(init, overrides, j, e);
            assert(init[j] == entries[j]);
            assert(fails_at(entries, overrides, j, e));
        } else if let Err(e) = planner::wire_types(entries, overrides) {
            assert(fails_at(entries, overrides, n, e));
        }
    }
}

/// True of a parameter whose type is the error.
pub open spec fn fails_at(
    entries: Seq<(Seq<char>, Option<DataTypeV>)>,
    overrides: Seq<(Seq<char>, TypeV)>,
    j: int,
    e: ErrorV,
) -> bool {
    &&& 0 <= j < entries.len()
    &&& planner::find(overrides, entries[j].0) is None
    &&& entries[j].1 matches Some(t) && datatypes::pg_type(t) == Err::<TypeV, ErrorV>(e)
}

proof fn lemma_announced(
    entries: Seq<(Seq<char>, Option<DataTypeV>)>,
    overrides: Seq<(Seq<char>, TypeV)>,
)
    ensures
        match planner::wire_types(entries, overrides) {
            Ok(types) => types.len() == entries.len(),
            Err(e) => exists|j: int| #[trigger] fails_at(entries, overrides, j, e),
        },
    decreases entries.len(),
{
    if entries.len() > 0 {
        let init = entries.drop_last();
        lemma_announced(init, overrides);
        if let Err(e) = planner::wire_types(init, overrides) {
            let j = choose|j: int| #[trigger] fails_at(init, overrides, j, e);
            assert(init[j] == entries[j]);
            assert(fails_at(entries, overrides, j, e));
        } else if let Err(e) = planner::wire_types(entries, overrides) {
            assert(fails_at(entries, overrides, entries.len() - 1, e));
        }
    }
}

/// The number of a parameter is what its digits say. What has no number counts as the
/// greatest.
pub proof fn law_parameters_have_numbers(digits: Seq<char>)
    requires
        text::is_digits(digits),
    ensures
        ({
            let n = text::int_text(digits)->0;
            &&& 0 <= n <= u32::MAX ==> planner::number_of(seq!['$'] + digits) == n
            &&& n > u32::MAX ==> planner::number_of(seq!['$'] + digits) == u32::MAX
        }),
        planner::number_of(seq!['$']) == u32::MAX,
{
    let p = |c: char| c == '$';
    let id = seq!['$'] + digits;
    assert(id.skip(1) == digits);
    assert(digits[0] != '$');
    assert(text::trim_start_by(digits, p) == digits);
    assert(text::trim_start_by(id, p) == digits);
    let one = seq!['$'];
    assert(one.skip(1) == Seq::<char>::empty());
    assert(text::trim_start_by(one.skip(1), p) == Seq::<char>::empty());
    assert(text::trim_start_by(one, p) == Seq::<char>::empty());
}

/// The parameters come in the order of their numbers, each as often as it is listed.
pub proof fn law_parameters_come_in_order(
    types: Seq<(Seq<char>, Option<DataTypeV>)>,
    ordered: Seq<(Seq<char>, Option<DataTypeV>)>,
    i: int,
    j: int,
    a: Seq<char>,
    b: Seq<char>,
)
    requires
        planner::is_ordering(types, ordered),
        0 <= i < ordered.len(),
        0 <= j < ordered.len(),
        ordered[i].0 == seq!['$'] + a,
        ordered[j].0 == seq!['$'] + b,
        text::is_digits(a),
        text::is_digits(b),
        text::int_text(a)->0 < text::int_text(b)->0 <= u32::MAX,
        0 <= text::int_text(a)->0,
    ensures
        i < j,
        ordered.len() == types.len(),
        types.contains(ordered[i]),
{
    law_parameters_have_numbers(a);
    law_parameters_have_numbers(b);
    seq_lib::to_multiset_len(types);
    seq_lib::to_multiset_len(ordered);
    assert(ordered.contains(ordered[i]));
    seq_lib::to_multiset_contains(ordered, ordered[i]);
    seq_lib::to_multiset_contains(types, ordered[i]);
}

} // verus!
