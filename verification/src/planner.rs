//! The types of the parameters of a prepared statement.
use crate::datatypes;
use crate::datatypes::{Builtin, Type, TypeV, PG_OID_ALIAS_KEY};
use crate::errors::{Error, ErrorV};
use crate::params;
use crate::pg_catalog::oid_type_planner;
use crate::schema;
use crate::schema::{DataType, DataTypeV, Field, FieldV};
use crate::text;
use vstd::prelude::*;
use vstd::seq_lib;

verus! {

/// An expression of a plan, as far as parameters are concerned.
#[derive(Debug, PartialEq, Eq)]
pub enum PlanExpr {
    /// A parameter such as `$1`, with the column that it is compared with or assigned
    /// to, where the planner found one.
    Placeholder { id: String, field: Option<Field> },
    /// A cast of an expression to a type.
    Cast { data_type: DataType, expr: Box<PlanExpr> },
    /// Another expression, and the expressions in it.
    Other { exprs: Vec<PlanExpr> },
}

/// The model of a [`PlanExpr`].
#[verifier::ext_equal]
pub enum PlanExprV {
    Placeholder { id: Seq<char>, field: Option<FieldV> },
    Cast { data_type: DataTypeV, expr: Box<PlanExprV> },
    Other { exprs: Seq<PlanExprV> },
}

impl PlanExpr {
    /// The model of this expression.
    pub open spec fn model(self) -> PlanExprV
        decreases self,
    {
        match self {
            PlanExpr::Placeholder { id, field } => PlanExprV::Placeholder {
                id: id@,
                field: oid_type_planner::opt_field(field),
            },
            PlanExpr::Cast { data_type, expr } => PlanExprV::Cast {
                data_type: data_type@,
                expr: Box::new(expr.model()),
            },
            PlanExpr::Other { exprs } => PlanExprV::Other {
                exprs: Seq::new(
                    exprs@.len(),
                    |i: int|
                        if 0 <= i < exprs@.len() {
                            exprs@[i].model()
                        } else {
                            arbitrary()
                        },
                ),
            },
        }
    }
}

impl View for PlanExpr {
    type V = PlanExprV;

    open spec fn view(&self) -> PlanExprV {
        self.model()
    }
}

/// The models of a list of expressions.
pub open spec fn exprs_view(v: Seq<PlanExpr>) -> Seq<PlanExprV> {
    v.map_values(|e: PlanExpr| e@)
}

/// What is found of a parameter on a walk through the expressions of a plan.
#[verifier::ext_equal]
pub enum VisitV {
    /// A parameter in a cast to a type, with its column.
    Cast { id: Seq<char>, data_type: DataTypeV, field: Option<FieldV> },
    /// A parameter, with its column.
    Placeholder { id: Seq<char>, field: Option<FieldV> },
}

/// What is found at an expression itself.
pub open spec fn own_visit(e: PlanExprV) -> Seq<VisitV> {
    match e {
        PlanExprV::Placeholder { id, field } => seq![VisitV::Placeholder { id, field }],
        PlanExprV::Cast { data_type, expr } => match *expr {
            PlanExprV::Placeholder { id, field } => seq![VisitV::Cast { id, data_type, field }],
            _ => Seq::empty(),
        },
        PlanExprV::Other { .. } => Seq::empty(),
    }
}

/// What is found in an expression: first at the expression itself, then in the
/// expressions in it, from left to right.
pub open spec fn visits(e: PlanExprV) -> Seq<VisitV>
    decreases e,
{
    own_visit(e) + (match e {
        PlanExprV::Placeholder { .. } => Seq::empty(),
        PlanExprV::Cast { expr, .. } => visits(*expr),
        PlanExprV::Other { exprs } => all_visits(exprs),
    })
}

/// What is found in a list of expressions.
pub open spec fn all_visits(v: Seq<PlanExprV>) -> Seq<VisitV>
    decreases v,
{
    if v.len() == 0 {
        Seq::empty()
    } else {
        visits(v[0]) + all_visits(v.skip(1))
    }
}

/// What is found of a parameter on a walk through the expressions of a plan.
#[derive(Debug)]
pub struct Visit {
    pub id: String,
    pub cast: Option<DataType>,
    pub field: Option<Field>,
}

impl View for Visit {
    type V = VisitV;

    open spec fn view(&self) -> VisitV {
        match self.cast {
            Some(data_type) => VisitV::Cast {
                id: self.id@,
                data_type: data_type@,
                field: oid_type_planner::opt_field(self.field),
            },
            None => VisitV::Placeholder {
                id: self.id@,
                field: oid_type_planner::opt_field(self.field),
            },
        }
    }
}

/// The models of what is found.
pub open spec fn visits_view(v: Seq<Visit>) -> Seq<VisitV> {
    v.map_values(|x: Visit| x@)
}

fn copy_field(f: &Option<Field>) -> (r: Option<Field>)
    ensures
        oid_type_planner::opt_field(r) == oid_type_planner::opt_field(*f),
{
    match f {
        Some(f) => Some(f.copy()),
        None => None,
    }
}

fn walk(e: &PlanExpr, out: &mut Vec<Visit>)
    ensures
        visits_view(final(out)@) == visits_view(old(out)@) + visits(e@),
    decreases e,
{
    let ghost before = out@;
    match e {
        PlanExpr::Placeholder { id, field } => {
            let visit = Visit { id: id.clone(), cast: None, field: copy_field(field) };
            out.push(visit);
            assert(visits_view(out@) == visits_view(before).push(visit@));
            assert(visits(e@) == seq![visit@]);
        },
        PlanExpr::Cast { data_type, expr } => {
            assert(e@ == (PlanExprV::Cast { data_type: data_type@, expr: Box::new(expr@) }));
            match &**expr {
                PlanExpr::Placeholder { id, field } => {
                    let visit = Visit {
                        id: id.clone(),
                        cast: Some(data_type.copy()),
                        field: copy_field(field),
                    };
                    out.push(visit);
                    assert(visits_view(out@) == visits_view(before).push(visit@));
                    assert(own_visit(e@) == seq![visit@]);
                },
                _ => {
                    assert(own_visit(e@) == Seq::<VisitV>::empty());
                },
            }
            assert(visits_view(out@) == visits_view(before) + own_visit(e@));
            walk(expr, out);
            assert(visits_view(out@) == visits_view(before) + (own_visit(e@) + visits(expr@)));
        },
        PlanExpr::Other { exprs } => {
            assert(e@ == (PlanExprV::Other { exprs: exprs_view(exprs@) })) by {
                assert(e@->exprs == exprs_view(exprs@));
            }
            let ghost views = exprs_view(exprs@);
            let mut i: usize = 0;
            assert(views.skip(0) == views);
            while i < exprs.len()
                invariant
                    i <= exprs@.len(),
                    *e == (PlanExpr::Other { exprs: *exprs }),
                    views == exprs_view(exprs@),
                    visits_view(out@) + all_visits(views.skip(i as int)) == visits_view(before)
                        + all_visits(views),
                decreases exprs@.len() - i,
            {
                let ghost now = visits_view(out@);
                assert(views.skip(i as int)[0] == exprs@[i as int]@);
                assert(views.skip(i as int).skip(1) == views.skip(i + 1));
                assert(decreases_to!(e => e->exprs@[i as int]));
                walk(&exprs[i], out);
                assert(now + (visits(exprs@[i as int]@) + all_visits(views.skip(i + 1)))
                    == visits_view(out@) + all_visits(views.skip(i + 1)));
                i += 1;
            }
            assert(views.skip(i as int) == Seq::<PlanExprV>::empty());
            assert(visits_view(out@) == visits_view(before) + all_visits(views));
            assert(visits(e@) == all_visits(views));
        },
    }
}

/// What is found of the parameters of a plan.
pub fn parameter_visits(plan: &Vec<PlanExpr>) -> (r: Vec<Visit>)
    ensures
        visits_view(r@) == all_visits(exprs_view(plan@)),
{
    let ghost views = exprs_view(plan@);
    let mut out: Vec<Visit> = Vec::new();
    let mut i: usize = 0;
    assert(views.skip(0) == views);
    assert(visits_view(out@) + all_visits(views) == all_visits(views));
    while i < plan.len()
        invariant
            i <= plan@.len(),
            views == exprs_view(plan@),
            visits_view(out@) + all_visits(views.skip(i as int)) == all_visits(views),
        decreases plan@.len() - i,
    {
        let ghost now = visits_view(out@);
        assert(views.skip(i as int)[0] == plan@[i as int]@);
        assert(views.skip(i as int).skip(1) == views.skip(i + 1));
        walk(&plan[i], &mut out);
        assert(now + (visits(plan@[i as int]@) + all_visits(views.skip(i + 1))) == visits_view(
            out@,
        ) + all_visits(views.skip(i + 1)));
        i += 1;
    }
    assert(views.skip(i as int) == Seq::<PlanExprV>::empty());
    assert(visits_view(out@) == all_visits(views));
    out
}

/// The value of a key in a list of keys and values.
pub open spec fn find<V>(m: Seq<(Seq<char>, V)>, key: Seq<char>) -> Option<V>
    decreases m.len(),
{
    if m.len() == 0 {
        None
    } else if m[0].0 == key {
        Some(m[0].1)
    } else {
        find(m.skip(1), key)
    }
}

/// A list of keys and values with the value of a key, in place of the one that the key
/// had.
pub open spec fn put<V>(m: Seq<(Seq<char>, V)>, key: Seq<char>, value: V) -> Seq<(Seq<char>, V)>
    decreases m.len(),
{
    if m.len() == 0 {
        seq![(key, value)]
    } else if m[0].0 == key {
        seq![(key, value)] + m.skip(1)
    } else {
        seq![m[0]] + put(m.skip(1), key, value)
    }
}

/// True of a list in which no key occurs twice.
pub open spec fn distinct<V>(m: Seq<(Seq<char>, V)>) -> bool {
    forall|i: int, j: int| 0 <= i < j < m.len() ==> (#[trigger] m[i]).0 != (#[trigger] m[j]).0
}

/// The models of parameters with their types.
pub open spec fn types_view(v: Seq<(String, Option<DataType>)>) -> Seq<
    (Seq<char>, Option<DataTypeV>),
> {
    v.map_values(
        |e: (String, Option<DataType>)| (e.0@, oid_type_planner::opt_type_view(e.1)),
    )
}

/// The models of parameters with their types on the wire.
pub open spec fn overrides_view(v: Seq<(String, Type)>) -> Seq<(Seq<char>, TypeV)> {
    v.map_values(|e: (String, Type)| (e.0@, e.1@))
}

fn position(m: &Vec<(String, Option<DataType>)>, id: &str) -> (r: Option<usize>)
    ensures
        match r {
            Some(i) => i < m@.len() && m@[i as int].0@ == id@ && (forall|j: int|
                0 <= j < i ==> (#[trigger] m@[j]).0@ != id@),
            None => forall|j: int| 0 <= j < m@.len() ==> (#[trigger] m@[j]).0@ != id@,
        },
{
    let mut i: usize = 0;
    while i < m.len()
        invariant
            i <= m@.len(),
            forall|j: int| 0 <= j < i ==> (#[trigger] m@[j]).0@ != id@,
        decreases m@.len() - i,
    {
        if text::same(m[i].0.as_str(), id) {
            return Some(i);
        }
        i += 1;
    }
    None
}

fn position_of_override(m: &Vec<(String, Type)>, id: &str) -> (r: Option<usize>)
    ensures
        match r {
            Some(i) => i < m@.len() && m@[i as int].0@ == id@ && (forall|j: int|
                0 <= j < i ==> (#[trigger] m@[j]).0@ != id@),
            None => forall|j: int| 0 <= j < m@.len() ==> (#[trigger] m@[j]).0@ != id@,
        },
{
    let mut i: usize = 0;
    while i < m.len()
        invariant
            i <= m@.len(),
            forall|j: int| 0 <= j < i ==> (#[trigger] m@[j]).0@ != id@,
        decreases m@.len() - i,
    {
        if text::same(m[i].0.as_str(), id) {
            return Some(i);
        }
        i += 1;
    }
    None
}

proof fn lemma_found<V>(m: Seq<(Seq<char>, V)>, key: Seq<char>, i: int, value: V)
    requires
        0 <= i < m.len(),
        m[i].0 == key,
        forall|j: int| 0 <= j < i ==> (#[trigger] m[j]).0 != key,
    ensures
        find(m, key) == Some(m[i].1),
        put(m, key, value) == m.update(i, (key, value)),
    decreases i,
{
    if i > 0 {
        assert(m[0].0 != key);
        assert forall|j: int| 0 <= j < i - 1 implies (#[trigger] m.skip(1)[j]).0 != key by {
            assert(m[j + 1].0 != key);
        }
        lemma_found(m.skip(1), key, i - 1, value);
        assert(m.update(i, (key, value)) == seq![m[0]] + m.skip(1).update(i - 1, (key, value)));
    } else {
        assert(m.update(0, (key, value)) == seq![(key, value)] + m.skip(1));
    }
}

proof fn lemma_absent<V>(m: Seq<(Seq<char>, V)>, key: Seq<char>, value: V)
    requires
        forall|j: int| 0 <= j < m.len() ==> (#[trigger] m[j]).0 != key,
    ensures
        find(m, key) is None,
        put(m, key, value) == m.push((key, value)),
    decreases m.len(),
{
    if m.len() > 0 {
        assert(m[0].0 != key);
        assert forall|j: int| 0 <= j < m.skip(1).len() implies (#[trigger] m.skip(1)[j]).0
            != key by {
            assert(m[j + 1].0 != key);
        }
        lemma_absent(m.skip(1), key, value);
        assert(m.push((key, value)) == seq![m[0]] + m.skip(1).push((key, value)));
    } else {
        assert(m.push((key, value)) == seq![(key, value)]);
    }
}

fn put_type(m: &mut Vec<(String, Option<DataType>)>, id: &str, data_type: Option<DataType>)
    ensures
        types_view(final(m)@) == put(
            types_view(old(m)@),
            id@,
            oid_type_planner::opt_type_view(data_type),
        ),
{
    let ghost before = types_view(m@);
    let ghost value = oid_type_planner::opt_type_view(data_type);
    match position(m, id) {
        Some(i) => {
            proof {
                assert forall|j: int| 0 <= j < i implies (#[trigger] before[j]).0 != id@ by {
                    assert(m@[j].0@ != id@);
                }
                lemma_found(before, id@, i as int, value);
            }
            m.set(i, (id.to_owned(), data_type));
            assert(types_view(m@) == before.update(i as int, (id@, value)));
        },
        None => {
            proof {
                assert forall|j: int| 0 <= j < before.len() implies (#[trigger] before[j]).0
                    != id@ by {
                    assert(m@[j].0@ != id@);
                }
                lemma_absent(before, id@, value);
            }
            m.push((id.to_owned(), data_type));
            assert(types_view(m@) == before.push((id@, value)));
        },
    }
}

fn put_override(m: &mut Vec<(String, Type)>, id: &str, ty: Type)
    ensures
        overrides_view(final(m)@) == put(overrides_view(old(m)@), id@, ty@),
{
    let ghost before = overrides_view(m@);
    match position_of_override(m, id) {
        Some(i) => {
            proof {
                assert forall|j: int| 0 <= j < i implies (#[trigger] before[j]).0 != id@ by {
                    assert(m@[j].0@ != id@);
                }
                lemma_found(before, id@, i as int, ty@);
            }
            m.set(i, (id.to_owned(), ty));
            assert(overrides_view(m@) == before.update(i as int, (id@, ty@)));
        },
        None => {
            proof {
                assert forall|j: int| 0 <= j < before.len() implies (#[trigger] before[j]).0
                    != id@ by {
                    assert(m@[j].0@ != id@);
                }
                lemma_absent(before, id@, ty@);
            }
            m.push((id.to_owned(), ty));
            assert(overrides_view(m@) == before.push((id@, ty@)));
        },
    }
}

/// The value of a key in a list of keys and types.
#[derive(Debug)]
enum Found {
    Absent,
    Untyped,
    Typed,
}

fn find_type(m: &Vec<(String, Option<DataType>)>, id: &str) -> (r: Found)
    ensures
        match (r, find(types_view(m@), id@)) {
            (Found::Absent, None) => true,
            (Found::Untyped, Some(None)) => true,
            (Found::Typed, Some(Some(_))) => true,
            _ => false,
        },
{
    let ghost views = types_view(m@);
    match position(m, id) {
        Some(i) => {
            proof {
                assert forall|j: int| 0 <= j < i implies (#[trigger] views[j]).0 != id@ by {
                    assert(m@[j].0@ != id@);
                }
                lemma_found(views, id@, i as int, None);
            }
            if m[i].1.is_some() {
                Found::Typed
            } else {
                Found::Untyped
            }
        },
        None => {
            proof {
                assert forall|j: int| 0 <= j < views.len() implies (#[trigger] views[j]).0
                    != id@ by {
                    assert(m@[j].0@ != id@);
                }
                lemma_absent(views, id@, None);
            }
            Found::Absent
        },
    }
}

/// The types that the parameters of a plan are cast to: of each parameter that of the
/// last cast, or nothing where it is never in one.
pub open spec fn cast_types(v: Seq<VisitV>) -> Seq<(Seq<char>, Option<DataTypeV>)>
    decreases v.len(),
{
    if v.len() == 0 {
        Seq::empty()
    } else {
        let before = cast_types(v.drop_last());
        match v.last() {
            VisitV::Cast { id, data_type, .. } => put(before, id, Some(data_type)),
            VisitV::Placeholder { id, .. } => if find(before, id) is Some {
                before
            } else {
                put(before, id, None)
            },
        }
    }
}

fn extract_placeholder_cast_types(found: &Vec<Visit>) -> (r: Vec<(String, Option<DataType>)>)
    ensures
        types_view(r@) == cast_types(visits_view(found@)),
{
    let ghost views = visits_view(found@);
    let mut out: Vec<(String, Option<DataType>)> = Vec::new();
    let mut i: usize = 0;
    assert(types_view(out@) == Seq::<(Seq<char>, Option<DataTypeV>)>::empty());
    assert(views.take(0) == Seq::<VisitV>::empty());
    while i < found.len()
        invariant
            i <= found@.len(),
            views == visits_view(found@),
            types_view(out@) == cast_types(views.take(i as int)),
        decreases found@.len() - i,
    {
        assert(views.take(i + 1).drop_last() == views.take(i as int));
        assert(views.take(i + 1).last() == found@[i as int]@);
        let visit = &found[i];
        match &visit.cast {
            Some(data_type) => {
                put_type(&mut out, visit.id.as_str(), Some(data_type.copy()));
            },
            None => {
                if let Found::Absent = find_type(&out, visit.id.as_str()) {
                    put_type(&mut out, visit.id.as_str(), None);
                }
            },
        }
        i += 1;
    }
    assert(views.take(i as int) == views);
    out
}

/// Types with more types: one that is known already stays.
pub open spec fn merged(
    types: Seq<(Seq<char>, Option<DataTypeV>)>,
    more: Seq<(Seq<char>, Option<DataTypeV>)>,
) -> Seq<(Seq<char>, Option<DataTypeV>)>
    decreases more.len(),
{
    if more.len() == 0 {
        types
    } else {
        let before = merged(types, more.drop_last());
        let (id, data_type) = more.last();
        match find(before, id) {
            Some(Some(_)) => before,
            _ => put(before, id, data_type),
        }
    }
}

/// The types of parameters: those that the planner knows, and those of casts for
/// the parameters whose type it does not know. The casts are not looked at when it
/// knows all types.
pub open spec fn inferred_types(
    types: Seq<(Seq<char>, Option<DataTypeV>)>,
    found: Seq<VisitV>,
) -> Seq<(Seq<char>, Option<DataTypeV>)> {
    if forall|i: int| 0 <= i < types.len() ==> (#[trigger] types[i]).1 is Some {
        types
    } else {
        merged(types, cast_types(found))
    }
}

/// The types of the parameters of a plan, where the planner gives them the types
/// `param_types`.
pub fn get_inferred_parameter_types(
    param_types: Vec<(String, Option<DataType>)>,
    plan: &Vec<PlanExpr>,
) -> (r: Vec<(String, Option<DataType>)>)
    ensures
        types_view(r@) == inferred_types(
            types_view(param_types@),
            all_visits(exprs_view(plan@)),
        ),
{
    let ghost views = types_view(param_types@);
    let mut i: usize = 0;
    let mut has_none = false;
    while i < param_types.len()
        invariant
            i <= param_types@.len(),
            views == types_view(param_types@),
            has_none == exists|j: int| 0 <= j < i && (#[trigger] views[j]).1 is None,
        decreases param_types@.len() - i,
    {
        assert(views[i as int].1 == oid_type_planner::opt_type_view(param_types@[i as int].1));
        if param_types[i].1.is_none() {
            has_none = true;
        }
        i += 1;
    }
    if !has_none {
        return param_types;
    }
    let found = parameter_visits(plan);
    let casts = extract_placeholder_cast_types(&found);
    let ghost more = types_view(casts@);
    let mut out = param_types;
    let mut k: usize = 0;
    assert(more.take(0) == Seq::<(Seq<char>, Option<DataTypeV>)>::empty());
    while k < casts.len()
        invariant
            k <= casts@.len(),
            more == types_view(casts@),
            types_view(out@) == merged(views, more.take(k as int)),
        decreases casts@.len() - k,
    {
        assert(more.take(k + 1).drop_last() == more.take(k as int));
        assert(more.take(k + 1).last() == more[k as int]);
        let id = casts[k].0.as_str();
        let data_type = match &casts[k].1 {
            Some(t) => Some(t.copy()),
            None => None,
        };
        match find_type(&out, id) {
            Found::Typed => {},
            _ => put_type(&mut out, id, data_type),
        }
        k += 1;
    }
    assert(more.take(k as int) == more);
    out
}

/// The types on the wire that the column of a parameter asks for, one after the other.
/// An oid is one where the column holds numbers, and a vector one in any case.
pub open spec fn field_override(f: FieldV) -> Option<TypeV> {
    if datatypes::is_vector(f) {
        Some(datatypes::vector_type())
    } else if f.data_type is Int32 {
        match schema::lookup(f.metadata, PG_OID_ALIAS_KEY@) {
            Some(kind) => match datatypes::alias_type(kind) {
                Some(b) => Some(TypeV::Builtin(b)),
                None => None,
            },
            None => None,
        }
    } else {
        None
    }
}

/// The column of a parameter that was found.
pub open spec fn visit_field(v: VisitV) -> (Seq<char>, Option<FieldV>) {
    match v {
        VisitV::Cast { id, field, .. } => (id, field),
        VisitV::Placeholder { id, field } => (id, field),
    }
}

/// The types on the wire of the parameters whose column asks for one.
pub open spec fn override_types(v: Seq<VisitV>) -> Seq<(Seq<char>, TypeV)>
    decreases v.len(),
{
    if v.len() == 0 {
        Seq::empty()
    } else {
        let before = override_types(v.drop_last());
        let (id, field) = visit_field(v.last());
        match field {
            Some(f) => match field_override(f) {
                Some(ty) => put(before, id, ty),
                None => before,
            },
            None => before,
        }
    }
}

fn override_of(f: &Field) -> (r: Option<Type>)
    ensures
        match (r, field_override(f@)) {
            (Some(ty), Some(v)) => ty@ == v,
            (None, None) => true,
            _ => false,
        },
{
    if datatypes::is_pg_vector_field(f) {
        return Some(datatypes::pg_vector_type());
    }
    match f.data_type {
        DataType::Int32 => match f.get_metadata(PG_OID_ALIAS_KEY) {
            Some(kind) => match datatypes::pg_type_for_alias_kind(kind) {
                Some(b) => Some(Type::Builtin(b)),
                None => None,
            },
            None => None,
        },
        _ => None,
    }
}

/// The types on the wire of the parameters of a plan whose column asks for one.
pub fn parameter_override_types(plan: &Vec<PlanExpr>) -> (r: Vec<(String, Type)>)
    ensures
        overrides_view(r@) == override_types(all_visits(exprs_view(plan@))),
{
    let found = parameter_visits(plan);
    let ghost views = visits_view(found@);
    let mut out: Vec<(String, Type)> = Vec::new();
    let mut i: usize = 0;
    assert(overrides_view(out@) == Seq::<(Seq<char>, TypeV)>::empty());
    assert(views.take(0) == Seq::<VisitV>::empty());
    while i < found.len()
        invariant
            i <= found@.len(),
            views == visits_view(found@),
            overrides_view(out@) == override_types(views.take(i as int)),
        decreases found@.len() - i,
    {
        assert(views.take(i + 1).drop_last() == views.take(i as int));
        assert(views.take(i + 1).last() == found@[i as int]@);
        let visit = &found[i];
        if let Some(f) = &visit.field {
            if let Some(ty) = override_of(f) {
                put_override(&mut out, visit.id.as_str(), ty);
            }
        }
        i += 1;
    }
    assert(views.take(i as int) == views);
    out
}

/// The number of a parameter such as `$1`. What has no number comes last.
pub open spec fn number_of(id: Seq<char>) -> u32 {
    let t = text::trim_start_by(id, |c: char| c == '$');
    if t.len() > 0 && t[0] == '-' {
        u32::MAX
    } else {
        match params::i64_text(t) {
            Some(n) => if 0 <= n <= u32::MAX {
                n as u32
            } else {
                u32::MAX
            },
            None => u32::MAX,
        }
    }
}

fn parameter_number(id: &str) -> (r: u32)
    ensures
        r == number_of(id@),
{
    let chars = text::chars_of(id);
    let ghost p = |c: char| c == '$';
    let mut from: usize = 0;
    assert(id@.skip(0) == id@);
    while from < chars.len() && chars[from] == '$'
        invariant
            from <= chars@.len(),
            chars@ == id@,
            p == (|c: char| c == '$'),
            text::trim_start_by(id@, p) == text::trim_start_by(id@.skip(from as int), p),
        decreases chars@.len() - from,
    {
        assert(id@.skip(from as int)[0] == chars@[from as int]);
        assert(id@.skip(from as int).skip(1) == id@.skip(from + 1));
        from += 1;
    }
    assert(from < chars@.len() ==> id@.skip(from as int)[0] == chars@[from as int]);
    let rest = text::text_of(&chars, from, chars.len());
    assert(rest@ == id@.skip(from as int));
    if from < chars.len() && chars[from] == '-' {
        return u32::MAX;
    }
    match params::parse_i64(rest.as_str()) {
        Some(n) => if 0 <= n && n <= 0xffff_ffff {
            n as u32
        } else {
            u32::MAX
        },
        None => u32::MAX,
    }
}

/// True of the parameters with their types, in the order of their numbers.
pub open spec fn is_ordering(
    types: Seq<(Seq<char>, Option<DataTypeV>)>,
    ordered: Seq<(Seq<char>, Option<DataTypeV>)>,
) -> bool {
    &&& ordered.to_multiset() == types.to_multiset()
    &&& forall|i: int, j: int|
        0 <= i < j < ordered.len() ==> number_of((#[trigger] ordered[i]).0) <= number_of(
            (#[trigger] ordered[j]).0,
        )
}

/// The parameters with their types, in the order of their numbers.
pub fn ordered_parameter_entries(params: &Vec<(String, Option<DataType>)>) -> (r: Vec<
    (String, Option<DataType>),
>)
    ensures
        is_ordering(types_view(params@), types_view(r@)),
{
    let ghost views = types_view(params@);
    let mut out: Vec<(String, Option<DataType>)> = Vec::new();
    let mut i: usize = 0;
    assert(views.take(0) == Seq::<(Seq<char>, Option<DataTypeV>)>::empty());
    assert(types_view(out@) == Seq::<(Seq<char>, Option<DataTypeV>)>::empty());
    while i < params.len()
        invariant
            i <= params@.len(),
            views == types_view(params@),
            is_ordering(views.take(i as int), types_view(out@)),
        decreases params@.len() - i,
    {
        let id = params[i].0.as_str();
        let number = parameter_number(id);
        let ghost before = types_view(out@);
        let mut at: usize = out.len();
        while at > 0 && parameter_number(out[at - 1].0.as_str()) > number
            invariant
                at <= out@.len(),
                before == types_view(out@),
                forall|j: int| at <= j < out@.len() ==> number_of((#[trigger] before[j]).0) > number,
            decreases at,
        {
            assert(before[at - 1].0 == out@[at - 1].0@);
            at -= 1;
        }
        assert(at > 0 ==> before[at - 1].0 == out@[at - 1].0@);
        let data_type = match &params[i].1 {
            Some(t) => Some(t.copy()),
            None => None,
        };
        out.insert(at, (params[i].0.clone(), data_type));
        proof {
            let entry = views[i as int];
            let after = types_view(out@);
            assert(after == before.insert(at as int, entry));
            assert(views.take(i + 1) == views.take(i as int).push(entry));
            seq_lib::to_multiset_insert(before, at as int, entry);
            seq_lib::to_multiset_build(views.take(i as int), entry);
            assert forall|x: int, y: int| 0 <= x < y < after.len() implies number_of(
                (#[trigger] after[x]).0,
            ) <= number_of((#[trigger] after[y]).0) by {
                let a = if x < at {
                    x
                } else {
                    x - 1
                };
                let b = if y < at {
                    y
                } else {
                    y - 1
                };
                if x != at && y != at {
                    assert(number_of(before[a].0) <= number_of(before[b].0));
                } else if x == at {
                    assert(number_of(before[b].0) > number);
                } else {
                    if a < at - 1 {
                        assert(number_of(before[a].0) <= number_of(before[at - 1].0));
                    }
                }
            }
        }
        i += 1;
    }
    assert(views.take(i as int) == views);
    out
}

/// The types of parameters, in the order of their numbers.
pub fn ordered_param_types(types: &Vec<(String, Option<DataType>)>) -> (r: Vec<Option<DataType>>)
    ensures
        exists|ordered: Seq<(Seq<char>, Option<DataTypeV>)>| #[trigger]
            is_ordering(types_view(types@), ordered) && crate::sql::vector_insert::types_view(r@)
                == ordered.map_values(|e: (Seq<char>, Option<DataTypeV>)| e.1),
{
    let entries = ordered_parameter_entries(types);
    let ghost ordered = types_view(entries@);
    let mut out: Vec<Option<DataType>> = Vec::new();
    let mut i: usize = 0;
    while i < entries.len()
        invariant
            i <= entries@.len(),
            out@.len() == i,
            ordered == types_view(entries@),
            forall|j: int|
                0 <= j < i ==> oid_type_planner::opt_type_view(#[trigger] out@[j]) == ordered[j].1,
        decreases entries@.len() - i,
    {
        assert(ordered[i as int].1 == oid_type_planner::opt_type_view(entries@[i as int].1));
        out.push(
            match &entries[i].1 {
                Some(t) => Some(t.copy()),
                None => None,
            },
        );
        i += 1;
    }
    assert(crate::sql::vector_insert::types_view(out@) == ordered.map_values(
        |e: (Seq<char>, Option<DataTypeV>)| e.1,
    ));
    assert(is_ordering(types_view(types@), ordered));
    out
}

/// The types on the wire of parameters with their types: the one that a column asks
/// for, or else that of the type, or else `unknown`.
pub open spec fn wire_types(
    entries: Seq<(Seq<char>, Option<DataTypeV>)>,
    overrides: Seq<(Seq<char>, TypeV)>,
) -> Result<Seq<TypeV>, ErrorV>
    decreases entries.len(),
{
    if entries.len() == 0 {
        Ok(Seq::empty())
    } else {
        match wire_types(entries.drop_last(), overrides) {
            Err(e) => Err(e),
            Ok(types) => match wire_type(entries.last(), overrides) {
                Ok(ty) => Ok(types.push(ty)),
                Err(e) => Err(e),
            },
        }
    }
}

/// The type on the wire of a parameter.
pub open spec fn wire_type(
    entry: (Seq<char>, Option<DataTypeV>),
    overrides: Seq<(Seq<char>, TypeV)>,
) -> Result<TypeV, ErrorV> {
    match find(overrides, entry.0) {
        Some(ty) => Ok(ty),
        None => match entry.1 {
            Some(t) => datatypes::pg_type(t),
            None => Ok(TypeV::Builtin(Builtin::UNKNOWN)),
        },
    }
}

/// The models of types on the wire.
pub open spec fn pg_types_view(v: Seq<Type>) -> Seq<TypeV> {
    v.map_values(|t: Type| t@)
}

/// The types on the wire of parameters with their types, in their order.
pub fn entry_wire_types(
    entries: &Vec<(String, Option<DataType>)>,
    overrides: &Vec<(String, Type)>,
) -> (r: Result<Vec<Type>, Error>)
    ensures
        match r {
            Ok(types) => wire_types(types_view(entries@), overrides_view(overrides@)) == Ok::<
                _,
                ErrorV,
            >(pg_types_view(types@)),
            Err(e) => wire_types(types_view(entries@), overrides_view(overrides@)) == Err::<
                Seq<TypeV>,
                _,
            >(e@),
        },
{
    let ghost views = types_view(entries@);
    let ghost fixed = overrides_view(overrides@);
    let mut types: Vec<Type> = Vec::new();
    let mut i: usize = 0;
    assert(views.take(0) == Seq::<(Seq<char>, Option<DataTypeV>)>::empty());
    assert(pg_types_view(types@) == Seq::<TypeV>::empty());
    while i < entries.len()
        invariant
            i <= entries@.len(),
            views == types_view(entries@),
            fixed == overrides_view(overrides@),
            wire_types(views.take(i as int), fixed) == Ok::<_, ErrorV>(pg_types_view(types@)),
        decreases entries@.len() - i,
    {
        assert(views.take(i + 1).drop_last() == views.take(i as int));
        assert(views.take(i + 1).last() == views[i as int]);
        let id = entries[i].0.as_str();
        let ghost before = types@;
        let ty = match position_of_override(overrides, id) {
            Some(k) => {
                proof {
                    assert forall|j: int| 0 <= j < k implies (#[trigger] fixed[j]).0 != id@ by {
                        assert(overrides@[j].0@ != id@);
                    }
                    lemma_found(fixed, id@, k as int, fixed[k as int].1);
                }
                overrides[k].1.copy()
            },
            None => {
                proof {
                    assert forall|j: int| 0 <= j < fixed.len() implies (#[trigger] fixed[j]).0
                        != id@ by {
                        assert(overrides@[j].0@ != id@);
                    }
                    lemma_absent(fixed, id@, TypeV::Builtin(Builtin::UNKNOWN));
                }
                match &entries[i].1 {
                    Some(t) => match datatypes::into_pg_type(t) {
                        Ok(ty) => ty,
                        Err(e) => {
                            proof {
                                lemma_wire_types_fail(views, fixed, i + 1, e@);
                            }
                            return Err(e);
                        },
                    },
                    None => Type::Builtin(Builtin::UNKNOWN),
                }
            },
        };
        types.push(ty);
        assert(pg_types_view(types@) == pg_types_view(before).push(ty@));
        i += 1;
    }
    assert(views.take(i as int) == views);
    Ok(types)
}

proof fn lemma_wire_types_fail(
    entries: Seq<(Seq<char>, Option<DataTypeV>)>,
    overrides: Seq<(Seq<char>, TypeV)>,
    n: int,
    e: ErrorV,
)
    requires
        0 <= n <= entries.len(),
        wire_types(entries.take(n), overrides) == Err::<Seq<TypeV>, _>(e),
    ensures
        wire_types(entries, overrides) == Err::<Seq<TypeV>, _>(e),
    decreases entries.len() - n,
{
    if n < entries.len() {
        assert(entries.take(n + 1).drop_last() == entries.take(n));
        lemma_wire_types_fail(entries, overrides, n + 1, e);
    } else {
        assert(entries.take(n) == entries);
    }
}

/// The types on the wire of the parameters of a plan, where the planner gives them the
/// types `param_types`: in the order of their numbers.
pub fn parameter_wire_types(
    param_types: Vec<(String, Option<DataType>)>,
    plan: &Vec<PlanExpr>,
) -> (r: Result<Vec<Type>, Error>)
    ensures
        ({
            let found = all_visits(exprs_view(plan@));
            let types = inferred_types(types_view(param_types@), found);
            exists|ordered: Seq<(Seq<char>, Option<DataTypeV>)>| #[trigger]
                is_ordering(types, ordered) && (match r {
                    Ok(v) => wire_types(ordered, override_types(found)) == Ok::<_, ErrorV>(
                        pg_types_view(v@),
                    ),
                    Err(e) => wire_types(ordered, override_types(found)) == Err::<Seq<TypeV>, _>(
                        e@,
                    ),
                })
        }),
{
    let inferred = get_inferred_parameter_types(param_types, plan);
    let overrides = parameter_override_types(plan);
    let entries = ordered_parameter_entries(&inferred);
    assert(is_ordering(types_view(inferred@), types_view(entries@)));
    entry_wire_types(&entries, &overrides)
}

/// The last cast of a parameter among what was found, and whether it was found at all.
pub open spec fn last_cast(v: Seq<VisitV>, id: Seq<char>) -> Option<Option<DataTypeV>>
    decreases v.len(),
{
    if v.len() == 0 {
        None
    } else {
        let before = last_cast(v.drop_last(), id);
        match v.last() {
            VisitV::Cast { id: other, data_type, .. } => if other == id {
                Some(Some(data_type))
            } else {
                before
            },
            VisitV::Placeholder { id: other, .. } => if other == id && before is None {
                Some(None)
            } else {
                before
            },
        }
    }
}

/// A value that is put under a key is found under it, and no other key is touched. No
/// key occurs twice where none did before.
pub proof fn law_put_is_found<V>(
    m: Seq<(Seq<char>, V)>,
    key: Seq<char>,
    value: V,
    other: Seq<char>,
)
    ensures
        find(put(m, key, value), key) == Some(value),
        other != key ==> find(put(m, key, value), other) == find(m, other),
        distinct(m) ==> distinct(put(m, key, value)),
    decreases m.len(),
{
    reveal_with_fuel(find, 2);
    let new = put(m, key, value);
    if m.len() == 0 {
        assert(new.skip(1) == Seq::<(Seq<char>, V)>::empty());
    } else if m[0].0 == key {
        assert(new.skip(1) == m.skip(1));
        assert(new == m.update(0, (key, value)));
        if distinct(m) {
            assert forall|i: int, j: int| 0 <= i < j < new.len() implies (#[trigger] new[i]).0
                != (#[trigger] new[j]).0 by {
                assert(m[i].0 != m[j].0);
            }
        }
    } else {
        let rest = m.skip(1);
        law_put_is_found(rest, key, value, other);
        assert(new[0] == m[0]);
        assert(new.skip(1) == put(rest, key, value));
        if distinct(m) {
            assert forall|i: int, j: int| 0 <= i < j < rest.len() implies (#[trigger] rest[i]).0
                != (#[trigger] rest[j]).0 by {
                assert(m[i + 1].0 != m[j + 1].0);
            }
            lemma_put_keys(rest, key, value, m[0].0);
            assert forall|i: int, j: int| 0 <= i < j < new.len() implies (#[trigger] new[i]).0
                != (#[trigger] new[j]).0 by {
                assert(new[j] == put(rest, key, value)[j - 1]);
                if i > 0 {
                    assert(new[i] == put(rest, key, value)[i - 1]);
                } else {
                    assert forall|k: int| 0 <= k < rest.len() implies (#[trigger] rest[k]).0
                        != m[0].0 by {
                        assert(m[0].0 != m[k + 1].0);
                    }
                }
            }
        }
    }
}

proof fn lemma_put_keys<V>(m: Seq<(Seq<char>, V)>, key: Seq<char>, value: V, other: Seq<char>)
    requires
        other != key,
    ensures
        (forall|k: int| 0 <= k < m.len() ==> (#[trigger] m[k]).0 != other) ==> (forall|k: int|
            0 <= k < put(m, key, value).len() ==> (#[trigger] put(m, key, value)[k]).0 != other),
    decreases m.len(),
{
    let new = put(m, key, value);
    if (forall|k: int| 0 <= k < m.len() ==> (#[trigger] m[k]).0 != other) {
        if m.len() > 0 && m[0].0 != key {
            let rest = m.skip(1);
            assert forall|k: int| 0 <= k < rest.len() implies (#[trigger] rest[k]).0 != other by {
                assert(m[k + 1].0 != other);
            }
            lemma_put_keys(rest, key, value, other);
            assert forall|k: int| 0 <= k < new.len() implies (#[trigger] new[k]).0 != other by {
                if k > 0 {
                    assert(new[k] == put(rest, key, value)[k - 1]);
                } else {
                    assert(new[0] == m[0]);
                }
            }
        } else if m.len() > 0 {
            assert forall|k: int| 0 <= k < new.len() implies (#[trigger] new[k]).0 != other by {
                if k > 0 {
                    assert(new[k] == m[k]);
                }
            }
        }
    }
}

/// A parameter has the type of its last cast, and no type where it is in none.
pub proof fn law_last_cast_counts(v: Seq<VisitV>, id: Seq<char>)
    ensures
        find(cast_types(v), id) == last_cast(v, id),
        distinct(cast_types(v)),
    decreases v.len(),
{
    if v.len() > 0 {
        law_last_cast_counts(v.drop_last(), id);
        let before = cast_types(v.drop_last());
        match v.last() {
            VisitV::Cast { id: other, data_type, .. } => {
                law_put_is_found(before, other, Some(data_type), id);
            },
            VisitV::Placeholder { id: other, .. } => {
                law_put_is_found(before, other, None, id);
            },
        }
    }
}

/// A type that the planner knows is never changed. A parameter whose type it does not
/// know has the type of its last cast.
pub proof fn law_known_types_stay(
    types: Seq<(Seq<char>, Option<DataTypeV>)>,
    found: Seq<VisitV>,
    id: Seq<char>,
)
    ensures
        find(types, id) matches Some(Some(t)) ==> find(inferred_types(types, found), id) == Some(
            Some(t),
        ),
        find(types, id) == Some(None::<DataTypeV>) ==> find(inferred_types(types, found), id)
            == Some(
            match last_cast(found, id) {
                Some(Some(t)) => Some(t),
                _ => None,
            },
        ),
        distinct(types) ==> distinct(inferred_types(types, found)),
{
    law_last_cast_counts(found, id);
    lemma_merged(types, cast_types(found), id);
    if find(types, id) == Some(None::<DataTypeV>) {
        lemma_find_position(types, id);
    }
}

proof fn lemma_find_position<V>(m: Seq<(Seq<char>, V)>, key: Seq<char>)
    ensures
        find(m, key) matches Some(v) ==> exists|i: int|
            0 <= i < m.len() && (#[trigger] m[i]).0 == key && m[i].1 == v,
    decreases m.len(),
{
    if m.len() > 0 {
        if m[0].0 != key {
            lemma_find_position(m.skip(1), key);
            if let Some(v) = find(m.skip(1), key) {
                let i = choose|i: int|
                    0 <= i < m.skip(1).len() && (#[trigger] m.skip(1)[i]).0 == key && m.skip(
                        1,
                    )[i].1 == v;
                assert(m[i + 1] == m.skip(1)[i]);
            }
        } else {
            assert(m[0].0 == key);
        }
    }
}

proof fn lemma_merged(
    types: Seq<(Seq<char>, Option<DataTypeV>)>,
    more: Seq<(Seq<char>, Option<DataTypeV>)>,
    id: Seq<char>,
)
    requires
        distinct(more),
    ensures
        distinct(types) ==> distinct(merged(types, more)),
        match (find(types, id), find(more, id)) {
            (Some(Some(t)), _) => find(merged(types, more), id) == Some(Some(t)),
            (_, Some(t)) => find(merged(types, more), id) == Some(t),
            (Some(None), None) => find(merged(types, more), id) == Some(None::<DataTypeV>),
            (None, None) => find(merged(types, more), id) is None,
        },
    decreases more.len(),
{
    if more.len() > 0 {
        let init = more.drop_last();
        let (key, value) = more.last();
        assert forall|i: int, j: int| 0 <= i < j < init.len() implies (#[trigger] init[i]).0 != (
        #[trigger] init[j]).0 by {
            assert(more[i].0 != more[j].0);
        }
        lemma_merged(types, init, id);
        let before = merged(types, init);
        law_put_is_found(before, key, value, id);
        assert(more == init.push((key, value)));
        lemma_find_push(init, key, value, id);
        if key == id {
            assert forall|j: int| 0 <= j < init.len() implies (#[trigger] init[j]).0 != id by {
                assert(more[j].0 != more[more.len() - 1].0);
            }
            lemma_absent(init, id, value);
        }
    }
}

proof fn lemma_find_push<V>(m: Seq<(Seq<char>, V)>, key: Seq<char>, value: V, id: Seq<char>)
    ensures
        find(m.push((key, value)), id) == (match find(m, id) {
            Some(v) => Some(v),
            None => if key == id {
                Some(value)
            } else {
                None
            },
        }),
    decreases m.len(),
{
    reveal_with_fuel(find, 2);
    let new = m.push((key, value));
    if m.len() > 0 {
        assert(new[0] == m[0]);
        assert(new.skip(1) == m.skip(1).push((key, value)));
        lemma_find_push(m.skip(1), key, value, id);
    } else {
        assert(new.skip(1) == Seq::<(Seq<char>, V)>::empty());
    }
}

/// Where no two parameters have one number there is one order only.
pub proof fn law_order_is_unique(
    types: Seq<(Seq<char>, Option<DataTypeV>)>,
    a: Seq<(Seq<char>, Option<DataTypeV>)>,
    b: Seq<(Seq<char>, Option<DataTypeV>)>,
)
    requires
        is_ordering(types, a),
        is_ordering(types, b),
        forall|i: int, j: int|
            0 <= i < j < a.len() ==> number_of((#[trigger] a[i]).0) != number_of(
                (#[trigger] a[j]).0,
            ),
    ensures
        a == b,
    decreases a.len(),
{
    seq_lib::to_multiset_len(a);
    seq_lib::to_multiset_len(b);
    if a.len() > 0 {
        seq_lib::to_multiset_contains(a, a[0]);
        seq_lib::to_multiset_contains(b, a[0]);
        seq_lib::to_multiset_contains(a, b[0]);
        seq_lib::to_multiset_contains(b, b[0]);
        assert(a.contains(a[0]));
        assert(b.contains(b[0]));
        assert(b.contains(a[0]));
        assert(a.contains(b[0]));
        let k = choose|k: int| 0 <= k < b.len() && b[k] == a[0];
        let m = choose|m: int| 0 <= m < a.len() && a[m] == b[0];
        if m > 0 {
            assert(number_of(a[0].0) <= number_of(a[m].0));
            assert(number_of(a[0].0) != number_of(a[m].0));
            if k > 0 {
                assert(number_of(b[0].0) <= number_of(b[k].0));
            }
            assert(false);
        }
        assert(a[0] == b[0]);
        let rest_a = a.remove(0);
        let rest_b = b.remove(0);
        seq_lib::to_multiset_remove(a, 0);
        seq_lib::to_multiset_remove(b, 0);
        assert forall|i: int, j: int| 0 <= i < j < rest_a.len() implies number_of(
            (#[trigger] rest_a[i]).0,
        ) <= number_of((#[trigger] rest_a[j]).0) && number_of(rest_a[i].0) != number_of(
            rest_a[j].0,
        ) by {
            assert(number_of(a[i + 1].0) <= number_of(a[j + 1].0));
            assert(number_of(a[i + 1].0) != number_of(a[j + 1].0));
        }
        assert forall|i: int, j: int| 0 <= i < j < rest_b.len() implies number_of(
            (#[trigger] rest_b[i]).0,
        ) <= number_of((#[trigger] rest_b[j]).0) by {
            assert(number_of(b[i + 1].0) <= number_of(b[j + 1].0));
        }
        law_order_is_unique(rest_a, rest_a, rest_b);
        assert(a == seq![a[0]] + rest_a);
        assert(b == seq![b[0]] + rest_b);
    }
}

/// The type on the wire that the column of a parameter that was found asks for.
pub open spec fn visit_override(v: VisitV) -> Option<TypeV> {
    match visit_field(v).1 {
        Some(f) => field_override(f),
        None => None,
    }
}

/// A parameter has the type on the wire that the last of its columns asks for that asks
/// for one.
pub proof fn law_last_column_counts(v: Seq<VisitV>, k: int, id: Seq<char>, ty: TypeV)
    requires
        0 <= k < v.len(),
        visit_field(v[k]).0 == id,
        visit_override(v[k]) == Some(ty),
        forall|j: int|
            k < j < v.len() ==> visit_field(#[trigger] v[j]).0 != id || visit_override(v[j]) is None,
    ensures
        find(override_types(v), id) == Some(ty),
    decreases v.len(),
{
    let init = v.drop_last();
    let before = override_types(init);
    if let Some(last) = visit_override(v.last()) {
        law_put_is_found(before, visit_field(v.last()).0, last, id);
    }
    if k < v.len() - 1 {
        assert(v.last() == v[v.len() - 1]);
        assert forall|j: int| k < j < init.len() implies visit_field(#[trigger] init[j]).0 != id
            || visit_override(init[j]) is None by {
            assert(init[j] == v[j]);
        }
        law_last_column_counts(init, k, id, ty);
    }
}

/// A parameter that goes with a column of vectors is announced as a vector, unless the
/// parameter is found again after that with a column that asks for another type.
pub proof fn law_vector_parameter(v: Seq<VisitV>, k: int, id: Seq<char>, f: FieldV)
    requires
        0 <= k < v.len(),
        visit_field(v[k]) == (id, Some(f)),
        datatypes::is_vector(f),
        forall|j: int|
            k < j < v.len() ==> visit_field(#[trigger] v[j]).0 != id || visit_override(v[j]) is None,
    ensures
        find(override_types(v), id) == Some(datatypes::vector_type()),
{
    law_last_column_counts(v, k, id, datatypes::vector_type());
}

} // verus!
