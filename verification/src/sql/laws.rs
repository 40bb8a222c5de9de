//! What holds of the rewrite rules as a whole.
use crate::pg_catalog;
use crate::sql::projection;
use crate::sql::projection::{
    AliasDuplicatedProjectionRewrite, RemoveSubqueryFromProjection, ResolveUnqualifiedIdentifier,
};
use crate::sql::rules;
use crate::sql::rules::{
    CurrentUserVariableToSessionUserFunctionCall, FixArrayLiteral, FixVersionColumnName, NodeRule,
    PrependUnqualifiedPgTableName, RewriteArrayAnyAllOperation, RewritePgCatalogOperator,
    RewriteRegCastToSubquery, SqlStatementRewriteRule, StripCallableQualifier, StripCollate,
};
use crate::sql::tree;
use crate::sql::tree::{HeadV, NodeV, OperatorV};
use crate::text;
use vstd::prelude::*;

verus! {

/// True when something holds of a construct and of everything inside it.
pub open spec fn everywhere(p: spec_fn(NodeV) -> bool, n: NodeV) -> bool
    decreases n,
{
    p(n) && forall|i: int| 0 <= i < n.kids.len() ==> everywhere(p, #[trigger] n.kids[i])
}

/// True of a rule that changes the head of a construct only, and changes it once.
spec fn changes_heads_once<R: NodeRule>(rule: R) -> bool {
    forall|n: NodeV|
        {
            let m = #[trigger] rule.step(n);
            m.kids == n.kids && m.tag == n.tag && rule.step(m) == m
        }
}

proof fn lemma_once<R: NodeRule>(rule: R, n: NodeV)
    requires
        changes_heads_once(rule),
    ensures
        rules::bottom_up(rule, rules::bottom_up(rule, n)) == rules::bottom_up(rule, n),
    decreases n,
{
    let below = rules::inner(rule, n);
    let m = rules::bottom_up(rule, n);
    assert(m == rule.step(below));
    assert forall|i: int| 0 <= i < n.kids.len() implies rules::inner(rule, m).kids[i]
        == m.kids[i] by {
        lemma_once(rule, n.kids[i]);
        assert(m.kids[i] == rules::bottom_up(rule, n.kids[i]));
    }
    assert(rules::inner(rule, m).kids == m.kids);
    assert(rules::inner(rule, m) == m);
}

/// A table is qualified with `pg_catalog` once only.
pub proof fn law_tables_are_qualified_once(s: NodeV)
    ensures
        ({
            let rule = PrependUnqualifiedPgTableName;
            rule.rewritten(rule.rewritten(s)) == rule.rewritten(s)
        }),
{
    let rule = PrependUnqualifiedPgTableName;
    assert(changes_heads_once(rule));
    lemma_once(rule, s);
}

/// The qualifiers of function names are stripped once only.
pub proof fn law_qualifiers_are_stripped_once(s: NodeV)
    ensures
        ({
            let rule = StripCallableQualifier;
            rule.rewritten(rule.rewritten(s)) == rule.rewritten(s)
        }),
{
    let rule = StripCallableQualifier;
    assert(changes_heads_once(rule));
    lemma_once(rule, s);
}

/// True of a construct that does not call a function by a name of several parts.
pub open spec fn calls_plainly(n: NodeV) -> bool {
    match n.head {
        HeadV::Function { name, .. } => name.len() <= 1,
        HeadV::Table { name, has_args: true, .. } => name.len() <= 1,
        _ => true,
    }
}

/// No function is called by a name of several parts after the qualifiers are stripped.
pub proof fn law_no_qualified_calls(s: NodeV)
    ensures
        everywhere(|n: NodeV| calls_plainly(n), StripCallableQualifier.rewritten(s)),
    decreases s,
{
    let rule = StripCallableQualifier;
    let p = |n: NodeV| calls_plainly(n);
    let m = rules::bottom_up(rule, s);
    assert forall|i: int| 0 <= i < m.kids.len() implies everywhere(p, #[trigger] m.kids[i]) by {
        law_no_qualified_calls(s.kids[i]);
        assert(m.kids[i] == rules::bottom_up(rule, s.kids[i]));
    }
    assert(p(m));
}

/// The operators of `pg_catalog` are replaced once only.
pub proof fn law_operators_are_replaced_once(s: NodeV)
    ensures
        ({
            let rule = RewritePgCatalogOperator;
            rule.rewritten(rule.rewritten(s)) == rule.rewritten(s)
        }),
{
    let rule = RewritePgCatalogOperator;
    assert(changes_heads_once(rule));
    lemma_once(rule, s);
}

/// The column of `version()` is named once only.
pub proof fn law_version_is_named_once(s: NodeV)
    ensures
        ({
            let rule = FixVersionColumnName;
            rule.rewritten(rule.rewritten(s)) == rule.rewritten(s)
        }),
{
    lemma_version_once(s);
}

proof fn lemma_version_once(n: NodeV)
    ensures
        rules::bottom_up(FixVersionColumnName, rules::bottom_up(FixVersionColumnName, n))
            == rules::bottom_up(FixVersionColumnName, n),
    decreases n,
{
    let rule = FixVersionColumnName;
    let m = rules::bottom_up(rule, n);
    let below = rules::inner(rule, n);
    assert forall|i: int| 0 <= i < n.kids.len() implies rules::inner(rule, m).kids[i]
        == m.kids[i] by {
        let x = rules::bottom_up(rule, n.kids[i]);
        assert(below.kids[i] == x);
        lemma_version_once(n.kids[i]);
        if n.head is Select {
            let y = rules::version_item(x);
            assert(m.kids[i] == y);
            if rules::is_version_item(x) {
                assert(rules::inner(rule, x).head is UnnamedExpr);
                assert(rules::bottom_up(rule, x) == rules::inner(rule, x));
                assert(rules::inner(rule, x) == x);
                assert(rules::inner(rule, y).kids == rules::inner(rule, x).kids);
                assert(rules::inner(rule, y) == y);
            }
        }
    }
    assert(rules::inner(rule, m).kids == m.kids);
    assert(rules::inner(rule, m) == m);
    if n.head is Select {
        assert forall|i: int| 0 <= i < m.kids.len() implies rules::version_item(
            #[trigger] m.kids[i],
        ) == m.kids[i] by {
            assert(m.kids[i] == rules::version_item(below.kids[i]));
        }
        assert(rule.step(m).kids == m.kids);
    }
}

proof fn lemma_leaves_stay<R: NodeRule>(rule: R, head: HeadV)
    requires
        forall|n: NodeV| #[trigger] rule.step(n) == n || !(n.head == head),
    ensures
        rules::bottom_up(rule, tree::leaf_view(head)) == tree::leaf_view(head),
{
    let n = tree::leaf_view(head);
    assert(rules::inner(rule, n).kids == n.kids);
    assert(rules::inner(rule, n) == n);
}

proof fn lemma_array_stays<R: NodeRule>(rule: R, elems: Seq<HeadV>)
    requires
        forall|n: NodeV|
            n.head is SingleQuotedString || n.head is Number || n.head is Array
                ==> #[trigger] rule.step(n) == n,
        forall|i: int|
            0 <= i < elems.len() ==> #[trigger] elems[i] is SingleQuotedString || elems[i] is Number,
    ensures
        rules::bottom_up(rule, rules::array_node(elems)) == rules::array_node(elems),
{
    let n = rules::array_node(elems);
    assert forall|i: int| 0 <= i < n.kids.len() implies rules::inner(rule, n).kids[i]
        == n.kids[i] by {
        assert(n.kids[i] == tree::leaf_view(elems[i]));
        assert(elems[i] is SingleQuotedString || elems[i] is Number);
        lemma_leaves_stay(rule, elems[i]);
    }
    assert(rules::inner(rule, n).kids == n.kids);
    assert(rules::inner(rule, n) == n);
}

/// Array literals are written as arrays once only.
pub proof fn law_array_literals_are_fixed_once(s: NodeV)
    ensures
        ({
            let rule = FixArrayLiteral;
            rule.rewritten(rule.rewritten(s)) == rule.rewritten(s)
        }),
    decreases s,
{
    let rule = FixArrayLiteral;
    let m = rules::bottom_up(rule, s);
    let below = rules::inner(rule, s);
    assert forall|i: int| 0 <= i < s.kids.len() implies rules::inner(rule, m).kids[i]
        == m.kids[i] by {
        law_array_literals_are_fixed_once(s.kids[i]);
        assert(below.kids[i] == rules::bottom_up(rule, s.kids[i]));
        if m.kids[i] != below.kids[i] {
            let text = tree::string_literal(below.kids[0])->0;
            let items = text::nonempty_array_items(text);
            lemma_array_stays(rule, items.map_values(|t: Seq<char>| HeadV::SingleQuotedString(t)));
            lemma_array_stays(rule, items.map_values(|t: Seq<char>| HeadV::Number(t)));
        }
    }
    assert(rules::inner(rule, m).kids == m.kids);
    assert(rules::inner(rule, m) == m);
}

/// True of a construct that is neither `= ANY` nor `<> ALL`.
pub open spec fn is_no_array_test(n: NodeV) -> bool {
    n.kids.len() == 2 ==> n.head != HeadV::AnyOp(OperatorV::Eq) && n.head != HeadV::AllOp(
        OperatorV::NotEq,
    )
}

proof fn lemma_array_tests(n: NodeV)
    ensures
        everywhere(
            |x: NodeV| is_no_array_test(x),
            rules::bottom_up(RewriteArrayAnyAllOperation, n),
        ),
    decreases n,
{
    let rule = RewriteArrayAnyAllOperation;
    let p = |x: NodeV| is_no_array_test(x);
    let below = rules::inner(rule, n);
    let m = rules::bottom_up(rule, n);
    assert forall|i: int| 0 <= i < below.kids.len() implies everywhere(
        p,
        #[trigger] below.kids[i],
    ) by {
        lemma_array_tests(n.kids[i]);
        assert(below.kids[i] == rules::bottom_up(rule, n.kids[i]));
    }
    if m == below {
        assert(p(m));
    } else {
        let right = rules::array_operand(below.kids[1]);
        assert(everywhere(p, right)) by {
            if right != below.kids[1] {
                assert forall|i: int| 0 <= i < right.kids.len() implies everywhere(
                    p,
                    #[trigger] right.kids[i],
                ) by {
                    assert(right.kids[i].kids.len() == 0);
                    assert(p(right.kids[i]));
                }
                assert(p(right));
            }
        }
        let call = rules::contains_call(below.kids[0], below.kids[1]);
        assert(everywhere(p, call)) by {
            assert(call.kids[0] == right && call.kids[1] == below.kids[0]);
            assert forall|i: int| 0 <= i < call.kids.len() implies everywhere(
                p,
                #[trigger] call.kids[i],
            ) by {}
            assert(p(call));
        }
        if m != call {
            assert(m.kids[0] == call);
            assert forall|i: int| 0 <= i < m.kids.len() implies everywhere(
                p,
                #[trigger] m.kids[i],
            ) by {}
            assert(p(m));
        }
    }
}

/// Neither `= ANY` nor `<> ALL` is left after they are rewritten.
pub proof fn law_no_array_tests(s: NodeV)
    ensures
        everywhere(
            |n: NodeV| is_no_array_test(n),
            RewriteArrayAnyAllOperation.rewritten(s),
        ),
{
    lemma_array_tests(s);
}

/// True of a construct that is no `COLLATE` of an operand.
pub open spec fn is_no_collate(n: NodeV) -> bool {
    !(n.head is Collate && n.kids.len() > 0)
}

/// No `COLLATE` is left after they are stripped.
pub proof fn law_no_collate_is_left(s: NodeV)
    ensures
        everywhere(|n: NodeV| is_no_collate(n), StripCollate.rewritten(s)),
    decreases s,
{
    let p = |x: NodeV| is_no_collate(x);
    let m = StripCollate.rewritten(s);
    if s.head is Collate && s.kids.len() > 0 {
        law_no_collate_is_left(s.kids[0]);
    } else {
        assert forall|i: int| 0 <= i < m.kids.len() implies everywhere(p, #[trigger] m.kids[i]) by {
            assert(m.kids[i] == StripCollate.rewritten(s.kids[i]));
            law_no_collate_is_left(s.kids[i]);
        }
        assert(p(m));
    }
}

/// A statement without `COLLATE` is kept by the rule that strips them.
pub proof fn law_without_collate_nothing_is_stripped(s: NodeV)
    requires
        everywhere(|n: NodeV| is_no_collate(n), s),
    ensures
        StripCollate.rewritten(s) == s,
    decreases s,
{
    let p = |x: NodeV| is_no_collate(x);
    let m = StripCollate.rewritten(s);
    assert(p(s));
    assert forall|i: int| 0 <= i < s.kids.len() implies #[trigger] m.kids[i] == s.kids[i] by {
        assert(everywhere(p, s.kids[i]));
        assert(m.kids[i] == StripCollate.rewritten(s.kids[i]));
        law_without_collate_nothing_is_stripped(s.kids[i]);
    }
    assert(m.kids == s.kids);
}

proof fn lemma_aliasing_keeps_wildcards(tables: Seq<Seq<char>>, items: Seq<NodeV>)
    ensures
        ({
            let new = items.map_values(|item: NodeV| projection::aliased_item(tables, item));
            &&& projection::wildcard_names(new) == projection::wildcard_names(items)
            &&& projection::has_wildcard(new) == projection::has_wildcard(items)
        }),
    decreases items.len(),
{
    let f = |item: NodeV| projection::aliased_item(tables, item);
    let new = items.map_values(f);
    if items.len() > 0 {
        lemma_aliasing_keeps_wildcards(tables, items.drop_last());
        assert(new.drop_last() == items.drop_last().map_values(f));
        assert(new.last() == f(items.last()));
    }
    if projection::has_wildcard(items) {
        let i = choose|i: int| 0 <= i < items.len() && (#[trigger] items[i]).head is Wildcard;
        assert(new[i].head is Wildcard);
    }
    if projection::has_wildcard(new) {
        let i = choose|i: int| 0 <= i < new.len() && (#[trigger] new[i]).head is Wildcard;
        assert(items[i].head is Wildcard);
    }
}

proof fn lemma_aliased_once(items: Seq<NodeV>)
    ensures
        projection::aliased_items(projection::aliased_items(items)) == projection::aliased_items(
            items,
        ),
{
    let tables = projection::wildcard_names(items);
    let once = projection::aliased_items(items);
    if tables.len() > 0 || projection::has_wildcard(items) {
        lemma_aliasing_keeps_wildcards(tables, items);
        assert(projection::aliased_items(once) == once.map_values(
            |item: NodeV| projection::aliased_item(tables, item),
        ));
        assert(projection::aliased_items(once) =~= once);
    }
}

/// Columns get their aliases once only, and a select list keeps its length and its
/// expressions.
pub proof fn law_aliases_are_given_once(s: NodeV)
    ensures
        ({
            let rule = AliasDuplicatedProjectionRewrite;
            let r = rule.rewritten(s);
            &&& rule.rewritten(r) == r
            &&& projection::is_query_statement(s) && projection::selects(s.kids[0]) ==> {
                let old_items = s.kids[0].kids[0].kids;
                let new_items = r.kids[0].kids[0].kids;
                &&& new_items.len() == old_items.len()
                &&& forall|i: int|
                    0 <= i < old_items.len() ==> (#[trigger] new_items[i]).kids
                        == old_items[i].kids
            }
        }),
{
    let rule = AliasDuplicatedProjectionRewrite;
    let r = rule.rewritten(s);
    if projection::is_query_statement(s) && projection::selects(s.kids[0]) {
        let select = s.kids[0].kids[0];
        lemma_aliased_once(select.kids);
        let new = projection::with_kids(select, projection::aliased_items(select.kids));
        assert(r.kids[0].kids[0] == new);
        let again = rule.rewritten(r);
        assert(again.kids[0].kids == r.kids[0].kids);
        assert(again.kids == r.kids);
    }
}

/// True when two selects have the same aliases of tables and the same names of items.
spec fn same_names(a: Seq<NodeV>, b: Seq<NodeV>) -> bool {
    forall|name: Seq<char>|
        #![trigger projection::is_table_alias(a, name)]
        #![trigger projection::is_table_alias(b, name)]
        #![trigger projection::is_item_name(a, name)]
        #![trigger projection::is_item_name(b, name)]
        projection::is_table_alias(a, name) == projection::is_table_alias(b, name)
            && projection::is_item_name(a, name) == projection::is_item_name(b, name)
}

proof fn lemma_qualified_once(e: NodeV, relation: Seq<char>, a: Seq<NodeV>, b: Seq<NodeV>)
    requires
        same_names(a, b),
    ensures
        projection::qualified(projection::qualified(e, relation, a), relation, b)
            == projection::qualified(e, relation, a),
    decreases e,
{
    let once = projection::qualified(e, relation, a);
    match e.head {
        HeadV::BinaryOp(_) => {
            let twice = projection::qualified(once, relation, b);
            assert forall|i: int| 0 <= i < e.kids.len() implies twice.kids[i] == once.kids[i] by {
                lemma_qualified_once(e.kids[i], relation, a, b);
                assert(once.kids[i] == projection::qualified(e.kids[i], relation, a));
            }
            assert(twice.kids == once.kids);
        },
        HeadV::Identifier(ident) => {
            assert(projection::is_table_alias(a, ident.value) == projection::is_table_alias(
                b,
                ident.value,
            ));
        },
        _ => {},
    }
}

proof fn lemma_qualifying_keeps_names(relation: Seq<char>, select: Seq<NodeV>)
    ensures
        ({
            let parts = select.map_values(
                |part: NodeV| projection::qualified_part(part, relation, select),
            );
            &&& same_names(select, parts)
            &&& projection::wildcard_names(parts) == projection::wildcard_names(select)
        }),
{
    let f = |part: NodeV| projection::qualified_part(part, relation, select);
    let parts = select.map_values(f);
    lemma_parts_keep_wildcards(relation, select, select);
    assert forall|name: Seq<char>|
        projection::is_table_alias(select, name) == projection::is_table_alias(parts, name)
            && projection::is_item_name(select, name) == projection::is_item_name(parts, name) by {
        if projection::is_table_alias(select, name) {
            let i = choose|i: int|
                0 <= i < select.len() && projection::relation_has_alias(#[trigger] select[i], name);
            assert(parts[i] == select[i]);
        }
        if projection::is_table_alias(parts, name) {
            let i = choose|i: int|
                0 <= i < parts.len() && projection::relation_has_alias(#[trigger] parts[i], name);
            assert(parts[i] == select[i]);
        }
        if projection::is_item_name(select, name) {
            let i = choose|i: int|
                0 <= i < select.len() && projection::names_item(#[trigger] select[i], name);
            assert(parts[i] == select[i]);
        }
        if projection::is_item_name(parts, name) {
            let i = choose|i: int|
                0 <= i < parts.len() && projection::names_item(#[trigger] parts[i], name);
            assert(parts[i] == select[i]);
        }
    }
}

proof fn lemma_parts_keep_wildcards(relation: Seq<char>, select: Seq<NodeV>, items: Seq<NodeV>)
    ensures
        projection::wildcard_names(
            items.map_values(|part: NodeV| projection::qualified_part(part, relation, select)),
        ) == projection::wildcard_names(items),
    decreases items.len(),
{
    let f = |part: NodeV| projection::qualified_part(part, relation, select);
    let new = items.map_values(f);
    if items.len() > 0 {
        lemma_parts_keep_wildcards(relation, select, items.drop_last());
        assert(new.drop_last() == items.drop_last().map_values(f));
        assert(new.last() == f(items.last()));
    }
}

/// Columns are qualified once only.
pub proof fn law_columns_are_qualified_once(s: NodeV)
    ensures
        ({
            let rule = ResolveUnqualifiedIdentifier;
            rule.rewritten(rule.rewritten(s)) == rule.rewritten(s)
        }),
{
    if projection::is_query_statement(s) {
        let query = s.kids[0];
        let once = projection::resolved_query(query);
        let r = ResolveUnqualifiedIdentifier.rewritten(s);
        assert(r.kids[0] == once);
        if projection::selects(query) {
            let select = query.kids[0];
            let names = projection::wildcard_names(select.kids);
            if names.len() == 1 && exists|name: Seq<char>|
                projection::is_table_alias(select.kids, name) {
                let relation = names[0];
                let parts = select.kids.map_values(
                    |part: NodeV| projection::qualified_part(part, relation, select.kids),
                );
                let clauses = query.kids.map_values(
                    |clause: NodeV| projection::qualified_clause(clause, relation, select.kids),
                );
                lemma_qualifying_keeps_names(relation, select.kids);
                assert(once.kids[0] == projection::with_kids(select, parts));
                assert(once.kids[0].kids == parts);
                let alias = choose|name: Seq<char>| projection::is_table_alias(select.kids, name);
                assert(projection::is_table_alias(parts, alias));
                let again = parts.map_values(
                    |part: NodeV| projection::qualified_part(part, relation, parts),
                );
                assert forall|i: int| 0 <= i < parts.len() implies again[i] == parts[i] by {
                    assert(again[i] == projection::qualified_part(parts[i], relation, parts));
                    assert(parts[i] == projection::qualified_part(
                        select.kids[i],
                        relation,
                        select.kids,
                    ));
                    if parts[i].head is Selection {
                        lemma_list_once(select.kids[i], relation, select.kids, parts);
                    }
                }
                assert(again == parts);
                let twice = projection::resolved_query(once);
                assert forall|i: int| 0 <= i < once.kids.len() implies twice.kids[i]
                    == once.kids[i] by {
                    if i > 0 {
                        assert(once.kids[i] == projection::qualified_clause(
                            query.kids[i],
                            relation,
                            select.kids,
                        ));
                        if once.kids[i].head is OrderBy {
                            lemma_list_once(query.kids[i], relation, select.kids, parts);
                        }
                    }
                }
                assert(twice.kids == once.kids);
                assert(twice == once);
            }
        }
        assert(ResolveUnqualifiedIdentifier.rewritten(r).kids == r.kids);
    }
}

proof fn lemma_list_once(n: NodeV, relation: Seq<char>, a: Seq<NodeV>, b: Seq<NodeV>)
    requires
        same_names(a, b),
    ensures
        ({
            let once = projection::with_qualified(n, relation, a);
            projection::with_qualified(once, relation, b) == once
        }),
{
    let once = projection::with_qualified(n, relation, a);
    let twice = projection::with_qualified(once, relation, b);
    assert forall|i: int| 0 <= i < n.kids.len() implies twice.kids[i] == once.kids[i] by {
        lemma_qualified_once(n.kids[i], relation, a, b);
    }
    assert(twice.kids == once.kids);
}

/// True of a construct that is no select, or a select whose subqueries in the select list
/// give one row at most, by a limit.
pub open spec fn has_limited_items(n: NodeV) -> bool {
    n.head is Select ==> forall|i: int|
        0 <= i < n.kids.len() && projection::is_subquery_item(#[trigger] n.kids[i])
            ==> projection::is_limited(n.kids[i].kids[0].kids[0])
}

/// Every subquery in a select list has a limit after the rule, in the subqueries that are kept
/// too.
pub proof fn law_subqueries_are_limited(s: NodeV)
    ensures
        everywhere(
            |n: NodeV| has_limited_items(n),
            RemoveSubqueryFromProjection.rewritten(s),
        ),
{
    lemma_limited(s);
}

proof fn lemma_limited(n: NodeV)
    ensures
        everywhere(|x: NodeV| has_limited_items(x), projection::scalar_projections(n)),
    decreases n, 0int,
{
    let p = |x: NodeV| has_limited_items(x);
    let m = projection::scalar_projections(n);
    assert forall|i: int| 0 <= i < m.kids.len() implies everywhere(p, #[trigger] m.kids[i]) by {
        if n.head is Select {
            lemma_limited_item(n.kids[i]);
        } else {
            lemma_limited(n.kids[i]);
        }
    }
    assert(p(m)) by {
        if n.head is Select {
            assert forall|i: int|
                0 <= i < m.kids.len() && projection::is_subquery_item(
                    #[trigger] m.kids[i],
                ) implies projection::is_limited(m.kids[i].kids[0].kids[0]) by {
                lemma_limited_item(n.kids[i]);
                assert(m.kids[i] == projection::scalar_item(n.kids[i]));
            }
        }
    }
}

proof fn lemma_limited_item(item: NodeV)
    ensures
        everywhere(|x: NodeV| has_limited_items(x), projection::scalar_item(item)),
        projection::is_subquery_item(projection::scalar_item(item)) ==> projection::is_limited(
            projection::scalar_item(item).kids[0].kids[0],
        ),
    decreases item, 1int,
{
    let p = |x: NodeV| has_limited_items(x);
    let m = projection::scalar_item(item);
    if projection::is_subquery_item(item) {
        let subquery = item.kids[0];
        let query = subquery.kids[0];
        if projection::is_correlated(query) {
            let null = tree::leaf_view(HeadV::Null);
            assert(m.kids == seq![null]);
            assert(p(null));
            assert(everywhere(p, null));
            assert forall|i: int| 0 <= i < m.kids.len() implies everywhere(
                p,
                #[trigger] m.kids[i],
            ) by {}
            assert(p(m));
        } else {
            let base = projection::scalar_projections(query);
            lemma_limited(query);
            let kept = if projection::is_limited(query) {
                base
            } else {
                projection::with_limit(base)
            };
            assert(projection::is_limited(kept)) by {
                if projection::is_limited(query) {
                    if query.head != (HeadV::Query { fetch: true }) {
                        let i = choose|i: int|
                            0 <= i < query.kids.len() && (#[trigger] query.kids[i]).head is Limit;
                        if query.head is Select {
                            assert(base.kids[i] == projection::scalar_item(query.kids[i]));
                        } else {
                            lemma_head_kept(query, i);
                        }
                        assert(base.kids[i].head is Limit);
                    }
                } else {
                    assert(kept.kids[base.kids.len() as int].head is Limit);
                }
            }
            assert(everywhere(p, kept)) by {
                if !projection::is_limited(query) {
                    lemma_limit_clause_everywhere(p);
                    assert forall|i: int| 0 <= i < kept.kids.len() implies everywhere(
                        p,
                        #[trigger] kept.kids[i],
                    ) by {
                        if i < base.kids.len() {
                            assert(kept.kids[i] == base.kids[i]);
                        }
                    }
                    assert(p(kept)) by {
                        assert(p(base));
                        if kept.head is Select {
                            assert forall|i: int|
                                0 <= i < kept.kids.len() && projection::is_subquery_item(
                                    #[trigger] kept.kids[i],
                                ) implies projection::is_limited(
                                kept.kids[i].kids[0].kids[0],
                            ) by {
                                if i < base.kids.len() {
                                    assert(kept.kids[i] == base.kids[i]);
                                }
                            }
                        }
                    }
                }
            }
            let inner = projection::with_kids(subquery, seq![kept]);
            assert(m.kids == seq![inner]);
            assert(everywhere(p, inner)) by {
                assert forall|i: int| 0 <= i < inner.kids.len() implies everywhere(
                    p,
                    #[trigger] inner.kids[i],
                ) by {}
                assert(p(inner));
            }
            assert forall|i: int| 0 <= i < m.kids.len() implies everywhere(
                p,
                #[trigger] m.kids[i],
            ) by {}
            assert(p(m));
        }
    } else {
        lemma_limited(item);
        if projection::is_subquery_item(m) {
            assert(m.kids[0].head == item.kids[0].head) by {
                lemma_head_kept(item, 0);
            }
            assert(m.kids[0].kids.len() == item.kids[0].kids.len()) by {
                lemma_head_kept(item, 0);
            }
        }
    }
}

proof fn lemma_head_kept(n: NodeV, i: int)
    requires
        0 <= i < n.kids.len(),
        !(n.head is Select),
    ensures
        projection::scalar_projections(n).kids[i].head == n.kids[i].head,
        projection::scalar_projections(n).kids[i].kids.len() == n.kids[i].kids.len(),
{
    assert(projection::scalar_projections(n).kids[i] == projection::scalar_projections(n.kids[i]));
}

proof fn lemma_limit_clause_everywhere(p: spec_fn(NodeV) -> bool)
    requires
        p == (|x: NodeV| has_limited_items(x)),
    ensures
        everywhere(p, projection::limit_one()),
{
    let limit = projection::limit_one();
    let number = tree::leaf_view(HeadV::Number("1"@));
    assert(p(number));
    assert(everywhere(p, number));
    assert forall|i: int| 0 <= i < limit.kids.len() implies everywhere(
        p,
        #[trigger] limit.kids[i],
    ) by {}
    assert(p(limit));
}

/// True when two selects have the same aliases of tables.
spec fn same_aliases(a: Seq<NodeV>, b: Seq<NodeV>) -> bool {
    forall|name: Seq<char>| #[trigger]
        projection::is_table_alias(a, name) == projection::is_table_alias(b, name)
}

proof fn lemma_relation_kept(r: NodeV, name: Seq<char>)
    ensures
        projection::relation_has_alias(projection::scalar_item(r), name)
            == projection::relation_has_alias(r, name),
{
    if !projection::is_subquery_item(r) {
        let m = projection::scalar_projections(r);
        if !(r.head is Select) {
            assert forall|i: int| 0 <= i < r.kids.len() implies #[trigger] m.kids[i].head
                == r.kids[i].head by {
                assert(m.kids[i] == projection::scalar_projections(r.kids[i]));
            }
            assert forall|j: int|
                0 <= j < r.kids.len() && r.kids[j].head
                    is Join implies projection::first_has_alias(#[trigger] m.kids[j], name)
                == projection::first_has_alias(r.kids[j], name) by {
                let join = r.kids[j];
                assert(m.kids[j] == projection::scalar_projections(join));
                if join.kids.len() > 0 {
                    assert(m.kids[j].kids[0] == projection::scalar_projections(join.kids[0]));
                }
            }
            if projection::relation_has_alias(r, name) && !projection::first_has_alias(r, name) {
                let j = choose|j: int|
                    0 <= j < r.kids.len() && (#[trigger] r.kids[j]).head is Join
                        && projection::first_has_alias(r.kids[j], name);
                assert(m.kids[j].head is Join);
                assert(projection::first_has_alias(m.kids[j], name));
            }
            if projection::relation_has_alias(m, name) && !projection::first_has_alias(m, name) {
                let j = choose|j: int|
                    0 <= j < m.kids.len() && (#[trigger] m.kids[j]).head is Join
                        && projection::first_has_alias(m.kids[j], name);
                assert(r.kids[j].head is Join);
            }
        }
    }
}

proof fn lemma_aliases_kept(select: NodeV)
    requires
        select.head is Select,
    ensures
        same_aliases(select.kids, projection::scalar_projections(select).kids),
{
    let new = projection::scalar_projections(select).kids;
    assert forall|name: Seq<char>| #[trigger]
        projection::is_table_alias(select.kids, name) == projection::is_table_alias(new, name) by {
        assert forall|i: int| 0 <= i < new.len() implies projection::relation_has_alias(
            #[trigger] new[i],
            name,
        ) == projection::relation_has_alias(select.kids[i], name) by {
            lemma_relation_kept(select.kids[i], name);
            assert(new[i] == projection::scalar_item(select.kids[i]));
        }
        if projection::is_table_alias(select.kids, name) {
            let i = choose|i: int|
                0 <= i < select.kids.len() && projection::relation_has_alias(
                    #[trigger] select.kids[i],
                    name,
                );
            assert(projection::relation_has_alias(new[i], name));
        }
    }
}

proof fn lemma_no_more_outside(n: NodeV, a: Seq<NodeV>, b: Seq<NodeV>)
    requires
        same_aliases(a, b),
        !projection::refers_outside(n, a),
    ensures
        !projection::refers_outside(projection::scalar_projections(n), b),
    decreases n, 0int,
{
    let m = projection::scalar_projections(n);
    assert(!projection::is_outside_reference(m.head, b));
    assert forall|i: int| 0 <= i < m.kids.len() implies !projection::refers_outside(
        #[trigger] m.kids[i],
        b,
    ) by {
        assert(!projection::refers_outside(n.kids[i], a));
        if n.head is Select {
            lemma_no_more_outside_item(n.kids[i], a, b);
        } else {
            lemma_no_more_outside(n.kids[i], a, b);
        }
    }
}

proof fn lemma_no_more_outside_item(item: NodeV, a: Seq<NodeV>, b: Seq<NodeV>)
    requires
        same_aliases(a, b),
        !projection::refers_outside(item, a),
    ensures
        !projection::refers_outside(projection::scalar_item(item), b),
    decreases item, 1int,
{
    let m = projection::scalar_item(item);
    if projection::is_subquery_item(item) {
        let subquery = item.kids[0];
        let query = subquery.kids[0];
        assert(!projection::refers_outside(subquery, a));
        assert(!projection::refers_outside(query, a));
        let inner = m.kids[0];
        if projection::is_correlated(query) {
            assert(inner == tree::leaf_view(HeadV::Null));
            assert(!projection::refers_outside(inner, b));
        } else {
            lemma_no_more_outside(query, a, b);
            let base = projection::scalar_projections(query);
            let kept = inner.kids[0];
            assert(!projection::refers_outside(kept, b)) by {
                if !projection::is_limited(query) {
                    let limit = projection::limit_one();
                    let number = tree::leaf_view(HeadV::Number("1"@));
                    assert(!projection::refers_outside(number, b));
                    assert(limit.kids[0] == number);
                    assert(!projection::refers_outside(limit, b));
                    assert forall|i: int|
                        0 <= i < kept.kids.len() implies !projection::refers_outside(
                        #[trigger] kept.kids[i],
                        b,
                    ) by {
                        if i < base.kids.len() {
                            assert(kept.kids[i] == base.kids[i]);
                        } else {
                            assert(kept.kids[i] == limit);
                        }
                    }
                }
            }
            assert(!projection::refers_outside(inner, b));
        }
    } else {
        lemma_no_more_outside(item, a, b);
    }
}

/// The select lists are rewritten once only: what is kept of the subqueries is kept.
pub proof fn law_subqueries_are_removed_once(s: NodeV)
    ensures
        ({
            let rule = RemoveSubqueryFromProjection;
            rule.rewritten(rule.rewritten(s)) == rule.rewritten(s)
        }),
{
    lemma_removed_once(s);
}

proof fn lemma_removed_once(n: NodeV)
    ensures
        projection::scalar_projections(projection::scalar_projections(n))
            == projection::scalar_projections(n),
    decreases n, 0int,
{
    let m = projection::scalar_projections(n);
    let again = projection::scalar_projections(m);
    assert forall|i: int| 0 <= i < n.kids.len() implies again.kids[i] == m.kids[i] by {
        if n.head is Select {
            lemma_removed_once_item(n.kids[i]);
        } else {
            lemma_removed_once(n.kids[i]);
        }
    }
    assert(again.kids == m.kids);
}

proof fn lemma_removed_once_item(item: NodeV)
    ensures
        projection::scalar_item(projection::scalar_item(item)) == projection::scalar_item(item),
    decreases item, 1int,
{
    let m = projection::scalar_item(item);
    let again = projection::scalar_item(m);
    if projection::is_subquery_item(item) {
        let subquery = item.kids[0];
        let query = subquery.kids[0];
        if projection::is_correlated(query) {
            let null = tree::leaf_view(HeadV::Null);
            assert(m.kids == seq![null]);
            assert(projection::scalar_projections(null).kids == null.kids);
            assert(again.kids == m.kids);
        } else {
            let base = projection::scalar_projections(query);
            let kept = m.kids[0].kids[0];
            lemma_removed_once(query);
            lemma_limited_item(item);
            assert(projection::is_subquery_item(m));
            assert(projection::scalar_projections(kept) == kept) by {
                if !projection::is_limited(query) {
                    let limit = projection::limit_one();
                    let number = tree::leaf_view(HeadV::Number("1"@));
                    assert(projection::scalar_projections(number).kids == number.kids);
                    assert(projection::scalar_projections(limit).kids[0]
                        == projection::scalar_projections(number));
                    assert(projection::scalar_projections(limit).kids == limit.kids);
                    assert(projection::scalar_item(limit) == limit);
                    let twice = projection::scalar_projections(kept);
                    assert forall|i: int| 0 <= i < kept.kids.len() implies twice.kids[i]
                        == kept.kids[i] by {
                        if i < base.kids.len() {
                            assert(kept.kids[i] == base.kids[i]);
                            assert(projection::scalar_projections(base).kids[i] == base.kids[i]);
                        } else {
                            assert(kept.kids[i] == limit);
                        }
                    }
                    assert(twice.kids == kept.kids);
                }
            }
            assert(!projection::is_correlated(kept)) by {
                if projection::selects(kept) {
                    assert(query.kids.len() > 0);
                    assert(kept.kids[0] == base.kids[0]);
                    assert(base.kids[0] == projection::scalar_projections(query.kids[0]));
                    assert(projection::selects(query));
                    lemma_kept_is_inside(item);
                }
            }
            assert(again.kids[0].kids == m.kids[0].kids);
            assert(again.kids == m.kids);
        }
    } else {
        lemma_removed_once(item);
        if projection::is_subquery_item(m) {
            lemma_head_kept(item, 0);
        }
    }
}

proof fn lemma_kept_is_inside(item: NodeV)
    requires
        projection::is_subquery_item(item),
        projection::selects(item.kids[0].kids[0]),
        !projection::is_correlated(item.kids[0].kids[0]),
    ensures
        ({
            let kept = projection::scalar_item(item).kids[0].kids[0];
            !projection::refers_outside(kept, kept.kids[0].kids)
        }),
{
    let query = item.kids[0].kids[0];
    let m = projection::scalar_item(item);
    let kept = m.kids[0].kids[0];
    let a = query.kids[0].kids;
    let b = kept.kids[0].kids;
    assert(kept.kids[0] == projection::scalar_projections(query.kids[0]));
    lemma_aliases_kept(query.kids[0]);
    assert(!projection::refers_outside(item.kids[0], a));
    assert(!projection::refers_outside(item, a));
    lemma_no_more_outside_item(item, a, b);
    assert(!projection::refers_outside(m.kids[0], b));
}

/// The function that a special register stands for is no special register itself, in
/// lower case as it is written.
proof fn lemma_registers()
    ensures
        rules::renamed_register(text::lowered("session_user"@)) is None,
        rules::renamed_register(text::lowered("current_database"@)) is None,
        rules::renamed_register(text::lowered("current_schema"@)) is None,
{
    reveal_strlit("current_schema");
    reveal_strlit("current_user");
    reveal_strlit("session_user");
    reveal_strlit("current_catalog");
    reveal_strlit("current_database");
    assert("session_user"@[0] == 's');
    assert("current_user"@[0] == 'c');
    assert("current_catalog"@[0] == 'c');
    assert("current_catalog"@.len() == 15);
    assert("current_database"@.len() == 16);
    assert("current_user"@.len() == 12);
    assert("current_schema"@.len() == 14);
    assert(text::lowered("session_user"@)[0] == 's');
    assert(text::lowered("current_database"@).len() == 16);
    assert(text::lowered("current_schema"@).len() == 14);
}

proof fn lemma_registers_once(n: NodeV)
    ensures
        ({
            let rule = CurrentUserVariableToSessionUserFunctionCall;
            rules::bottom_up(rule, rules::bottom_up(rule, n)) == rules::bottom_up(rule, n)
        }),
    decreases n,
{
    let rule = CurrentUserVariableToSessionUserFunctionCall;
    let below = rules::inner(rule, n);
    let m = rules::bottom_up(rule, n);
    lemma_registers();
    assert(rule.step(m) == m);
    assert forall|i: int| 0 <= i < m.kids.len() implies rules::inner(rule, m).kids[i]
        == m.kids[i] by {
        lemma_registers_once(n.kids[i]);
        assert(m.kids[i] == rules::bottom_up(rule, n.kids[i]));
    }
    assert(rules::inner(rule, m).kids == m.kids);
    assert(rules::inner(rule, m) == m);
}

/// Special registers are rewritten once only.
pub proof fn law_registers_are_renamed_once(s: NodeV)
    ensures
        ({
            let rule = CurrentUserVariableToSessionUserFunctionCall;
            rule.rewritten(rule.rewritten(s)) == rule.rewritten(s)
        }),
{
    lemma_registers_once(s);
}

/// The cast of anything but a string literal or a placeholder is kept: a column that is
/// cast to `regclass` is not looked up.
pub proof fn law_casts_of_columns_are_kept(
    rule: RewriteRegCastToSubquery,
    n: NodeV,
    lowered: Seq<char>,
)
    requires
        n.kids.len() > 0,
        !(n.kids[0].head is SingleQuotedString),
        !(n.kids[0].head is Placeholder),
    ensures
        rule.resolved(n, lowered) == n,
{
}

/// True of a construct that is no cast of a name to a type with a lookup query.
pub open spec fn is_no_name_cast(rule: RewriteRegCastToSubquery, n: NodeV) -> bool {
    n.head matches HeadV::Cast { data_type, .. } ==> !(n.kids.len() > 0 && rules::is_name(n.kids[0])
        && rule.template(rules::strip_prefix(text::lowered(data_type.text), "pg_catalog."@)) is Some)
}

/// True of a rule whose lookup queries hold no cast of a name to a type with a lookup query.
pub open spec fn looks_up_plainly(rule: RewriteRegCastToSubquery) -> bool {
    forall|name: Seq<char>|
        (#[trigger] rule.template(name)) matches Some(template) ==> everywhere(
            |n: NodeV| is_no_name_cast(rule, n),
            template,
        )
}

proof fn lemma_instantiated(rule: RewriteRegCastToSubquery, template: NodeV, operand: NodeV)
    requires
        everywhere(|n: NodeV| is_no_name_cast(rule, n), template),
        everywhere(|n: NodeV| is_no_name_cast(rule, n), operand),
        rules::is_name(operand),
    ensures
        everywhere(
            |n: NodeV| is_no_name_cast(rule, n),
            rules::instantiated(template, operand),
        ),
    decreases template,
{
    let p = |n: NodeV| is_no_name_cast(rule, n);
    let m = rules::instantiated(template, operand);
    if !(template.head is Placeholder) {
        assert forall|i: int| 0 <= i < m.kids.len() implies everywhere(p, #[trigger] m.kids[i]) by {
            assert(everywhere(p, template.kids[i]));
            lemma_instantiated(rule, template.kids[i], operand);
            assert(m.kids[i] == rules::instantiated(template.kids[i], operand));
        }
        assert(p(template));
        if m.kids.len() > 0 {
            assert(m.kids[0] == rules::instantiated(template.kids[0], operand));
            assert(rules::is_name(m.kids[0]) == rules::is_name(template.kids[0]));
        }
        assert(p(m));
    }
}

/// No cast of a name to a type with a lookup query is left after they are rewritten.
pub proof fn law_no_name_casts(rule: RewriteRegCastToSubquery, s: NodeV)
    requires
        looks_up_plainly(rule),
    ensures
        everywhere(|n: NodeV| is_no_name_cast(rule, n), rule.rewritten(s)),
    decreases s,
{
    let p = |n: NodeV| is_no_name_cast(rule, n);
    let below = rules::inner(rule, s);
    let m = rules::bottom_up(rule, s);
    assert forall|i: int| 0 <= i < below.kids.len() implies everywhere(
        p,
        #[trigger] below.kids[i],
    ) by {
        law_no_name_casts(rule, s.kids[i]);
        assert(below.kids[i] == rules::bottom_up(rule, s.kids[i]));
    }
    if is_no_name_cast(rule, below) {
        assert(m == below);
        assert(p(m));
    } else {
        let operand = below.kids[0];
        assert(everywhere(p, operand));
        let lowered = text::lowered(below.head->Cast_data_type.text);
        let name = rules::strip_prefix(lowered, "pg_catalog."@);
        let template = rule.template(name)->0;
        assert(m == rules::looked_up(template, operand));
        lemma_instantiated(rule, template, operand);
        assert(p(m));
        assert forall|i: int| 0 <= i < m.kids.len() implies everywhere(p, #[trigger] m.kids[i]) by {
            assert(m.kids[i] == rules::instantiated(template, operand));
        }
    }
}

proof fn lemma_no_name_casts_stay(rule: RewriteRegCastToSubquery, n: NodeV)
    requires
        everywhere(|x: NodeV| is_no_name_cast(rule, x), n),
    ensures
        rules::bottom_up(rule, n) == n,
    decreases n,
{
    let p = |x: NodeV| is_no_name_cast(rule, x);
    assert(p(n));
    assert forall|i: int| 0 <= i < n.kids.len() implies rules::inner(rule, n).kids[i]
        == n.kids[i] by {
        assert(everywhere(p, n.kids[i]));
        lemma_no_name_casts_stay(rule, n.kids[i]);
    }
    assert(rules::inner(rule, n).kids == n.kids);
    assert(rules::inner(rule, n) == n);
}

/// Casts of names are rewritten once only.
pub proof fn law_name_casts_are_rewritten_once(rule: RewriteRegCastToSubquery, s: NodeV)
    requires
        looks_up_plainly(rule),
    ensures
        rule.rewritten(rule.rewritten(s)) == rule.rewritten(s),
{
    law_no_name_casts(rule, s);
    lemma_no_name_casts_stay(rule, rule.rewritten(s));
}

/// A string of digits that is cast to a type with a lookup query is an oid: it becomes a
/// number, whatever the lookup query is.
pub proof fn law_digits_are_oids(
    rule: RewriteRegCastToSubquery,
    n: NodeV,
    digits: Seq<char>,
    lowered: Seq<char>,
)
    requires
        n.head is Cast,
        n.kids.len() > 0,
        n.kids[0].head == HeadV::SingleQuotedString(digits),
        text::is_digits(digits),
        rule.template(rules::strip_prefix(lowered, "pg_catalog."@)) is Some,
    ensures
        rule.resolved(n, lowered) == tree::leaf_view(HeadV::Number(digits)),
{
}

} // verus!
