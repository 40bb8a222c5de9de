//! The rewrite rules that read the select list of a query.
use crate::sql::tree;
use crate::sql::tree::{Head, HeadV, Ident, IdentV, Node, NodeV, Quote, NEW_NODE};
use crate::sql::rules;
use crate::sql::rules::SqlStatementRewriteRule;
use crate::text;
use vstd::prelude::*;
use vstd::string::*;

verus! {

/// The SQL text of an identifier, quotes included.
pub uninterp spec fn ident_sql(value: Seq<char>, quote: Option<Quote>) -> Seq<char>;

/// `sqlparser::ast::Ident::to_string`: the identifier as it is written in SQL.
/// Without quotes that is its value. With quotes it is the value between them;
/// how the value is escaped there is left to the crate.
#[verifier::external_body]
fn ident_text(value: &str, quote: Option<Quote>) -> (r: String)
    ensures
        r@ == ident_sql(value@, quote),
        quote is None ==> r@ == value@,
        quote == Some(Quote::Bracket) ==> r@ == seq!['['] + value@ + seq![']'],
{
    let mut ident = sqlparser::ast::Ident::new(value);
    ident.quote_style = match quote {
        None => None,
        Some(Quote::Double) => Some('"'),
        Some(Quote::Single) => Some('\''),
        Some(Quote::Backtick) => Some('`'),
        Some(Quote::Bracket) => Some('['),
    };
    ident.to_string()
}

/// An identifier as it is written: its value, in the quotes that it has. What is written
/// for a quote inside the value is left to the crate.
pub open spec fn written_ident(ident: IdentV) -> Seq<char> {
    match ident.quote_style {
        None => ident.value,
        Some(Quote::Bracket) => seq!['['] + ident.value + seq![']'],
        Some(_) => ident_sql(ident.value, ident.quote_style),
    }
}

/// The values of identifiers.
pub open spec fn values(idents: Seq<IdentV>) -> Seq<Seq<char>> {
    idents.map_values(|i: IdentV| i.value)
}

/// The dotted name of a list of identifiers.
pub open spec fn dotted(idents: Seq<IdentV>) -> Seq<char> {
    text::join_with(values(idents), "."@)
}

fn dotted_name(idents: &Vec<Ident>, len: usize) -> (r: String)
    requires
        len <= idents@.len(),
    ensures
        r@ == dotted(tree::idents_view(idents@).take(len as int)),
{
    let mut parts: Vec<String> = Vec::new();
    let mut i: usize = 0;
    while i < len
        invariant
            i <= len <= idents@.len(),
            parts@.len() == i,
            forall|j: int| 0 <= j < i ==> (#[trigger] parts@[j])@ == idents@[j].value@,
        decreases len - i,
    {
        parts.push(idents[i].value.clone());
        i += 1;
    }
    assert(text::views(parts@) == values(tree::idents_view(idents@).take(len as int)));
    text::join(&parts, ".")
}

/// The relation that a select item `name.*` takes the columns of.
pub open spec fn wildcard_name(item: NodeV) -> Option<Seq<char>> {
    match item.head {
        HeadV::QualifiedWildcard { name: Some(idents) } => Some(dotted(idents)),
        _ => None,
    }
}

/// The relations that the select items `name.*` take the columns of, in order.
pub open spec fn wildcard_names(items: Seq<NodeV>) -> Seq<Seq<char>>
    decreases items.len(),
{
    if items.len() == 0 {
        Seq::empty()
    } else {
        let before = wildcard_names(items.drop_last());
        match wildcard_name(items.last()) {
            Some(name) => before.push(name),
            None => before,
        }
    }
}

/// True when one of the select items is `*`.
pub open spec fn has_wildcard(items: Seq<NodeV>) -> bool {
    exists|i: int| 0 <= i < items.len() && (#[trigger] items[i]).head is Wildcard
}

fn collect_wildcard_names(items: &Vec<Node>) -> (r: Vec<String>)
    ensures
        text::views(r@) == wildcard_names(tree::nodes_view(items@)),
{
    let ghost all = tree::nodes_view(items@);
    let mut names: Vec<String> = Vec::new();
    let mut i: usize = 0;
    assert(all.take(0) == Seq::<NodeV>::empty());
    assert(text::views(names@) == wildcard_names(all.take(0)));
    while i < items.len()
        invariant
            i <= items@.len(),
            all == tree::nodes_view(items@),
            text::views(names@) == wildcard_names(all.take(i as int)),
        decreases items@.len() - i,
    {
        let ghost before = names@;
        proof {
            tree::lemma_model(items@[i as int]);
            assert(all.take(i + 1).drop_last() == all.take(i as int));
            assert(all.take(i + 1).last() == items@[i as int]@);
        }
        match &items[i].head {
            Head::QualifiedWildcard { name } => {
                if let Some(idents) = name {
                    assert(tree::idents_view(idents@).take(idents@.len() as int)
                        == tree::idents_view(idents@));
                    let name = dotted_name(idents, idents.len());
                    let ghost added = name@;
                    names.push(name);
                    assert(text::views(names@) == text::views(before).push(added));
                }
            },
            _ => {},
        }
        i += 1;
    }
    assert(all.take(all.len() as int) == all);
    names
}

fn find_wildcard(items: &Vec<Node>) -> (r: bool)
    ensures
        r == has_wildcard(tree::nodes_view(items@)),
{
    let ghost all = tree::nodes_view(items@);
    let mut i: usize = 0;
    while i < items.len()
        invariant
            i <= items@.len(),
            all == tree::nodes_view(items@),
            forall|j: int| 0 <= j < i ==> !((#[trigger] all[j]).head is Wildcard),
        decreases items@.len() - i,
    {
        proof {
            tree::lemma_model(items@[i as int]);
        }
        if let Head::Wildcard = &items[i].head {
            assert(all[i as int].head is Wildcard);
            return true;
        }
        i += 1;
    }
    false
}

/// Gives the columns that a wildcard selects a second time an alias.
///
/// `SELECT n.oid, n.* FROM n` selects `oid` twice. Where a query selects
/// `name.*` or `*`, the rule gives each select item that is a bare column, or a
/// column of one of the relations `name`, the alias `__alias_` and the column's
/// name. Select items that have an alias, and those of other relations, keep
/// their form.
#[derive(Debug)]
pub struct AliasDuplicatedProjectionRewrite;

/// The column whose name goes into the alias of a select item, if it gets one.
pub open spec fn aliased_column(tables: Seq<Seq<char>>, expr: HeadV) -> Option<IdentV> {
    match expr {
        HeadV::Identifier(ident) => Some(ident),
        HeadV::CompoundIdentifier(idents) => if idents.len() > 1 && tables.contains(
            dotted(idents.drop_last()),
        ) {
            Some(idents.last())
        } else {
            None
        },
        _ => None,
    }
}

/// What the rule makes of a select item.
pub open spec fn aliased_item(tables: Seq<Seq<char>>, item: NodeV) -> NodeV {
    if item.head is UnnamedExpr && item.kids.len() == 1 {
        match aliased_column(tables, item.kids[0].head) {
            Some(column) => NodeV {
                head: HeadV::ExprWithAlias {
                    alias: rules::bare("__alias_"@ + written_ident(column)),
                },
                tag: NEW_NODE,
                kids: item.kids,
            },
            None => item,
        }
    } else {
        item
    }
}

/// What the rule makes of the children of a select.
pub open spec fn aliased_items(items: Seq<NodeV>) -> Seq<NodeV> {
    let tables = wildcard_names(items);
    if tables.len() == 0 && !has_wildcard(items) {
        items
    } else {
        items.map_values(|item: NodeV| aliased_item(tables, item))
    }
}

/// True of a query whose body is a select.
pub open spec fn selects(query: NodeV) -> bool {
    query.head is Query && query.kids.len() > 0 && query.kids[0].head is Select
}

/// True of a statement that is a query.
pub open spec fn is_query_statement(s: NodeV) -> bool {
    s.head is QueryStatement && s.kids.len() > 0 && s.kids[0].head is Query
}

/// A construct with another first child.
pub open spec fn with_first(n: NodeV, kid: NodeV) -> NodeV {
    NodeV { head: n.head, tag: n.tag, kids: n.kids.update(0, kid) }
}

/// A construct with other children.
pub open spec fn with_kids(n: NodeV, kids: Seq<NodeV>) -> NodeV {
    NodeV { head: n.head, tag: n.tag, kids }
}

fn replace_first(n: Node, kid: Node) -> (r: Node)
    requires
        n.kids@.len() > 0,
    ensures
        r@ == with_first(n@, kid@),
{
    let ghost n0 = n;
    let Node { head, tag, mut kids } = n;
    kids.set(0, kid);
    let r = Node { head, tag, kids };
    proof {
        tree::lemma_model(n0);
        tree::lemma_model(r);
        assert(r@.kids == with_first(n0@, kid@).kids);
    }
    r
}

/// Takes the first child out of a construct, for another to be put in its place.
fn take_first(n: Node) -> (r: (Node, Node))
    requires
        n.kids@.len() > 0,
    ensures
        r.0 == n.kids@[0],
        r.1.kids@.len() == n.kids@.len(),
        forall|kid: NodeV| #[trigger] with_first(r.1@, kid) == with_first(n@, kid),
{
    let ghost n0 = n;
    let Node { head, tag, mut kids } = n;
    let mut first = Node::leaf(Head::Other);
    kids.set_and_swap(0, &mut first);
    let rest = Node { head, tag, kids };
    proof {
        tree::lemma_model(n0);
        tree::lemma_model(rest);
        assert forall|kid: NodeV| #[trigger] with_first(rest@, kid) == with_first(n0@, kid) by {
            assert(with_first(rest@, kid).kids == with_first(n0@, kid).kids);
        }
    }
    (first, rest)
}

fn column_to_alias(tables: &Vec<String>, expr: &Head) -> (r: Option<Ident>)
    ensures
        match r {
            Some(ident) => aliased_column(text::views(tables@), expr@) == Some(ident@),
            None => aliased_column(text::views(tables@), expr@) is None,
        },
{
    match expr {
        Head::Identifier(ident) => Some(ident.copy()),
        Head::CompoundIdentifier(idents) => {
            if idents.len() > 1 {
                let table = dotted_name(idents, idents.len() - 1);
                proof {
                    assert(tree::idents_view(idents@).take(idents@.len() - 1) == tree::idents_view(
                        idents@,
                    ).drop_last());
                    assert(tree::idents_view(idents@).last() == idents@.last()@);
                }
                if text::contains_text(tables, table.as_str()) {
                    Some(idents[idents.len() - 1].copy())
                } else {
                    None
                }
            } else {
                None
            }
        },
        _ => None,
    }
}

fn alias_item(tables: &Vec<String>, item: Node) -> (r: Node)
    ensures
        r@ == aliased_item(text::views(tables@), item@),
{
    proof {
        tree::lemma_model(item);
    }
    let unnamed = match &item.head {
        Head::UnnamedExpr => true,
        _ => false,
    };
    if !unnamed || item.kids.len() != 1 {
        return item;
    }
    proof {
        tree::lemma_model(item.kids@[0]);
    }
    match column_to_alias(tables, &item.kids[0].head) {
        Some(column) => {
            let Node { head: _, tag: _, kids } = item;
            let name = ident_text(column.value.as_str(), column.quote_style);
            let mut alias = "__alias_".to_owned();
            alias.append(name.as_str());
            let r = Node {
                head: Head::ExprWithAlias { alias: Ident::new(alias.as_str()) },
                tag: NEW_NODE,
                kids,
            };
            proof {
                tree::lemma_model(r);
            }
            r
        },
        None => item,
    }
}

impl AliasDuplicatedProjectionRewrite {
    fn rewrite_select_with_alias(select: Node) -> (r: Node)
        ensures
            r@ == with_kids(select@, aliased_items(select@.kids)),
    {
        let ghost select0 = select;
        proof {
            tree::lemma_model(select);
        }
        let tables = collect_wildcard_names(&select.kids);
        if tables.len() == 0 && !find_wildcard(&select.kids) {
            return select;
        }
        let Node { head, tag, kids } = select;
        let mut items: Vec<Node> = Vec::new();
        for kid in it: kids
            invariant
                it.seq() == select0.kids@,
                items@.len() == it.index(),
                forall|j: int|
                    0 <= j < items@.len() ==> (#[trigger] items@[j])@ == aliased_item(
                        text::views(tables@),
                        select0.kids@[j]@,
                    ),
        {
            items.push(alias_item(&tables, kid));
        }
        let r = Node { head, tag, kids: items };
        proof {
            tree::lemma_model(r);
            assert(r@.kids == aliased_items(select0@.kids));
        }
        r
    }
}

fn is_select_query(query: &Node) -> (r: bool)
    ensures
        r == selects(query@),
        r ==> query.kids@.len() > 0,
{
    proof {
        tree::lemma_model(*query);
    }
    match &query.head {
        Head::Query { .. } => {
            if query.kids.len() == 0 {
                return false;
            }
            proof {
                tree::lemma_model(query.kids@[0]);
            }
            match &query.kids[0].head {
                Head::Select => true,
                _ => false,
            }
        },
        _ => false,
    }
}

fn query_statement(s: &Node) -> (r: bool)
    ensures
        r == is_query_statement(s@),
        r ==> s.kids@.len() > 0,
{
    proof {
        tree::lemma_model(*s);
    }
    match &s.head {
        Head::QueryStatement => {
            if s.kids.len() == 0 {
                return false;
            }
            proof {
                tree::lemma_model(s.kids@[0]);
            }
            match &s.kids[0].head {
                Head::Query { .. } => true,
                _ => false,
            }
        },
        _ => false,
    }
}

impl SqlStatementRewriteRule for AliasDuplicatedProjectionRewrite {
    open spec fn rewritten(&self, s: NodeV) -> NodeV {
        if is_query_statement(s) && selects(s.kids[0]) {
            let query = s.kids[0];
            let select = query.kids[0];
            with_first(s, with_first(query, with_kids(select, aliased_items(select.kids))))
        } else {
            s
        }
    }

    fn rewrite(&self, s: Node) -> (r: Node) {
        proof {
            tree::lemma_model(s);
        }
        if !query_statement(&s) || !is_select_query(&s.kids[0]) {
            return s;
        }
        proof {
            tree::lemma_model(s.kids@[0]);
        }
        let (query, s) = take_first(s);
        let (select, query) = take_first(query);
        let select = Self::rewrite_select_with_alias(select);
        let query = replace_first(query, select);
        replace_first(s, query)
    }
}

/// Qualifies the bare columns of `WHERE` and `ORDER BY` with the relation whose
/// columns the query selects.
///
/// The rule works on a query that selects exactly one `name.*` and whose tables
/// have an alias. A bare identifier that is neither an alias of a table nor the
/// name of a select item is qualified with `name`, where it stands alone or as
/// an operand of binary operators.
#[derive(Debug)]
pub struct ResolveUnqualifiedIdentifier;

/// The alias of a table.
pub open spec fn factor_alias(n: NodeV) -> Option<Seq<char>> {
    match n.head {
        HeadV::Table { alias: Some(alias), .. } => Some(alias.value),
        _ => None,
    }
}

/// True when the first child of `n` is a table with the alias `name`.
pub open spec fn first_has_alias(n: NodeV, name: Seq<char>) -> bool {
    n.kids.len() > 0 && factor_alias(n.kids[0]) == Some(name)
}

/// True when `name` is the alias of a table of the relation `t` or of a join of it.
pub open spec fn relation_has_alias(t: NodeV, name: Seq<char>) -> bool {
    &&& t.head is TableWithJoins
    &&& {
        ||| first_has_alias(t, name)
        ||| exists|j: int|
            0 <= j < t.kids.len() && (#[trigger] t.kids[j]).head is Join && first_has_alias(
                t.kids[j],
                name,
            )
    }
}

/// True when `name` is the alias of a table among the children of a select.
pub open spec fn is_table_alias(select: Seq<NodeV>, name: Seq<char>) -> bool {
    exists|i: int| 0 <= i < select.len() && relation_has_alias(#[trigger] select[i], name)
}

/// True when `name` is the name of the select item `item`.
pub open spec fn names_item(item: NodeV, name: Seq<char>) -> bool {
    match item.head {
        HeadV::ExprWithAlias { alias } => alias.value == name,
        HeadV::UnnamedExpr => item.kids.len() == 1 && (item.kids[0].head matches HeadV::Identifier(
            ident,
        ) && ident.value == name),
        _ => false,
    }
}

/// True when `name` is the name of a select item.
pub open spec fn is_item_name(select: Seq<NodeV>, name: Seq<char>) -> bool {
    exists|i: int| 0 <= i < select.len() && names_item(#[trigger] select[i], name)
}

/// What the rule makes of an expression of a query with the given select.
pub open spec fn qualified(expr: NodeV, relation: Seq<char>, select: Seq<NodeV>) -> NodeV
    decreases expr,
{
    match expr.head {
        HeadV::Identifier(ident) => if !is_table_alias(select, ident.value) && !is_item_name(
            select,
            ident.value,
        ) {
            tree::leaf_view(HeadV::CompoundIdentifier(seq![rules::bare(relation), ident]))
        } else {
            expr
        },
        HeadV::BinaryOp(_) => NodeV {
            head: expr.head,
            tag: expr.tag,
            kids: Seq::new(
                expr.kids.len(),
                |i: int|
                    if 0 <= i < expr.kids.len() {
                        qualified(expr.kids[i], relation, select)
                    } else {
                        arbitrary()
                    },
            ),
        },
        _ => expr,
    }
}

/// A construct whose children are expressions that the rule works on.
pub open spec fn with_qualified(n: NodeV, relation: Seq<char>, select: Seq<NodeV>) -> NodeV {
    with_kids(n, n.kids.map_values(|e: NodeV| qualified(e, relation, select)))
}

/// What the rule makes of a child of a select.
pub open spec fn qualified_part(part: NodeV, relation: Seq<char>, select: Seq<NodeV>) -> NodeV {
    if part.head is Selection {
        with_qualified(part, relation, select)
    } else {
        part
    }
}

/// What the rule makes of a child of a query.
pub open spec fn qualified_clause(clause: NodeV, relation: Seq<char>, select: Seq<NodeV>) -> NodeV {
    if clause.head is OrderBy {
        with_qualified(clause, relation, select)
    } else {
        clause
    }
}

/// What the rule makes of a query.
pub open spec fn resolved_query(query: NodeV) -> NodeV {
    if selects(query) {
        let select = query.kids[0];
        let names = wildcard_names(select.kids);
        if names.len() == 1 && exists|name: Seq<char>| is_table_alias(select.kids, name) {
            let parts = select.kids.map_values(
                |part: NodeV| qualified_part(part, names[0], select.kids),
            );
            let clauses = query.kids.map_values(
                |clause: NodeV| qualified_clause(clause, names[0], select.kids),
            );
            with_kids(query, clauses.update(0, with_kids(select, parts)))
        } else {
            query
        }
    } else {
        query
    }
}

fn table_alias(n: &Node) -> (r: Option<&Ident>)
    ensures
        match r {
            Some(alias) => factor_alias(n@) == Some(alias.value@),
            None => factor_alias(n@) is None,
        },
{
    proof {
        tree::lemma_model(*n);
    }
    match &n.head {
        Head::Table { alias, .. } => match alias {
            Some(alias) => Some(alias),
            None => None,
        },
        _ => None,
    }
}

/// The alias that the first child of `n` has as a table.
pub open spec fn first_alias(n: NodeV) -> Option<Seq<char>> {
    if n.kids.len() > 0 {
        factor_alias(n.kids[0])
    } else {
        None
    }
}

fn push_first_alias(n: &Node, aliases: &mut Vec<String>)
    ensures
        text::views(final(aliases)@) == match first_alias(n@) {
            Some(name) => text::views(old(aliases)@).push(name),
            None => text::views(old(aliases)@),
        },
{
    proof {
        tree::lemma_model(*n);
    }
    if n.kids.len() > 0 {
        if let Some(alias) = table_alias(&n.kids[0]) {
            let ghost before = aliases@;
            let name = alias.value.clone();
            let ghost added = name@;
            aliases.push(name);
            assert(text::views(aliases@) == text::views(before).push(added));
        }
    }
}

/// True when `name` is an alias of one of the first `k` joins of `t`.
spec fn alias_of_joins(t: NodeV, k: int, name: Seq<char>) -> bool {
    exists|j: int|
        0 <= j < k && (#[trigger] t.kids[j]).head is Join && first_has_alias(t.kids[j], name)
}

fn push_relation_aliases(t: &Node, aliases: &mut Vec<String>)
    ensures
        forall|name: Seq<char>| #[trigger]
            text::views(final(aliases)@).contains(name) <==> (text::views(old(aliases)@).contains(
                name,
            ) || relation_has_alias(t@, name)),
{
    proof {
        tree::lemma_model(*t);
    }
    match &t.head {
        Head::TableWithJoins => {},
        _ => {
            return ;
        },
    }
    let ghost before = text::views(aliases@);
    push_first_alias(t, aliases);
    proof {
        lemma_push_contains(before, text::views(aliases@), first_alias(t@));
    }
    let mut i: usize = 0;
    while i < t.kids.len()
        invariant
            i <= t.kids@.len(),
            t@.kids == tree::nodes_view(t.kids@),
            forall|name: Seq<char>| #[trigger]
                text::views(aliases@).contains(name) <==> (before.contains(name) || first_has_alias(
                    t@,
                    name,
                ) || alias_of_joins(t@, i as int, name)),
        decreases t.kids@.len() - i,
    {
        proof {
            tree::lemma_model(t.kids@[i as int]);
        }
        let ghost previous = text::views(aliases@);
        let ghost kid = t@.kids[i as int];
        if let Head::Join = &t.kids[i].head {
            push_first_alias(&t.kids[i], aliases);
            proof {
                lemma_push_contains(previous, text::views(aliases@), first_alias(kid));
            }
        }
        proof {
            assert forall|name: Seq<char>| #[trigger]
                text::views(aliases@).contains(name) <==> (before.contains(name) || first_has_alias(
                    t@,
                    name,
                ) || alias_of_joins(t@, i + 1, name)) by {
                assert(alias_of_joins(t@, i + 1, name) <==> (alias_of_joins(t@, i as int, name) || (
                kid.head is Join && first_has_alias(kid, name)))) by {
                    if kid.head is Join && first_has_alias(kid, name) {
                        assert(t@.kids[i as int].head is Join);
                    }
                }
                assert(previous.contains(name) <==> (before.contains(name) || first_has_alias(
                    t@,
                    name,
                ) || alias_of_joins(t@, i as int, name)));
            }
        }
        i += 1;
    }
}

proof fn lemma_push_contains(before: Seq<Seq<char>>, after: Seq<Seq<char>>, added: Option<Seq<char>>)
    requires
        after == match added {
            Some(name) => before.push(name),
            None => before,
        },
    ensures
        forall|name: Seq<char>| #[trigger]
            after.contains(name) <==> (before.contains(name) || added == Some(name)),
{
    assert forall|name: Seq<char>| #[trigger]
        after.contains(name) <==> (before.contains(name) || added == Some(name)) by {
        if before.contains(name) {
            let i = choose|i: int| 0 <= i < before.len() && before[i] == name;
            assert(after[i] == name);
        }
        if added == Some(name) {
            assert(after[before.len() as int] == name);
        }
    }
}

/// True when `name` is an alias of one of the first `k` children of a select.
spec fn alias_of_parts(select: Seq<NodeV>, k: int, name: Seq<char>) -> bool {
    exists|i: int| 0 <= i < k && relation_has_alias(#[trigger] select[i], name)
}

fn get_table_aliases(select: &Vec<Node>) -> (r: Vec<String>)
    ensures
        forall|name: Seq<char>| #[trigger]
            text::views(r@).contains(name) <==> is_table_alias(tree::nodes_view(select@), name),
{
    let ghost all = tree::nodes_view(select@);
    let mut aliases: Vec<String> = Vec::new();
    let mut i: usize = 0;
    while i < select.len()
        invariant
            i <= select@.len(),
            all == tree::nodes_view(select@),
            forall|name: Seq<char>| #[trigger]
                text::views(aliases@).contains(name) <==> alias_of_parts(all, i as int, name),
        decreases select@.len() - i,
    {
        let ghost previous = text::views(aliases@);
        push_relation_aliases(&select[i], &mut aliases);
        proof {
            assert forall|name: Seq<char>| #[trigger]
                text::views(aliases@).contains(name) <==> alias_of_parts(all, i + 1, name) by {
                assert(alias_of_parts(all, i + 1, name) <==> (alias_of_parts(all, i as int, name)
                    || relation_has_alias(all[i as int], name)));
                assert(previous.contains(name) <==> alias_of_parts(all, i as int, name));
            }
        }
        i += 1;
    }
    assert forall|name: Seq<char>| #[trigger]
        text::views(aliases@).contains(name) <==> is_table_alias(all, name) by {
        assert(alias_of_parts(all, all.len() as int, name) <==> is_table_alias(all, name));
    }
    aliases
}

/// The name of a select item.
pub open spec fn item_name(item: NodeV) -> Option<Seq<char>> {
    match item.head {
        HeadV::ExprWithAlias { alias } => Some(alias.value),
        HeadV::UnnamedExpr => if item.kids.len() == 1 {
            match item.kids[0].head {
                HeadV::Identifier(ident) => Some(ident.value),
                _ => None,
            }
        } else {
            None
        },
        _ => None,
    }
}

fn push_item_name(item: &Node, names: &mut Vec<String>)
    ensures
        text::views(final(names)@) == match item_name(item@) {
            Some(name) => text::views(old(names)@).push(name),
            None => text::views(old(names)@),
        },
{
    proof {
        tree::lemma_model(*item);
    }
    let ghost before = names@;
    match &item.head {
        Head::ExprWithAlias { alias } => {
            let name = alias.value.clone();
            let ghost added = name@;
            names.push(name);
            assert(text::views(names@) == text::views(before).push(added));
        },
        Head::UnnamedExpr => {
            if item.kids.len() == 1 {
                proof {
                    tree::lemma_model(item.kids@[0]);
                }
                if let Head::Identifier(ident) = &item.kids[0].head {
                    let name = ident.value.clone();
                    let ghost added = name@;
                    names.push(name);
                    assert(text::views(names@) == text::views(before).push(added));
                }
            }
        },
        _ => {},
    }
}

/// True when `name` is the name of one of the first `k` select items.
spec fn name_of_items(select: Seq<NodeV>, k: int, name: Seq<char>) -> bool {
    exists|i: int| 0 <= i < k && names_item(#[trigger] select[i], name)
}

fn get_projection_aliases(select: &Vec<Node>) -> (r: Vec<String>)
    ensures
        forall|name: Seq<char>| #[trigger]
            text::views(r@).contains(name) <==> is_item_name(tree::nodes_view(select@), name),
{
    let ghost all = tree::nodes_view(select@);
    let mut names: Vec<String> = Vec::new();
    let mut i: usize = 0;
    while i < select.len()
        invariant
            i <= select@.len(),
            all == tree::nodes_view(select@),
            forall|name: Seq<char>| #[trigger]
                text::views(names@).contains(name) <==> name_of_items(all, i as int, name),
        decreases select@.len() - i,
    {
        let ghost previous = text::views(names@);
        push_item_name(&select[i], &mut names);
        proof {
            lemma_push_contains(previous, text::views(names@), item_name(all[i as int]));
            assert forall|name: Seq<char>| #[trigger]
                text::views(names@).contains(name) <==> name_of_items(all, i + 1, name) by {
                assert(name_of_items(all, i + 1, name) <==> (name_of_items(all, i as int, name)
                    || names_item(all[i as int], name)));
                assert(names_item(all[i as int], name) <==> item_name(all[i as int]) == Some(name));
                assert(previous.contains(name) <==> name_of_items(all, i as int, name));
            }
        }
        i += 1;
    }
    assert forall|name: Seq<char>| #[trigger]
        text::views(names@).contains(name) <==> is_item_name(all, name) by {
        assert(name_of_items(all, all.len() as int, name) <==> is_item_name(all, name));
    }
    names
}

#[verifier::loop_isolation(false)]
fn qualify_expr(
    expr: Node,
    relation: &str,
    table_aliases: &Vec<String>,
    item_names: &Vec<String>,
    Ghost(select): Ghost<Seq<NodeV>>,
) -> (r: Node)
    requires
        forall|name: Seq<char>| #[trigger]
            text::views(table_aliases@).contains(name) <==> is_table_alias(select, name),
        forall|name: Seq<char>| #[trigger]
            text::views(item_names@).contains(name) <==> is_item_name(select, name),
    ensures
        r@ == qualified(expr@, relation@, select),
    decreases expr,
{
    proof {
        tree::lemma_model(expr);
    }
    let binary = match &expr.head {
        Head::Identifier(ident) => {
            if !text::contains_text(table_aliases, ident.value.as_str()) && !text::contains_text(
                item_names,
                ident.value.as_str(),
            ) {
                let mut idents: Vec<Ident> = Vec::new();
                idents.push(Ident::new(relation));
                idents.push(ident.copy());
                assert(tree::idents_view(idents@) == seq![rules::bare(relation@), ident@]);
                return Node::leaf(Head::CompoundIdentifier(idents));
            }
            false
        },
        Head::BinaryOp(_) => true,
        _ => false,
    };
    if !binary {
        return expr;
    }
    let ghost expr0 = expr;
    let Node { head, tag, kids } = expr;
    let mut out: Vec<Node> = Vec::new();
    for kid in it: kids
        invariant
            it.seq() == expr0.kids@,
            out@.len() == it.index(),
            forall|j: int|
                0 <= j < out@.len() ==> (#[trigger] out@[j])@ == qualified(
                    expr0.kids@[j]@,
                    relation@,
                    select,
                ),
    {
        assert(decreases_to!(expr => expr0.kids@[it.index()]));
        out.push(qualify_expr(kid, relation, table_aliases, item_names, Ghost(select)));
    }
    let r = Node { head, tag, kids: out };
    proof {
        tree::lemma_model(r);
        assert(r@.kids == qualified(expr0@, relation@, select).kids);
    }
    r
}

fn qualify_all(
    n: Node,
    relation: &str,
    table_aliases: &Vec<String>,
    item_names: &Vec<String>,
    Ghost(select): Ghost<Seq<NodeV>>,
) -> (r: Node)
    requires
        forall|name: Seq<char>| #[trigger]
            text::views(table_aliases@).contains(name) <==> is_table_alias(select, name),
        forall|name: Seq<char>| #[trigger]
            text::views(item_names@).contains(name) <==> is_item_name(select, name),
    ensures
        r@ == with_qualified(n@, relation@, select),
{
    let ghost n0 = n;
    let Node { head, tag, kids } = n;
    let mut out: Vec<Node> = Vec::new();
    for kid in it: kids
        invariant
            it.seq() == n0.kids@,
            out@.len() == it.index(),
            forall|j: int|
                0 <= j < out@.len() ==> (#[trigger] out@[j])@ == qualified(
                    n0.kids@[j]@,
                    relation@,
                    select,
                ),
            forall|name: Seq<char>| #[trigger]
                text::views(table_aliases@).contains(name) <==> is_table_alias(select, name),
            forall|name: Seq<char>| #[trigger]
                text::views(item_names@).contains(name) <==> is_item_name(select, name),
    {
        out.push(qualify_expr(kid, relation, table_aliases, item_names, Ghost(select)));
    }
    let r = Node { head, tag, kids: out };
    proof {
        tree::lemma_model(n0);
        tree::lemma_model(r);
        assert(r@.kids == with_qualified(n0@, relation@, select).kids);
    }
    r
}

impl ResolveUnqualifiedIdentifier {
    fn rewrite_unqualified_identifiers(query: Node) -> (r: Node)
        ensures
            r@ == resolved_query(query@),
    {
        if !is_select_query(&query) {
            return query;
        }
        let ghost query0 = query;
        proof {
            tree::lemma_model(query);
            tree::lemma_model(query.kids@[0]);
        }
        let ghost select0 = query.kids@[0];
        let ghost select = select0@.kids;
        let mut names = collect_wildcard_names(&query.kids[0].kids);
        let table_aliases = get_table_aliases(&query.kids[0].kids);
        proof {
            if table_aliases@.len() > 0 {
                let name = table_aliases@[0]@;
                assert(text::views(table_aliases@)[0] == name);
                assert(text::views(table_aliases@).contains(name));
            } else {
                assert forall|name: Seq<char>| !is_table_alias(select, name) by {
                    assert(!text::views(table_aliases@).contains(name));
                }
            }
        }
        if names.len() != 1 || table_aliases.len() == 0 {
            return query;
        }
        assert(text::views(names@)[0] == names@[0]@);
        let relation = names.swap_remove(0);
        let item_names = get_projection_aliases(&query.kids[0].kids);
        let Node { head, tag, kids } = query;
        let mut clauses: Vec<Node> = Vec::new();
        for kid in it: kids
            invariant
                it.seq() == query0.kids@,
                query0.kids@.len() > 0,
                select0 == query0.kids@[0],
                select0.head is Select,
                select == select0@.kids,
                clauses@.len() == it.index(),
                it.index() > 0 ==> clauses@[0]@ == with_kids(
                    select0@,
                    select.map_values(|part: NodeV| qualified_part(part, relation@, select)),
                ),
                forall|j: int|
                    1 <= j < clauses@.len() ==> (#[trigger] clauses@[j])@ == qualified_clause(
                        query0.kids@[j]@,
                        relation@,
                        select,
                    ),
                forall|name: Seq<char>| #[trigger]
                    text::views(table_aliases@).contains(name) <==> is_table_alias(select, name),
                forall|name: Seq<char>| #[trigger]
                    text::views(item_names@).contains(name) <==> is_item_name(select, name),
        {
            proof {
                tree::lemma_model(kid);
            }
            let order_by = match &kid.head {
                Head::OrderBy => true,
                _ => false,
            };
            if clauses.len() == 0 {
                clauses.push(
                    Self::rewrite_selection(
                        kid,
                        relation.as_str(),
                        &table_aliases,
                        &item_names,
                    ),
                );
            } else if order_by {
                clauses.push(
                    qualify_all(kid, relation.as_str(), &table_aliases, &item_names, Ghost(select)),
                );
            } else {
                clauses.push(kid);
            }
        }
        let r = Node { head, tag, kids: clauses };
        proof {
            tree::lemma_model(r);
            assert(r@.kids == resolved_query(query0@).kids);
        }
        r
    }

    fn rewrite_selection(
        select: Node,
        relation: &str,
        table_aliases: &Vec<String>,
        item_names: &Vec<String>,
    ) -> (r: Node)
        requires
            forall|name: Seq<char>| #[trigger]
                text::views(table_aliases@).contains(name) <==> is_table_alias(
                    select@.kids,
                    name,
                ),
            forall|name: Seq<char>| #[trigger]
                text::views(item_names@).contains(name) <==> is_item_name(select@.kids, name),
        ensures
            r@ == with_kids(
                select@,
                select@.kids.map_values(
                    |part: NodeV| qualified_part(part, relation@, select@.kids),
                ),
            ),
    {
        let ghost select0 = select;
        let ghost all = select@.kids;
        proof {
            tree::lemma_model(select);
        }
        let Node { head, tag, kids } = select;
        let mut parts: Vec<Node> = Vec::new();
        for kid in it: kids
            invariant
                it.seq() == select0.kids@,
                parts@.len() == it.index(),
                forall|j: int|
                    0 <= j < parts@.len() ==> (#[trigger] parts@[j])@ == qualified_part(
                        select0.kids@[j]@,
                        relation@,
                        all,
                    ),
                forall|name: Seq<char>| #[trigger]
                    text::views(table_aliases@).contains(name) <==> is_table_alias(all, name),
                forall|name: Seq<char>| #[trigger]
                    text::views(item_names@).contains(name) <==> is_item_name(all, name),
        {
            proof {
                tree::lemma_model(kid);
            }
            let selection = match &kid.head {
                Head::Selection => true,
                _ => false,
            };
            if selection {
                parts.push(qualify_all(kid, relation, table_aliases, item_names, Ghost(all)));
            } else {
                parts.push(kid);
            }
        }
        let r = Node { head, tag, kids: parts };
        proof {
            tree::lemma_model(r);
            assert(r@.kids == all.map_values(|part: NodeV| qualified_part(part, relation@, all)));
        }
        r
    }
}

impl SqlStatementRewriteRule for ResolveUnqualifiedIdentifier {
    open spec fn rewritten(&self, s: NodeV) -> NodeV {
        if is_query_statement(s) {
            with_first(s, resolved_query(s.kids[0]))
        } else {
            s
        }
    }

    fn rewrite(&self, s: Node) -> (r: Node) {
        if !query_statement(&s) {
            return s;
        }
        proof {
            tree::lemma_model(s);
        }
        let (query, s) = take_first(s);
        let query = Self::rewrite_unqualified_identifiers(query);
        replace_first(s, query)
    }
}

/// Replaces the subqueries of the select list that cannot be evaluated on their
/// own by `NULL`, and limits the others to one row.
///
/// A subquery cannot be evaluated on its own when it holds a placeholder, or a
/// qualified column whose first part is no alias of the subquery's own tables.
/// A subquery that is kept gets `LIMIT 1`, unless it has a limit already. The
/// select lists of the subqueries that are kept are rewritten too.
#[derive(Debug)]
pub struct RemoveSubqueryFromProjection;

/// True of a placeholder, and of a column of a relation outside the select.
pub open spec fn is_outside_reference(head: HeadV, select: Seq<NodeV>) -> bool {
    match head {
        HeadV::Placeholder(_) => true,
        HeadV::CompoundIdentifier(idents) => idents.len() > 0 && !is_table_alias(
            select,
            idents[0].value,
        ),
        _ => false,
    }
}

/// True when a construct, or one inside it, is an outside reference.
pub open spec fn refers_outside(n: NodeV, select: Seq<NodeV>) -> bool
    decreases n,
{
    is_outside_reference(n.head, select) || exists|i: int|
        0 <= i < n.kids.len() && refers_outside(#[trigger] n.kids[i], select)
}

/// True of a query that cannot be evaluated on its own.
pub open spec fn is_correlated(query: NodeV) -> bool {
    selects(query) && refers_outside(query, query.kids[0].kids)
}

/// True of a query with a limit.
pub open spec fn is_limited(query: NodeV) -> bool {
    ||| query.head == (HeadV::Query { fetch: true })
    ||| exists|i: int| 0 <= i < query.kids.len() && (#[trigger] query.kids[i]).head is Limit
}

/// `LIMIT 1`.
pub open spec fn limit_one() -> NodeV {
    NodeV {
        head: HeadV::Limit,
        tag: NEW_NODE,
        kids: seq![tree::leaf_view(HeadV::Number("1"@))],
    }
}

/// A query with `LIMIT 1`.
pub open spec fn with_limit(query: NodeV) -> NodeV {
    with_kids(query, query.kids.push(limit_one()))
}

/// True of a select item that is a subquery.
pub open spec fn is_subquery_item(item: NodeV) -> bool {
    &&& item.head is UnnamedExpr || item.head is ExprWithAlias
    &&& item.kids.len() == 1
    &&& item.kids[0].head is Subquery
    &&& item.kids[0].kids.len() == 1
}

/// What the rule makes of a child of a select.
pub open spec fn scalar_item(item: NodeV) -> NodeV
    decreases item, 1int,
{
    if is_subquery_item(item) {
        let subquery = item.kids[0];
        let query = subquery.kids[0];
        if is_correlated(query) {
            with_kids(item, seq![tree::leaf_view(HeadV::Null)])
        } else {
            let kept = scalar_projections(query);
            let kept = if is_limited(query) {
                kept
            } else {
                with_limit(kept)
            };
            with_kids(item, seq![with_kids(subquery, seq![kept])])
        }
    } else {
        scalar_projections(item)
    }
}

/// What the rule makes of a construct.
pub open spec fn scalar_projections(n: NodeV) -> NodeV
    decreases n, 0int,
{
    NodeV {
        head: n.head,
        tag: n.tag,
        kids: Seq::new(
            n.kids.len(),
            |i: int|
                if 0 <= i < n.kids.len() {
                    if n.head is Select {
                        scalar_item(n.kids[i])
                    } else {
                        scalar_projections(n.kids[i])
                    }
                } else {
                    arbitrary()
                },
        ),
    }
}

fn check_correlation(n: &Node, aliases: &Vec<String>, Ghost(select): Ghost<Seq<NodeV>>) -> (r: bool)
    requires
        forall|name: Seq<char>| #[trigger]
            text::views(aliases@).contains(name) <==> is_table_alias(select, name),
    ensures
        r == refers_outside(n@, select),
    decreases n,
{
    proof {
        tree::lemma_model(*n);
    }
    let outside = match &n.head {
        Head::Placeholder(_) => true,
        Head::CompoundIdentifier(idents) => {
            if idents.len() > 0 {
                assert(tree::idents_view(idents@)[0] == idents@[0]@);
                !text::contains_text(aliases, idents[0].value.as_str())
            } else {
                false
            }
        },
        _ => false,
    };
    assert(outside == is_outside_reference(n@.head, select));
    if outside {
        return true;
    }
    let mut i: usize = 0;
    while i < n.kids.len()
        invariant
            i <= n.kids@.len(),
            n@.kids == tree::nodes_view(n.kids@),
            forall|name: Seq<char>| #[trigger]
                text::views(aliases@).contains(name) <==> is_table_alias(select, name),
            forall|j: int| 0 <= j < i ==> !refers_outside(#[trigger] n@.kids[j], select),
        decreases n.kids@.len() - i,
    {
        assert(n@.kids[i as int] == n.kids@[i as int]@);
        if check_correlation(&n.kids[i], aliases, Ghost(select)) {
            assert(refers_outside(n@.kids[i as int], select));
            return true;
        }
        i += 1;
    }
    false
}

fn has_correlation(query: &Node) -> (r: bool)
    ensures
        r == is_correlated(query@),
{
    if !is_select_query(query) {
        return false;
    }
    proof {
        tree::lemma_model(*query);
        tree::lemma_model(query.kids@[0]);
    }
    let aliases = get_table_aliases(&query.kids[0].kids);
    check_correlation(query, &aliases, Ghost(query@.kids[0].kids))
}

fn has_limit(query: &Node) -> (r: bool)
    ensures
        r == is_limited(query@),
{
    proof {
        tree::lemma_model(*query);
    }
    if let Head::Query { fetch } = &query.head {
        if *fetch {
            return true;
        }
    }
    let mut i: usize = 0;
    while i < query.kids.len()
        invariant
            i <= query.kids@.len(),
            query@.kids == tree::nodes_view(query.kids@),
            forall|j: int| 0 <= j < i ==> !((#[trigger] query@.kids[j]).head is Limit),
        decreases query.kids@.len() - i,
    {
        proof {
            tree::lemma_model(query.kids@[i as int]);
        }
        if let Head::Limit = &query.kids[i].head {
            assert(query@.kids[i as int].head is Limit);
            return true;
        }
        i += 1;
    }
    false
}

fn add_limit(query: Node) -> (r: Node)
    ensures
        r@ == with_limit(query@),
{
    let ghost query0 = query;
    let mut limit_kids: Vec<Node> = Vec::new();
    limit_kids.push(Node::leaf(Head::Number("1".to_owned())));
    let limit = Node { head: Head::Limit, tag: NEW_NODE, kids: limit_kids };
    let Node { head, tag, mut kids } = query;
    kids.push(limit);
    let r = Node { head, tag, kids };
    proof {
        tree::lemma_model(query0);
        tree::lemma_model(limit);
        assert(limit@.kids == limit_one().kids);
        tree::lemma_model(r);
        assert(r@.kids == query0@.kids.push(limit_one()));
    }
    r
}

fn subquery_item(item: &Node) -> (r: bool)
    ensures
        r == is_subquery_item(item@),
        r ==> item.kids@.len() == 1 && item.kids@[0].kids@.len() == 1,
{
    proof {
        tree::lemma_model(*item);
    }
    match &item.head {
        Head::UnnamedExpr | Head::ExprWithAlias { .. } => {},
        _ => {
            return false;
        },
    }
    if item.kids.len() != 1 {
        return false;
    }
    proof {
        tree::lemma_model(item.kids@[0]);
    }
    match &item.kids[0].head {
        Head::Subquery => item.kids[0].kids.len() == 1,
        _ => false,
    }
}

/// A construct with one child in the place of its only one.
fn with_only_kid(n: Node, kid: Node) -> (r: Node)
    ensures
        r@ == with_kids(n@, seq![kid@]),
{
    let ghost n0 = n;
    let Node { head, tag, kids: _ } = n;
    let mut kids: Vec<Node> = Vec::new();
    kids.push(kid);
    let r = Node { head, tag, kids };
    proof {
        tree::lemma_model(n0);
        tree::lemma_model(r);
        assert(r@.kids == seq![kid@]);
    }
    r
}

fn rewrite_item(item: Node) -> (r: Node)
    ensures
        r@ == scalar_item(item@),
    decreases item, 1int,
{
    if !subquery_item(&item) {
        return rewrite_projections(item);
    }
    let ghost item0 = item;
    let ghost subquery0 = item.kids@[0];
    let ghost query0 = subquery0.kids@[0];
    proof {
        tree::lemma_model(item);
        tree::lemma_model(subquery0);
        assert(item0@.kids[0] == subquery0@);
        assert(subquery0@.kids[0] == query0@);
    }
    if has_correlation(&item.kids[0].kids[0]) {
        return with_only_kid(item, Node::leaf(Head::Null));
    }
    let (subquery, rest) = take_first(item);
    let (query, subquery_rest) = take_first(subquery);
    proof {
        assert(decreases_to!(item0 => item0.kids@[0]));
        assert(decreases_to!(subquery0 => subquery0.kids@[0]));
        let kid = arbitrary::<NodeV>();
        assert(with_first(rest@, kid) == with_first(item0@, kid));
        assert(with_first(subquery_rest@, kid) == with_first(subquery0@, kid));
    }
    let has_own_limit = has_limit(&query);
    let query = rewrite_projections(query);
    let query = if has_own_limit {
        query
    } else {
        add_limit(query)
    };
    let subquery = with_only_kid(subquery_rest, query);
    with_only_kid(rest, subquery)
}

#[verifier::loop_isolation(false)]
fn rewrite_projections(n: Node) -> (r: Node)
    ensures
        r@ == scalar_projections(n@),
    decreases n, 0int,
{
    let ghost n0 = n;
    let select = match &n.head {
        Head::Select => true,
        _ => false,
    };
    proof {
        tree::lemma_model(n);
    }
    let Node { head, tag, kids } = n;
    let mut out: Vec<Node> = Vec::new();
    for kid in it: kids
        invariant
            it.seq() == n0.kids@,
            out@.len() == it.index(),
            forall|j: int|
                0 <= j < out@.len() ==> (#[trigger] out@[j])@ == (if select {
                    scalar_item(n0.kids@[j]@)
                } else {
                    scalar_projections(n0.kids@[j]@)
                }),
    {
        assert(decreases_to!(n => n0.kids@[it.index()]));
        if select {
            out.push(rewrite_item(kid));
        } else {
            out.push(rewrite_projections(kid));
        }
    }
    let r = Node { head, tag, kids: out };
    proof {
        tree::lemma_model(r);
        assert(r@.kids == scalar_projections(n0@).kids);
    }
    r
}

impl SqlStatementRewriteRule for RemoveSubqueryFromProjection {
    open spec fn rewritten(&self, s: NodeV) -> NodeV {
        scalar_projections(s)
    }

    fn rewrite(&self, s: Node) -> (r: Node) {
        rewrite_projections(s)
    }
}

} // verus!
