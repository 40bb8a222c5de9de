//! What the rewriting rules are for: of each rule, a law that says what becomes of any
//! construct, by what becomes of the constructs inside it.
use crate::pg_catalog;
use crate::sql::projection;
use crate::sql::projection::{
    AliasDuplicatedProjectionRewrite, RemoveSubqueryFromProjection, ResolveUnqualifiedIdentifier,
};
use crate::sql::rules;
use crate::sql::rules::{
    CurrentUserVariableToSessionUserFunctionCall, FixArrayLiteral, FixVersionColumnName,
    PrependUnqualifiedPgTableName, RewriteArrayAnyAllOperation, RewritePgCatalogOperator,
    RewriteRegCastToSubquery, SqlStatementRewriteRule, StripCallableQualifier, StripCollate,
};
use crate::sql::tree::{ArrayElem, FunctionArguments, HeadV, IdentV, NodeV, OperatorV, PartV, Quote};
use crate::text;
use vstd::prelude::*;

verus! {

/// True when the constructs inside are rewritten and nothing else is changed.
pub open spec fn is_kept<R: SqlStatementRewriteRule>(rule: R, n: NodeV) -> bool {
    let r = rule.rewritten(n);
    &&& r.head == n.head
    &&& r.tag == n.tag
    &&& r.kids.len() == n.kids.len()
    &&& forall|i: int| 0 <= i < n.kids.len() ==> #[trigger] r.kids[i] == rule.rewritten(n.kids[i])
}

/// True of `ARRAY[...]` of the given string literals.
pub open spec fn is_string_array(n: NodeV, items: Seq<Seq<char>>) -> bool {
    &&& n.head == (HeadV::Array { named: true })
    &&& n.kids.len() == items.len()
    &&& forall|i: int|
        0 <= i < items.len() ==> (#[trigger] n.kids[i]).head == HeadV::SingleQuotedString(items[i])
            && n.kids[i].kids.len() == 0
}

/// True of `ARRAY[...]` of the given number literals.
pub open spec fn is_number_array(n: NodeV, items: Seq<Seq<char>>) -> bool {
    &&& n.head == (HeadV::Array { named: true })
    &&& n.kids.len() == items.len()
    &&& forall|i: int|
        0 <= i < items.len() ==> (#[trigger] n.kids[i]).head == HeadV::Number(items[i])
            && n.kids[i].kids.len() == 0
}

/// A string literal that is cast with `::` to an array of texts, of any of the text types,
/// becomes an array of string literals, and one that is cast to another array an array of
/// number literals: the items that are written in it. The cast is kept, and so is all else.
pub proof fn law_array_literals(n: NodeV)
    ensures
        ({
            let rule = FixArrayLiteral;
            let r = rule.rewritten(n);
            match n.head {
                HeadV::Cast { double_colon: true, data_type } => if data_type.array is Some
                    && n.kids.len() > 0 && n.kids[0].head is SingleQuotedString {
                    let items = text::nonempty_array_items(n.kids[0].head->SingleQuotedString_0);
                    &&& r.head == n.head
                    &&& r.tag == n.tag
                    &&& r.kids.len() == n.kids.len()
                    &&& forall|i: int|
                        1 <= i < n.kids.len() ==> #[trigger] r.kids[i] == rule.rewritten(n.kids[i])
                    &&& match data_type.array->0 {
                        ArrayElem::Text => is_string_array(r.kids[0], items),
                        ArrayElem::Varchar => is_string_array(r.kids[0], items),
                        ArrayElem::Char => is_string_array(r.kids[0], items),
                        ArrayElem::StringType => is_string_array(r.kids[0], items),
                        ArrayElem::Other => is_number_array(r.kids[0], items),
                        ArrayElem::Untyped => is_number_array(r.kids[0], items),
                    }
                } else {
                    is_kept(rule, n)
                },
                _ => is_kept(rule, n),
            }
        }),
{
    let rule = FixArrayLiteral;
    let below = rules::inner(rule, n);
    if n.kids.len() > 0 {
        assert(below.kids[0] == rules::bottom_up(rule, n.kids[0]));
        assert(below.kids[0].head == n.kids[0].head);
    }
}

/// True of a call of `array_contains` with two arguments.
pub open spec fn is_contains_call(n: NodeV) -> bool {
    n.head matches HeadV::Function { name, args } && name.len() == 1 && name[0]
        == PartV::Identifier(
        IdentV { value: "array_contains"@, quote_style: None },
    ) && args == FunctionArguments::List(2) && n.kids.len() == 2
}

/// True when the call asks whether the array of a comparison holds its left operand: the
/// array comes first. An array in braces is written out.
pub open spec fn asks_for(call: NodeV, left: NodeV, right: NodeV) -> bool {
    let rule = RewriteArrayAnyAllOperation;
    &&& is_contains_call(call)
    &&& call.kids[1] == rule.rewritten(left)
    &&& match right.head {
        HeadV::SingleQuotedString(s) => if text::is_braced(text::trimmed(s)) {
            is_string_array(call.kids[0], text::nonempty_array_items(text::trimmed(s)))
        } else {
            call.kids[0] == rule.rewritten(right)
        },
        _ => call.kids[0] == rule.rewritten(right),
    }
}

/// `x = ANY(a)` asks whether `a` holds `x`, and `x <> ALL(a)` whether it does not. All other
/// constructs are kept, other comparisons with `ANY` and `ALL` too.
pub proof fn law_array_comparisons(n: NodeV)
    ensures
        ({
            let rule = RewriteArrayAnyAllOperation;
            let r = rule.rewritten(n);
            if n.kids.len() == 2 && n.head == HeadV::AnyOp(OperatorV::Eq) {
                asks_for(r, n.kids[0], n.kids[1])
            } else if n.kids.len() == 2 && n.head == HeadV::AllOp(OperatorV::NotEq) {
                r.head is Not && r.kids.len() == 1 && asks_for(r.kids[0], n.kids[0], n.kids[1])
            } else {
                is_kept(rule, n)
            }
        }),
{
    let rule = RewriteArrayAnyAllOperation;
    let below = rules::inner(rule, n);
    if n.kids.len() == 2 {
        assert(below.kids[0] == rules::bottom_up(rule, n.kids[0]));
        assert(below.kids[1] == rules::bottom_up(rule, n.kids[1]));
    }
}

/// A function, also one in the place of a table, is called by the last part of its name.
/// All else is kept.
pub proof fn law_callable_names(n: NodeV)
    ensures
        ({
            let rule = StripCallableQualifier;
            let r = rule.rewritten(n);
            let stripped = |name: Seq<PartV>, new: Seq<PartV>|
                if name.len() == 0 {
                    new.len() == 0
                } else {
                    new.len() == 1 && new[0] == name[name.len() - 1]
                };
            &&& r.tag == n.tag
            &&& r.kids.len() == n.kids.len()
            &&& forall|i: int|
                0 <= i < n.kids.len() ==> #[trigger] r.kids[i] == rule.rewritten(n.kids[i])
            &&& match n.head {
                HeadV::Function { name, args } => r.head matches HeadV::Function {
                    name: new,
                    args: a,
                } && a == args && stripped(name, new),
                HeadV::Table { name, has_args: true, alias } => r.head matches HeadV::Table {
                    name: new,
                    has_args: h,
                    alias: a,
                } && h && a == alias && stripped(name, new),
                _ => r.head == n.head,
            }
        }),
{
}

/// The operators `~`, `~*`, `!~` and `!~*` of `pg_catalog`, written with `OPERATOR`, become
/// the operators themselves. All else is kept.
pub proof fn law_catalog_operators(n: NodeV)
    ensures
        ({
            let rule = RewritePgCatalogOperator;
            let r = rule.rewritten(n);
            &&& r.tag == n.tag
            &&& r.kids.len() == n.kids.len()
            &&& forall|i: int|
                0 <= i < n.kids.len() ==> #[trigger] r.kids[i] == rule.rewritten(n.kids[i])
            &&& match n.head {
                HeadV::BinaryOp(OperatorV::PGCustomBinaryOperator(ops)) => if ops.len() > 0
                    && ops[0] == "pg_catalog"@ {
                    let name = ops[ops.len() - 1];
                    &&& name == "~"@ ==> r.head == HeadV::BinaryOp(OperatorV::PGRegexMatch)
                    &&& name == "~*"@ ==> r.head == HeadV::BinaryOp(OperatorV::PGRegexIMatch)
                    &&& name == "!~"@ ==> r.head == HeadV::BinaryOp(OperatorV::PGRegexNotMatch)
                    &&& name == "!~*"@ ==> r.head == HeadV::BinaryOp(OperatorV::PGRegexNotIMatch)
                    &&& name != "~"@ && name != "~*"@ && name != "!~"@ && name != "!~*"@ ==> r.head
                        == n.head
                } else {
                    r.head == n.head
                },
                _ => r.head == n.head,
            }
        }),
{
    reveal_strlit("~");
    reveal_strlit("~*");
    reveal_strlit("!~");
    reveal_strlit("!~*");
    assert("~"@.len() == 1 && "~*"@.len() == 2 && "!~"@.len() == 2 && "!~*"@.len() == 3);
    assert("~*"@[0] == '~' && "!~"@[0] == '!');
}

/// A table that is named by one part, the name of a relation of `pg_catalog`, is qualified
/// with `pg_catalog`. All else is kept: other tables, qualified names and table functions.
pub proof fn law_catalog_tables_are_qualified(n: NodeV)
    ensures
        ({
            let rule = PrependUnqualifiedPgTableName;
            let r = rule.rewritten(n);
            match n.head {
                HeadV::Table { name, has_args: false, alias } => if name.len() == 1 && (
                name[0] matches PartV::Identifier(x) && pg_catalog::is_catalog_table(x.value)) {
                    &&& r.head matches HeadV::Table { name: new, has_args: h, alias: a } && !h && a
                        == alias && new.len() == 2 && new[1] == name[0] && new[0]
                        == PartV::Identifier(IdentV { value: "pg_catalog"@, quote_style: None })
                    &&& r.tag == n.tag
                    &&& r.kids.len() == n.kids.len()
                    &&& forall|i: int|
                        0 <= i < n.kids.len() ==> #[trigger] r.kids[i] == rule.rewritten(n.kids[i])
                } else {
                    is_kept(rule, n)
                },
                _ => is_kept(rule, n),
            }
        }),
{
}

/// The name that a function is called by, in lower case.
pub open spec fn called_name(name: Seq<PartV>) -> Option<Seq<char>> {
    if name.len() > 0 {
        match name[name.len() - 1] {
            PartV::Identifier(x) => Some(text::lowered(x.value)),
            _ => None,
        }
    } else {
        None
    }
}

/// `current_schema` without quotes becomes a call of that function. A call of `current_user`
/// becomes one of `session_user`, in the same form, and one of `current_catalog` a call of
/// `current_database`, with brackets. All else is kept.
pub proof fn law_special_registers(n: NodeV)
    ensures
        ({
            let rule = CurrentUserVariableToSessionUserFunctionCall;
            let r = rule.rewritten(n);
            let calls = |head: HeadV, name: Seq<char>, args: FunctionArguments|
                head matches HeadV::Function { name: new, args: a } && a == args && new.len() == 1
                    && new[0] == PartV::Identifier(IdentV { value: name, quote_style: None });
            match n.head {
                HeadV::Identifier(x) => if x.quote_style is None && text::lowered(x.value)
                    == "current_schema"@ {
                    calls(r.head, "current_schema"@, FunctionArguments::List(0)) && r.kids.len()
                        == 0
                } else {
                    is_kept(rule, n)
                },
                HeadV::Function { name, args } => if called_name(name) == Some("current_user"@)
                    || called_name(name) == Some("current_catalog"@) {
                    &&& called_name(name) == Some("current_user"@) ==> calls(
                        r.head,
                        "session_user"@,
                        args,
                    )
                    &&& called_name(name) == Some("current_catalog"@) ==> calls(
                        r.head,
                        "current_database"@,
                        if args is Absent {
                            FunctionArguments::List(0)
                        } else {
                            args
                        },
                    )
                    &&& r.tag == n.tag
                    &&& r.kids.len() == n.kids.len()
                    &&& forall|i: int|
                        0 <= i < n.kids.len() ==> #[trigger] r.kids[i] == rule.rewritten(n.kids[i])
                } else {
                    is_kept(rule, n)
                },
                _ => is_kept(rule, n),
            }
        }),
{
    reveal_strlit("session_user");
    reveal_strlit("current_database");
    reveal_strlit("current_catalog");
    reveal_strlit("current_user");
    reveal_strlit("user");
    assert("current_database"@.len() == 16);
    assert("current_catalog"@.len() == 15);
    assert("session_user"@.len() == 12);
    assert("current_user"@.len() == 12);
    assert("user"@.len() == 4);
}

/// True of the select item `version()`, without a name.
pub open spec fn is_version_call(item: NodeV) -> bool {
    &&& item.head is UnnamedExpr
    &&& item.kids.len() == 1
    &&& item.kids[0].head matches HeadV::Function { name, args } && name.len() == 1 && args
        == FunctionArguments::List(0) && (name[0] matches PartV::Identifier(x) && x.value
        == "version"@)
}

/// The select item `version()` gets the name `version`, and keeps its call. All else is
/// kept, other items of the select list too.
pub proof fn law_version_column(n: NodeV)
    ensures
        ({
            let rule = FixVersionColumnName;
            let r = rule.rewritten(n);
            if n.head is Select {
                &&& r.head == n.head
                &&& r.tag == n.tag
                &&& r.kids.len() == n.kids.len()
                &&& forall|i: int|
                    #![trigger r.kids[i]]
                    0 <= i < n.kids.len() ==> {
                        let item = rule.rewritten(n.kids[i]);
                        if is_version_call(item) {
                            &&& r.kids[i].head == (HeadV::ExprWithAlias {
                                alias: IdentV { value: "version"@, quote_style: None },
                            })
                            &&& r.kids[i].kids == item.kids
                        } else {
                            r.kids[i] == item
                        }
                    }
            } else {
                is_kept(rule, n)
            }
        }),
{
    let rule = FixVersionColumnName;
    let below = rules::inner(rule, n);
    let r = rule.rewritten(n);
    if n.head is Select {
        assert forall|i: int| 0 <= i < n.kids.len() implies (#[trigger] r.kids[i])
            == rules::version_item(rule.rewritten(n.kids[i])) by {
            assert(below.kids[i] == rules::bottom_up(rule, n.kids[i]));
        }
    }
}

/// In the place of a `COLLATE` clause stands what becomes of its operand. All else is kept.
pub proof fn law_collations(n: NodeV)
    ensures
        ({
            let rule = StripCollate;
            if n.head is Collate && n.kids.len() > 0 {
                rule.rewritten(n) == rule.rewritten(n.kids[0])
            } else {
                is_kept(rule, n)
            }
        }),
{
}

/// True of a template with the operand in the place of each placeholder, and nothing else
/// changed.
pub open spec fn is_filled(template: NodeV, operand: NodeV, filled: NodeV) -> bool
    decreases template,
{
    if template.head is Placeholder {
        filled == operand
    } else {
        &&& filled.head == template.head
        &&& filled.tag == template.tag
        &&& filled.kids.len() == template.kids.len()
        &&& forall|i: int|
            0 <= i < template.kids.len() ==> is_filled(
                #[trigger] template.kids[i],
                operand,
                filled.kids[i],
            )
    }
}

proof fn lemma_filled(template: NodeV, operand: NodeV)
    ensures
        is_filled(template, operand, rules::instantiated(template, operand)),
    decreases template,
{
    if !(template.head is Placeholder) {
        let filled = rules::instantiated(template, operand);
        assert forall|i: int| 0 <= i < template.kids.len() implies is_filled(
            #[trigger] template.kids[i],
            operand,
            filled.kids[i],
        ) by {
            lemma_filled(template.kids[i], operand);
        }
    }
}

/// The name of a type without the schema `pg_catalog`, of which `text` is its text in lower
/// case.
pub open spec fn is_plain_name_of(text: Seq<char>, name: Seq<char>) -> bool {
    ||| text == "pg_catalog."@ + name
    ||| text == name && !("pg_catalog."@.is_prefix_of(text))
}

/// The cast of a string literal or a placeholder to a type with a lookup query, with the
/// schema `pg_catalog` or without, becomes a number where it is a string of digits, and else
/// a subquery: the lookup query with the operand in the place of its placeholders. All other
/// casts are kept, and so is all else.
pub proof fn law_casts_of_names(rule: RewriteRegCastToSubquery, n: NodeV, name: Seq<char>)
    ensures
        ({
            let r = rule.rewritten(n);
            match n.head {
                HeadV::Cast { data_type, .. } => is_plain_name_of(
                    text::lowered(data_type.text),
                    name,
                ) ==> if n.kids.len() > 0 && (n.kids[0].head is SingleQuotedString
                    || n.kids[0].head is Placeholder) && rule.template(name) is Some {
                    match n.kids[0].head {
                        HeadV::SingleQuotedString(s) if text::is_digits(s) => r.head
                            == HeadV::Number(s) && r.kids.len() == 0,
                        _ => r.head is Subquery && r.kids.len() == 1 && is_filled(
                            rule.template(name)->0,
                            rule.rewritten(n.kids[0]),
                            r.kids[0],
                        ),
                    }
                } else {
                    is_kept(rule, n)
                },
                _ => is_kept(rule, n),
            }
        }),
{
    let below = rules::inner(rule, n);
    if n.kids.len() > 0 {
        assert(below.kids[0] == rules::bottom_up(rule, n.kids[0]));
        if n.kids[0].head is SingleQuotedString || n.kids[0].head is Placeholder {
            assert(below.kids[0].head == n.kids[0].head);
        }
        let kid = rules::inner(rule, n.kids[0]);
    }
    if let HeadV::Cast { data_type, .. } = n.head {
        let lowered = text::lowered(data_type.text);
        let prefix = "pg_catalog."@;
        if lowered == prefix + name {
            assert(prefix.is_prefix_of(lowered));
            assert(lowered.skip(prefix.len() as int) == name);
        }
        if n.kids.len() > 0 {
            if let Some(template) = rule.template(name) {
                lemma_filled(template, below.kids[0]);
            }
        }
    }
}

/// True of a select list with `*`, or with `name.*` of a relation.
pub open spec fn takes_all_columns(items: Seq<NodeV>) -> bool {
    exists|i: int| #![trigger items[i]] 0 <= i < items.len() && takes_columns(items[i])
}

/// True of the select items `*` and `name.*`.
pub open spec fn takes_columns(item: NodeV) -> bool {
    match item.head {
        HeadV::Wildcard => true,
        HeadV::QualifiedWildcard { name: Some(_) } => true,
        _ => false,
    }
}

/// True when a select list has `name.*` of the relation that the identifiers name.
pub open spec fn takes_columns_of(items: Seq<NodeV>, relation: Seq<IdentV>) -> bool {
    exists|i: int|
        #![trigger items[i]]
        0 <= i < items.len() && (items[i].head matches HeadV::QualifiedWildcard {
            name: Some(idents),
        } && projection::dotted(idents) == projection::dotted(relation))
}

/// The column that a select item without a name is, and that `*` or `name.*` may give too.
pub open spec fn repeated_column(items: Seq<NodeV>, item: NodeV) -> Option<IdentV> {
    if item.head is UnnamedExpr && item.kids.len() == 1 && takes_all_columns(items) {
        match item.kids[0].head {
            HeadV::Identifier(x) => Some(x),
            HeadV::CompoundIdentifier(idents) => if idents.len() > 1 && takes_columns_of(
                items,
                idents.take(idents.len() - 1),
            ) {
                Some(idents[idents.len() - 1])
            } else {
                None
            },
            _ => None,
        }
    } else {
        None
    }
}

proof fn lemma_wildcard_names(items: Seq<NodeV>, relation: Seq<IdentV>)
    ensures
        projection::wildcard_names(items).contains(projection::dotted(relation))
            <==> takes_columns_of(items, relation),
        projection::wildcard_names(items).len() > 0 || projection::has_wildcard(items)
            <==> takes_all_columns(items),
    decreases items.len(),
{
    if items.len() > 0 {
        let init = items.drop_last();
        let last = items.last();
        lemma_wildcard_names(init, relation);
        let before = projection::wildcard_names(init);
        let name = projection::dotted(relation);
        assert(forall|i: int| 0 <= i < init.len() ==> init[i] == items[i]);
        assert(items[items.len() - 1] == last);
        assert(takes_columns_of(items, relation) <==> takes_columns_of(init, relation)
            || projection::wildcard_name(last) == Some(name)) by {
            if takes_columns_of(init, relation) {
                let i = choose|i: int|
                    #![trigger init[i]]
                    0 <= i < init.len() && (init[i].head matches HeadV::QualifiedWildcard {
                        name: Some(idents),
                    } && projection::dotted(idents) == projection::dotted(relation));
                assert(items[i] == init[i]);
            }
            if takes_columns_of(items, relation) {
                let i = choose|i: int|
                    #![trigger items[i]]
                    0 <= i < items.len() && (items[i].head matches HeadV::QualifiedWildcard {
                        name: Some(idents),
                    } && projection::dotted(idents) == projection::dotted(relation));
                if i < init.len() {
                    assert(init[i] == items[i]);
                }
            }
        }
        assert(takes_all_columns(items) <==> takes_all_columns(init) || takes_columns(last)) by {
            if takes_all_columns(init) {
                let i = choose|i: int|
                    #![trigger init[i]]
                    0 <= i < init.len() && takes_columns(init[i]);
                assert(items[i] == init[i]);
            }
            if takes_all_columns(items) {
                let i = choose|i: int|
                    #![trigger items[i]]
                    0 <= i < items.len() && takes_columns(items[i]);
                if i < init.len() {
                    assert(init[i] == items[i]);
                }
            }
        }
        assert(projection::has_wildcard(items) <==> projection::has_wildcard(init) || last.head
            is Wildcard) by {
            if projection::has_wildcard(init) {
                let i = choose|i: int|
                    0 <= i < init.len() && (#[trigger] init[i]).head is Wildcard;
                assert(items[i] == init[i]);
            }
            if projection::has_wildcard(items) {
                let i = choose|i: int|
                    0 <= i < items.len() && (#[trigger] items[i]).head is Wildcard;
                if i < init.len() {
                    assert(init[i] == items[i]);
                }
            }
        }
        if let Some(x) = projection::wildcard_name(last) {
            let all = before.push(x);
            assert(all.contains(name) <==> before.contains(name) || x == name) by {
                if before.contains(name) {
                    let k = before.index_of(name);
                    assert(all[k] == name);
                }
                if x == name {
                    assert(all[all.len() - 1] == name);
                }
                if all.contains(name) {
                    let k = all.index_of(name);
                    if k < before.len() {
                        assert(before[k] == name);
                    }
                }
            }
        }
    }
}

/// In the select list of a query with `*` or `name.*`, a bare column, or a column of a
/// relation that `name.*` is taken of, gets the alias `__alias_` and its name, so that no
/// two columns have one name. Its expression is kept, and so are all other items and all
/// other statements.
pub proof fn law_repeated_columns_get_aliases(s: NodeV)
    ensures
        ({
            let r = AliasDuplicatedProjectionRewrite.rewritten(s);
            if s.head is QueryStatement && s.kids.len() > 0 && s.kids[0].head is Query
                && s.kids[0].kids.len() > 0 && s.kids[0].kids[0].head is Select {
                let query = s.kids[0];
                let select = query.kids[0];
                let new = r.kids[0].kids[0];
                &&& r.head == s.head && r.tag == s.tag && r.kids == s.kids.update(0, r.kids[0])
                &&& r.kids[0].head == query.head && r.kids[0].tag == query.tag
                &&& r.kids[0].kids == query.kids.update(0, new)
                &&& new.head == select.head && new.tag == select.tag
                &&& new.kids.len() == select.kids.len()
                &&& forall|i: int|
                    #![trigger new.kids[i]]
                    0 <= i < select.kids.len() ==> match repeated_column(
                        select.kids,
                        select.kids[i],
                    ) {
                        Some(column) => new.kids[i].head == (HeadV::ExprWithAlias {
                            alias: IdentV {
                                value: "__alias_"@ + projection::written_ident(column),
                                quote_style: None,
                            },
                        }) && new.kids[i].kids == select.kids[i].kids,
                        None => new.kids[i] == select.kids[i],
                    }
            } else {
                r == s
            }
        }),
{
    if s.head is QueryStatement && s.kids.len() > 0 && s.kids[0].head is Query
        && s.kids[0].kids.len() > 0 && s.kids[0].kids[0].head is Select {
        let items = s.kids[0].kids[0].kids;
        let tables = projection::wildcard_names(items);
        lemma_wildcard_names(items, Seq::empty());
        let r = AliasDuplicatedProjectionRewrite.rewritten(s);
        let new = r.kids[0].kids[0];
        assert forall|i: int| 0 <= i < items.len() implies match repeated_column(items, items[i]) {
            Some(column) => (#[trigger] new.kids[i]).head == (HeadV::ExprWithAlias {
                alias: IdentV {
                    value: "__alias_"@ + projection::written_ident(column),
                    quote_style: None,
                },
            }) && new.kids[i].kids == items[i].kids,
            None => new.kids[i] == items[i],
        } by {
            if items[i].kids.len() == 1 {
                if let HeadV::CompoundIdentifier(idents) = items[i].kids[0].head {
                    if idents.len() > 1 {
                        lemma_wildcard_names(items, idents.drop_last());
                        assert(idents.take(idents.len() - 1) == idents.drop_last());
                        assert(tables.contains(projection::dotted(idents.drop_last()))
                            <==> takes_columns_of(items, idents.drop_last()));
                    }
                }
            }
        }
    }
}

/// An identifier is written as its value, in brackets where it is quoted by them.
pub proof fn law_identifiers_are_written(x: IdentV)
    ensures
        x.quote_style is None ==> projection::written_ident(x) == x.value,
        x.quote_style == Some(Quote::Bracket) ==> projection::written_ident(x) == seq!['[']
            + x.value + seq![']'],
{
}

/// True when an expression of a query is qualified: bare columns that are neither the alias
/// of a table nor the name of a select item get the relation before them, alone or as
/// operands of binary operators. All else is kept.
pub open spec fn is_qualified(
    old_expr: NodeV,
    new_expr: NodeV,
    relation: Seq<char>,
    select: Seq<NodeV>,
) -> bool
    decreases old_expr,
{
    match old_expr.head {
        HeadV::Identifier(x) => if has_alias(select, x.value) || has_item(select, x.value) {
            new_expr == old_expr
        } else {
            new_expr.head matches HeadV::CompoundIdentifier(idents) && idents.len() == 2 && idents[1]
                == x && idents[0] == (IdentV { value: relation, quote_style: None })
                && new_expr.kids.len() == 0
        },
        HeadV::BinaryOp(_) => {
            &&& new_expr.head == old_expr.head
            &&& new_expr.tag == old_expr.tag
            &&& new_expr.kids.len() == old_expr.kids.len()
            &&& forall|i: int|
                0 <= i < old_expr.kids.len() ==> is_qualified(
                    #[trigger] old_expr.kids[i],
                    new_expr.kids[i],
                    relation,
                    select,
                )
        },
        _ => new_expr == old_expr,
    }
}

/// True of a table with an alias.
pub open spec fn is_called(table: NodeV, name: Seq<char>) -> bool {
    table.head matches HeadV::Table { alias: Some(alias), .. } && alias.value == name
}

/// True when a table of a select, or one that is joined to it, has the alias.
pub open spec fn has_alias(select: Seq<NodeV>, name: Seq<char>) -> bool {
    exists|i: int|
        #![trigger select[i]]
        0 <= i < select.len() && select[i].head is TableWithJoins && {
            ||| select[i].kids.len() > 0 && is_called(select[i].kids[0], name)
            ||| exists|j: int|
                #![trigger select[i].kids[j]]
                0 <= j < select[i].kids.len() && select[i].kids[j].head is Join
                    && select[i].kids[j].kids.len() > 0 && is_called(
                    select[i].kids[j].kids[0],
                    name,
                )
        }
}

/// True when a select item has the name, by its alias or as a bare column.
pub open spec fn has_item(select: Seq<NodeV>, name: Seq<char>) -> bool {
    exists|i: int|
        #![trigger select[i]]
        0 <= i < select.len() && match select[i].head {
            HeadV::ExprWithAlias { alias } => alias.value == name,
            HeadV::UnnamedExpr => select[i].kids.len() == 1 && (
            select[i].kids[0].head matches HeadV::Identifier(x) && x.value == name),
            _ => false,
        }
}

proof fn lemma_names(select: Seq<NodeV>, name: Seq<char>)
    ensures
        projection::is_table_alias(select, name) == has_alias(select, name),
        projection::is_item_name(select, name) == has_item(select, name),
{
    assert forall|t: NodeV| #[trigger]
        projection::relation_has_alias(t, name) == (t.head is TableWithJoins && {
            ||| t.kids.len() > 0 && is_called(t.kids[0], name)
            ||| exists|j: int|
                #![trigger t.kids[j]]
                0 <= j < t.kids.len() && t.kids[j].head is Join && t.kids[j].kids.len() > 0
                    && is_called(t.kids[j].kids[0], name)
        }) by {
        if exists|j: int|
            #![trigger t.kids[j]]
            0 <= j < t.kids.len() && t.kids[j].head is Join && t.kids[j].kids.len() > 0
                && is_called(t.kids[j].kids[0], name) {
            let j = choose|j: int|
                #![trigger t.kids[j]]
                0 <= j < t.kids.len() && t.kids[j].head is Join && t.kids[j].kids.len() > 0
                    && is_called(t.kids[j].kids[0], name);
            assert(projection::first_has_alias(t.kids[j], name));
        }
    }
}

proof fn lemma_is_qualified(expr: NodeV, relation: Seq<char>, select: Seq<NodeV>)
    ensures
        is_qualified(expr, projection::qualified(expr, relation, select), relation, select),
    decreases expr,
{
    let new = projection::qualified(expr, relation, select);
    match expr.head {
        HeadV::Identifier(x) => {
            lemma_names(select, x.value);
        },
        HeadV::BinaryOp(_) => {
            assert forall|i: int| 0 <= i < expr.kids.len() implies is_qualified(
                #[trigger] expr.kids[i],
                new.kids[i],
                relation,
                select,
            ) by {
                lemma_is_qualified(expr.kids[i], relation, select);
            }
        },
        _ => {},
    }
}

/// True when the expressions of a clause are qualified and nothing else is changed.
pub open spec fn is_clause_qualified(
    old_clause: NodeV,
    new_clause: NodeV,
    relation: Seq<char>,
    select: Seq<NodeV>,
) -> bool {
    &&& new_clause.head == old_clause.head
    &&& new_clause.tag == old_clause.tag
    &&& new_clause.kids.len() == old_clause.kids.len()
    &&& forall|i: int|
        0 <= i < old_clause.kids.len() ==> is_qualified(
            #[trigger] old_clause.kids[i],
            new_clause.kids[i],
            relation,
            select,
        )
}

/// True of a select list with `name.*` of one relation, once.
pub open spec fn takes_one_relation(items: Seq<NodeV>, relation: Seq<char>) -> bool {
    exists|i: int|
        #![trigger items[i]]
        0 <= i < items.len() && (items[i].head matches HeadV::QualifiedWildcard { name: Some(x) }
            && projection::dotted(x) == relation) && forall|j: int|
            #![trigger items[j]]
            0 <= j < items.len() && j != i ==> !(items[j].head matches HeadV::QualifiedWildcard {
                name: Some(_),
            })
}

proof fn lemma_no_names(items: Seq<NodeV>)
    ensures
        projection::wildcard_names(items).len() == 0 <==> forall|j: int|
            #![trigger items[j]]
            0 <= j < items.len() ==> !(items[j].head matches HeadV::QualifiedWildcard {
                name: Some(_),
            }),
    decreases items.len(),
{
    if items.len() > 0 {
        let init = items.drop_last();
        lemma_no_names(init);
        assert(items[items.len() - 1] == items.last());
        assert(forall|j: int| 0 <= j < init.len() ==> init[j] == #[trigger] items[j]);
        if projection::wildcard_names(items).len() == 0 {
            assert forall|j: int|
                #![trigger items[j]]
                0 <= j < items.len() implies !(items[j].head matches HeadV::QualifiedWildcard {
                name: Some(_),
            }) by {
                if j < init.len() {
                    assert(init[j] == items[j]);
                }
            }
        } else if projection::wildcard_name(items.last()) is None {
            let j = choose|j: int|
                #![trigger init[j]]
                0 <= j < init.len() && (init[j].head matches HeadV::QualifiedWildcard {
                    name: Some(_),
                });
            assert(items[j] == init[j]);
        }
    }
}

proof fn lemma_one_name(items: Seq<NodeV>, relation: Seq<char>)
    ensures
        projection::wildcard_names(items) == seq![relation] <==> takes_one_relation(
            items,
            relation,
        ),
    decreases items.len(),
{
    let names = projection::wildcard_names(items);
    if items.len() > 0 {
        let init = items.drop_last();
        let last = items.last();
        let before = projection::wildcard_names(init);
        lemma_one_name(init, relation);
        lemma_no_names(init);
        assert(items[items.len() - 1] == last);
        assert(forall|j: int| 0 <= j < init.len() ==> init[j] == #[trigger] items[j]);
        match projection::wildcard_name(last) {
            Some(x) => {
                assert(names == before.push(x));
                if names == seq![relation] {
                    assert(before.len() == 0);
                    assert(names[0] == x);
                    let i = items.len() - 1;
                    assert(items[i].head matches HeadV::QualifiedWildcard { name: Some(n) }
                        && projection::dotted(n) == relation);
                    assert forall|j: int|
                        #![trigger items[j]]
                        0 <= j < items.len() && j != i implies !(
                    items[j].head matches HeadV::QualifiedWildcard { name: Some(_) }) by {
                        assert(init[j] == items[j]);
                    }
                    assert(takes_one_relation(items, relation));
                }
                if takes_one_relation(items, relation) {
                    let i = choose|i: int|
                        #![trigger items[i]]
                        0 <= i < items.len() && (items[i].head matches HeadV::QualifiedWildcard {
                            name: Some(n),
                        } && projection::dotted(n) == relation) && forall|j: int|
                            #![trigger items[j]]
                            0 <= j < items.len() && j != i ==> !(
                            items[j].head matches HeadV::QualifiedWildcard { name: Some(_) });
                    assert(i == items.len() - 1);
                    assert forall|j: int|
                        #![trigger init[j]]
                        0 <= j < init.len() implies !(
                    init[j].head matches HeadV::QualifiedWildcard { name: Some(_) }) by {
                        assert(init[j] == items[j]);
                    }
                    assert(before.len() == 0);
                    assert(names =~= seq![relation]);
                }
            },
            None => {
                assert(names == before);
                if takes_one_relation(init, relation) {
                    let i = choose|i: int|
                        #![trigger init[i]]
                        0 <= i < init.len() && (init[i].head matches HeadV::QualifiedWildcard {
                            name: Some(n),
                        } && projection::dotted(n) == relation) && forall|j: int|
                            #![trigger init[j]]
                            0 <= j < init.len() && j != i ==> !(
                            init[j].head matches HeadV::QualifiedWildcard { name: Some(_) });
                    assert(items[i] == init[i]);
                    assert forall|j: int|
                        #![trigger items[j]]
                        0 <= j < items.len() && j != i implies !(
                    items[j].head matches HeadV::QualifiedWildcard { name: Some(_) }) by {
                        if j < init.len() {
                            assert(init[j] == items[j]);
                        }
                    }
                    assert(takes_one_relation(items, relation));
                }
                if takes_one_relation(items, relation) {
                    let i = choose|i: int|
                        #![trigger items[i]]
                        0 <= i < items.len() && (items[i].head matches HeadV::QualifiedWildcard {
                            name: Some(n),
                        } && projection::dotted(n) == relation) && forall|j: int|
                            #![trigger items[j]]
                            0 <= j < items.len() && j != i ==> !(
                            items[j].head matches HeadV::QualifiedWildcard { name: Some(_) });
                    assert(i < init.len());
                    assert(init[i] == items[i]);
                    assert forall|j: int|
                        #![trigger init[j]]
                        0 <= j < init.len() && j != i implies !(
                    init[j].head matches HeadV::QualifiedWildcard { name: Some(_) }) by {
                        assert(init[j] == items[j]);
                    }
                    assert(takes_one_relation(init, relation));
                }
            },
        }
    } else {
        assert(names.len() == 0);
        assert(seq![relation].len() == 1);
    }
}

/// In a query that takes the columns of one relation, by one `name.*`, and whose tables have
/// an alias, the bare columns of `WHERE` and `ORDER BY` are qualified with that relation.
/// All else is kept, and other statements are.
pub proof fn law_columns_are_qualified(s: NodeV, relation: Seq<char>, alias: Seq<char>)
    ensures
        ({
            let r = ResolveUnqualifiedIdentifier.rewritten(s);
            if s.head is QueryStatement && s.kids.len() > 0 && s.kids[0].head is Query {
                let query = s.kids[0];
                let new = r.kids[0];
                &&& r.head == s.head && r.tag == s.tag && r.kids == s.kids.update(0, new)
                &&& !(query.kids.len() > 0 && query.kids[0].head is Select) ==> new == query
                &&& query.kids.len() > 0 && query.kids[0].head is Select ==> {
                    let select = query.kids[0];
                    &&& takes_one_relation(select.kids, relation) && has_alias(select.kids, alias)
                        ==> {
                        &&& new.head == query.head && new.tag == query.tag
                        &&& new.kids.len() == query.kids.len()
                        &&& new.kids[0].head == select.head && new.kids[0].tag == select.tag
                        &&& new.kids[0].kids.len() == select.kids.len()
                        &&& forall|i: int|
                            #![trigger new.kids[0].kids[i]]
                            0 <= i < select.kids.len() ==> if select.kids[i].head is Selection {
                                is_clause_qualified(
                                    select.kids[i],
                                    new.kids[0].kids[i],
                                    relation,
                                    select.kids,
                                )
                            } else {
                                new.kids[0].kids[i] == select.kids[i]
                            }
                        &&& forall|i: int|
                            #![trigger new.kids[i]]
                            1 <= i < query.kids.len() ==> if query.kids[i].head is OrderBy {
                                is_clause_qualified(
                                    query.kids[i],
                                    new.kids[i],
                                    relation,
                                    select.kids,
                                )
                            } else {
                                new.kids[i] == query.kids[i]
                            }
                    }
                    &&& (forall|x: Seq<char>| !#[trigger] takes_one_relation(select.kids, x)) || (
                    forall|x: Seq<char>| !#[trigger] has_alias(select.kids, x)) ==> new == query
                }
            } else {
                r == s
            }
        }),
{
    if s.head is QueryStatement && s.kids.len() > 0 && s.kids[0].head is Query {
        let query = s.kids[0];
        if query.kids.len() > 0 && query.kids[0].head is Select {
            let select = query.kids[0];
            let names = projection::wildcard_names(select.kids);
            let new = ResolveUnqualifiedIdentifier.rewritten(s).kids[0];
            assert(new == projection::resolved_query(query));
            lemma_one_name(select.kids, relation);
            lemma_names(select.kids, alias);
            if takes_one_relation(select.kids, relation) && has_alias(select.kids, alias) {
                assert(names[0] == relation);
                assert forall|i: int|
                    #![trigger new.kids[0].kids[i]]
                    0 <= i < select.kids.len() && select.kids[i].head
                        is Selection implies is_clause_qualified(
                    select.kids[i],
                    new.kids[0].kids[i],
                    relation,
                    select.kids,
                ) by {
                    lemma_clause_is_qualified(select.kids[i], relation, select.kids);
                }
                assert forall|i: int|
                    #![trigger new.kids[i]]
                    1 <= i < query.kids.len() && query.kids[i].head
                        is OrderBy implies is_clause_qualified(
                    query.kids[i],
                    new.kids[i],
                    relation,
                    select.kids,
                ) by {
                    lemma_clause_is_qualified(query.kids[i], relation, select.kids);
                }
            }
            if names.len() == 1 {
                assert(names =~= seq![names[0]]);
                lemma_one_name(select.kids, names[0]);
                assert(takes_one_relation(select.kids, names[0]));
            }
            if exists|x: Seq<char>| projection::is_table_alias(select.kids, x) {
                let x = choose|x: Seq<char>| projection::is_table_alias(select.kids, x);
                lemma_names(select.kids, x);
                assert(has_alias(select.kids, x));
            }
        }
    }
}

proof fn lemma_clause_is_qualified(clause: NodeV, relation: Seq<char>, select: Seq<NodeV>)
    ensures
        is_clause_qualified(
            clause,
            projection::with_qualified(clause, relation, select),
            relation,
            select,
        ),
{
    assert forall|i: int| 0 <= i < clause.kids.len() implies is_qualified(
        #[trigger] clause.kids[i],
        projection::with_qualified(clause, relation, select).kids[i],
        relation,
        select,
    ) by {
        lemma_is_qualified(clause.kids[i], relation, select);
    }
}

/// True when a construct holds a placeholder, or a column of a table that the select has
/// no alias for.
pub open spec fn needs_more(n: NodeV, select: Seq<NodeV>) -> bool
    decreases n,
{
    ||| n.head is Placeholder
    ||| n.head matches HeadV::CompoundIdentifier(idents) && idents.len() > 0 && !has_alias(
        select,
        idents[0].value,
    )
    ||| exists|i: int| 0 <= i < n.kids.len() && needs_more(#[trigger] n.kids[i], select)
}

proof fn lemma_needs_more(n: NodeV, select: Seq<NodeV>)
    ensures
        projection::refers_outside(n, select) == needs_more(n, select),
    decreases n,
{
    assert forall|i: int| 0 <= i < n.kids.len() implies projection::refers_outside(
        #[trigger] n.kids[i],
        select,
    ) == needs_more(n.kids[i], select) by {
        lemma_needs_more(n.kids[i], select);
    }
    if let HeadV::CompoundIdentifier(idents) = n.head {
        if idents.len() > 0 {
            lemma_names(select, idents[0].value);
        }
    }
    if needs_more(n, select) && !projection::is_outside_reference(n.head, select) {
        let i = choose|i: int| 0 <= i < n.kids.len() && needs_more(#[trigger] n.kids[i], select);
        assert(projection::refers_outside(n.kids[i], select));
    }
    if projection::refers_outside(n, select) && !projection::is_outside_reference(n.head, select) {
        let i = choose|i: int|
            0 <= i < n.kids.len() && projection::refers_outside(#[trigger] n.kids[i], select);
        assert(needs_more(n.kids[i], select));
    }
}

/// True of a query that says how many rows it gives.
pub open spec fn says_how_many(query: NodeV) -> bool {
    ||| query.head matches HeadV::Query { fetch } && fetch
    ||| exists|i: int| 0 <= i < query.kids.len() && (#[trigger] query.kids[i]).head is Limit
}

/// True of a select item that is a subquery, named or not.
pub open spec fn is_scalar_subquery(item: NodeV) -> bool {
    &&& item.head is UnnamedExpr || item.head is ExprWithAlias
    &&& item.kids.len() == 1 && item.kids[0].head is Subquery && item.kids[0].kids.len() == 1
}

/// True when a select item is rewritten: a subquery that needs more than its own tables
/// becomes a null, and one that does not say how many rows it gives is limited to one row.
/// The item keeps its name, and the subquery all else. Other items are rewritten as other
/// constructs are.
pub open spec fn is_item_rewritten(item: NodeV, new: NodeV) -> bool {
    let rule = RemoveSubqueryFromProjection;
    if is_scalar_subquery(item) {
        let query = item.kids[0].kids[0];
        &&& new.head == item.head && new.tag == item.tag && new.kids.len() == 1
        &&& if query.head is Query && query.kids.len() > 0 && query.kids[0].head is Select
            && needs_more(query, query.kids[0].kids) {
            new.kids[0].head is Null && new.kids[0].kids.len() == 0
        } else {
            let inside = rule.rewritten(query);
            let kept = new.kids[0].kids[0];
            &&& new.kids[0].head == item.kids[0].head && new.kids[0].tag == item.kids[0].tag
                && new.kids[0].kids.len() == 1
            &&& says_how_many(query) ==> kept == inside
            &&& !says_how_many(query) ==> {
                let limit = kept.kids[kept.kids.len() - 1];
                &&& kept.head == inside.head && kept.tag == inside.tag && kept.kids.len()
                    == inside.kids.len() + 1
                &&& kept.kids.take(inside.kids.len() as int) == inside.kids
                &&& limit.head is Limit && limit.kids.len() == 1 && limit.kids[0].head
                    == HeadV::Number("1"@)
            }
        }
    } else {
        new == rule.rewritten(item)
    }
}

/// The items of every select list are rewritten, and nothing else is changed.
pub proof fn law_subqueries_in_select_lists(n: NodeV)
    ensures
        ({
            let rule = RemoveSubqueryFromProjection;
            let r = rule.rewritten(n);
            if n.head is Select {
                &&& r.head == n.head && r.tag == n.tag && r.kids.len() == n.kids.len()
                &&& forall|i: int|
                    0 <= i < n.kids.len() ==> is_item_rewritten(
                        n.kids[i],
                        #[trigger] r.kids[i],
                    )
            } else {
                is_kept(rule, n)
            }
        }),
{
    let rule = RemoveSubqueryFromProjection;
    let r = rule.rewritten(n);
    if n.head is Select {
        assert forall|i: int| 0 <= i < n.kids.len() implies is_item_rewritten(
            n.kids[i],
            #[trigger] r.kids[i],
        ) by {
            let item = n.kids[i];
            assert(r.kids[i] == projection::scalar_item(item));
            if is_scalar_subquery(item) {
                let query = item.kids[0].kids[0];
                if query.head is Query && query.kids.len() > 0 && query.kids[0].head is Select {
                    lemma_needs_more(query, query.kids[0].kids);
                }
                let inside = rule.rewritten(query);
                assert(projection::with_limit(inside).kids.take(inside.kids.len() as int)
                    =~= inside.kids);
            }
        }
    }
}

} // verus!
