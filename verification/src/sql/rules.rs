//! The rewrite rules.
use crate::pg_catalog;
use crate::sql::parts::Part;
use crate::sql::tokens;
use crate::sql::tokens::{ParseError, ParsedTrees};
use crate::sql::tree;
use crate::sql::tree::{
    ArrayElem, BinaryOperator, FunctionArguments, Head, HeadV, Ident, IdentV, NamePart, Node,
    NodeV, OperatorV, PartV, NEW_NODE,
};
use crate::text;
use vstd::prelude::*;

verus! {

/// A rule that rewrites a statement.
pub trait SqlStatementRewriteRule {
    /// What the rule makes of a statement.
    spec fn rewritten(&self, s: NodeV) -> NodeV;

    /// Rewrites a statement.
    fn rewrite(&self, s: Node) -> (r: Node)
        ensures
            r@ == self.rewritten(s@),
    ;
}

/// A rule that rewrites one construct at a time.
///
/// The constructs inside another one are rewritten before it. What a rule of
/// this kind reads of the constructs inside is never changed by the rule itself,
/// so the order makes no difference.
pub trait NodeRule {
    /// What the rule makes of one construct.
    spec fn step(&self, n: NodeV) -> NodeV;

    /// Rewrites one construct.
    fn apply(&self, n: Node) -> (r: Node)
        ensures
            r@ == self.step(n@),
    ;
}

/// A construct with the rule applied to everything inside it and to itself.
pub open spec fn bottom_up<R: NodeRule>(rule: R, n: NodeV) -> NodeV
    decreases n, 1int,
{
    rule.step(inner(rule, n))
}

/// A construct with the rule applied to everything inside it.
pub open spec fn inner<R: NodeRule>(rule: R, n: NodeV) -> NodeV
    decreases n, 0int,
{
    NodeV {
        head: n.head,
        tag: n.tag,
        kids: Seq::new(
            n.kids.len(),
            |i: int|
                if 0 <= i < n.kids.len() {
                    bottom_up(rule, n.kids[i])
                } else {
                    arbitrary()
                },
        ),
    }
}

#[verifier::loop_isolation(false)]
fn rewrite_tree<R: NodeRule>(rule: &R, n: Node) -> (r: Node)
    ensures
        r@ == bottom_up(*rule, n@),
    decreases n,
{
    let ghost n0 = n;
    let Node { head, tag, kids } = n;
    let mut out: Vec<Node> = Vec::new();
    for kid in it: kids
        invariant
            it.seq() == n0.kids@,
            out@.len() == it.index(),
            forall|j: int| 0 <= j < out@.len() ==> (#[trigger] out@[j])@ == bottom_up(*rule, n0.kids@[j]@),
    {
        assert(decreases_to!(n => n0.kids@[it.index()]));
        out.push(rewrite_tree(rule, kid));
    }
    let m = Node { head, tag, kids: out };
    proof {
        tree::lemma_model(n0);
        tree::lemma_model(m);
        assert(m@.kids == inner(*rule, n0@).kids);
    }
    rule.apply(m)
}

/// The model of an identifier without quotes.
pub open spec fn bare(value: Seq<char>) -> IdentV {
    IdentV { value, quote_style: None }
}

/// The model of a name of one part without quotes.
pub open spec fn bare_name(value: Seq<char>) -> Seq<PartV> {
    seq![PartV::Identifier(bare(value))]
}

fn bare_parts(value: &str) -> (r: Vec<NamePart>)
    ensures
        tree::name_view(r@) == bare_name(value@),
{
    let mut name: Vec<NamePart> = Vec::new();
    name.push(NamePart::Identifier(Ident::new(value)));
    assert(tree::name_view(name@) == bare_name(value@));
    name
}

/// `ARRAY[...]` of the given elements.
pub open spec fn array_node(elems: Seq<HeadV>) -> NodeV {
    NodeV {
        head: HeadV::Array { named: true },
        tag: NEW_NODE,
        kids: elems.map_values(|h: HeadV| tree::leaf_view(h)),
    }
}

/// `ARRAY[...]` of string literals.
pub open spec fn string_array(items: Seq<Seq<char>>) -> NodeV {
    array_node(items.map_values(|s: Seq<char>| HeadV::SingleQuotedString(s)))
}

/// `ARRAY[...]` of number literals.
pub open spec fn number_array(items: Seq<Seq<char>>) -> NodeV {
    array_node(items.map_values(|s: Seq<char>| HeadV::Number(s)))
}

fn make_array(items: Vec<String>, is_text: bool) -> (r: Node)
    ensures
        r@ == (if is_text {
            string_array(text::views(items@))
        } else {
            number_array(text::views(items@))
        }),
{
    let mut kids: Vec<Node> = Vec::new();
    for item in it: items
        invariant
            it.seq() == items@,
            kids@.len() == it.index(),
            forall|j: int|
                0 <= j < kids@.len() ==> (#[trigger] kids@[j])@ == tree::leaf_view(
                    if is_text {
                        HeadV::SingleQuotedString(items@[j]@)
                    } else {
                        HeadV::Number(items@[j]@)
                    },
                ),
    {
        if is_text {
            kids.push(Node::leaf(Head::SingleQuotedString(item)));
        } else {
            kids.push(Node::leaf(Head::Number(item)));
        }
    }
    let r = Node { head: Head::Array { named: true }, tag: NEW_NODE, kids };
    proof {
        tree::lemma_model(r);
        if is_text {
            assert(r@.kids == string_array(text::views(items@)).kids);
        } else {
            assert(r@.kids == number_array(text::views(items@)).kids);
        }
    }
    r
}

/// Rewrites the quantified comparisons over arrays that are questions of
/// membership into `array_contains`:
///
/// * `x = ANY(arr)` becomes `array_contains(arr, x)`;
/// * `x <> ALL(arr)` becomes `NOT array_contains(arr, x)`.
///
/// `x <> ANY(arr)` and `x = ALL(arr)` cannot be told by membership and are left
/// alone. An array that is given as a string literal such as `'{r, l, e}'`
/// becomes an `ARRAY[...]` of string literals: it is split at its commas, each
/// item is trimmed, and empty items are dropped.
#[derive(Debug)]
pub struct RewriteArrayAnyAllOperation;

/// The array that a right operand stands for.
pub open spec fn array_operand(right: NodeV) -> NodeV {
    match right.head {
        HeadV::SingleQuotedString(s) => if text::is_braced(text::trimmed(s)) {
            string_array(text::nonempty_array_items(text::trimmed(s)))
        } else {
            right
        },
        _ => right,
    }
}

/// `array_contains(right, left)`.
pub open spec fn contains_call(left: NodeV, right: NodeV) -> NodeV {
    NodeV {
        head: HeadV::Function {
            name: bare_name("array_contains"@),
            args: FunctionArguments::List(2),
        },
        tag: NEW_NODE,
        kids: seq![array_operand(right), left],
    }
}

fn any_to_array_contains(left: Node, right: Node) -> (r: Node)
    ensures
        r@ == contains_call(left@, right@),
{
    let ghost right0 = right@;
    proof {
        tree::lemma_model(right);
    }
    let array = match &right.head {
        Head::SingleQuotedString(s) => {
            let literal = text::trim(s.as_str());
            if text::braced(literal.as_str()) {
                make_array(text::split_nonempty_array_items(literal.as_str()), true)
            } else {
                right
            }
        },
        _ => right,
    };
    let mut kids: Vec<Node> = Vec::new();
    kids.push(array);
    kids.push(left);
    let r = Node {
        head: Head::Function {
            name: bare_parts("array_contains"),
            args: FunctionArguments::List(2),
        },
        tag: NEW_NODE,
        kids,
    };
    proof {
        tree::lemma_model(r);
        assert(r@.kids == contains_call(left@, right0).kids);
    }
    r
}

impl NodeRule for RewriteArrayAnyAllOperation {
    open spec fn step(&self, n: NodeV) -> NodeV {
        match n.head {
            HeadV::AnyOp(OperatorV::Eq) if n.kids.len() == 2 => contains_call(n.kids[0], n.kids[1]),
            HeadV::AllOp(OperatorV::NotEq) if n.kids.len() == 2 => NodeV {
                head: HeadV::Not,
                tag: NEW_NODE,
                kids: seq![contains_call(n.kids[0], n.kids[1])],
            },
            _ => n,
        }
    }

    fn apply(&self, n: Node) -> (r: Node) {
        proof {
            tree::lemma_model(n);
        }
        let any = match &n.head {
            Head::AnyOp(BinaryOperator::Eq) => true,
            _ => false,
        };
        let all = match &n.head {
            Head::AllOp(BinaryOperator::NotEq) => true,
            _ => false,
        };
        if n.kids.len() != 2 || !(any || all) {
            return n;
        }
        let ghost kids0 = n.kids@;
        let mut kids = n.kids;
        let right = kids.pop().unwrap();
        let left = kids.pop().unwrap();
        let call = any_to_array_contains(left, right);
        if any {
            return call;
        }
        let mut negated: Vec<Node> = Vec::new();
        negated.push(call);
        let r = Node { head: Head::Not, tag: NEW_NODE, kids: negated };
        proof {
            tree::lemma_model(r);
            assert(r@.kids == seq![contains_call(kids0[0]@, kids0[1]@)]);
        }
        r
    }
}

impl SqlStatementRewriteRule for RewriteArrayAnyAllOperation {
    open spec fn rewritten(&self, s: NodeV) -> NodeV {
        bottom_up(*self, s)
    }

    fn rewrite(&self, s: Node) -> (r: Node) {
        rewrite_tree(self, s)
    }
}

/// Turns a string literal that is cast to an array with `::` into an
/// `ARRAY[...]` of its comma-separated items, each trimmed, without the empty
/// ones. The items are string literals where the element type is a text type
/// and number literals elsewhere.
#[derive(Debug)]
pub struct FixArrayLiteral;

/// True of the element types whose items are string literals.
pub open spec fn is_text_elem(elem: ArrayElem) -> bool {
    elem is Text || elem is Varchar || elem is Char || elem is StringType
}

fn is_string_type(elem: ArrayElem) -> (r: bool)
    ensures
        r == is_text_elem(elem),
{
    match elem {
        ArrayElem::Text | ArrayElem::Varchar | ArrayElem::Char | ArrayElem::StringType => true,
        ArrayElem::Other | ArrayElem::Untyped => false,
    }
}

impl NodeRule for FixArrayLiteral {
    open spec fn step(&self, n: NodeV) -> NodeV {
        match n.head {
            HeadV::Cast { double_colon: true, data_type } => match data_type.array {
                Some(elem) if n.kids.len() > 0 => match tree::string_literal(n.kids[0]) {
                    Some(s) => NodeV {
                        head: n.head,
                        tag: n.tag,
                        kids: n.kids.update(
                            0,
                            if is_text_elem(elem) {
                                string_array(text::nonempty_array_items(s))
                            } else {
                                number_array(text::nonempty_array_items(s))
                            },
                        ),
                    },
                    None => n,
                },
                _ => n,
            },
            _ => n,
        }
    }

    fn apply(&self, n: Node) -> (r: Node) {
        proof {
            tree::lemma_model(n);
        }
        let elem = match &n.head {
            Head::Cast { double_colon, data_type } => if *double_colon {
                data_type.array
            } else {
                None
            },
            _ => None,
        };
        let elem = match elem {
            Some(elem) => elem,
            None => {
                return n;
            },
        };
        if n.kids.len() == 0 {
            return n;
        }
        proof {
            tree::lemma_model(n.kids@[0]);
        }
        let items = match &n.kids[0].head {
            Head::SingleQuotedString(s) => text::split_nonempty_array_items(s.as_str()),
            _ => {
                return n;
            },
        };
        let ghost n0 = n@;
        let array = make_array(items, is_string_type(elem));
        let Node { head, tag, mut kids } = n;
        kids.set(0, array);
        let r = Node { head, tag, kids };
        proof {
            tree::lemma_model(r);
            assert(r@.kids == self.step(n0).kids);
        }
        r
    }
}

impl SqlStatementRewriteRule for FixArrayLiteral {
    open spec fn rewritten(&self, s: NodeV) -> NodeV {
        bottom_up(*self, s)
    }

    fn rewrite(&self, s: Node) -> (r: Node) {
        rewrite_tree(self, s)
    }
}

/// Drops the qualifier of function names and of table-function names: only the
/// last part of the name is kept.
#[derive(Debug)]
pub struct StripCallableQualifier;

/// The last part of a name, alone.
pub open spec fn last_part(name: Seq<PartV>) -> Seq<PartV> {
    if name.len() > 1 {
        seq![name.last()]
    } else {
        name
    }
}

fn keep_last_part(name: Vec<NamePart>) -> (r: Vec<NamePart>)
    ensures
        tree::name_view(r@) == last_part(tree::name_view(name@)),
{
    let ghost name0 = tree::name_view(name@);
    let mut name = name;
    if name.len() > 1 {
        let last = name.pop().unwrap();
        let mut out: Vec<NamePart> = Vec::new();
        out.push(last);
        assert(tree::name_view(out@) == last_part(name0));
        out
    } else {
        name
    }
}

impl NodeRule for StripCallableQualifier {
    open spec fn step(&self, n: NodeV) -> NodeV {
        NodeV {
            head: match n.head {
                HeadV::Table { name, has_args: true, alias } => HeadV::Table {
                    name: last_part(name),
                    has_args: true,
                    alias,
                },
                HeadV::Function { name, args } => HeadV::Function { name: last_part(name), args },
                other => other,
            },
            tag: n.tag,
            kids: n.kids,
        }
    }

    fn apply(&self, n: Node) -> (r: Node) {
        proof {
            tree::lemma_model(n);
        }
        let Node { head, tag, kids } = n;
        let head = match head {
            Head::Table { name, has_args, alias } => if has_args {
                Head::Table { name: keep_last_part(name), has_args, alias }
            } else {
                Head::Table { name, has_args, alias }
            },
            Head::Function { name, args } => Head::Function { name: keep_last_part(name), args },
            other => other,
        };
        let r = Node { head, tag, kids };
        proof {
            tree::lemma_model(r);
        }
        r
    }
}

impl SqlStatementRewriteRule for StripCallableQualifier {
    open spec fn rewritten(&self, s: NodeV) -> NodeV {
        bottom_up(*self, s)
    }

    fn rewrite(&self, s: Node) -> (r: Node) {
        rewrite_tree(self, s)
    }
}

/// Maps `OPERATOR(pg_catalog.<op>)` of the four regular-expression operators to
/// the operator itself. Every other operator is left alone.
#[derive(Debug)]
pub struct RewritePgCatalogOperator;

/// The operator that a regular-expression operator's name stands for.
pub open spec fn regex_operator(name: Seq<char>) -> Option<OperatorV> {
    if name == "~"@ {
        Some(OperatorV::PGRegexMatch)
    } else if name == "~*"@ {
        Some(OperatorV::PGRegexIMatch)
    } else if name == "!~"@ {
        Some(OperatorV::PGRegexNotMatch)
    } else if name == "!~*"@ {
        Some(OperatorV::PGRegexNotIMatch)
    } else {
        None
    }
}

/// What the rule makes of an operator.
pub open spec fn builtin_operator(op: OperatorV) -> OperatorV {
    match op {
        OperatorV::PGCustomBinaryOperator(ops) => if ops.len() > 0 && ops[0] == "pg_catalog"@ {
            match regex_operator(ops.last()) {
                Some(builtin) => builtin,
                None => op,
            }
        } else {
            op
        },
        _ => op,
    }
}

fn to_builtin_operator(op: BinaryOperator) -> (r: BinaryOperator)
    ensures
        r@ == builtin_operator(op@),
{
    let ghost op0 = op@;
    match &op {
        BinaryOperator::PGCustomBinaryOperator(ops) => {
            assert(op0->PGCustomBinaryOperator_0 == text::views(ops@));
            if ops.len() == 0 || !text::same(ops[0].as_str(), "pg_catalog") {
                return op;
            }
            let name = ops[ops.len() - 1].as_str();
            assert(name@ == text::views(ops@).last());
            if text::same(name, "~") {
                return BinaryOperator::PGRegexMatch;
            }
            if text::same(name, "~*") {
                return BinaryOperator::PGRegexIMatch;
            }
            if text::same(name, "!~") {
                return BinaryOperator::PGRegexNotMatch;
            }
            if text::same(name, "!~*") {
                return BinaryOperator::PGRegexNotIMatch;
            }
        },
        _ => {},
    }
    op
}

impl NodeRule for RewritePgCatalogOperator {
    open spec fn step(&self, n: NodeV) -> NodeV {
        NodeV {
            head: match n.head {
                HeadV::BinaryOp(op) => HeadV::BinaryOp(builtin_operator(op)),
                other => other,
            },
            tag: n.tag,
            kids: n.kids,
        }
    }

    fn apply(&self, n: Node) -> (r: Node) {
        proof {
            tree::lemma_model(n);
        }
        let Node { head, tag, kids } = n;
        let head = match head {
            Head::BinaryOp(op) => Head::BinaryOp(to_builtin_operator(op)),
            other => other,
        };
        let r = Node { head, tag, kids };
        proof {
            tree::lemma_model(r);
        }
        r
    }
}

impl SqlStatementRewriteRule for RewritePgCatalogOperator {
    open spec fn rewritten(&self, s: NodeV) -> NodeV {
        bottom_up(*self, s)
    }

    fn rewrite(&self, s: Node) -> (r: Node) {
        rewrite_tree(self, s)
    }
}

/// Qualifies the unqualified names of `pg_catalog` relations with `pg_catalog`.
///
/// Only the names of known relations are qualified: a user table such as
/// `pg_compat_test` keeps its name, and so does a table function.
#[derive(Debug)]
pub struct PrependUnqualifiedPgTableName;

/// What the rule makes of the name of a table.
pub open spec fn qualified_name(name: Seq<PartV>) -> Seq<PartV> {
    if name.len() == 1 {
        match name[0] {
            PartV::Identifier(ident) => if pg_catalog::is_catalog_table(ident.value) {
                seq![PartV::Identifier(bare("pg_catalog"@)), name[0]]
            } else {
                name
            },
            PartV::Function(_) => name,
        }
    } else {
        name
    }
}

fn qualify_name(name: Vec<NamePart>) -> (r: Vec<NamePart>)
    ensures
        tree::name_view(r@) == qualified_name(tree::name_view(name@)),
{
    if name.len() != 1 {
        return name;
    }
    let ghost name0 = tree::name_view(name@);
    let known = match &name[0] {
        NamePart::Identifier(ident) => pg_catalog::is_pg_catalog_table(ident.value.as_str()),
        NamePart::Function(_) => false,
    };
    if known {
        let mut name = name;
        let last = name.pop().unwrap();
        let mut out = bare_parts("pg_catalog");
        let ghost qualifier = out@;
        out.push(last);
        proof {
            assert(tree::name_view(out@) == tree::name_view(qualifier).push(name0[0]));
            assert(tree::name_view(out@) == qualified_name(name0));
        }
        out
    } else {
        name
    }
}

impl NodeRule for PrependUnqualifiedPgTableName {
    open spec fn step(&self, n: NodeV) -> NodeV {
        NodeV {
            head: match n.head {
                HeadV::Table { name, has_args: false, alias } => HeadV::Table {
                    name: qualified_name(name),
                    has_args: false,
                    alias,
                },
                other => other,
            },
            tag: n.tag,
            kids: n.kids,
        }
    }

    fn apply(&self, n: Node) -> (r: Node) {
        proof {
            tree::lemma_model(n);
        }
        let Node { head, tag, kids } = n;
        let head = match head {
            Head::Table { name, has_args, alias } => if has_args {
                Head::Table { name, has_args, alias }
            } else {
                Head::Table { name: qualify_name(name), has_args, alias }
            },
            other => other,
        };
        let r = Node { head, tag, kids };
        proof {
            tree::lemma_model(r);
        }
        r
    }
}

impl SqlStatementRewriteRule for PrependUnqualifiedPgTableName {
    open spec fn rewritten(&self, s: NodeV) -> NodeV {
        bottom_up(*self, s)
    }

    fn rewrite(&self, s: Node) -> (r: Node) {
        rewrite_tree(self, s)
    }
}

/// Rewrites the special registers that Postgres lets a client write without
/// brackets into the function calls that stand for them:
///
/// * the bare identifier `current_schema` becomes `current_schema()`;
/// * a call of `current_user` becomes one of `session_user`;
/// * a call of `current_catalog` becomes one of `current_database`.
///
/// `session_user` may be written without brackets and keeps that form;
/// `current_database` may not, and gets an empty argument list.
#[derive(Debug)]
pub struct CurrentUserVariableToSessionUserFunctionCall;

/// The function that a special register stands for.
pub open spec fn renamed_register(name: Seq<char>) -> Option<Seq<char>> {
    if name == "current_user"@ {
        Some("session_user"@)
    } else if name == "current_catalog"@ {
        Some("current_database"@)
    } else {
        None
    }
}

/// True of the functions that can be called without brackets.
pub open spec fn is_parenthesis_less(name: Seq<char>) -> bool {
    name == "current_catalog"@ || name == "current_user"@ || name == "session_user"@ || name
        == "user"@
}

/// `name()`.
pub open spec fn empty_call(name: Seq<char>) -> NodeV {
    tree::leaf_view(
        HeadV::Function { name: bare_name(name), args: FunctionArguments::List(0) },
    )
}

/// The last part of a name in lower case, where it is an identifier.
pub open spec fn last_ident_lowered(name: Seq<PartV>) -> Option<Seq<char>> {
    if name.len() == 0 {
        None
    } else {
        match name.last() {
            PartV::Identifier(ident) => Some(text::lowered(ident.value)),
            PartV::Function(_) => None,
        }
    }
}

/// What the rule makes of the head of a call of the function `lowered`.
pub open spec fn renamed_call(head: HeadV, lowered: Option<Seq<char>>) -> HeadV {
    match (head, lowered) {
        (HeadV::Function { name, args }, Some(lowered)) => match renamed_register(lowered) {
            Some(target) => HeadV::Function {
                name: bare_name(target),
                args: if args is Absent && !is_parenthesis_less(target) {
                    FunctionArguments::List(0)
                } else {
                    args
                },
            },
            None => head,
        },
        _ => head,
    }
}

fn empty_function_call(name: &str) -> (r: Node)
    ensures
        r@ == empty_call(name@),
{
    Node::leaf(Head::Function { name: bare_parts(name), args: FunctionArguments::List(0) })
}

fn last_ident_lower(name: &Vec<NamePart>) -> (r: Option<String>)
    ensures
        match r {
            Some(s) => last_ident_lowered(tree::name_view(name@)) == Some(s@),
            None => last_ident_lowered(tree::name_view(name@)) is None,
        },
{
    if name.len() == 0 {
        return None;
    }
    assert(tree::name_view(name@).last() == name@.last()@);
    match &name[name.len() - 1] {
        NamePart::Identifier(ident) => Some(text::to_lowercase(ident.value.as_str())),
        NamePart::Function(_) => None,
    }
}

/// Renames the call of a special register, where `lowered` is the last part of
/// the function's name in lower case.
pub fn rename_register(head: Head, lowered: &str) -> (r: Head)
    ensures
        r@ == renamed_call(head@, Some(lowered@)),
{
    proof {
        reveal_strlit("session_user");
        reveal_strlit("current_database");
        reveal_strlit("current_catalog");
        reveal_strlit("current_user");
        reveal_strlit("user");
        assert("current_database"@.len() == 16);
        assert("current_catalog"@.len() == 15);
    }
    match head {
        Head::Function { name, args } => {
            if text::same(lowered, "current_user") {
                Head::Function { name: bare_parts("session_user"), args }
            } else if text::same(lowered, "current_catalog") {
                let args = match args {
                    FunctionArguments::Absent => FunctionArguments::List(0),
                    other => other,
                };
                Head::Function { name: bare_parts("current_database"), args }
            } else {
                Head::Function { name, args }
            }
        },
        other => other,
    }
}

impl NodeRule for CurrentUserVariableToSessionUserFunctionCall {
    open spec fn step(&self, n: NodeV) -> NodeV {
        match n.head {
            HeadV::Identifier(ident) => if ident.quote_style is None && text::lowered(ident.value)
                == "current_schema"@ {
                empty_call("current_schema"@)
            } else {
                n
            },
            HeadV::Function { name, args } => NodeV {
                head: renamed_call(n.head, last_ident_lowered(name)),
                tag: n.tag,
                kids: n.kids,
            },
            _ => n,
        }
    }

    fn apply(&self, n: Node) -> (r: Node) {
        proof {
            tree::lemma_model(n);
        }
        let register = match &n.head {
            Head::Identifier(ident) => {
                if ident.quote_style.is_some() {
                    return n;
                }
                let lower = text::to_lowercase(ident.value.as_str());
                if text::same(lower.as_str(), "current_schema") {
                    return empty_function_call("current_schema");
                }
                None
            },
            Head::Function { name, .. } => last_ident_lower(name),
            _ => None,
        };
        match register {
            Some(lowered) => {
                let Node { head, tag, kids } = n;
                let r = Node { head: rename_register(head, lowered.as_str()), tag, kids };
                proof {
                    tree::lemma_model(r);
                }
                r
            },
            None => n,
        }
    }
}

impl SqlStatementRewriteRule for CurrentUserVariableToSessionUserFunctionCall {
    open spec fn rewritten(&self, s: NodeV) -> NodeV {
        bottom_up(*self, s)
    }

    fn rewrite(&self, s: Node) -> (r: Node) {
        rewrite_tree(self, s)
    }
}

/// Gives the select item `version()` the column name `version`.
#[derive(Debug)]
pub struct FixVersionColumnName;

/// True of the select item `version()`.
pub open spec fn is_version_item(item: NodeV) -> bool {
    &&& item.head is UnnamedExpr
    &&& item.kids.len() == 1
    &&& item.kids[0].head matches HeadV::Function { name, args }
    &&& name.len() == 1
    &&& name[0] matches PartV::Identifier(ident)
    &&& ident.value == "version"@
    &&& args == FunctionArguments::List(0)
}

/// What the rule makes of a select item.
pub open spec fn version_item(item: NodeV) -> NodeV {
    if is_version_item(item) {
        NodeV {
            head: HeadV::ExprWithAlias { alias: bare("version"@) },
            tag: NEW_NODE,
            kids: item.kids,
        }
    } else {
        item
    }
}

fn fix_version_item(item: Node) -> (r: Node)
    ensures
        r@ == version_item(item@),
{
    proof {
        tree::lemma_model(item);
    }
    let unnamed = match &item.head {
        Head::UnnamedExpr => true,
        _ => false,
    };
    if !unnamed || item.kids.len() != 1 {
        return item;
    }
    proof {
        tree::lemma_model(item.kids@[0]);
    }
    let version = match &item.kids[0].head {
        Head::Function { name, args } => {
            if name.len() != 1 {
                return item;
            }
            assert(tree::name_view(name@)[0] == name@[0]@);
            let empty = match args {
                FunctionArguments::List(n) => *n == 0,
                _ => false,
            };
            match &name[0] {
                NamePart::Identifier(ident) => empty && text::same(ident.value.as_str(), "version"),
                NamePart::Function(_) => false,
            }
        },
        _ => false,
    };
    if !version {
        return item;
    }
    let Node { head: _, tag: _, kids } = item;
    let r = Node {
        head: Head::ExprWithAlias { alias: Ident::new("version") },
        tag: NEW_NODE,
        kids,
    };
    proof {
        tree::lemma_model(r);
    }
    r
}

impl NodeRule for FixVersionColumnName {
    open spec fn step(&self, n: NodeV) -> NodeV {
        if n.head is Select {
            NodeV {
                head: n.head,
                tag: n.tag,
                kids: n.kids.map_values(|item: NodeV| version_item(item)),
            }
        } else {
            n
        }
    }

    fn apply(&self, n: Node) -> (r: Node) {
        proof {
            tree::lemma_model(n);
        }
        let select = match &n.head {
            Head::Select => true,
            _ => false,
        };
        if !select {
            return n;
        }
        let ghost n0 = n;
        let Node { head, tag, kids } = n;
        let mut out: Vec<Node> = Vec::new();
        for kid in it: kids
            invariant
                it.seq() == n0.kids@,
                out@.len() == it.index(),
                forall|j: int|
                    0 <= j < out@.len() ==> (#[trigger] out@[j])@ == version_item(n0.kids@[j]@),
        {
            out.push(fix_version_item(kid));
        }
        let r = Node { head, tag, kids: out };
        proof {
            tree::lemma_model(r);
            assert(r@.kids == self.step(n0@).kids);
        }
        r
    }
}

impl SqlStatementRewriteRule for FixVersionColumnName {
    open spec fn rewritten(&self, s: NodeV) -> NodeV {
        bottom_up(*self, s)
    }

    fn rewrite(&self, s: Node) -> (r: Node) {
        rewrite_tree(self, s)
    }
}

/// Strips `COLLATE` clauses and keeps their operands.
#[derive(Debug)]
pub struct StripCollate;

/// A construct with the operand in the place of each `COLLATE` clause.
pub open spec fn without_collate(n: NodeV) -> NodeV
    decreases n,
{
    if n.head is Collate && n.kids.len() > 0 {
        without_collate(n.kids[0])
    } else {
        NodeV {
            head: n.head,
            tag: n.tag,
            kids: Seq::new(
                n.kids.len(),
                |i: int|
                    if 0 <= i < n.kids.len() {
                        without_collate(n.kids[i])
                    } else {
                        arbitrary()
                    },
            ),
        }
    }
}

#[verifier::loop_isolation(false)]
fn strip_collate(n: Node) -> (r: Node)
    ensures
        r@ == without_collate(n@),
    decreases n,
{
    let ghost n0 = n;
    let collate = match &n.head {
        Head::Collate => true,
        _ => false,
    };
    proof {
        tree::lemma_model(n0);
    }
    let Node { head, tag, mut kids } = n;
    if collate && kids.len() > 0 {
        let operand = kids.swap_remove(0);
        assert(operand == n0.kids@[0]);
        assert(decreases_to!(n0 => n0.kids@[0]));
        return strip_collate(operand);
    }
    let mut out: Vec<Node> = Vec::new();
    for kid in it: kids
        invariant
            it.seq() == n0.kids@,
            out@.len() == it.index(),
            forall|j: int|
                0 <= j < out@.len() ==> (#[trigger] out@[j])@ == without_collate(n0.kids@[j]@),
    {
        assert(decreases_to!(n0 => n0.kids@[it.index()]));
        out.push(strip_collate(kid));
    }
    let r = Node { head, tag, kids: out };
    proof {
        tree::lemma_model(r);
        assert(r@.kids == without_collate(n0@).kids);
    }
    r
}

impl SqlStatementRewriteRule for StripCollate {
    open spec fn rewritten(&self, s: NodeV) -> NodeV {
        without_collate(s)
    }

    fn rewrite(&self, s: Node) -> (r: Node) {
        strip_collate(s)
    }
}

/// Rewrites the casts of a name to the oid of a catalog object, such as
/// `'pg_class'::regclass`.
///
/// The operand has to be a string literal or a placeholder: a cast of a column
/// goes the other way and is left alone. A string of digits is the oid itself
/// and becomes a number literal. Any other operand becomes a subquery that looks
/// the name up: the lookup query of the type, with the operand in the place of
/// each of its placeholders. The lookup queries themselves hold no such cast.
#[derive(Debug)]
pub struct RewriteRegCastToSubquery {
    regclass: Node,
    regnamespace: Node,
    regtype: Node,
    regproc: Node,
    /// What the lookup queries hold beside what the rules read.
    parts: Vec<Part>,
}

/// The lookup queries of `regclass`, `regnamespace`, `regtype` and `regproc`. A query has
/// one placeholder, which stands for the name.
pub open spec fn lookup_texts() -> Seq<Seq<char>> {
    seq![
        "SELECT c.oid FROM pg_catalog.pg_class c JOIN pg_catalog.pg_namespace n ON c.relnamespace = n.oid CROSS JOIN (SELECT parse_ident($1::TEXT) AS parts) WHERE array_length(parts, 1) IN (1, 2) AND ((array_length(parts, 1) = 1 AND n.nspname = current_schema() AND c.relname = parts[1]) OR (array_length(parts, 1) = 2 AND n.nspname = parts[1] AND c.relname = parts[2]))"@,
        "SELECT oid FROM pg_catalog.pg_namespace WHERE nspname = $1"@,
        "SELECT oid FROM pg_catalog.pg_type WHERE typname = $1"@,
        "SELECT oid FROM pg_catalog.pg_proc WHERE proname = $1"@,
    ]
}

/// The lookup query of each type that a name can be cast to.
pub fn reg_cast_specs() -> (r: Vec<(&'static str, &'static str)>)
    ensures
        r@.len() == 4,
        r@[0].0@ == "regclass"@,
        r@[1].0@ == "regnamespace"@,
        r@[2].0@ == "regtype"@,
        r@[3].0@ == "regproc"@,
        forall|i: int| 0 <= i < 4 ==> (#[trigger] r@[i]).1@ == lookup_texts()[i],
{
    vec![
        (
            "regclass",
            "SELECT c.oid FROM pg_catalog.pg_class c JOIN pg_catalog.pg_namespace n ON c.relnamespace = n.oid CROSS JOIN (SELECT parse_ident($1::TEXT) AS parts) WHERE array_length(parts, 1) IN (1, 2) AND ((array_length(parts, 1) = 1 AND n.nspname = current_schema() AND c.relname = parts[1]) OR (array_length(parts, 1) = 2 AND n.nspname = parts[1] AND c.relname = parts[2]))",
        ),
        ("regnamespace", "SELECT oid FROM pg_catalog.pg_namespace WHERE nspname = $1"),
        ("regtype", "SELECT oid FROM pg_catalog.pg_type WHERE typname = $1"),
        ("regproc", "SELECT oid FROM pg_catalog.pg_proc WHERE proname = $1"),
    ]
}

/// `s` without a leading `prefix`.
pub open spec fn strip_prefix(s: Seq<char>, prefix: Seq<char>) -> Seq<char> {
    if prefix.is_prefix_of(s) {
        s.skip(prefix.len() as int)
    } else {
        s
    }
}

/// A lookup query with `operand` in the place of each placeholder.
pub open spec fn instantiated(template: NodeV, operand: NodeV) -> NodeV
    decreases template,
{
    if template.head is Placeholder {
        operand
    } else {
        NodeV {
            head: template.head,
            tag: template.tag,
            kids: Seq::new(
                template.kids.len(),
                |i: int|
                    if 0 <= i < template.kids.len() {
                        instantiated(template.kids[i], operand)
                    } else {
                        arbitrary()
                    },
            ),
        }
    }
}

/// True of the operands that the rule rewrites.
pub open spec fn is_name(n: NodeV) -> bool {
    n.head is SingleQuotedString || n.head is Placeholder
}

/// What the rule makes of the cast of a name whose lookup query is `template`.
pub open spec fn looked_up(template: NodeV, operand: NodeV) -> NodeV {
    match operand.head {
        HeadV::SingleQuotedString(s) if text::is_digits(s) => tree::leaf_view(HeadV::Number(s)),
        _ => NodeV {
            head: HeadV::Subquery,
            tag: NEW_NODE,
            kids: seq![instantiated(template, operand)],
        },
    }
}

/// The query that a text is, where it is one, with its parts.
pub open spec fn lookup_query(sql: Seq<char>, before: nat) -> Option<(NodeV, Seq<Part>)> {
    match tokens::written_trees(sql, before) {
        Some((trees, parts)) => if trees.len() > 0 && trees[0].head is QueryStatement
            && trees[0].kids.len() > 0 {
            Some((trees[0].kids[0], parts))
        } else {
            None
        },
        None => None,
    }
}

/// The queries that texts are, where all of them are, with their parts in order. The nodes
/// of each query are numbered behind the parts of the queries before it.
pub open spec fn lookup_queries(texts: Seq<Seq<char>>) -> Option<(Seq<NodeV>, Seq<Part>)>
    decreases texts.len(),
{
    if texts.len() == 0 {
        Some((Seq::empty(), Seq::empty()))
    } else {
        match lookup_queries(texts.drop_last()) {
            Some((queries, before)) => match lookup_query(texts.last(), before.len()) {
                Some((query, parts)) => Some((queries.push(query), before + parts)),
                None => None,
            },
            None => None,
        }
    }
}

proof fn lemma_lookup_prefix(texts: Seq<Seq<char>>, i: int)
    requires
        0 <= i <= texts.len(),
        lookup_queries(texts.take(i)) is None,
    ensures
        lookup_queries(texts) is None,
    decreases texts.len() - i,
{
    if i < texts.len() {
        assert(texts.take(i + 1).drop_last() == texts.take(i));
        lemma_lookup_prefix(texts, i + 1);
    } else {
        assert(texts.take(i) == texts);
    }
}

fn look_up(sql: &str, before: usize) -> (r: Result<(Node, Vec<Part>), ParseError>)
    ensures
        match (r, lookup_query(sql@, before as nat)) {
            (Ok((query, parts)), Some((q, p))) => query@ == q && parts@ == p,
            (Err(error), None) => (error is Sql) == (tokens::written_trees(sql@, before as nat)
                is None),
            _ => false,
        },
{
    let ParsedTrees { mut trees, parts } = match tokens::trees_of(sql, before) {
        Ok(parsed) => parsed,
        Err(error) => {
            return Err(error);
        },
    };
    if trees.len() == 0 {
        return Err(ParseError::NoQuery);
    }
    let statement = trees.swap_remove(0);
    proof {
        tree::lemma_model(statement);
    }
    let Node { head, tag: _, mut kids } = statement;
    match head {
        Head::QueryStatement => if kids.len() > 0 {
            Ok((kids.swap_remove(0), parts))
        } else {
            Err(ParseError::NoQuery)
        },
        _ => Err(ParseError::NoQuery),
    }
}

fn append(out: &mut Vec<Part>, more: Vec<Part>)
    ensures
        final(out)@ == old(out)@ + more@,
{
    let mut more = more;
    out.append(&mut more);
}

impl RewriteRegCastToSubquery {
    /// The lookup query of a type that is given by its bare name in lower case.
    pub closed spec fn template(&self, name: Seq<char>) -> Option<NodeV> {
        if name == "regclass"@ {
            Some(self.regclass@)
        } else if name == "regnamespace"@ {
            Some(self.regnamespace@)
        } else if name == "regtype"@ {
            Some(self.regtype@)
        } else if name == "regproc"@ {
            Some(self.regproc@)
        } else {
            None
        }
    }

    /// What the rule makes of a construct where `lowered` is, of a cast, the text
    /// of its type in lower case.
    pub open spec fn resolved(&self, n: NodeV, lowered: Seq<char>) -> NodeV {
        if n.head is Cast && n.kids.len() > 0 && is_name(n.kids[0]) {
            match self.template(strip_prefix(lowered, "pg_catalog."@)) {
                Some(template) => looked_up(template, n.kids[0]),
                None => n,
            }
        } else {
            n
        }
    }

    /// What the lookup queries hold beside what the rules read.
    pub closed spec fn parts_view(&self) -> Seq<Part> {
        self.parts@
    }

    /// True when the lookup queries are those of the given texts, and so are their parts.
    pub open spec fn looks_up(&self, texts: Seq<Seq<char>>) -> bool {
        lookup_queries(texts) == Some(
            (
                seq![
                    self.template("regclass"@)->0,
                    self.template("regnamespace"@)->0,
                    self.template("regtype"@)->0,
                    self.template("regproc"@)->0,
                ],
                self.parts_view(),
            ),
        )
    }

    /// A rule with the lookup queries of the four types. There is an error where one of
    /// their texts is no query.
    pub fn new() -> (r: Result<Self, ParseError>)
        ensures
            match r {
                Ok(rule) => rule.looks_up(lookup_texts()) && forall|name: Seq<char>| #[trigger]
                    rule.template(name) is Some <==> name == "regclass"@ || name
                        == "regnamespace"@ || name == "regtype"@ || name == "regproc"@,
                Err(_) => lookup_queries(lookup_texts()) is None,
            },
    {
        let specs = reg_cast_specs();
        let mut queries: Vec<Node> = Vec::new();
        let mut parts: Vec<Part> = Vec::new();
        let mut i: usize = 0;
        proof {
            assert(lookup_texts().take(0) == Seq::<Seq<char>>::empty());
            assert(parts@ == Seq::<Part>::empty());
            assert(tree::nodes_view(queries@) == Seq::<NodeV>::empty());
        }
        while i < specs.len()
            invariant
                i <= specs@.len() == 4,
                queries@.len() == i,
                forall|j: int| 0 <= j < 4 ==> (#[trigger] specs@[j]).1@ == lookup_texts()[j],
                lookup_queries(lookup_texts().take(i as int)) == Some(
                    (tree::nodes_view(queries@), parts@),
                ),
            decreases specs@.len() - i,
        {
            let (_, sql) = specs[i];
            proof {
                assert(specs@[i as int].1@ == lookup_texts()[i as int]);
                assert(lookup_texts().take(i + 1).drop_last() == lookup_texts().take(i as int));
                if lookup_query(sql@, parts@.len()) is None {
                    lemma_lookup_prefix(lookup_texts(), i + 1);
                }
            }
            let (query, kept) = match look_up(sql, parts.len()) {
                Ok(found) => found,
                Err(error) => {
                    return Err(error);
                },
            };
            let ghost before = queries@;
            append(&mut parts, kept);
            queries.push(query);
            assert(tree::nodes_view(queries@) == tree::nodes_view(before).push(query@));
            i += 1;
        }
        proof {
            assert(lookup_texts().take(4) == lookup_texts());
            reveal_strlit("regclass");
            reveal_strlit("regnamespace");
            reveal_strlit("regtype");
            reveal_strlit("regproc");
            assert("regclass"@.len() == 8);
            assert("regnamespace"@.len() == 12);
            assert("regtype"@.len() == 7);
            assert("regproc"@.len() == 7);
            assert("regtype"@[3] != "regproc"@[3]);
        }
        let ghost all = tree::nodes_view(queries@);
        let regproc = queries.pop().unwrap();
        let regtype = queries.pop().unwrap();
        let regnamespace = queries.pop().unwrap();
        let regclass = queries.pop().unwrap();
        let rule = RewriteRegCastToSubquery { regclass, regnamespace, regtype, regproc, parts };
        assert(all == seq![regclass@, regnamespace@, regtype@, regproc@]);
        Ok(rule)
    }

    /// What the lookup queries hold beside what the rules read.
    pub fn parts(&self) -> (r: &Vec<Part>)
        ensures
            r@ == self.parts_view(),
    {
        &self.parts
    }

    fn find_template(&self, name: &str) -> (r: Option<&Node>)
        ensures
            match r {
                Some(t) => self.template(name@) == Some(t@),
                None => self.template(name@) is None,
            },
    {
        if text::same(name, "regclass") {
            Some(&self.regclass)
        } else if text::same(name, "regnamespace") {
            Some(&self.regnamespace)
        } else if text::same(name, "regtype") {
            Some(&self.regtype)
        } else if text::same(name, "regproc") {
            Some(&self.regproc)
        } else {
            None
        }
    }

    /// Rewrites a cast of a name, where `lowered` is the text of the cast's type
    /// in lower case. Every other construct is kept.
    pub fn resolve(&self, n: Node, lowered: &str) -> (r: Node)
        ensures
            r@ == self.resolved(n@, lowered@),
    {
        proof {
            tree::lemma_model(n);
        }
        let cast = match &n.head {
            Head::Cast { .. } => true,
            _ => false,
        };
        if !cast || n.kids.len() == 0 || !is_name_operand(&n.kids[0]) {
            return n;
        }
        let name = without_prefix(lowered, "pg_catalog.");
        match self.find_template(name.as_str()) {
            Some(template) => {
                if let Some(number) = numeric_string_to_literal(&n.kids[0]) {
                    return number;
                }
                let r = create_subquery(template, &n.kids[0]);
                r
            },
            None => n,
        }
    }
}

fn without_prefix(s: &str, prefix: &str) -> (r: String)
    ensures
        r@ == strip_prefix(s@, prefix@),
{
    let v = text::chars_of(s);
    let p = text::chars_of(prefix);
    if v.len() < p.len() {
        return s.to_owned();
    }
    let mut i: usize = 0;
    while i < p.len()
        invariant
            i <= p@.len() <= v@.len(),
            p@ == prefix@,
            v@ == s@,
            forall|j: int| 0 <= j < i ==> p@[j] == v@[j],
        decreases p@.len() - i,
    {
        if v[i] != p[i] {
            assert(!prefix@.is_prefix_of(s@)) by {
                assert(s@.take(prefix@.len() as int)[i as int] != prefix@[i as int]);
            }
            return s.to_owned();
        }
        i += 1;
    }
    assert(prefix@ == s@.take(prefix@.len() as int));
    assert(s@.skip(prefix@.len() as int) == s@.subrange(prefix@.len() as int, s@.len() as int));
    text::text_of(&v, p.len(), v.len())
}

fn is_name_operand(n: &Node) -> (r: bool)
    ensures
        r == is_name(n@),
{
    proof {
        tree::lemma_model(*n);
    }
    match &n.head {
        Head::SingleQuotedString(_) | Head::Placeholder(_) => true,
        _ => false,
    }
}

fn numeric_string_to_literal(operand: &Node) -> (r: Option<Node>)
    ensures
        match operand@.head {
            HeadV::SingleQuotedString(s) if text::is_digits(s) => r is Some && r->0@
                == tree::leaf_view(HeadV::Number(s)),
            _ => r is None,
        },
{
    proof {
        tree::lemma_model(*operand);
    }
    match &operand.head {
        Head::SingleQuotedString(s) => {
            if text::digits(s.as_str()) {
                Some(Node::leaf(Head::Number(s.clone())))
            } else {
                None
            }
        },
        _ => None,
    }
}

fn instantiate(template: &Node, operand: &Node) -> (r: Node)
    ensures
        r@ == instantiated(template@, operand@),
    decreases template,
{
    proof {
        tree::lemma_model(*template);
    }
    let placeholder = match &template.head {
        Head::Placeholder(_) => true,
        _ => false,
    };
    if placeholder {
        return operand.copy();
    }
    let mut kids: Vec<Node> = Vec::new();
    let mut i: usize = 0;
    while i < template.kids.len()
        invariant
            i <= template.kids@.len(),
            kids@.len() == i,
            forall|j: int|
                0 <= j < i ==> (#[trigger] kids@[j])@ == instantiated(
                    template.kids@[j]@,
                    operand@,
                ),
        decreases template.kids@.len() - i,
    {
        let kid = instantiate(&template.kids[i], operand);
        kids.push(kid);
        i += 1;
    }
    let r = Node { head: template.head.copy(), tag: template.tag, kids };
    proof {
        tree::lemma_model(r);
        assert(r@.kids == instantiated(template@, operand@).kids);
    }
    r
}

fn create_subquery(template: &Node, operand: &Node) -> (r: Node)
    ensures
        r@ == (NodeV {
            head: HeadV::Subquery,
            tag: NEW_NODE,
            kids: seq![instantiated(template@, operand@)],
        }),
{
    let mut kids: Vec<Node> = Vec::new();
    kids.push(instantiate(template, operand));
    let r = Node { head: Head::Subquery, tag: NEW_NODE, kids };
    proof {
        tree::lemma_model(r);
        assert(r@.kids == seq![instantiated(template@, operand@)]);
    }
    r
}

impl NodeRule for RewriteRegCastToSubquery {
    open spec fn step(&self, n: NodeV) -> NodeV {
        match n.head {
            HeadV::Cast { data_type, .. } => self.resolved(n, text::lowered(data_type.text)),
            _ => n,
        }
    }

    fn apply(&self, n: Node) -> (r: Node) {
        proof {
            tree::lemma_model(n);
        }
        let lowered = match &n.head {
            Head::Cast { data_type, .. } => text::to_lowercase(data_type.text.as_str()),
            _ => {
                return n;
            },
        };
        self.resolve(n, lowered.as_str())
    }
}

impl SqlStatementRewriteRule for RewriteRegCastToSubquery {
    open spec fn rewritten(&self, s: NodeV) -> NodeV {
        bottom_up(*self, s)
    }

    fn rewrite(&self, s: Node) -> (r: Node) {
        rewrite_tree(self, s)
    }
}

/// The text that finds the oid of a name of a type: in the relation of tables, of schemas, of
/// types or of functions. A table is looked up in its schema, or else in the current one.
pub open spec fn lookup_text_of(name: Seq<char>) -> Option<Seq<char>> {
    if name == "regclass"@ {
        Some(
            "SELECT c.oid FROM pg_catalog.pg_class c JOIN pg_catalog.pg_namespace n ON c.relnamespace = n.oid CROSS JOIN (SELECT parse_ident($1::TEXT) AS parts) WHERE array_length(parts, 1) IN (1, 2) AND ((array_length(parts, 1) = 1 AND n.nspname = current_schema() AND c.relname = parts[1]) OR (array_length(parts, 1) = 2 AND n.nspname = parts[1] AND c.relname = parts[2]))"@,
        )
    } else if name == "regnamespace"@ {
        Some("SELECT oid FROM pg_catalog.pg_namespace WHERE nspname = $1"@)
    } else if name == "regtype"@ {
        Some("SELECT oid FROM pg_catalog.pg_type WHERE typname = $1"@)
    } else if name == "regproc"@ {
        Some("SELECT oid FROM pg_catalog.pg_proc WHERE proname = $1"@)
    } else {
        None
    }
}

/// True of the query that a text is as a statement, its nodes numbered from `before` on.
pub open spec fn is_query_of(query: NodeV, sql: Seq<char>, before: nat) -> bool {
    tokens::written_trees(sql, before) matches Some((trees, _)) && trees.len() > 0
        && trees[0].head is QueryStatement && trees[0].kids.len() > 0 && query == trees[0].kids[0]
}

/// The lookup query of a type is that of its text, and no other type has one.
pub proof fn law_names_are_looked_up(rule: RewriteRegCastToSubquery, name: Seq<char>)
    requires
        rule.looks_up(lookup_texts()),
    ensures
        match (rule.template(name), lookup_text_of(name)) {
            (Some(query), Some(sql)) => exists|before: nat| is_query_of(query, sql, before),
            (None, None) => true,
            _ => false,
        },
{
    reveal_strlit("regclass");
    reveal_strlit("regnamespace");
    reveal_strlit("regtype");
    reveal_strlit("regproc");
    assert("regclass"@.len() == 8 && "regnamespace"@.len() == 12);
    assert("regtype"@.len() == 7 && "regtype"@[3] == 't');
    assert("regproc"@.len() == 7 && "regproc"@[3] == 'p');
    let texts = lookup_texts();
    let three = texts.drop_last();
    let two = three.drop_last();
    let one = two.drop_last();
    let none = one.drop_last();
    assert(none.len() == 0);
    assert(lookup_queries(none) == Some((Seq::<NodeV>::empty(), Seq::<Part>::empty())));
    let q1 = lookup_queries(one)->0;
    let q2 = lookup_queries(two)->0;
    let q3 = lookup_queries(three)->0;
    let q4 = lookup_queries(texts)->0;
    assert(texts.last() == texts[3]);
    assert(three.last() == texts[2]);
    assert(two.last() == texts[1]);
    assert(one.last() == texts[0]);
    assert(q4.0[3] == rule.template("regproc"@)->0);
    assert(q4.0[2] == q3.0[2] && q3.0[2] == rule.template("regtype"@)->0);
    assert(q4.0[1] == q2.0[1] && q2.0[1] == rule.template("regnamespace"@)->0);
    assert(q4.0[0] == q1.0[0] && q1.0[0] == rule.template("regclass"@)->0);
    assert(is_query_of(q4.0[3], texts[3], q3.1.len()));
    assert(is_query_of(q3.0[2], texts[2], q2.1.len()));
    assert(is_query_of(q2.0[1], texts[1], q1.1.len()));
    assert(is_query_of(q1.0[0], texts[0], 0));
    if name == "regclass"@ {
        assert(is_query_of(rule.template(name)->0, lookup_text_of(name)->0, 0));
    } else if name == "regnamespace"@ {
        assert(is_query_of(rule.template(name)->0, lookup_text_of(name)->0, q1.1.len()));
    } else if name == "regtype"@ {
        assert(is_query_of(rule.template(name)->0, lookup_text_of(name)->0, q2.1.len()));
    } else if name == "regproc"@ {
        assert(is_query_of(rule.template(name)->0, lookup_text_of(name)->0, q3.1.len()));
    }
}

} // verus!
