//! The trees of parsed statements.
//!
//! A statement of the SQL parser is taken apart construct by construct. The node of a
//! construct has a head with what the rules read of it; what else it holds is kept as a
//! [`Part`], which the node's tag finds again.
//!
//! The types of the SQL parser are opaque here. The functions that read them convert
//! their fields one by one, and nothing is claimed of a single one of them: what they come
//! to together is the tree of a statement, which [`crate::sql::tokens`] has a name for.
use crate::sql::tree::{
    ArrayElem, BinaryOperator, CastType, FunctionArguments, Head, Ident, IdentV, NamePart, Node,
    Quote,
};
use sqlparser::ast;
use sqlparser::ast::Visit;
use std::ops::ControlFlow;
use vstd::prelude::*;

verus! {

/// A statement of the SQL parser. It is carried through as it is.
#[verifier::external_type_specification]
#[verifier::external_body]
pub struct ExStatement(sqlparser::ast::Statement);

/// A query of the SQL parser. It is carried through as it is.
#[verifier::external_type_specification]
#[verifier::external_body]
pub struct ExQuery(sqlparser::ast::Query);

/// The body of a query of the SQL parser. It is carried through as it is.
#[verifier::external_type_specification]
#[verifier::external_body]
pub struct ExSetExpr(sqlparser::ast::SetExpr);

/// A `SELECT` of the SQL parser. It is carried through as it is.
#[verifier::external_type_specification]
#[verifier::external_body]
pub struct ExSelect(sqlparser::ast::Select);

/// A select item of the SQL parser. It is carried through as it is.
#[verifier::external_type_specification]
#[verifier::external_body]
pub struct ExSelectItem(sqlparser::ast::SelectItem);

/// A relation and its joins, of the SQL parser. They are carried through as they are.
#[verifier::external_type_specification]
#[verifier::external_body]
pub struct ExTableWithJoins(sqlparser::ast::TableWithJoins);

/// A join of the SQL parser. It is carried through as it is.
#[verifier::external_type_specification]
#[verifier::external_body]
pub struct ExJoin(sqlparser::ast::Join);

/// A relation of the SQL parser. It is carried through as it is.
#[verifier::external_type_specification]
#[verifier::external_body]
pub struct ExTableFactor(sqlparser::ast::TableFactor);

/// An `ORDER BY` of the SQL parser. It is carried through as it is.
#[verifier::external_type_specification]
#[verifier::external_body]
pub struct ExOrderBy(sqlparser::ast::OrderBy);

/// A limit clause of the SQL parser. It is carried through as it is.
#[verifier::external_type_specification]
#[verifier::external_body]
pub struct ExLimitClause(sqlparser::ast::LimitClause);

/// An expression of the SQL parser. It is carried through as it is.
#[verifier::external_type_specification]
#[verifier::external_body]
pub struct ExExpr(sqlparser::ast::Expr);

/// A part of a name of the SQL parser. It is carried through as it is.
#[verifier::external_type_specification]
#[verifier::external_body]
pub struct ExObjectNamePart(sqlparser::ast::ObjectNamePart);

/// A name of the SQL parser. It is carried through as it is.
#[verifier::external_type_specification]
#[verifier::external_body]
pub struct ExObjectName(sqlparser::ast::ObjectName);

/// `Expr::clone`, which is derived: the copy is the same expression.
pub assume_specification[ <sqlparser::ast::Expr as Clone>::clone ](
    expr: &sqlparser::ast::Expr,
) -> (r: sqlparser::ast::Expr)
    ensures
        r == *expr,
;

/// `Query::clone`, which is derived: the copy is the same query.
pub assume_specification[ <sqlparser::ast::Query as Clone>::clone ](
    query: &sqlparser::ast::Query,
) -> (r: sqlparser::ast::Query)
    ensures
        r == *query,
;

/// `TableFactor::clone`, which is derived: the copy is the same relation.
pub assume_specification[ <sqlparser::ast::TableFactor as Clone>::clone ](
    factor: &sqlparser::ast::TableFactor,
) -> (r: sqlparser::ast::TableFactor)
    ensures
        r == *factor,
;

/// A construct of a statement as the SQL parser made it.
#[derive(Debug)]
pub enum Part {
    Statement(ast::Statement),
    Query(ast::Query),
    /// The body of a query.
    Body(ast::SetExpr),
    /// One row of `VALUES`.
    Row(Vec<ast::Expr>),
    Item(ast::SelectItem),
    /// A relation and its joins.
    Tables(ast::TableWithJoins),
    Join(ast::Join),
    Factor(ast::TableFactor),
    /// The `WHERE` clause of a select.
    Selection(ast::Expr),
    /// A select without its items, its tables and its `WHERE` clause.
    Clauses(ast::Select),
    OrderBy(ast::OrderBy),
    Limit(ast::LimitClause),
    Expr(ast::Expr),
    /// A part of a name that is known by a number.
    Name(ast::ObjectNamePart),
}

/// The parts of the statements that are taken apart. Numbers up to `before` stand for
/// parts that are kept elsewhere.
pub(crate) struct Kept {
    pub(crate) before: usize,
    pub(crate) parts: Vec<Part>,
}

impl Kept {
    /// Keeps a part, and gives its number.
    fn keep(&mut self, part: Part) -> (r: u64)
        ensures
            final(self).parts@ == old(self).parts@.push(part),
            final(self).before == old(self).before,
            old(self).before + old(self).parts@.len() < u64::MAX ==> r == old(self).before + old(
                self,
            ).parts@.len() + 1,
    {
        let tag = (self.before as u64).wrapping_add(self.parts.len() as u64).wrapping_add(1);
        self.parts.push(part);
        tag
    }
}

/// Collects the expressions, queries and relations at one level of a construct.
pub struct Collector {
    depth: u64,
    level: u64,
    found: Vec<Part>,
}

impl Collector {
    /// What was collected.
    pub closed spec fn collected(self) -> Seq<Part> {
        self.found@
    }

    /// What is collected after a construct at the current depth.
    pub closed spec fn with(self, part: Part) -> Seq<Part> {
        if self.depth == self.level {
            self.found@.push(part)
        } else {
            self.found@
        }
    }

    fn enter(&mut self) -> (r: bool)
        ensures
            r == (old(self).depth == old(self).level),
            final(self).found@ == old(self).found@,
            final(self).level == old(self).level,
            final(self).depth == old(self).depth + 1 || final(self).depth == u64::MAX,
    {
        let here = self.depth == self.level;
        if self.depth < u64::MAX {
            self.depth += 1;
        }
        here
    }

    fn leave(&mut self)
        ensures
            final(self).found@ == old(self).found@,
            final(self).level == old(self).level,
            final(self).depth == old(self).depth - 1 || final(self).depth == 0,
    {
        if self.depth > 0 {
            self.depth -= 1;
        }
    }
}

impl ast::Visitor for Collector {
    type Break = ();

    fn pre_visit_expr(&mut self, expr: &ast::Expr) -> (r: ControlFlow<()>)
        ensures
            final(self).collected() == old(self).with(Part::Expr(*expr)),
    {
        if self.enter() {
            self.found.push(Part::Expr(expr.clone()));
        }
        ControlFlow::Continue(())
    }

    fn post_visit_expr(&mut self, _expr: &ast::Expr) -> (r: ControlFlow<()>)
        ensures
            final(self).collected() == old(self).collected(),
    {
        self.leave();
        ControlFlow::Continue(())
    }

    fn pre_visit_query(&mut self, query: &ast::Query) -> (r: ControlFlow<()>)
        ensures
            final(self).collected() == old(self).with(Part::Query(*query)),
    {
        if self.enter() {
            self.found.push(Part::Query(query.clone()));
        }
        ControlFlow::Continue(())
    }

    fn post_visit_query(&mut self, _query: &ast::Query) -> (r: ControlFlow<()>)
        ensures
            final(self).collected() == old(self).collected(),
    {
        self.leave();
        ControlFlow::Continue(())
    }

    fn pre_visit_table_factor(&mut self, factor: &ast::TableFactor) -> (r: ControlFlow<()>)
        ensures
            final(self).collected() == old(self).with(Part::Factor(*factor)),
    {
        if self.enter() {
            self.found.push(Part::Factor(factor.clone()));
        }
        ControlFlow::Continue(())
    }

    fn post_visit_table_factor(&mut self, _factor: &ast::TableFactor) -> (r: ControlFlow<()>)
        ensures
            final(self).collected() == old(self).collected(),
    {
        self.leave();
        ControlFlow::Continue(())
    }
}

/// `Visit::visit` of a part that the visitor is called at itself, and at each expression,
/// query and relation in it: those directly inside it, in their order.
#[verifier::external_body]
fn below(part: &Part) -> Vec<Part> {
    let mut collector = Collector { depth: 0, level: 1, found: vec![] };
    let _ = match part {
        Part::Query(v) => v.visit(&mut collector),
        Part::Factor(v) => v.visit(&mut collector),
        Part::Expr(v) => v.visit(&mut collector),
        _ => ControlFlow::Continue(()),
    };
    collector.found
}

/// `Visit::visit` of a part that the visitor is not called at, but at each expression,
/// query and relation in it: those directly inside it, in their order.
#[verifier::external_body]
fn inner(part: &Part) -> Vec<Part> {
    let mut collector = Collector { depth: 0, level: 0, found: vec![] };
    let _ = match part {
        Part::Statement(v) => v.visit(&mut collector),
        Part::Body(v) => v.visit(&mut collector),
        Part::Item(v) => v.visit(&mut collector),
        Part::Join(v) => v.visit(&mut collector),
        Part::Clauses(v) => v.visit(&mut collector),
        Part::OrderBy(v) => v.visit(&mut collector),
        Part::Limit(v) => v.visit(&mut collector),
        _ => ControlFlow::Continue(()),
    };
    collector.found
}

/// The constructs directly inside an `ast::Statement`. The source of an `ast::Insert`
/// comes first.
#[verifier::external_body]
fn statement_parts(statement: &ast::Statement) -> Vec<Part> {
    match statement {
        ast::Statement::Query(query) => vec![Part::Query((**query).clone())],
        ast::Statement::Insert(insert) => {
            let rest = ast::Insert { source: None, ..insert.clone() };
            let source = insert.source.iter().map(|query| Part::Query((**query).clone()));
            source.chain(inner(&Part::Statement(ast::Statement::Insert(rest)))).collect()
        },
        other => inner(&Part::Statement(other.clone())),
    }
}

/// The constructs directly inside an `ast::Query`: its body, its order and its limit come first.
#[verifier::external_body]
fn query_parts(query: &ast::Query) -> Vec<Part> {
    let mut rest = query.clone();
    let none = ast::Values { explicit_row: false, value_keyword: false, rows: vec![] };
    let body = std::mem::replace(&mut *rest.body, ast::SetExpr::Values(none));
    let mut parts = vec![Part::Body(body)];
    parts.extend(rest.order_by.take().map(Part::OrderBy));
    parts.extend(rest.limit_clause.take().map(Part::Limit));
    parts.extend(below(&Part::Query(rest)));
    parts
}

/// The constructs directly inside an `ast::SetExpr`: of a select its items, its tables,
/// its `WHERE` clause and the rest, and of `VALUES` its rows.
#[verifier::external_body]
fn body_parts(body: &ast::SetExpr) -> Vec<Part> {
    match body {
        ast::SetExpr::Select(select) => {
            let mut rest = (**select).clone();
            let mut parts: Vec<Part> = rest.projection.drain(..).map(Part::Item).collect();
            parts.extend(rest.from.drain(..).map(Part::Tables));
            parts.extend(rest.selection.take().map(Part::Selection));
            parts.push(Part::Clauses(rest));
            parts
        },
        ast::SetExpr::Values(v) => v.rows.iter().map(|r| Part::Row(r.content.clone())).collect(),
        other => inner(&Part::Body(other.clone())),
    }
}

/// The relation and the joins of an `ast::TableWithJoins`.
#[verifier::external_body]
fn table_parts(tables: &ast::TableWithJoins) -> Vec<Part> {
    let mut parts = vec![Part::Factor(tables.relation.clone())];
    parts.extend(tables.joins.iter().cloned().map(Part::Join));
    parts
}

/// The constructs directly inside a part.
#[verifier::external_body]
fn parts_of(part: &Part) -> Vec<Part> {
    match part {
        Part::Statement(statement) => statement_parts(statement),
        Part::Query(query) => query_parts(query),
        Part::Body(body) => body_parts(body),
        Part::Row(row) => row.iter().cloned().map(Part::Expr).collect(),
        Part::Tables(tables) => table_parts(tables),
        Part::Selection(expr) => vec![Part::Expr(expr.clone())],
        Part::Factor(_) | Part::Expr(_) => below(part),
        _ => inner(part),
    }
}

/// The quotes that a character stands for.
pub open spec fn quotes(c: Option<char>) -> Option<Quote> {
    match c {
        Some('"') => Some(Quote::Double),
        Some('\'') => Some(Quote::Single),
        Some('`') => Some(Quote::Backtick),
        Some(_) => Some(Quote::Bracket),
        None => None,
    }
}

/// The quotes that a character stands for.
pub fn quote_style(c: Option<char>) -> (r: Option<Quote>)
    ensures
        r == quotes(c),
{
    match c {
        Some('"') => Some(Quote::Double),
        Some('\'') => Some(Quote::Single),
        Some('`') => Some(Quote::Backtick),
        Some(_) => Some(Quote::Bracket),
        None => None,
    }
}

/// The identifier with a text and the character that it is quoted with.
pub fn ident(value: String, quote: Option<char>) -> (r: Ident)
    ensures
        r@ == (IdentV { value: value@, quote_style: quotes(quote) }),
{
    Ident { value, quote_style: quote_style(quote) }
}

/// The parts of an `ast::ObjectName`. One that is no identifier is known by a number.
#[verifier::external_body]
fn name(name: &ast::ObjectName, kept: &mut Kept) -> Vec<NamePart> {
    let part = |part: &ast::ObjectNamePart| match part {
        ast::ObjectNamePart::Identifier(i) => NamePart::Identifier(ident(i.value.clone(), i.quote_style)),
        other => NamePart::Function(kept.keep(Part::Name(other.clone()))),
    };
    name.0.iter().map(part).collect()
}

/// The `ast::BinaryOperator` of a comparison.
#[verifier::external_body]
fn operator(expr: &ast::Expr, kept: &mut Kept) -> BinaryOperator {
    let op = match expr {
        ast::Expr::BinaryOp { op, .. } => op,
        ast::Expr::AnyOp { compare_op, .. } | ast::Expr::AllOp { compare_op, .. } => compare_op,
        _ => return BinaryOperator::Other(0),
    };
    match op {
        ast::BinaryOperator::Eq => BinaryOperator::Eq,
        ast::BinaryOperator::NotEq => BinaryOperator::NotEq,
        ast::BinaryOperator::PGCustomBinaryOperator(parts) => {
            BinaryOperator::PGCustomBinaryOperator(parts.clone())
        },
        _ => regex_operator(expr, kept),
    }
}

/// The `ast::BinaryOperator` of a comparison, where it is one of regular expressions.
/// Another one is known by the number of the comparison.
#[verifier::external_body]
fn regex_operator(expr: &ast::Expr, kept: &mut Kept) -> BinaryOperator {
    let op = match expr {
        ast::Expr::BinaryOp { op, .. } => op,
        ast::Expr::AnyOp { compare_op, .. } | ast::Expr::AllOp { compare_op, .. } => compare_op,
        _ => return BinaryOperator::Other(0),
    };
    match op {
        ast::BinaryOperator::PGRegexMatch => BinaryOperator::PGRegexMatch,
        ast::BinaryOperator::PGRegexIMatch => BinaryOperator::PGRegexIMatch,
        ast::BinaryOperator::PGRegexNotMatch => BinaryOperator::PGRegexNotMatch,
        ast::BinaryOperator::PGRegexNotIMatch => BinaryOperator::PGRegexNotIMatch,
        _ => BinaryOperator::Other(kept.keep(Part::Expr(expr.clone()))),
    }
}

/// The element of the `ast::DataType` of a cast, where that is an array.
#[verifier::external_body]
fn array_elem(cast: &ast::Expr) -> Option<ArrayElem> {
    let ast::Expr::Cast { data_type: ast::DataType::Array(array), .. } = cast else {
        return None;
    };
    let (ast::ArrayElemTypeDef::AngleBracket(elem) | ast::ArrayElemTypeDef::SquareBracket(elem, _)
    | ast::ArrayElemTypeDef::Parenthesis(elem)) = array else {
        return Some(ArrayElem::Untyped);
    };
    Some(match &**elem {
        ast::DataType::Text => ArrayElem::Text,
        ast::DataType::Varchar(_) => ArrayElem::Varchar,
        ast::DataType::Char(_) => ArrayElem::Char,
        ast::DataType::String(_) => ArrayElem::StringType,
        _ => ArrayElem::Other,
    })
}

/// The head of an `ast::Expr::Cast`. The text of its type is the type's `Display` form.
#[verifier::external_body]
fn cast_head(cast: &ast::Expr, kept: &mut Kept) -> Head {
    let ast::Expr::Cast { kind, data_type, .. } = cast else {
        return Head::Other;
    };
    let custom = match data_type {
        ast::DataType::Custom(custom, _) => Some(name(custom, kept)),
        _ => None,
    };
    Head::Cast {
        double_colon: matches!(kind, ast::CastKind::DoubleColon),
        data_type: CastType { text: data_type.to_string(), array: array_elem(cast), name: custom },
    }
}

/// The head of an `ast::Expr::Value`.
#[verifier::external_body]
fn value_head(expr: &ast::Expr) -> Head {
    let ast::Expr::Value(value) = expr else {
        return Head::Other;
    };
    match &value.value {
        ast::Value::SingleQuotedString(s) => Head::SingleQuotedString(s.clone()),
        ast::Value::Number(n, _) => Head::Number(n.to_string()),
        ast::Value::Placeholder(p) => Head::Placeholder(p.clone()),
        ast::Value::Null => Head::Null,
        _ => Head::Other,
    }
}

/// The head of an `ast::Expr::Function`.
#[verifier::external_body]
fn call_head(expr: &ast::Expr, kept: &mut Kept) -> Head {
    let ast::Expr::Function(function) = expr else {
        return Head::Other;
    };
    let args = match &function.args {
        ast::FunctionArguments::None => FunctionArguments::Absent,
        ast::FunctionArguments::Subquery(_) => FunctionArguments::Subquery,
        ast::FunctionArguments::List(list) => FunctionArguments::List(list.args.len() as u64),
    };
    Head::Function { name: name(&function.name, kept), args }
}

/// The head of an `ast::Expr` that is a comparison, or that is told apart by its kind.
#[verifier::external_body]
fn kind_head(expr: &ast::Expr, kept: &mut Kept) -> Head {
    match expr {
        ast::Expr::BinaryOp { .. } => Head::BinaryOp(operator(expr, kept)),
        ast::Expr::AnyOp { .. } => Head::AnyOp(operator(expr, kept)),
        ast::Expr::AllOp { .. } => Head::AllOp(operator(expr, kept)),
        ast::Expr::Collate { .. } => Head::Collate,
        ast::Expr::Subquery(_) => Head::Subquery,
        _ => value_head(expr),
    }
}

/// The head of an `ast::Expr`.
#[verifier::external_body]
fn expr_head(expr: &ast::Expr, kept: &mut Kept) -> Head {
    let part = |i: &ast::Ident| ident(i.value.clone(), i.quote_style);
    match expr {
        ast::Expr::Identifier(i) => Head::Identifier(part(i)),
        ast::Expr::CompoundIdentifier(v) => Head::CompoundIdentifier(v.iter().map(part).collect()),
        ast::Expr::Array(array) => Head::Array { named: array.named },
        ast::Expr::Function(_) => call_head(expr, kept),
        ast::Expr::Cast { .. } => cast_head(expr, kept),
        _ => kind_head(expr, kept),
    }
}

/// The identifiers of an `ast::SelectItem::QualifiedWildcard`.
#[verifier::external_body]
fn wildcard_name(item: &ast::SelectItem) -> Option<Vec<Ident>> {
    let part = |i: &ast::Ident| ident(i.value.clone(), i.quote_style);
    match item {
        ast::SelectItem::QualifiedWildcard(
            ast::SelectItemQualifiedWildcardKind::ObjectName(name),
            _,
        ) => name.0.iter().map(|p| p.as_ident().map(part)).collect(),
        _ => None,
    }
}

/// The head of an `ast::SelectItem`.
#[verifier::external_body]
fn item_head(item: &ast::SelectItem) -> Head {
    match item {
        ast::SelectItem::UnnamedExpr(_) => Head::UnnamedExpr,
        ast::SelectItem::ExprWithAlias { alias, .. } => Head::ExprWithAlias {
            alias: ident(alias.value.clone(), alias.quote_style),
        },
        ast::SelectItem::Wildcard(_) => Head::Wildcard,
        ast::SelectItem::QualifiedWildcard(..) => Head::QualifiedWildcard {
            name: wildcard_name(item),
        },
        _ => Head::Other,
    }
}

/// The head of an `ast::TableFactor`.
#[verifier::external_body]
fn factor_head(factor: &ast::TableFactor, kept: &mut Kept) -> Head {
    match factor {
        ast::TableFactor::Table { name: table, alias, args, .. } => Head::Table {
            name: name(table, kept),
            has_args: args.is_some(),
            alias: alias.as_ref().map(|a| ident(a.name.value.clone(), a.name.quote_style)),
        },
        _ => Head::Other,
    }
}

/// The head of an `ast::Statement`.
#[verifier::external_body]
fn statement_head(statement: &ast::Statement, kept: &mut Kept) -> Head {
    match statement {
        ast::Statement::Query(_) => Head::QueryStatement,
        ast::Statement::Insert(insert) => Head::Insert {
            table: match &insert.table {
                ast::TableObject::TableName(table) => Some(name(table, kept)),
                _ => None,
            },
            columns: insert.columns.iter().map(|column| name(column, kept)).collect(),
            has_source: insert.source.is_some(),
        },
        _ => Head::Other,
    }
}

/// The head of an `ast::SetExpr`.
#[verifier::external_body]
fn body_head(body: &ast::SetExpr) -> Head {
    match body {
        ast::SetExpr::Select(_) => Head::Select,
        ast::SetExpr::Values(_) => Head::Values,
        _ => Head::Other,
    }
}

/// The head of a part.
#[verifier::external_body]
fn head_of(part: &Part, kept: &mut Kept) -> Head {
    match part {
        Part::Statement(statement) => statement_head(statement, kept),
        Part::Query(query) => Head::Query { fetch: query.fetch.is_some() },
        Part::Body(body) => body_head(body),
        Part::Row(_) => Head::Row,
        Part::Item(item) => item_head(item),
        Part::Tables(_) => Head::TableWithJoins,
        Part::Join(_) => Head::Join,
        Part::Factor(factor) => factor_head(factor, kept),
        Part::Selection(_) => Head::Selection,
        Part::OrderBy(_) => Head::OrderBy,
        Part::Limit(_) => Head::Limit,
        Part::Expr(expr) => expr_head(expr, kept),
        _ => Head::Other,
    }
}

/// The tree of a part: its head, the trees of the constructs inside it, and the number
/// that it is kept by.
#[verifier::external_body]
pub(crate) fn node(part: Part, kept: &mut Kept) -> Node {
    let head = head_of(&part, kept);
    let kids = parts_of(&part).into_iter().map(|inside| node(inside, kept)).collect();
    Node { head, tag: kept.keep(part), kids }
}

} // verus!
