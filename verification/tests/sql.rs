use datafusion_postgres::encoder::Single;
use datafusion_postgres::pgvector::PgVectorInsertHook;
use datafusion_postgres::schema::{DataType, Field};
use datafusion_postgres::sql::parser::PostgresCompatibilityParser;
use datafusion_postgres::sql::parts::Part;
use datafusion_postgres::sql::projection::{
    AliasDuplicatedProjectionRewrite, RemoveSubqueryFromProjection, ResolveUnqualifiedIdentifier,
};
use datafusion_postgres::sql::rules::{
    CurrentUserVariableToSessionUserFunctionCall, FixArrayLiteral,
    FixVersionColumnName, PrependUnqualifiedPgTableName, RewriteArrayAnyAllOperation,
    RewritePgCatalogOperator, RewriteRegCastToSubquery, SqlStatementRewriteRule,
    StripCallableQualifier, StripCollate,
};
use datafusion_postgres::sql::tokens::trees_of;
use datafusion_postgres::sql::tree::{
    BinaryOperator, FunctionArguments, Head, Ident, NamePart, Node, Quote,
};
use datafusion_postgres::sql::vector_insert::{
    insert_target, rewrite_vector_insert, vector_items, TableReference,
};
use sqlparser::ast;
use sqlparser::ast::{VisitMut, VisitorMut};
use sqlparser::dialect::PostgreSqlDialect;
use sqlparser::parser::Parser;
use std::ops::ControlFlow;

/// A construct inside another one.
enum Inner {
    Expr(ast::Expr),
    Query(ast::Query),
    Factor(ast::TableFactor),
}

/// Puts constructs into the places of those at one level of a construct.
struct Fill {
    depth: u64,
    level: u64,
    items: std::vec::IntoIter<Inner>,
}

impl Fill {
    fn enter(&mut self) -> ControlFlow<()> {
        self.depth += 1;
        ControlFlow::Continue(())
    }

    fn leave(&mut self) -> bool {
        self.depth -= 1;
        self.depth == self.level
    }
}

impl VisitorMut for Fill {
    type Break = ();

    fn pre_visit_expr(&mut self, _expr: &mut ast::Expr) -> ControlFlow<()> {
        self.enter()
    }

    fn post_visit_expr(&mut self, expr: &mut ast::Expr) -> ControlFlow<()> {
        if self.leave() {
            match self.items.next() {
                Some(Inner::Expr(e)) => *expr = e,
                _ => panic!("an expression is missing"),
            }
        }
        ControlFlow::Continue(())
    }

    fn pre_visit_query(&mut self, _query: &mut ast::Query) -> ControlFlow<()> {
        self.enter()
    }

    fn post_visit_query(&mut self, query: &mut ast::Query) -> ControlFlow<()> {
        if self.leave() {
            match self.items.next() {
                Some(Inner::Query(q)) => *query = q,
                _ => panic!("a query is missing"),
            }
        }
        ControlFlow::Continue(())
    }

    fn pre_visit_table_factor(&mut self, _factor: &mut ast::TableFactor) -> ControlFlow<()> {
        self.enter()
    }

    fn post_visit_table_factor(&mut self, factor: &mut ast::TableFactor) -> ControlFlow<()> {
        if self.leave() {
            match self.items.next() {
                Some(Inner::Factor(f)) => *factor = f,
                _ => panic!("a relation is missing"),
            }
        }
        ControlFlow::Continue(())
    }
}

fn ast_ident(ident: &Ident) -> ast::Ident {
    let value = ident.value.clone();
    match ident.quote_style {
        Some(Quote::Double) => ast::Ident::with_quote('"', value),
        Some(Quote::Single) => ast::Ident::with_quote('\'', value),
        Some(Quote::Backtick) => ast::Ident::with_quote('`', value),
        Some(Quote::Bracket) => ast::Ident::with_quote('[', value),
        None => ast::Ident::new(value),
    }
}

fn no_body() -> ast::SetExpr {
    ast::SetExpr::Values(ast::Values { explicit_row: false, value_keyword: false, rows: vec![] })
}

/// The parts of statements, by the numbers of the nodes: those of the lookup queries, and
/// those of the statements themselves.
#[derive(Clone, Copy)]
pub struct Statements<'a> {
    pub before: &'a [Part],
    pub parts: &'a [Part],
}

impl Statements<'_> {
    fn part(&self, tag: u64) -> &Part {
        let i = tag as usize - 1;
        match self.before.get(i) {
            Some(part) => part,
            None => &self.parts[i - self.before.len()],
        }
    }

    fn name(&self, name: &[NamePart]) -> ast::ObjectName {
        let part = |part: &NamePart| match part {
            NamePart::Identifier(ident) => ast::ObjectNamePart::Identifier(ast_ident(ident)),
            NamePart::Function(tag) => match self.part(*tag) {
                Part::Name(part) => part.clone(),
                other => panic!("{other:?}"),
            },
        };
        ast::ObjectName(name.iter().map(part).collect())
    }

    fn fill<V: VisitMut>(&self, value: &mut V, level: u64, kids: &[Node]) {
        let items: Vec<Inner> = kids
            .iter()
            .map(|kid| match &kid.head {
                Head::Query { .. } => Inner::Query(self.query(kid)),
                Head::Table { .. } => Inner::Factor(self.factor(kid)),
                Head::Other if kid.tag != 0 && matches!(self.part(kid.tag), Part::Factor(_)) => {
                    Inner::Factor(self.factor(kid))
                }
                _ => Inner::Expr(self.expr(kid)),
            })
            .collect();
        let mut fill = Fill { depth: 0, level, items: items.into_iter() };
        let _ = value.visit(&mut fill);
        assert!(fill.items.next().is_none());
    }

    /// The statement of a tree.
    pub fn statement(&self, node: &Node) -> ast::Statement {
        let mut statement = match self.part(node.tag) {
            Part::Statement(statement) => statement.clone(),
            other => panic!("{other:?}"),
        };
        match &mut statement {
            ast::Statement::Query(query) => **query = self.query(&node.kids[0]),
            ast::Statement::Insert(insert) if insert.source.is_some() => {
                insert.source = None;
                let source = self.query(&node.kids[0]);
                self.fill(&mut statement, 0, &node.kids[1..]);
                if let ast::Statement::Insert(insert) = &mut statement {
                    insert.source = Some(Box::new(source));
                }
            }
            other => self.fill(other, 0, &node.kids),
        }
        statement
    }

    fn query(&self, node: &Node) -> ast::Query {
        let mut query = match self.part(node.tag) {
            Part::Query(query) => query.clone(),
            other => panic!("{other:?}"),
        };
        *query.body = no_body();
        query.order_by = None;
        query.limit_clause = None;
        let mut rest = vec![];
        let mut order_by = None;
        let mut limit_clause = None;
        for kid in &node.kids[1..] {
            match &kid.head {
                Head::OrderBy => order_by = Some(self.order_by(kid)),
                Head::Limit => limit_clause = Some(self.limit(kid)),
                _ => rest.push(kid.copy()),
            }
        }
        self.fill(&mut query, 1, &rest);
        *query.body = self.body(&node.kids[0]);
        query.order_by = order_by;
        query.limit_clause = limit_clause;
        query
    }

    fn order_by(&self, node: &Node) -> ast::OrderBy {
        let mut order_by = match self.part(node.tag) {
            Part::OrderBy(order_by) => order_by.clone(),
            other => panic!("{other:?}"),
        };
        self.fill(&mut order_by, 0, &node.kids);
        order_by
    }

    fn limit(&self, node: &Node) -> ast::LimitClause {
        if node.tag == 0 {
            let limit = Some(self.expr(&node.kids[0]));
            return ast::LimitClause::LimitOffset { limit, offset: None, limit_by: vec![] };
        }
        let mut limit = match self.part(node.tag) {
            Part::Limit(limit) => limit.clone(),
            other => panic!("{other:?}"),
        };
        self.fill(&mut limit, 0, &node.kids);
        limit
    }

    fn body(&self, node: &Node) -> ast::SetExpr {
        let mut body = match self.part(node.tag) {
            Part::Body(body) => body.clone(),
            other => panic!("{other:?}"),
        };
        match &mut body {
            ast::SetExpr::Select(select) => **select = self.select(node),
            ast::SetExpr::Values(values) => {
                let row = |row: &Node| ast::Parens {
                    opening_token: ast::helpers::attached_token::AttachedToken::empty(),
                    content: row.kids.iter().map(|e| self.expr(e)).collect(),
                    closing_token: ast::helpers::attached_token::AttachedToken::empty(),
                };
                values.rows = node.kids.iter().map(row).collect();
            }
            other => self.fill(other, 0, &node.kids),
        }
        body
    }

    fn select(&self, node: &Node) -> ast::Select {
        let clauses = node
            .kids
            .iter()
            .find(|kid| kid.tag != 0 && matches!(self.part(kid.tag), Part::Clauses(_)))
            .expect("the clauses of a select");
        let mut select = match self.part(clauses.tag) {
            Part::Clauses(select) => select.clone(),
            other => panic!("{other:?}"),
        };
        self.fill(&mut select, 0, &clauses.kids);
        for kid in &node.kids {
            match &kid.head {
                Head::TableWithJoins => select.from.push(ast::TableWithJoins {
                    relation: self.factor(&kid.kids[0]),
                    joins: kid.kids[1..].iter().map(|join| self.join(join)).collect(),
                }),
                Head::Selection => select.selection = Some(self.expr(&kid.kids[0])),
                Head::UnnamedExpr => {
                    let expr = self.expr(&kid.kids[0]);
                    select.projection.push(ast::SelectItem::UnnamedExpr(expr));
                }
                Head::ExprWithAlias { alias } => {
                    let expr = self.expr(&kid.kids[0]);
                    let alias = ast_ident(alias);
                    select.projection.push(ast::SelectItem::ExprWithAlias { expr, alias });
                }
                _ => {
                    if let Part::Item(item) = self.part(kid.tag) {
                        let mut item = item.clone();
                        self.fill(&mut item, 0, &kid.kids);
                        select.projection.push(item);
                    }
                }
            }
        }
        select
    }

    fn join(&self, node: &Node) -> ast::Join {
        let mut join = match self.part(node.tag) {
            Part::Join(join) => join.clone(),
            other => panic!("{other:?}"),
        };
        self.fill(&mut join, 0, &node.kids);
        join
    }

    fn factor(&self, node: &Node) -> ast::TableFactor {
        let mut factor = match self.part(node.tag) {
            Part::Factor(factor) => factor.clone(),
            other => panic!("{other:?}"),
        };
        self.fill(&mut factor, 1, &node.kids);
        if let (ast::TableFactor::Table { name, .. }, Head::Table { name: parts, .. }) =
            (&mut factor, &node.head)
        {
            *name = self.name(parts);
        }
        factor
    }

    fn arguments(&self, kids: &[Node]) -> ast::FunctionArguments {
        let arg =
            |kid: &Node| ast::FunctionArg::Unnamed(ast::FunctionArgExpr::Expr(self.expr(kid)));
        ast::FunctionArguments::List(ast::FunctionArgumentList {
            duplicate_treatment: None,
            args: kids.iter().map(arg).collect(),
            clauses: vec![],
        })
    }

    fn new_expr(&self, node: &Node) -> ast::Expr {
        let value = |value: ast::Value| ast::Expr::Value(value.with_empty_span());
        let unary = |op: ast::UnaryOperator| ast::Expr::UnaryOp {
            op,
            expr: Box::new(self.expr(&node.kids[0])),
        };
        match &node.head {
            Head::CompoundIdentifier(idents) => {
                ast::Expr::CompoundIdentifier(idents.iter().map(ast_ident).collect())
            }
            Head::SingleQuotedString(s) => value(ast::Value::SingleQuotedString(s.clone())),
            Head::Number(n) => value(ast::Value::Number(n.clone(), false)),
            Head::Null => value(ast::Value::Null),
            Head::Array { named } => ast::Expr::Array(ast::Array {
                elem: node.kids.iter().map(|kid| self.expr(kid)).collect(),
                named: *named,
            }),
            Head::Not => unary(ast::UnaryOperator::Not),
            Head::Minus => unary(ast::UnaryOperator::Minus),
            Head::Subquery => ast::Expr::Subquery(Box::new(self.query(&node.kids[0]))),
            Head::Function { name, .. } => ast::Expr::Function(ast::Function {
                name: self.name(name),
                uses_odbc_syntax: false,
                parameters: ast::FunctionArguments::None,
                args: self.arguments(&node.kids),
                filter: None,
                null_treatment: None,
                over: None,
                within_group: vec![],
            }),
            other => panic!("{other:?}"),
        }
    }

    fn expr(&self, node: &Node) -> ast::Expr {
        if node.tag == 0 {
            return self.new_expr(node);
        }
        let mut expr = match self.part(node.tag) {
            Part::Expr(expr) => expr.clone(),
            other => panic!("{other:?}"),
        };
        self.fill(&mut expr, 1, &node.kids);
        match (&mut expr, &node.head) {
            (ast::Expr::Function(function), Head::Function { name, args }) => {
                function.name = self.name(name);
                if matches!(function.args, ast::FunctionArguments::None)
                    && *args != FunctionArguments::Absent
                {
                    function.args = self.arguments(&[]);
                }
            }
            (ast::Expr::BinaryOp { op, .. }, Head::BinaryOp(new)) => match new {
                BinaryOperator::PGRegexMatch => *op = ast::BinaryOperator::PGRegexMatch,
                BinaryOperator::PGRegexIMatch => *op = ast::BinaryOperator::PGRegexIMatch,
                BinaryOperator::PGRegexNotMatch => *op = ast::BinaryOperator::PGRegexNotMatch,
                BinaryOperator::PGRegexNotIMatch => *op = ast::BinaryOperator::PGRegexNotIMatch,
                _ => {}
            },
            _ => {}
        }
        expr
    }
}

/// The trees of SQL texts, and the statements of trees.
#[derive(Default)]
struct Trees<'a> {
    before: &'a [Part],
    parts: Vec<Part>,
}

impl Trees<'_> {
    fn of(rule: &RewriteRegCastToSubquery) -> Trees<'_> {
        Trees { before: rule.parts(), parts: vec![] }
    }

    fn tree(&mut self, sql: &str) -> Node {
        let mut parsed = trees_of(sql, self.before.len() + self.parts.len()).unwrap();
        self.parts.extend(parsed.parts);
        parsed.trees.remove(0)
    }

    fn ast_statement(&self, tree: &Node) -> ast::Statement {
        Statements { before: self.before, parts: &self.parts }.statement(tree)
    }
}

fn parse(sql: &str) -> ast::Statement {
    Parser::parse_sql(&PostgreSqlDialect {}, sql).expect("Failed to parse").remove(0)
}

fn assert_rewrite_in<R: SqlStatementRewriteRule>(
    trees: &mut Trees,
    rule: &R,
    sql: &str,
    expected: &str,
) {
    let tree = trees.tree(sql);
    let rewritten = rule.rewrite(tree);
    assert_eq!(trees.ast_statement(&rewritten).to_string(), expected);
}

fn assert_rewrite<R: SqlStatementRewriteRule>(rule: &R, sql: &str, expected: &str) {
    assert_rewrite_in(&mut Trees::default(), rule, sql, expected);
}

#[test]
fn statements_survive_the_tree() {
    for sql in [
        "SELECT 1",
        "SELECT a, b.c AS d, e.*, * FROM x AS y JOIN z ON y.i = z.i, w WHERE a = 1 GROUP BY a HAVING count(*) > 2 ORDER BY b DESC NULLS LAST LIMIT 3 OFFSET 4",
        "WITH t AS (SELECT 1 AS x), u AS (SELECT 2) SELECT * FROM t WHERE x IN (SELECT y FROM s) ORDER BY 1 FETCH FIRST 1 ROWS ONLY",
        "SELECT a FROM t UNION ALL SELECT b FROM u ORDER BY 1",
        "(SELECT a FROM t) UNION (SELECT b FROM u LIMIT 1)",
        "INSERT INTO t (a, b) VALUES (1, '[1,2]'), (2, NULL) ON CONFLICT (a) DO UPDATE SET b = 3 RETURNING a",
        "INSERT INTO t SELECT * FROM u",
        "INSERT INTO t DEFAULT VALUES",
        "UPDATE t SET a = b + 1 FROM u WHERE t.i = u.i",
        "DELETE FROM t WHERE a = ANY(ARRAY[1, 2])",
        "CREATE TABLE t (a INT, b TEXT DEFAULT 'x')",
        "SELECT CASE WHEN a THEN 1 ELSE (SELECT 2) END FROM (SELECT 1) AS s(x) CROSS JOIN LATERAL f(s.x) AS g",
        "SELECT sum(a) FILTER (WHERE b > 0) OVER (PARTITION BY c ORDER BY d) FROM t",
        "SELECT DISTINCT ON (a) a, x::INT[], \"Q\".\"r\" FROM \"Q\"",
        "SELECT EXISTS (SELECT 1 WHERE NOT a) AND b BETWEEN 1 AND 2 OR c LIKE 'x%'",
    ] {
        let mut trees = Trees::default();
        let expected = parse(sql).to_string();
        let tree = trees.tree(sql);
        assert_eq!(trees.ast_statement(&tree).to_string(), expected, "{sql}");
    }
}

#[test]
fn test_alias_rewrite() {
    let rule = AliasDuplicatedProjectionRewrite;

    assert_rewrite(
        &rule,
        "SELECT n.oid, n.* FROM pg_catalog.pg_namespace n",
        "SELECT n.oid AS __alias_oid, n.* FROM pg_catalog.pg_namespace n"
    );

    assert_rewrite(
        &rule,
        "SELECT oid, * FROM pg_catalog.pg_namespace",
        "SELECT oid AS __alias_oid, * FROM pg_catalog.pg_namespace"
    );

    assert_rewrite(
        &rule,
        "SELECT t1.oid, t2.* FROM tbl1 AS t1 JOIN tbl2 AS t2 ON t1.id = t2.id",
        "SELECT t1.oid, t2.* FROM tbl1 AS t1 JOIN tbl2 AS t2 ON t1.id = t2.id"
    );

    let sql = "SELECT n.oid,n.*,d.description FROM pg_catalog.pg_namespace n LEFT OUTER JOIN pg_catalog.pg_description d ON d.objoid=n.oid AND d.objsubid=0 AND d.classoid='pg_namespace' ORDER BY nspsname";
    assert_rewrite(
        &rule,
        sql,
        "SELECT n.oid AS __alias_oid, n.*, d.description FROM pg_catalog.pg_namespace n LEFT OUTER JOIN pg_catalog.pg_description d ON d.objoid = n.oid AND d.objsubid = 0 AND d.classoid = 'pg_namespace' ORDER BY nspsname"
    );
}

#[test]
fn test_qualifier_prepend() {
    let rule = ResolveUnqualifiedIdentifier;

    assert_rewrite(
        &rule,
        "SELECT n.* FROM pg_catalog.pg_namespace n WHERE nspname = 'pg_catalog' ORDER BY nspname",
        "SELECT n.* FROM pg_catalog.pg_namespace n WHERE n.nspname = 'pg_catalog' ORDER BY n.nspname"
    );

    assert_rewrite(
        &rule,
        "SELECT * FROM pg_catalog.pg_namespace ORDER BY nspname",
        "SELECT * FROM pg_catalog.pg_namespace ORDER BY nspname"
    );

    assert_rewrite(
        &rule,
        "SELECT n.oid,n.*,d.description FROM pg_catalog.pg_namespace n LEFT OUTER JOIN pg_catalog.pg_description d ON d.objoid=n.oid AND d.objsubid=0 AND d.classoid='pg_namespace' ORDER BY nspsname",
        "SELECT n.oid, n.*, d.description FROM pg_catalog.pg_namespace n LEFT OUTER JOIN pg_catalog.pg_description d ON d.objoid = n.oid AND d.objsubid = 0 AND d.classoid = 'pg_namespace' ORDER BY n.nspsname"
    );

    assert_rewrite(
        &rule,
        "SELECT i.*,i.indkey as keys,c.relname,c.relnamespace,c.relam,c.reltablespace,tc.relname as tabrelname,dsc.description FROM pg_catalog.pg_index i INNER JOIN pg_catalog.pg_class c ON c.oid=i.indexrelid INNER JOIN pg_catalog.pg_class tc ON tc.oid=i.indrelid LEFT OUTER JOIN pg_catalog.pg_description dsc ON i.indexrelid=dsc.objoid WHERE i.indrelid=1 ORDER BY tabrelname, c.relname",
        "SELECT i.*, i.indkey AS keys, c.relname, c.relnamespace, c.relam, c.reltablespace, tc.relname AS tabrelname, dsc.description FROM pg_catalog.pg_index i INNER JOIN pg_catalog.pg_class c ON c.oid = i.indexrelid INNER JOIN pg_catalog.pg_class tc ON tc.oid = i.indrelid LEFT OUTER JOIN pg_catalog.pg_description dsc ON i.indexrelid = dsc.objoid WHERE i.indrelid = 1 ORDER BY tabrelname, c.relname"
    );
}

#[test]
fn test_any_to_array_contains() {
    let rule = RewriteArrayAnyAllOperation;

    assert_rewrite(
        &rule,
        "SELECT a = ANY(current_schemas(true))",
        "SELECT array_contains(current_schemas(true), a)"
    );

    assert_rewrite(
        &rule,
        "SELECT a <> ALL(current_schemas(true))",
        "SELECT NOT array_contains(current_schemas(true), a)"
    );

    assert_rewrite(
        &rule,
        "SELECT a = ANY('{r, l, e}')",
        "SELECT array_contains(ARRAY['r', 'l', 'e'], a)"
    );

    assert_rewrite(
        &rule,
        "SELECT a FROM tbl WHERE a = ANY(current_schemas(true))",
        "SELECT a FROM tbl WHERE array_contains(current_schemas(true), a)"
    );
}

#[test]
fn test_prepend_unqualified_table_name() {
    let rule = PrependUnqualifiedPgTableName;

    assert_rewrite(
        &rule,
        "SELECT * FROM pg_catalog.pg_namespace",
        "SELECT * FROM pg_catalog.pg_namespace"
    );

    assert_rewrite(
        &rule,
        "SELECT * FROM pg_namespace",
        "SELECT * FROM pg_catalog.pg_namespace"
    );

    assert_rewrite(
        &rule,
        "SELECT * FROM pg_type",
        "SELECT * FROM pg_catalog.pg_type"
    );

    assert_rewrite(
        &rule,
        "SELECT typtype, typname, pg_type.oid FROM pg_catalog.pg_type LEFT JOIN pg_namespace as ns ON ns.oid = oid",
        "SELECT typtype, typname, pg_type.oid FROM pg_catalog.pg_type LEFT JOIN pg_catalog.pg_namespace AS ns ON ns.oid = oid"
    );

    assert_rewrite(
        &rule,
        "SELECT * FROM pg_compat_test",
        "SELECT * FROM pg_compat_test"
    );

    assert_rewrite(
        &rule,
        "SELECT * FROM pg_custom_table",
        "SELECT * FROM pg_custom_table"
    );
}

#[test]
fn test_array_literal_fix() {
    let rule = FixArrayLiteral;

    assert_rewrite(
        &rule,
        "SELECT '{a, abc}'::text[]",
        "SELECT ARRAY['a', 'abc']::TEXT[]"
    );

    assert_rewrite(
        &rule,
        "SELECT '{1, 2}'::int[]",
        "SELECT ARRAY[1, 2]::INT[]"
    );

    assert_rewrite(
        &rule,
        "SELECT '{t, f}'::bool[]",
        "SELECT ARRAY[t, f]::BOOL[]"
    );
}

#[test]
fn test_strip_callable_qualifier_from_table_function() {
    let rule = StripCallableQualifier;

    assert_rewrite(
        &rule,
        "SELECT * FROM pg_catalog.pg_get_keywords()",
        "SELECT * FROM pg_get_keywords()"
    );
}

#[test]
fn test_current_user() {
    let rule = CurrentUserVariableToSessionUserFunctionCall;

    // current_user -> session_user. `session_user` is a sqlparser-special
    // keyword, so it must stay parenthesis-less to round-trip through the
    // postgres dialect (re-parsed by DataFusion downstream).
    assert_rewrite(&rule, "SELECT current_user", "SELECT session_user");
    assert_rewrite(&rule, "SELECT CURRENT_USER", "SELECT session_user");
    assert_rewrite(
        &rule,
        "SELECT is_null(current_user)",
        "SELECT is_null(session_user)"
    );

    // current_catalog -> current_database. `current_database` is NOT a
    // special keyword, so it needs explicit `()` to re-parse as a call.
    assert_rewrite(
        &rule,
        "SELECT current_catalog",
        "SELECT current_database()"
    );

    // version is deliberately not rewritten: in postgres it is a regular
    // function, not a special register, so `SELECT version` (no parens) is
    // invalid and `SELECT version()` is already the canonical form.
    assert_rewrite(&rule, "SELECT version", "SELECT version");
    assert_rewrite(&rule, "SELECT version()", "SELECT version()");

    // current_schema -> current_schema()
    assert_rewrite(&rule, "SELECT current_schema", "SELECT current_schema()");
}

#[test]
fn test_strip_collate() {
    let rule = StripCollate;

    assert_rewrite(
        &rule,
        "SELECT c.oid, c.relname FROM pg_catalog.pg_class c WHERE c.relname COLLATE pg_catalog.default = 'foo'",
        "SELECT c.oid, c.relname FROM pg_catalog.pg_class c WHERE c.relname = 'foo'"
    );

    // Combined with OPERATOR(...) syntax: only COLLATE is stripped here;
    // the operator is left for RewritePgCatalogOperator (next test).
    assert_rewrite(
        &rule,
        "SELECT c.oid, c.relname FROM pg_catalog.pg_class c WHERE c.relname OPERATOR(pg_catalog.~) '^(tablename)$' COLLATE pg_catalog.default ORDER BY 2, 3;",
        "SELECT c.oid, c.relname FROM pg_catalog.pg_class c WHERE c.relname OPERATOR(pg_catalog.~) '^(tablename)$' ORDER BY 2, 3"
    );
}

#[test]
fn collations_inside_collations_are_stripped() {
    let rule = StripCollate;
    assert_rewrite(&rule, "SELECT (a COLLATE b) COLLATE c FROM t", "SELECT (a) FROM t");
    assert_rewrite(&rule, "SELECT f(a COLLATE b) COLLATE c FROM t", "SELECT f(a) FROM t");

    let node = |head: Head, tag: u64, kids: Vec<Node>| Node { head, tag, kids };
    let inner = || node(Head::Collate, 2, vec![node(Head::Null, 3, vec![])]);
    let twice = || node(Head::Collate, 1, vec![inner()]);
    assert_eq!(rule.rewrite(twice()), node(Head::Null, 3, vec![]));
    assert_eq!(
        rule.rewrite(node(Head::Not, 5, vec![twice(), inner()])),
        node(Head::Not, 5, vec![node(Head::Null, 3, vec![]), node(Head::Null, 3, vec![])])
    );
    let plain = || node(Head::Not, 5, vec![node(Head::Null, 3, vec![])]);
    assert_eq!(rule.rewrite(plain()), plain());
}

#[test]
fn test_rewrite_pg_catalog_operator() {
    let rule = RewritePgCatalogOperator;

    // All four pg_catalog regex operators map to their builtin forms.
    assert_rewrite(
        &rule,
        "SELECT 'a' OPERATOR(pg_catalog.~) 'b'",
        "SELECT 'a' ~ 'b'"
    );
    assert_rewrite(
        &rule,
        "SELECT 'a' OPERATOR(pg_catalog.~*) 'b'",
        "SELECT 'a' ~* 'b'"
    );
    assert_rewrite(
        &rule,
        "SELECT 'a' OPERATOR(pg_catalog.!~) 'b'",
        "SELECT 'a' !~ 'b'"
    );
    assert_rewrite(
        &rule,
        "SELECT 'a' OPERATOR(pg_catalog.!~*) 'b'",
        "SELECT 'a' !~* 'b'"
    );

    // The original psql \d shape: OPERATOR + COLLATE together. The operator
    // arm fires; COLLATE is left for StripCollate.
    assert_rewrite(
        &rule,
        "SELECT c.oid, c.relname FROM pg_catalog.pg_class c WHERE c.relname OPERATOR(pg_catalog.~) '^(tablename)$' COLLATE pg_catalog.default ORDER BY 2, 3;",
        "SELECT c.oid, c.relname FROM pg_catalog.pg_class c WHERE c.relname ~ '^(tablename)$' COLLATE pg_catalog.default ORDER BY 2, 3"
    );
}

#[test]
fn test_remove_subquery() {
    let rule = RemoveSubqueryFromProjection;

    assert_rewrite(
        &rule,
        "SELECT a.attname, pg_catalog.format_type(a.atttypid, a.atttypmod), (SELECT pg_catalog.pg_get_expr(d.adbin, d.adrelid, true) FROM pg_catalog.pg_attrdef d WHERE d.adrelid = a.attrelid AND d.adnum = a.attnum AND a.atthasdef), a.attnotnull, (SELECT c.collname FROM pg_catalog.pg_collation c, pg_catalog.pg_type t WHERE c.oid = a.attcollation AND t.oid = a.atttypid AND a.attcollation <> t.typcollation LIMIT 1) AS attcollation, a.attidentity, a.attgenerated FROM pg_catalog.pg_attribute a WHERE a.attrelid = '16384' AND a.attnum > 0 AND NOT a.attisdropped ORDER BY a.attnum;",
        "SELECT a.attname, pg_catalog.format_type(a.atttypid, a.atttypmod), NULL, a.attnotnull, NULL AS attcollation, a.attidentity, a.attgenerated FROM pg_catalog.pg_attribute a WHERE a.attrelid = '16384' AND a.attnum > 0 AND NOT a.attisdropped ORDER BY a.attnum"
    );
}

#[test]
fn test_keep_simple_aggregated_subquery() {
    let rule = RemoveSubqueryFromProjection;

    assert_rewrite(
        &rule,
        "SELECT id, (SELECT COUNT(*) FROM pg_catalog.pg_attribute) AS attr_count FROM pg_catalog.pg_class",
        "SELECT id, (SELECT COUNT(*) FROM pg_catalog.pg_attribute LIMIT 1) AS attr_count FROM pg_catalog.pg_class"
    );
}

#[test]
fn test_remove_correlated_subquery() {
    let rule = RemoveSubqueryFromProjection;

    assert_rewrite(
        &rule,
        "SELECT a.attname, (SELECT COUNT(*) FROM pg_catalog.pg_attribute WHERE attrelid = a.oid) AS count FROM pg_catalog.pg_attribute a",
        "SELECT a.attname, NULL AS count FROM pg_catalog.pg_attribute a"
    );
}

#[test]
fn test_remove_non_aggregated_subquery() {
    let rule = RemoveSubqueryFromProjection;

    assert_rewrite(
        &rule,
        "SELECT id, (SELECT attname FROM pg_catalog.pg_attribute LIMIT 1) AS first_attr FROM pg_catalog.pg_class",
        "SELECT id, (SELECT attname FROM pg_catalog.pg_attribute LIMIT 1) AS first_attr FROM pg_catalog.pg_class"
    );
}

#[test]
fn test_keep_simple_scalar_subquery() {
    let rule = RemoveSubqueryFromProjection;

    assert_rewrite(
        &rule,
        "SELECT (SELECT 1) AS constant",
        "SELECT (SELECT 1 LIMIT 1) AS constant"
    );

    assert_rewrite(
        &rule,
        "SELECT (SELECT 'value') AS str_val",
        "SELECT (SELECT 'value' LIMIT 1) AS str_val"
    );
}

#[test]
fn test_version_rewrite() {
    let rule = FixVersionColumnName;

    assert_rewrite(&rule, "SELECT version()", "SELECT version() AS version");

    // Make sure we don't rewrite things we should leave alone
    assert_rewrite(&rule, "SELECT version() as foo", "SELECT version() AS foo");
    assert_rewrite(&rule, "SELECT version(foo)", "SELECT version(foo)");
    assert_rewrite(&rule, "SELECT foo.version()", "SELECT foo.version()");
}

#[test]
fn test_rewrite_regcast_numeric_string_to_literal() {
    // A numeric string resolves directly to the literal oid (Postgres
    // semantics), avoiding a subquery.
    let rule = RewriteRegCastToSubquery::new().unwrap();
    let mut trees = Trees::of(&rule);

    assert_rewrite_in(&mut trees, &rule, "SELECT '16417'::regclass", "SELECT 16417");
    // pg_catalog.-qualified and uppercase spellings normalize to the same kind.
    assert_rewrite_in(
        &mut trees,
        &rule,
        "SELECT '16417'::pg_catalog.regclass",
        "SELECT 16417"
    );
}

#[test]
fn test_rewrite_regcast_name_string_to_subquery() {
    let rule = RewriteRegCastToSubquery::new().unwrap();
    let mut trees = Trees::of(&rule);

    // Name string -> scalar subquery against the backing catalog table.
    // The exact spelling of the subquery is part of the contract, so pin it.
    assert_rewrite_in(
        &mut trees,
        &rule,
        "SELECT 'public'::regnamespace",
        "SELECT (SELECT oid FROM pg_catalog.pg_namespace WHERE nspname = 'public')"
    );
    assert_rewrite_in(
        &mut trees,
        &rule,
        "SELECT 'pg_class'::regclass",
        "SELECT (SELECT c.oid FROM pg_catalog.pg_class c JOIN pg_catalog.pg_namespace n ON c.relnamespace = n.oid CROSS JOIN (SELECT parse_ident('pg_class'::TEXT) AS parts) WHERE array_length(parts, 1) IN (1, 2) AND ((array_length(parts, 1) = 1 AND n.nspname = current_schema() AND c.relname = parts[1]) OR (array_length(parts, 1) = 2 AND n.nspname = parts[1] AND c.relname = parts[2])))"
    );
    assert_rewrite_in(
        &mut trees,
        &rule,
        "SELECT 'array_in'::regproc",
        "SELECT (SELECT oid FROM pg_catalog.pg_proc WHERE proname = 'array_in')"
    );
    assert_rewrite_in(
        &mut trees,
        &rule,
        "SELECT 'integer'::regtype",
        "SELECT (SELECT oid FROM pg_catalog.pg_type WHERE typname = 'integer')"
    );

    // Works inside a comparison, where clients actually use it.
    assert_rewrite_in(
        &mut trees,
        &rule,
        "SELECT 1 WHERE classoid = 'pg_class'::regclass",
        "SELECT 1 WHERE classoid = (SELECT c.oid FROM pg_catalog.pg_class c JOIN pg_catalog.pg_namespace n ON c.relnamespace = n.oid CROSS JOIN (SELECT parse_ident('pg_class'::TEXT) AS parts) WHERE array_length(parts, 1) IN (1, 2) AND ((array_length(parts, 1) = 1 AND n.nspname = current_schema() AND c.relname = parts[1]) OR (array_length(parts, 1) = 2 AND n.nspname = parts[1] AND c.relname = parts[2])))"
    );
}

#[test]
fn test_rewrite_regclass_uses_parse_ident_schema_aware_lookup() {
    let rule = RewriteRegCastToSubquery::new().unwrap();
    let mut trees = Trees::of(&rule);

    let lookup = "SELECT c.oid FROM pg_catalog.pg_class c JOIN pg_catalog.pg_namespace n ON c.relnamespace = n.oid CROSS JOIN (SELECT parse_ident($1::TEXT) AS parts) WHERE array_length(parts, 1) IN (1, 2) AND ((array_length(parts, 1) = 1 AND n.nspname = current_schema() AND c.relname = parts[1]) OR (array_length(parts, 1) = 2 AND n.nspname = parts[1] AND c.relname = parts[2]))";

    // A bound portal parameter remains a parameter through the parse_ident
    // lookup and outer oid cast.
    assert_rewrite_in(
        &mut trees,
        &rule,
        "SELECT $1::regclass::oid",
        &format!("SELECT ({lookup})::oid")
    );
    // The pg_catalog-qualified spelling normalizes to the same template.
    assert_rewrite_in(
        &mut trees,
        &rule,
        "SELECT $1::pg_catalog.regclass",
        &format!("SELECT ({lookup})")
    );
    // parse_ident preserves quoted, case-sensitive unqualified names.
    assert_rewrite_in(
        &mut trees,
        &rule,
        "SELECT '\"Mixed Case\"'::regclass",
        &format!("SELECT ({})", lookup.replace("$1", "'\"Mixed Case\"'"))
    );
    // Two explicit quoted components select the supplied schema and relation.
    assert_rewrite_in(
        &mut trees,
        &rule,
        "SELECT '\"Mixed Schema\".\"Mixed Table\"'::regclass",
        &format!(
            "SELECT ({})",
            lookup.replace("$1", "'\"Mixed Schema\".\"Mixed Table\"'")
        )
    );
    // Invalid and over-qualified names are guarded by the component count.
    assert_rewrite_in(
        &mut trees,
        &rule,
        "SELECT 'too.many.parts'::regclass",
        &format!("SELECT ({})", lookup.replace("$1", "'too.many.parts'"))
    );
    assert_rewrite_in(
        &mut trees,
        &rule,
        "SELECT 'too..many'::regclass",
        &format!("SELECT ({})", lookup.replace("$1", "'too..many'"))
    );
}

#[test]
fn test_rewrite_regclass_leaves_direct_relname_predicate_unchanged() {
    let rule = RewriteRegCastToSubquery::new().unwrap();
    let mut trees = Trees::of(&rule);

    assert_rewrite_in(
        &mut trees,
        &rule,
        "SELECT oid FROM pg_catalog.pg_class WHERE relname = $1",
        "SELECT oid FROM pg_catalog.pg_class WHERE relname = $1"
    );
}

#[test]
fn test_rewrite_regcast_leaves_reverse_and_unknown_alone() {
    let rule = RewriteRegCastToSubquery::new().unwrap();
    let mut trees = Trees::of(&rule);

    // Reverse direction (column operand) is NOT rewritten -- left for
    // PgOidTypePlanner so the cast still parses.
    assert_rewrite_in(
        &mut trees,
        &rule,
        "SELECT prorettype::regtype",
        "SELECT prorettype::regtype"
    );
    // A cast whose type is not one of the four resolvable oid-alias kinds
    // is left alone (not crashed on, not rewritten).
    assert_rewrite_in(&mut trees, &rule, "SELECT 'x'::regrole", "SELECT 'x'::regrole");
    // A numeric operand cast to a non-oid type is left alone.
    assert_rewrite_in(&mut trees, &rule, "SELECT '1'::int4", "SELECT '1'::INT4");
}

/// Reads items as numbers.
fn read_numbers(items: Vec<String>) -> Vec<(String, Option<Single>)> {
    items
        .into_iter()
        .map(|item| {
            let number = item
                .parse::<f32>()
                .ok()
                .map(|v| Single { bits: v.to_bits(), text: v.to_string() });
            (item, number)
        })
        .collect()
}

fn items_fields() -> Vec<Field> {
    let mut embedding = Field::new(
        "embedding",
        DataType::FixedSizeList(Box::new(Field::new_list_field(DataType::Float32, true)), 3),
        false,
    );
    embedding.metadata.push(("pg.vector".to_string(), "vector".to_string()));
    vec![Field::new("id", DataType::Int64, false), embedding]
}

fn insert_into(fields: &Vec<Field>, sql: &str) -> (bool, String) {
    insert_where(Some(fields), sql)
}

/// An insertion into a table with the given fields, where there is one.
fn insert_where(fields: Option<&Vec<Field>>, sql: &str) -> (bool, String) {
    let mut trees = Trees::default();
    let tree = trees.tree(sql);
    let numbers = fields.map_or(vec![], |f| read_numbers(vector_items(&tree, f)));
    let (tree, changed) = rewrite_vector_insert(tree, fields, &numbers);
    (changed, trees.ast_statement(&tree).to_string())
}

#[test]
fn rewrites_vector_string_to_array_literal() {
    let (changed, sql) = insert_into(
        &items_fields(),
        "INSERT INTO items (id, embedding) VALUES (1, '[1,2,3]')",
    );
    assert!(changed, "vector literal must be rewritten");
    assert!(
        sql.contains("VALUES (1, ARRAY[1, 2, 3])") || sql.contains("VALUES (1, ARRAY[1,2,3])"),
        "unexpected rewrite: {sql}"
    );
}

#[test]
fn rewrites_vector_cast_literal() {
    let (changed, sql) = insert_into(
        &items_fields(),
        "INSERT INTO items (id, embedding) VALUES (1, '[1,2,3]'::vector)",
    );
    assert!(changed, "vector cast literal must be rewritten");
    assert!(sql.contains("ARRAY[1, 2, 3]"), "unexpected rewrite: {sql}");
}

#[test]
fn leaves_text_and_wrong_dimension_inserts_alone() {
    // A non-vector target (table missing) is untouched.
    let (changed, _) =
        insert_where(None, "INSERT INTO nope (id, embedding) VALUES (1, '[1,2,3]')");
    assert!(!changed);

    // A bracket string into a plain text column is untouched.
    let logs = vec![
        Field::new("id", DataType::Int64, false),
        Field::new("tag", DataType::Utf8, true),
    ];
    let (changed, _) = insert_into(&logs, "INSERT INTO logs (id, tag) VALUES (1, '[1,2,3]')");
    assert!(!changed, "text column must not be rewritten");

    // A vector column with a mismatched dimension is untouched.
    let (changed, _) = insert_into(
        &items_fields(),
        "INSERT INTO items (id, embedding) VALUES (1, '[1,2]')",
    );
    assert!(!changed);
}

#[test]
fn insert_multiple_rows() {
    let (changed, sql) = insert_into(
        &items_fields(),
        "INSERT INTO items (id, embedding) VALUES (1, '[1,0,0]'), (2, '[0,1,0]')",
    );
    assert!(changed);
    assert_eq!(
        sql,
        "INSERT INTO items (id, embedding) VALUES (1, ARRAY[1, 0, 0]), (2, ARRAY[0, 1, 0])"
    );
}

#[test]
fn negative_numbers_have_an_operator() {
    let (_, sql) = insert_into(
        &items_fields(),
        "INSERT INTO items VALUES (1, '[-1.50, 2e1, -0]')",
    );
    assert_eq!(sql, "INSERT INTO items VALUES (1, ARRAY[-1.5, 20, -0])");
}

#[test]
fn columns_are_named_in_any_case_and_order() {
    let (_, sql) = insert_into(
        &items_fields(),
        "INSERT INTO items (EMBEDDING, nope, id) VALUES ('[1,2,3]', '[1,2,3]', '[1,2,3]')",
    );
    assert_eq!(
        sql,
        "INSERT INTO items (EMBEDDING, nope, id) VALUES (ARRAY[1, 2, 3], '[1,2,3]', '[1,2,3]')"
    );
}

#[test]
fn other_insertions_are_kept() {
    for sql in [
        "INSERT INTO items SELECT 1, '[1,2,3]'",
        "INSERT INTO items (id, embedding) VALUES (1, 'abc')",
        "INSERT INTO items (id, embedding) VALUES (1, '[a,b,c]')",
        "INSERT INTO items (id, embedding) VALUES (1, '[]')",
        "INSERT INTO items (id, embedding) VALUES (1, '[1,2,3]'::TEXT)",
        "INSERT INTO items (id, embedding) VALUES (1, $1)",
        "SELECT '[1,2,3]'",
    ] {
        let (changed, new) = insert_into(&items_fields(), sql);
        assert!(!changed, "{sql}");
        assert_eq!(new, parse(sql).to_string());
    }
}

#[test]
fn a_rewritten_insertion_is_rewritten_no_further() {
    let mut trees = Trees::default();
    let fields = items_fields();
    let tree = trees.tree("INSERT INTO items VALUES (1, '[1,2,3]')");
    let numbers = read_numbers(vector_items(&tree, &fields));
    let once = PgVectorInsertHook.rewrite_insert(&tree, Some(&fields), &numbers).unwrap();
    assert!(PgVectorInsertHook.rewrite_insert(&once, Some(&fields), &numbers).is_none());
    assert_eq!(vector_items(&once, &fields), Vec::<String>::new());
}

#[test]
fn tables_of_insertions_are_looked_up() {
    let target = |sql: &str| insert_target(&Trees::default().tree(sql));
    assert_eq!(
        target("INSERT INTO c.s.t VALUES (1)"),
        Some(TableReference::Full {
            catalog: "c".to_string(),
            schema: "s".to_string(),
            table: "t".to_string()
        })
    );
    assert_eq!(
        target("INSERT INTO s.t VALUES (1)"),
        Some(TableReference::Partial { schema: "s".to_string(), table: "t".to_string() })
    );
    assert_eq!(
        target("INSERT INTO t VALUES (1)"),
        Some(TableReference::Bare { table: "t".to_string() })
    );
    assert_eq!(target("INSERT INTO a.b.c.d VALUES (1)"), Some(TableReference::Text));
    assert_eq!(target("INSERT INTO t SELECT 1"), None);
    assert_eq!(target("SELECT 1"), None);
}

#[test]
fn rules_that_apply_once() {
    let twice = |rule: &dyn Fn(Node) -> Node, sql: &str| {
        let mut trees = Trees::default();
        let once = rule(trees.tree(sql));
        let again = rule(once.copy());
        assert_eq!(trees.ast_statement(&once), trees.ast_statement(&again), "{sql}");
    };
    let sql = "SELECT version(), n.oid, n.* FROM pg_class n WHERE relname = 'x' ORDER BY oid";
    twice(&|s| PrependUnqualifiedPgTableName.rewrite(s), sql);
    twice(&|s| StripCallableQualifier.rewrite(s), "SELECT a.b.f(c.g(1))");
    twice(&|s| AliasDuplicatedProjectionRewrite.rewrite(s), sql);
    twice(&|s| ResolveUnqualifiedIdentifier.rewrite(s), sql);
    twice(&|s| FixVersionColumnName.rewrite(s), sql);
    twice(&|s| FixArrayLiteral.rewrite(s), "SELECT '{a,b}'::text[]");
    twice(&|s| RewriteArrayAnyAllOperation.rewrite(s), "SELECT a = ANY('{x}')");
    twice(&|s| RewritePgCatalogOperator.rewrite(s), "SELECT 'a' OPERATOR(pg_catalog.~) 'b'");
    let sql = "SELECT current_schema, CURRENT_USER, current_catalog";
    twice(&|s| CurrentUserVariableToSessionUserFunctionCall.rewrite(s), sql);
}

#[test]
fn casts_of_names_are_rewritten_once() {
    let rule = RewriteRegCastToSubquery::new().unwrap();
    let mut trees = Trees::of(&rule);
    let sql = "SELECT 'a'::regclass, $1::regtype, '1'::regproc, b::regclass";
    let once = rule.rewrite(trees.tree(sql));
    let again = rule.rewrite(once.copy());
    let text = trees.ast_statement(&once).to_string();
    assert_eq!(text.matches("REGCLASS").count(), 1);
    assert_eq!(text, trees.ast_statement(&again).to_string());
}

#[test]
fn all_rules_in_their_order() {
    let parser = PostgresCompatibilityParser::new().unwrap();
    let rewrite = |sql: &str| texts(&parser, sql).remove(0);
    assert_eq!(rewrite("SELECT version()"), "SELECT version() AS version");
    assert_eq!(
        rewrite("SELECT pg_catalog.version() FROM pg_type t WHERE t.typname COLLATE pg_catalog.default = 'x'"),
        "SELECT version() AS version FROM pg_catalog.pg_type t WHERE t.typname = 'x'"
    );
    assert_eq!(rewrite("SELECT '16417'::regclass"), "SELECT 16417");
}

/// The texts of the statements of a SQL text, rewritten.
fn texts(parser: &PostgresCompatibilityParser, sql: &str) -> Vec<String> {
    let parsed = parser.parse(sql).expect("failed to parse");
    let statements = Statements { before: parser.lookup_parts(), parts: &parsed.parts };
    parsed.trees.iter().map(|tree| statements.statement(tree).to_string()).collect()
}

#[test]
fn test_abort_rewritten_to_rollback() {
    // ABORT is a Postgres synonym for ROLLBACK; sqlparser does not parse it
    // as a statement, so the token-level rewrite_abort_to_rollback turns
    // it into ROLLBACK before parsing.
    let parser = PostgresCompatibilityParser::new().unwrap();
    let stmts = texts(&parser, "ABORT");
    assert_eq!(stmts.len(), 1);
    assert_eq!(stmts[0], "ROLLBACK");

    // `ABORT AND CHAIN` -> `ROLLBACK AND CHAIN`.
    let stmts = texts(&parser, "ABORT AND CHAIN");
    assert_eq!(stmts[0], "ROLLBACK AND CHAIN");

    // A column named `abort` (quoted) must NOT be rewritten -- only the
    // bare keyword form is a statement.
    let stmts = texts(&parser, "SELECT \"abort\" FROM t");
    assert!(stmts[0].contains("\"abort\""));
}

#[test]
fn texts_without_known_queries_keep_their_tokens() {
    let parser = PostgresCompatibilityParser::new().unwrap();
    let kept = |sql: &str| {
        let prepared = parser.maybe_replace_tokens(sql).unwrap();
        prepared.iter().map(|token| token.raw().to_string()).collect::<Vec<String>>()
    };
    assert_eq!(kept("SELECT  a,\n1 ;"), vec!["SELECT", "a", ",", "1", ";"]);
    assert_eq!(kept("ABORT; SELECT abort"), vec!["ROLLBACK", ";", "SELECT", "ROLLBACK"]);
}

#[test]
fn abort_means_rollback() {
    let parser = PostgresCompatibilityParser::new().unwrap();
    let trees = |sql: &str| parser.parse(sql).unwrap().trees;
    assert_eq!(trees("ABORT  AND CHAIN"), trees("ROLLBACK AND CHAIN"));
    assert_eq!(texts(&parser, "abort;"), texts(&parser, "ROLLBACK ;"));
}

#[test]
fn statements_are_told_apart() {
    let parser = PostgresCompatibilityParser::new().unwrap();
    let statements = texts(&parser, "SELECT 1; ABORT ; SELECT 2");
    assert_eq!(statements, vec!["SELECT 1", "ROLLBACK", "SELECT 2"]);
}
