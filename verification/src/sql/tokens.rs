//! SQL texts as tokens, and tokens as trees of statements.
use crate::sql::parts;
use crate::sql::parts::{Kept, Part};
use crate::sql::tree;
use crate::sql::tree::{Node, NodeV};
use crate::text;
use sqlparser::dialect::PostgreSqlDialect;
use sqlparser::keywords::Keyword;
use sqlparser::parser::Parser;
use sqlparser::tokenizer::Token as RawToken;
use vstd::prelude::*;

verus! {

/// A token of the SQL tokenizer. It is carried through as it is.
#[verifier::external_type_specification]
#[verifier::external_body]
pub struct ExToken(sqlparser::tokenizer::Token);

/// The error of the SQL tokenizer and parser. It is carried through as it is.
#[verifier::external_type_specification]
#[verifier::external_body]
pub struct ExParserError(sqlparser::parser::ParserError);

/// `Token::clone`, which is derived: the copy is the same token.
pub assume_specification[ <sqlparser::tokenizer::Token as Clone>::clone ](
    token: &sqlparser::tokenizer::Token,
) -> (r: sqlparser::tokenizer::Token)
    ensures
        r == *token,
;

/// Why a text cannot be used.
#[derive(Debug)]
pub enum ParseError {
    /// It is no SQL.
    Sql(sqlparser::parser::ParserError),
    /// It is SQL, but no query.
    NoQuery,
}

/// What the replacement of queries tells apart.
#[derive(Clone, Copy, Debug, PartialEq, Eq, Structural)]
pub enum TokenClass {
    Whitespace,
    SemiColon,
    Placeholder,
    /// The bare keyword `ABORT`.
    Abort,
    Other,
}

/// One token of a SQL text.
#[derive(Debug)]
pub struct SqlToken {
    raw: RawToken,
    class: TokenClass,
    repr: String,
}

/// The model of a [`SqlToken`]: the token as the tokenizer made it, its class, and a text
/// that is the same for equal tokens only.
#[verifier::ext_equal]
pub struct TokenV {
    pub raw: RawToken,
    pub class: TokenClass,
    pub repr: Seq<char>,
}

impl View for SqlToken {
    type V = TokenV;

    closed spec fn view(&self) -> TokenV {
        TokenV { raw: self.raw, class: self.class, repr: self.repr@ }
    }
}

/// The models of a list of tokens.
pub open spec fn tokens_view(v: Seq<SqlToken>) -> Seq<TokenV> {
    v.map_values(|t: SqlToken| t@)
}

/// The tokens of a SQL text, where it has any: no unknown token, no open quote.
pub uninterp spec fn sql_tokens(sql: Seq<char>) -> Option<Seq<TokenV>>;

/// A bare keyword as the tokenizer has it, and its text.
pub uninterp spec fn keyword_form(keyword: Seq<char>) -> (RawToken, Seq<char>);

/// A bare keyword, other than `ABORT`, as a token.
pub open spec fn keyword_token(keyword: Seq<char>) -> TokenV {
    TokenV {
        raw: keyword_form(keyword).0,
        class: TokenClass::Other,
        repr: keyword_form(keyword).1,
    }
}

/// `Parser::try_with_sql` in the Postgres dialect, and `Parser::into_tokens`: the
/// tokens of `sql`, white space included, or an error. Which tokens a text has is
/// left to the crate. A token's text is its `Debug` form.
#[verifier::external_body]
fn tokenize(sql: &str) -> (r: Result<Vec<SqlToken>, sqlparser::parser::ParserError>)
    ensures
        match r {
            Ok(tokens) => sql_tokens(sql@) == Some(tokens_view(tokens@)),
            Err(_) => sql_tokens(sql@) is None,
        },
{
    let parser = Parser::new(&PostgreSqlDialect {}).try_with_sql(sql)?;
    let wrap = |raw: RawToken| {
        let class = match &raw {
            RawToken::Whitespace(_) => TokenClass::Whitespace,
            RawToken::SemiColon => TokenClass::SemiColon,
            RawToken::Placeholder(_) => TokenClass::Placeholder,
            RawToken::Word(w) => match w.keyword {
                Keyword::ABORT => TokenClass::Abort,
                _ => TokenClass::Other,
            },
            _ => TokenClass::Other,
        };
        SqlToken { repr: format!("{:?}", raw), class, raw }
    };
    Ok(parser.into_tokens().into_iter().map(|t| wrap(t.token)).collect())
}

/// `Token::make_keyword` on `ROLLBACK`: the token of this bare keyword. Its text is
/// its `Debug` form, which is left to the crate.
#[verifier::external_body]
pub(crate) fn make_keyword(keyword: &str) -> (r: SqlToken)
    requires
        keyword@ == "ROLLBACK"@,
    ensures
        (r@.raw, r@.repr) == keyword_form(keyword@),
        r@.class is Other,
{
    let raw = RawToken::make_keyword(keyword);
    SqlToken { repr: format!("{:?}", raw), class: TokenClass::Other, raw }
}

/// The trees of the statements that a list of tokens holds, where it can be parsed, with
/// the parts that are kept of them. The nodes are numbered from `before` on.
pub uninterp spec fn parsed_trees(tokens: Seq<TokenV>, before: nat) -> Option<
    (Seq<NodeV>, Seq<Part>),
>;

/// Statements as trees, and the parts of them that the numbers of the nodes stand for.
#[derive(Debug)]
pub struct ParsedTrees {
    pub trees: Vec<Node>,
    pub parts: Vec<Part>,
}

/// `Parser::with_tokens` and `Parser::parse_statements` in the Postgres dialect, as
/// trees: the statements that the tokens hold, or an error. Which statements and which
/// parts those are is left to the crate. The trees hold what the fields of `sqlparser::ast::Statement` hold,
/// construct by construct. Their parts are numbered in order, the first one by the number
/// behind `before`.
#[verifier::external_body]
pub(crate) fn parse_raw(tokens: Vec<SqlToken>, before: usize) -> (r: Result<
    ParsedTrees,
    sqlparser::parser::ParserError,
>)
    ensures
        match r {
            Ok(parsed) => parsed_trees(tokens_view(tokens@), before as nat) == Some(
                (tree::nodes_view(parsed.trees@), parsed.parts@),
            ),
            Err(_) => parsed_trees(tokens_view(tokens@), before as nat) is None,
        },
{
    let raw = tokens.into_iter().map(|t| t.raw).collect();
    let statements = Parser::new(&PostgreSqlDialect {}).with_tokens(raw).parse_statements()?;
    let mut kept = Kept { before, parts: vec![] };
    let tree = |statement| parts::node(Part::Statement(statement), &mut kept);
    let trees = statements.into_iter().map(tree).collect();
    Ok(ParsedTrees { trees, parts: kept.parts })
}

/// The tokens of a SQL text, white space included.
pub fn tokens_of(sql: &str) -> (r: Result<Vec<SqlToken>, ParseError>)
    ensures
        match r {
            Ok(tokens) => sql_tokens(sql@) == Some(tokens_view(tokens@)),
            Err(error) => error is Sql && sql_tokens(sql@) is None,
        },
{
    match tokenize(sql) {
        Ok(tokens) => Ok(tokens),
        Err(error) => Err(ParseError::Sql(error)),
    }
}

/// The trees of the statements of a SQL text, as they are written.
pub fn trees_of(sql: &str, before: usize) -> (r: Result<ParsedTrees, ParseError>)
    ensures
        match (r, written_trees(sql@, before as nat)) {
            (Ok(parsed), Some((trees, parts))) => tree::nodes_view(parsed.trees@) == trees
                && parsed.parts@ == parts,
            (Err(error), None) => error is Sql,
            _ => false,
        },
{
    match tokens_of(sql) {
        Ok(tokens) => match parse_raw(tokens, before) {
            Ok(parsed) => Ok(parsed),
            Err(error) => Err(ParseError::Sql(error)),
        },
        Err(error) => Err(error),
    }
}

/// The trees of the statements of a SQL text and their parts, where it has any tokens and
/// can be parsed.
pub open spec fn written_trees(sql: Seq<char>, before: nat) -> Option<
    (Seq<NodeV>, Seq<Part>),
> {
    match sql_tokens(sql) {
        Some(tokens) => parsed_trees(tokens, before),
        None => None,
    }
}

impl SqlToken {
    /// The token as the tokenizer made it.
    pub fn raw(&self) -> (r: &RawToken)
        ensures
            *r == self@.raw,
    {
        &self.raw
    }

    pub(crate) fn copy(&self) -> (r: SqlToken)
        ensures
            r@ == self@,
    {
        SqlToken { raw: self.raw.clone(), class: self.class, repr: self.repr.clone() }
    }

    pub(crate) fn class(&self) -> (r: TokenClass)
        ensures
            r == self@.class,
    {
        self.class
    }

    pub(crate) fn same(&self, other: &SqlToken) -> (r: bool)
        ensures
            r == (self@.repr == other@.repr),
    {
        text::same(self.repr.as_str(), other.repr.as_str())
    }
}

} // verus!
