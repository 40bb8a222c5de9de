//! The parser: a client's SQL text becomes tokens, known queries among them are
//! replaced, and the statements that come out are rewritten rule by rule.
use crate::sql::tokens;
use crate::sql::tokens::{ParseError, ParsedTrees, SqlToken, TokenClass, TokenV};
use crate::sql::tree;
use crate::sql::tree::{Node, NodeV};
use crate::sql::blacklist;
use crate::sql::parts::Part;
use crate::sql::projection::{
    AliasDuplicatedProjectionRewrite, RemoveSubqueryFromProjection, ResolveUnqualifiedIdentifier,
};
use crate::sql::rules;
use crate::sql::rules::{
    CurrentUserVariableToSessionUserFunctionCall, FixArrayLiteral, FixVersionColumnName,
    PrependUnqualifiedPgTableName, RewriteArrayAnyAllOperation, RewritePgCatalogOperator,
    RewriteRegCastToSubquery, SqlStatementRewriteRule, StripCallableQualifier, StripCollate,
};
use vstd::prelude::*;

verus! {

/// A list of tokens with each `ABORT` replaced by `ROLLBACK`.
pub open spec fn abort_as_rollback(tokens: Seq<TokenV>) -> Seq<TokenV> {
    tokens.map_values(
        |t: TokenV|
            if t.class is Abort {
                tokens::keyword_token("ROLLBACK"@)
            } else {
                t
            },
    )
}

/// A list of tokens without white space.
pub open spec fn without_whitespace(tokens: Seq<TokenV>) -> Seq<TokenV> {
    tokens.filter(|t: TokenV| !(t.class is Whitespace))
}

/// A list of tokens without white space and semicolons.
pub open spec fn without_separators(tokens: Seq<TokenV>) -> Seq<TokenV> {
    tokens.filter(|t: TokenV| !(t.class is Whitespace) && !(t.class is SemiColon))
}

/// True when no token of a list is white space.
pub open spec fn no_whitespace(tokens: Seq<TokenV>) -> bool {
    forall|i: int| 0 <= i < tokens.len() ==> !((#[trigger] tokens[i]).class is Whitespace)
}

/// True when a token of a pattern stands for a token of the input.
pub open spec fn token_matches(pattern: TokenV, token: TokenV) -> bool {
    pattern.class is Placeholder || pattern.repr == token.repr
}

/// The number of tokens at the start of the input that the pattern matches,
/// where it does. Semicolons of the input inside the match are passed over, and
/// a placeholder of the pattern matches any other token.
pub open spec fn match_len(pattern: Seq<TokenV>, input: Seq<TokenV>) -> Option<nat>
    decreases input.len(),
{
    if pattern.len() == 0 {
        Some(0)
    } else if input.len() == 0 {
        None
    } else if input[0].class is SemiColon {
        plus(match_len(pattern, input.skip(1)), 1)
    } else if token_matches(pattern[0], input[0]) {
        plus(match_len(pattern.skip(1), input.skip(1)), 1)
    } else {
        None
    }
}

/// A length with `n` more, where there is one.
pub open spec fn plus(len: Option<nat>, n: nat) -> Option<nat> {
    match len {
        Some(l) => Some(l + n),
        None => None,
    }
}

/// The first entry from number `k` on whose pattern matches at the start of the
/// input, with the length of the match. Empty patterns match nothing.
pub open spec fn first_match(
    entries: Seq<(Seq<TokenV>, Seq<TokenV>)>,
    k: int,
    input: Seq<TokenV>,
) -> Option<(int, nat)>
    decreases entries.len() - k,
{
    if k < 0 || k >= entries.len() {
        None
    } else {
        match match_len(entries[k].0, input) {
            Some(len) if entries[k].0.len() > 0 => Some((k, len)),
            _ => first_match(entries, k + 1, input),
        }
    }
}

/// The input with each match of a pattern replaced, from left to right. Where
/// several patterns match, the first one counts. A semicolon starts no match.
pub open spec fn replaced(
    entries: Seq<(Seq<TokenV>, Seq<TokenV>)>,
    input: Seq<TokenV>,
) -> Seq<TokenV>
    decreases input.len(),
{
    if input.len() == 0 {
        Seq::empty()
    } else if input[0].class is SemiColon {
        seq![input[0]] + replaced(entries, input.skip(1))
    } else {
        match first_match(entries, 0, input) {
            Some((k, len)) if 0 < len <= input.len() => entries[k].1 + replaced(
                entries,
                input.skip(len as int),
            ),
            _ => seq![input[0]] + replaced(entries, input.skip(1)),
        }
    }
}

/// A match is no longer than the input, and no shorter than the pattern.
pub proof fn lemma_match_len(pattern: Seq<TokenV>, input: Seq<TokenV>)
    ensures
        match_len(pattern, input) matches Some(len) ==> pattern.len() <= len <= input.len(),
    decreases input.len(),
{
    if pattern.len() > 0 && input.len() > 0 {
        lemma_match_len(pattern, input.skip(1));
        lemma_match_len(pattern.skip(1), input.skip(1));
    }
}

pub(crate) proof fn lemma_first_match(entries: Seq<(Seq<TokenV>, Seq<TokenV>)>, k: int, input: Seq<TokenV>)
    ensures
        first_match(entries, k, input) matches Some((i, len)) ==> 0 <= i < entries.len() && 0 < len
            <= input.len() && match_len(entries[i].0, input) == Some(len),
    decreases entries.len() - k,
{
    if 0 <= k < entries.len() {
        lemma_match_len(entries[k].0, input);
        lemma_first_match(entries, k + 1, input);
    }
}

/// Where neither the input nor a replacement holds white space, none comes out.
proof fn lemma_replaced_no_whitespace(
    entries: Seq<(Seq<TokenV>, Seq<TokenV>)>,
    input: Seq<TokenV>,
)
    requires
        no_whitespace(input),
        forall|i: int| 0 <= i < entries.len() ==> no_whitespace((#[trigger] entries[i]).1),
    ensures
        no_whitespace(replaced(entries, input)),
    decreases input.len(),
{
    if input.len() > 0 {
        assert forall|n: int| 0 < n <= input.len() implies no_whitespace(
            #[trigger] input.skip(n),
        ) by {}
        lemma_first_match(entries, 0, input);
        lemma_replaced_no_whitespace(entries, input.skip(1));
        match first_match(entries, 0, input) {
            Some((k, len)) => {
                lemma_replaced_no_whitespace(entries, input.skip(len as int));
            },
            None => {},
        }
    }
}

/// An entry of the list of replaced queries.
#[derive(Debug)]
struct Entry {
    pattern: Vec<SqlToken>,
    replacement: Vec<SqlToken>,
}

spec fn entries_view(v: Seq<Entry>) -> Seq<(Seq<TokenV>, Seq<TokenV>)> {
    v.map_values(|e: Entry| (tokens::tokens_view(e.pattern@), tokens::tokens_view(e.replacement@)))
}

fn match_at(pattern: &Vec<SqlToken>, tokens: &Vec<SqlToken>, i: usize) -> (r: Option<usize>)
    requires
        i <= tokens@.len(),
    ensures
        match r {
            Some(len) => match_len(tokens::tokens_view(pattern@), tokens::tokens_view(tokens@).skip(i as int))
                == Some(len as nat),
            None => match_len(tokens::tokens_view(pattern@), tokens::tokens_view(tokens@).skip(i as int)) is None,
        },
{
    let ghost p = tokens::tokens_view(pattern@);
    let ghost t = tokens::tokens_view(tokens@);
    let mut at: usize = i;
    let mut k: usize = 0;
    assert(p.skip(0) == p);
    while at < tokens.len() && k < pattern.len()
        invariant
            i <= at <= tokens@.len(),
            k <= pattern@.len(),
            p == tokens::tokens_view(pattern@),
            t == tokens::tokens_view(tokens@),
            match_len(p, t.skip(i as int)) == plus(
                match_len(p.skip(k as int), t.skip(at as int)),
                (at - i) as nat,
            ),
        decreases tokens@.len() - at,
    {
        proof {
            assert(t.skip(at as int).skip(1) == t.skip(at + 1));
            assert(p.skip(k as int).skip(1) == p.skip(k + 1));
            assert(t.skip(at as int)[0] == tokens@[at as int]@);
            assert(p.skip(k as int)[0] == pattern@[k as int]@);
        }
        match tokens[at].class() {
            TokenClass::SemiColon => {
                at += 1;
                continue ;
            },
            _ => {},
        }
        let wildcard = match pattern[k].class() {
            TokenClass::Placeholder => true,
            _ => false,
        };
        if !wildcard && !tokens[at].same(&pattern[k]) {
            return None;
        }
        at += 1;
        k += 1;
    }
    if k == pattern.len() {
        assert(p.skip(k as int).len() == 0);
        Some(at - i)
    } else {
        assert(t.skip(at as int).len() == 0);
        None
    }
}

fn append_copies(out: &mut Vec<SqlToken>, tokens: &Vec<SqlToken>)
    ensures
        tokens::tokens_view(final(out)@) == tokens::tokens_view(old(out)@) + tokens::tokens_view(tokens@),
{
    let ghost before = tokens::tokens_view(out@);
    let ghost all = tokens::tokens_view(tokens@);
    let mut i: usize = 0;
    assert(before + all.take(0) == before);
    while i < tokens.len()
        invariant
            i <= tokens@.len(),
            all == tokens::tokens_view(tokens@),
            tokens::tokens_view(out@) == before + all.take(i as int),
        decreases tokens@.len() - i,
    {
        let ghost previous = out@;
        let copy = tokens[i].copy();
        let ghost added = copy@;
        out.push(copy);
        proof {
            assert(tokens::tokens_view(out@) == tokens::tokens_view(previous).push(added));
            assert(before + all.take(i + 1) == (before + all.take(i as int)).push(all[i as int]));
        }
        i += 1;
    }
    assert(all.take(all.len() as int) == all);
}

fn push_token(out: &mut Vec<SqlToken>, token: SqlToken)
    ensures
        tokens::tokens_view(final(out)@) == tokens::tokens_view(old(out)@).push(token@),
{
    let ghost before = out@;
    out.push(token);
    assert(tokens::tokens_view(out@) == tokens::tokens_view(before).push(token@));
}

fn keep_tokens(tokens: Vec<SqlToken>, keep_semicolons: bool) -> (r: Vec<SqlToken>)
    ensures
        tokens::tokens_view(r@) == (if keep_semicolons {
            without_whitespace(tokens::tokens_view(tokens@))
        } else {
            without_separators(tokens::tokens_view(tokens@))
        }),
        no_whitespace(tokens::tokens_view(r@)),
{
    let ghost all = tokens::tokens_view(tokens@);
    let ghost keep = |t: TokenV|
        !(t.class is Whitespace) && (keep_semicolons || !(t.class is SemiColon));
    let mut out: Vec<SqlToken> = Vec::new();
    proof {
        reveal(Seq::filter);
        assert(tokens::tokens_view(out@) == all.take(0).filter(keep));
    }
    for token in it: tokens
        invariant
            it.seq() == tokens@,
            all == tokens::tokens_view(tokens@),
            keep == (|t: TokenV|
                !(t.class is Whitespace) && (keep_semicolons || !(t.class is SemiColon))),
            tokens::tokens_view(out@) == all.take(it.index()).filter(keep),
            no_whitespace(tokens::tokens_view(out@)),
    {
        proof {
            assert(all.take(it.index() + 1).drop_last() == all.take(it.index()));
            assert(all.take(it.index() + 1).last() == token@);
            reveal(Seq::filter);
        }
        let dropped = match token.class() {
            TokenClass::Whitespace => true,
            TokenClass::SemiColon => !keep_semicolons,
            _ => false,
        };
        if !dropped {
            push_token(&mut out, token);
        }
    }
    proof {
        assert(all.take(all.len() as int) == all);
        if keep_semicolons {
            assert(keep =~= (|t: TokenV| !(t.class is Whitespace)));
        } else {
            assert(keep =~= (|t: TokenV| !(t.class is Whitespace) && !(t.class is SemiColon)));
        }
    }
    out
}

fn rewrite_abort_to_rollback(tokens: Vec<SqlToken>) -> (r: Vec<SqlToken>)
    ensures
        tokens::tokens_view(r@) == abort_as_rollback(tokens::tokens_view(tokens@)),
        no_whitespace(tokens::tokens_view(tokens@)) ==> no_whitespace(tokens::tokens_view(r@)),
{
    let ghost all = tokens::tokens_view(tokens@);
    let mut out: Vec<SqlToken> = Vec::new();
    for token in it: tokens
        invariant
            it.seq() == tokens@,
            all == tokens::tokens_view(tokens@),
            tokens::tokens_view(out@) == abort_as_rollback(all.take(it.index())),
            no_whitespace(all) ==> no_whitespace(tokens::tokens_view(out@)),
    {
        proof {
            assert(all.take(it.index() + 1) == all.take(it.index()).push(token@));
            assert(abort_as_rollback(all.take(it.index() + 1)) == abort_as_rollback(
                all.take(it.index()),
            ).push(
                if token@.class is Abort {
                    tokens::keyword_token("ROLLBACK"@)
                } else {
                    token@
                },
            ));
        }
        match token.class() {
            TokenClass::Abort => push_token(&mut out, tokens::make_keyword("ROLLBACK")),
            _ => push_token(&mut out, token),
        }
    }
    assert(all.take(all.len() as int) == all);
    out
}

/// The patterns and replacements that a list of texts stands for, where all of
/// them have tokens.
pub open spec fn entries_of(queries: Seq<(Seq<char>, Seq<char>)>) -> Option<
    Seq<(Seq<TokenV>, Seq<TokenV>)>,
>
    decreases queries.len(),
{
    if queries.len() == 0 {
        Some(Seq::empty())
    } else {
        match (
            entries_of(queries.drop_last()),
            tokens::sql_tokens(queries.last().0),
            tokens::sql_tokens(queries.last().1),
        ) {
            (Some(before), Some(pattern), Some(replacement)) => Some(
                before.push((without_separators(pattern), without_separators(replacement))),
            ),
            _ => None,
        }
    }
}

proof fn lemma_entries_of_prefix(queries: Seq<(Seq<char>, Seq<char>)>, i: int)
    requires
        0 <= i <= queries.len(),
        entries_of(queries.take(i)) is None,
    ensures
        entries_of(queries) is None,
    decreases queries.len() - i,
{
    if i < queries.len() {
        assert(queries.take(i + 1).drop_last() == queries.take(i));
        lemma_entries_of_prefix(queries, i + 1);
    } else {
        assert(queries.take(i) == queries);
    }
}

/// A parser for the SQL of Postgres clients.
///
/// It replaces known client queries before they are parsed, and rewrites every
/// statement by a fixed list of rules.
#[derive(Debug)]
pub struct PostgresCompatibilityParser {
    blacklist: Vec<Entry>,
    reg_casts: RewriteRegCastToSubquery,
}

impl PostgresCompatibilityParser {
    /// No replacement holds white space.
    #[verifier::type_invariant]
    spec fn well_formed(self) -> bool {
        forall|i: int|
            0 <= i < entries_view(self.blacklist@).len() ==> no_whitespace(
                (#[trigger] entries_view(self.blacklist@)[i]).1,
            )
    }

    /// The replaced queries as patterns of tokens, with their replacements.
    pub closed spec fn entries(&self) -> Seq<(Seq<TokenV>, Seq<TokenV>)> {
        entries_view(self.blacklist@)
    }

    /// The rule for casts of names to oids.
    pub closed spec fn reg_cast_rule(&self) -> RewriteRegCastToSubquery {
        self.reg_casts
    }

    /// A parser with the known queries and the rule for casts of names to oids. There is an
    /// error where one of their texts is no SQL.
    pub fn new() -> (r: Result<Self, ParseError>)
        ensures
            match r {
                Ok(parser) => parser.reg_cast_rule().looks_up(rules::lookup_texts())
                    && entries_of(blacklist::replaced_queries()) == Some(parser.entries()),
                Err(_) => entries_of(blacklist::replaced_queries()) is None
                    || rules::lookup_queries(rules::lookup_texts()) is None,
            },
    {
        let reg_casts = match RewriteRegCastToSubquery::new() {
            Ok(rule) => rule,
            Err(error) => {
                return Err(error);
            },
        };
        let queries = blacklist::blacklist_sql_mapping();
        let ghost all = blacklist::replaced_queries();
        let mut entries: Vec<Entry> = Vec::new();
        let mut i: usize = 0;
        proof {
            assert(all.take(0) == Seq::<(Seq<char>, Seq<char>)>::empty());
            assert(entries_view(entries@) == Seq::<(Seq<TokenV>, Seq<TokenV>)>::empty());
        }
        while i < queries.len()
            invariant
                i <= queries@.len(),
                queries@.len() == all.len(),
                all == blacklist::replaced_queries(),
                forall|j: int|
                    0 <= j < queries@.len() ==> ((#[trigger] queries@[j]).0@, queries@[j].1@)
                        == all[j],
                entries_of(all.take(i as int)) == Some(entries_view(entries@)),
                forall|j: int|
                    0 <= j < entries_view(entries@).len() ==> no_whitespace(
                        (#[trigger] entries_view(entries@)[j]).1,
                    ),
            decreases queries@.len() - i,
        {
            let query = queries[i];
            proof {
                assert(all.take(i + 1).drop_last() == all.take(i as int));
                assert(all.take(i + 1).last() == all[i as int]);
                assert((queries@[i as int].0@, queries@[i as int].1@) == all[i as int]);
                if tokens::sql_tokens(query.0@) is None || tokens::sql_tokens(query.1@) is None {
                    lemma_entries_of_prefix(all, i + 1);
                }
            }
            let pattern = match tokens::tokens_of(query.0) {
                Ok(tokens) => keep_tokens(tokens, false),
                Err(error) => {
                    return Err(error);
                },
            };
            let replacement = match tokens::tokens_of(query.1) {
                Ok(tokens) => keep_tokens(tokens, false),
                Err(error) => {
                    return Err(error);
                },
            };
            let ghost before = entries@;
            let ghost added = (tokens::tokens_view(pattern@), tokens::tokens_view(replacement@));
            entries.push(Entry { pattern, replacement });
            assert(entries_view(entries@) == entries_view(before).push(added));
            i += 1;
        }
        assert(all.take(all.len() as int) == all);
        Ok(PostgresCompatibilityParser { blacklist: entries, reg_casts })
    }

    fn find_match(&self, tokens: &Vec<SqlToken>, i: usize) -> (r: Option<(usize, usize)>)
        requires
            i <= tokens@.len(),
        ensures
            match r {
                Some((k, len)) => first_match(
                    self.entries(),
                    0,
                    tokens::tokens_view(tokens@).skip(i as int),
                ) == Some((k as int, len as nat)),
                None => first_match(self.entries(), 0, tokens::tokens_view(tokens@).skip(i as int)) is None,
            },
    {
        let ghost input = tokens::tokens_view(tokens@).skip(i as int);
        let mut k: usize = 0;
        while k < self.blacklist.len()
            invariant
                k <= self.blacklist@.len(),
                i <= tokens@.len(),
                input == tokens::tokens_view(tokens@).skip(i as int),
                first_match(self.entries(), 0, input) == first_match(
                    self.entries(),
                    k as int,
                    input,
                ),
            decreases self.blacklist@.len() - k,
        {
            assert(self.entries()[k as int] == (
                tokens::tokens_view(self.blacklist@[k as int].pattern@),
                tokens::tokens_view(self.blacklist@[k as int].replacement@),
            ));
            if self.blacklist[k].pattern.len() > 0 {
                if let Some(len) = match_at(&self.blacklist[k].pattern, tokens, i) {
                    return Some((k, len));
                }
            }
            k += 1;
        }
        None
    }

    /// Replaces the known queries among the tokens of a text. The tokens hold no
    /// white space.
    pub fn replace_tokens(&self, tokens: &Vec<SqlToken>) -> (r: Vec<SqlToken>)
        ensures
            tokens::tokens_view(r@) == replaced(self.entries(), tokens::tokens_view(tokens@)),
    {
        let ghost all = tokens::tokens_view(tokens@);
        let mut out: Vec<SqlToken> = Vec::new();
        let mut i: usize = 0;
        assert(all.skip(0) == all);
        assert(tokens::tokens_view(out@) + replaced(self.entries(), all.skip(0)) == replaced(
            self.entries(),
            all,
        ));
        while i < tokens.len()
            invariant
                i <= tokens@.len(),
                all == tokens::tokens_view(tokens@),
                tokens::tokens_view(out@) + replaced(self.entries(), all.skip(i as int)) == replaced(
                    self.entries(),
                    all,
                ),
            decreases tokens@.len() - i,
        {
            let ghost input = all.skip(i as int);
            let ghost before = tokens::tokens_view(out@);
            proof {
                assert(input[0] == tokens@[i as int]@);
                assert(input.skip(1) == all.skip(i + 1));
                lemma_first_match(self.entries(), 0, input);
            }
            let semicolon = match tokens[i].class() {
                TokenClass::SemiColon => true,
                _ => false,
            };
            let found = if semicolon {
                None
            } else {
                self.find_match(tokens, i)
            };
            match found {
                Some((k, len)) => {
                    append_copies(&mut out, &self.blacklist[k].replacement);
                    proof {
                        assert(self.entries()[k as int].1 == tokens::tokens_view(
                            self.blacklist@[k as int].replacement@,
                        ));
                        assert(input.skip(len as int) == all.skip(i + len));
                        assert(tokens::tokens_view(out@) + replaced(self.entries(), all.skip(i + len))
                            == before + replaced(self.entries(), input));
                    }
                    i += len;
                },
                None => {
                    push_token(&mut out, tokens[i].copy());
                    proof {
                        assert(tokens::tokens_view(out@) + replaced(self.entries(), all.skip(i + 1))
                            == before + replaced(self.entries(), input));
                    }
                    i += 1;
                },
            }
        }
        assert(tokens::tokens_view(out@) + replaced(self.entries(), all.skip(all.len() as int))
            == tokens::tokens_view(out@));
        out
    }

    /// What the tokens of a text become before they are parsed.
    pub open spec fn prepared(&self, tokens: Seq<TokenV>) -> Seq<TokenV> {
        replaced(self.entries(), abort_as_rollback(without_whitespace(tokens)))
    }

    /// Prepares the tokens of a text for the parser: drops white space, replaces
    /// `ABORT` by `ROLLBACK`, and replaces the known queries.
    pub fn prepare_tokens(&self, tokens: Vec<SqlToken>) -> (r: Vec<SqlToken>)
        ensures
            tokens::tokens_view(r@) == self.prepared(tokens::tokens_view(tokens@)),
            no_whitespace(tokens::tokens_view(r@)),
    {
        let tokens = keep_tokens(tokens, true);
        let tokens = rewrite_abort_to_rollback(tokens);
        proof {
            use_type_invariant(self);
            lemma_replaced_no_whitespace(self.entries(), tokens::tokens_view(tokens@));
        }
        self.replace_tokens(&tokens)
    }

    /// The tokens of a text, prepared for the parser.
    pub fn maybe_replace_tokens(&self, input: &str) -> (r: Result<Vec<SqlToken>, ParseError>)
        ensures
            match (r, tokens::sql_tokens(input@)) {
                (Ok(tokens), Some(raw)) => tokens::tokens_view(tokens@) == self.prepared(raw)
                    && no_whitespace(tokens::tokens_view(tokens@)),
                (Err(_), None) => true,
                _ => false,
            },
    {
        match tokens::tokens_of(input) {
            Ok(tokens) => Ok(self.prepare_tokens(tokens)),
            Err(error) => Err(error),
        }
    }

    /// The trees of the statements that prepared tokens hold, before they are rewritten.
    /// Their nodes are numbered behind those of the lookup queries.
    pub fn parse_tokens(&self, tokens: Vec<SqlToken>) -> (r: Result<ParsedTrees, ParseError>)
        ensures
            match (r, tokens::parsed_trees(tokens::tokens_view(tokens@), self.reg_cast_rule().parts_view().len())) {
                (Ok(parsed), Some((trees, parts))) => tree::nodes_view(parsed.trees@) == trees
                    && parsed.parts@ == parts,
                (Err(_), None) => true,
                _ => false,
            },
    {
        match tokens::parse_raw(tokens, self.reg_casts.parts().len()) {
            Ok(parsed) => Ok(parsed),
            Err(error) => Err(ParseError::Sql(error)),
        }
    }

    /// What the lookup queries hold beside what the rules read.
    pub fn lookup_parts(&self) -> (r: &Vec<Part>)
        ensures
            r@ == self.reg_cast_rule().parts_view(),
    {
        self.reg_casts.parts()
    }

    /// The statements of a text, rewritten by all rules.
    pub fn parse(&self, input: &str) -> (r: Result<ParsedTrees, ParseError>)
        ensures
            match (r, self.parsed(input@)) {
                (Ok(parsed), Some((trees, parts))) => tree::nodes_view(parsed.trees@)
                    == trees.map_values(|s: NodeV| self.rewritten(s)) && parsed.parts@ == parts,
                (Err(_), None) => true,
                _ => false,
            },
    {
        let parsed = match self.maybe_replace_tokens(input) {
            Ok(tokens) => match self.parse_tokens(tokens) {
                Ok(parsed) => parsed,
                Err(error) => {
                    return Err(error);
                },
            },
            Err(error) => {
                return Err(error);
            },
        };
        let ParsedTrees { trees, parts } = parsed;
        let ghost all = trees@;
        let mut out: Vec<Node> = Vec::new();
        for statement in it: trees
            invariant
                it.seq() == all,
                out@.len() == it.index(),
                forall|j: int|
                    0 <= j < out@.len() ==> (#[trigger] out@[j])@ == self.rewritten(all[j]@),
        {
            out.push(self.rewrite(statement));
        }
        assert(tree::nodes_view(out@) == tree::nodes_view(all).map_values(
            |s: NodeV| self.rewritten(s),
        ));
        Ok(ParsedTrees { trees: out, parts })
    }

    /// The trees of the statements of a text with the known queries replaced, before they
    /// are rewritten, and their parts, where the text has tokens and can be parsed.
    pub open spec fn parsed(&self, input: Seq<char>) -> Option<(Seq<NodeV>, Seq<Part>)> {
        match tokens::sql_tokens(input) {
            Some(raw) => tokens::parsed_trees(
                self.prepared(raw),
                self.reg_cast_rule().parts_view().len(),
            ),
            None => None,
        }
    }

    /// What the rules make of a statement, one after the other.
    pub open spec fn rewritten(&self, s: NodeV) -> NodeV {
        let s = AliasDuplicatedProjectionRewrite.rewritten(s);
        let s = ResolveUnqualifiedIdentifier.rewritten(s);
        let s = RewriteArrayAnyAllOperation.rewritten(s);
        let s = PrependUnqualifiedPgTableName.rewritten(s);
        let s = StripCallableQualifier.rewritten(s);
        let s = FixArrayLiteral.rewritten(s);
        let s = CurrentUserVariableToSessionUserFunctionCall.rewritten(s);
        let s = StripCollate.rewritten(s);
        let s = RewritePgCatalogOperator.rewritten(s);
        let s = self.reg_cast_rule().rewritten(s);
        let s = RemoveSubqueryFromProjection.rewritten(s);
        FixVersionColumnName.rewritten(s)
    }

    /// Rewrites a statement by all rules, one after the other.
    pub fn rewrite(&self, s: Node) -> (r: Node)
        ensures
            r@ == self.rewritten(s@),
    {
        let s = AliasDuplicatedProjectionRewrite.rewrite(s);
        let s = ResolveUnqualifiedIdentifier.rewrite(s);
        let s = RewriteArrayAnyAllOperation.rewrite(s);
        let s = PrependUnqualifiedPgTableName.rewrite(s);
        let s = StripCallableQualifier.rewrite(s);
        let s = FixArrayLiteral.rewrite(s);
        let s = CurrentUserVariableToSessionUserFunctionCall.rewrite(s);
        let s = StripCollate.rewrite(s);
        let s = RewritePgCatalogOperator.rewrite(s);
        let s = self.reg_casts.rewrite(s);
        let s = RemoveSubqueryFromProjection.rewrite(s);
        FixVersionColumnName.rewrite(s)
    }
}

/// Tokens that no pattern matches are kept as they are.
pub proof fn law_unknown_queries_are_kept(
    entries: Seq<(Seq<TokenV>, Seq<TokenV>)>,
    input: Seq<TokenV>,
)
    requires
        forall|i: int|
            0 <= i < input.len() ==> first_match(entries, 0, #[trigger] input.skip(i))
                is None,
    ensures
        replaced(entries, input) == input,
    decreases input.len(),
{
    if input.len() > 0 {
        let rest = input.skip(1);
        assert forall|i: int| 0 <= i < rest.len() implies first_match(
            entries,
            0,
            #[trigger] rest.skip(i),
        ) is None by {
            assert(rest.skip(i) == input.skip(i + 1));
        }
        law_unknown_queries_are_kept(entries, rest);
        assert(input.skip(0) == input);
        assert(seq![input[0]] + rest == input);
    }
}

/// True when no token of a pattern is `ROLLBACK`.
pub open spec fn lacks_rollback(pattern: Seq<TokenV>) -> bool {
    forall|i: int|
        0 <= i < pattern.len() ==> (#[trigger] pattern[i]).repr != tokens::keyword_token(
            "ROLLBACK"@,
        ).repr
}

/// A pattern without `ROLLBACK` matches no more where each `ABORT` is replaced by it.
proof fn lemma_match_before_rollback(pattern: Seq<TokenV>, input: Seq<TokenV>)
    requires
        lacks_rollback(pattern),
    ensures
        match_len(pattern, abort_as_rollback(input)) is Some ==> match_len(pattern, input)
            == match_len(pattern, abort_as_rollback(input)),
    decreases input.len(),
{
    if pattern.len() > 0 && input.len() > 0 {
        let rest = input.skip(1);
        assert(abort_as_rollback(input).skip(1) == abort_as_rollback(rest));
        assert(lacks_rollback(pattern.skip(1))) by {
            assert forall|i: int| 0 <= i < pattern.skip(1).len() implies (#[trigger] pattern.skip(
                1,
            )[i]).repr != tokens::keyword_token("ROLLBACK"@).repr by {
                assert(pattern.skip(1)[i] == pattern[i + 1]);
            }
        }
        assert(pattern[0].repr != tokens::keyword_token("ROLLBACK"@).repr);
        lemma_match_before_rollback(pattern, rest);
        lemma_match_before_rollback(pattern.skip(1), rest);
    }
}

proof fn lemma_first_match_before_rollback(
    entries: Seq<(Seq<TokenV>, Seq<TokenV>)>,
    k: int,
    input: Seq<TokenV>,
)
    requires
        forall|i: int| 0 <= i < entries.len() ==> lacks_rollback((#[trigger] entries[i]).0),
        first_match(entries, k, input) is None,
    ensures
        first_match(entries, k, abort_as_rollback(input)) is None,
    decreases entries.len() - k,
{
    if 0 <= k < entries.len() {
        lemma_match_before_rollback(entries[k].0, input);
        lemma_first_match_before_rollback(entries, k + 1, input);
    }
}

/// A text in which no known query occurs keeps its tokens, without white space and with
/// each `ABORT` replaced by `ROLLBACK`, where no known query holds a `ROLLBACK`.
pub proof fn law_unknown_texts_are_kept(p: PostgresCompatibilityParser, tokens: Seq<TokenV>)
    requires
        forall|i: int|
            0 <= i < p.entries().len() ==> lacks_rollback((#[trigger] p.entries()[i]).0),
        forall|i: int|
            0 <= i < without_whitespace(tokens).len() ==> first_match(
                p.entries(),
                0,
                #[trigger] without_whitespace(tokens).skip(i),
            ) is None,
    ensures
        p.prepared(tokens) == abort_as_rollback(without_whitespace(tokens)),
{
    let input = without_whitespace(tokens);
    let new = abort_as_rollback(input);
    assert forall|i: int| 0 <= i < new.len() implies first_match(
        p.entries(),
        0,
        #[trigger] new.skip(i),
    ) is None by {
        assert(new.skip(i) == abort_as_rollback(input.skip(i)));
        lemma_first_match_before_rollback(p.entries(), 0, input.skip(i));
    }
    law_unknown_queries_are_kept(p.entries(), new);
}

/// A text that a pattern matches as a whole is replaced as a whole.
pub proof fn law_known_queries_are_replaced(
    entries: Seq<(Seq<TokenV>, Seq<TokenV>)>,
    input: Seq<TokenV>,
    k: int,
)
    requires
        input.len() > 0,
        !(input[0].class is SemiColon),
        first_match(entries, 0, input) == Some((k, input.len())),
    ensures
        replaced(entries, input) == entries[k].1,
{
    let rest = input.skip(input.len() as int);
    assert(rest.len() == 0);
    assert(replaced(entries, rest) == Seq::<TokenV>::empty());
    assert(entries[k].1 + Seq::<TokenV>::empty() == entries[k].1);
}

/// White space between tokens makes no difference to a parser.
pub proof fn law_white_space_does_not_matter(
    p: PostgresCompatibilityParser,
    a: Seq<TokenV>,
    b: Seq<TokenV>,
)
    requires
        without_whitespace(a) == without_whitespace(b),
    ensures
        p.prepared(a) == p.prepared(b),
{
}

/// Texts that differ in white space, and in `ABORT` in the place of `ROLLBACK`, hold the same
/// statements.
pub proof fn law_abort_means_rollback(p: PostgresCompatibilityParser, a: Seq<char>, b: Seq<char>)
    requires
        match (tokens::sql_tokens(a), tokens::sql_tokens(b)) {
            (Some(x), Some(y)) => abort_as_rollback(without_whitespace(x)) == abort_as_rollback(
                without_whitespace(y),
            ),
            _ => false,
        },
    ensures
        p.parsed(a) == p.parsed(b),
{
}

} // verus!
