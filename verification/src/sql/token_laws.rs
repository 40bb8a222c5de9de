//! What the replacement of known queries does to the tokens of a text, and the order of the
//! rules that its statements go through.
use crate::sql::parser::PostgresCompatibilityParser;
use crate::sql::projection::{
    AliasDuplicatedProjectionRewrite, RemoveSubqueryFromProjection, ResolveUnqualifiedIdentifier,
};
use crate::sql::rules::{
    CurrentUserVariableToSessionUserFunctionCall, FixArrayLiteral, FixVersionColumnName,
    PrependUnqualifiedPgTableName, RewriteArrayAnyAllOperation, RewritePgCatalogOperator,
    SqlStatementRewriteRule, StripCallableQualifier, StripCollate,
};
use crate::sql::tokens;
use crate::sql::tokens::{TokenClass, TokenV};
use crate::sql::tree::NodeV;
use vstd::prelude::*;

verus! {

/// True where a list of tokens starts with those of a pattern, each placeholder standing for
/// any one token.
pub open spec fn starts_with(input: Seq<TokenV>, pattern: Seq<TokenV>) -> bool {
    &&& pattern.len() <= input.len()
    &&& forall|i: int|
        0 <= i < pattern.len() ==> (#[trigger] pattern[i]).class == TokenClass::Placeholder
            || pattern[i].repr == input[i].repr
}

/// True where no token is a semicolon.
pub open spec fn is_one_statement(input: Seq<TokenV>) -> bool {
    forall|i: int| 0 <= i < input.len() ==> (#[trigger] input[i]).class != TokenClass::SemiColon
}

/// A pattern matches the tokens of a statement exactly where they start with it, and the
/// match is as long as the pattern.
pub proof fn law_patterns_match(pattern: Seq<TokenV>, input: Seq<TokenV>)
    requires
        is_one_statement(input),
    ensures
        crate::sql::parser::match_len(pattern, input) == (if starts_with(input, pattern) {
            Some(pattern.len())
        } else {
            None
        }),
    decreases input.len(),
{
    if pattern.len() > 0 && input.len() > 0 {
        let p = pattern.skip(1);
        let t = input.skip(1);
        assert forall|i: int| 0 <= i < t.len() implies (#[trigger] t[i]).class
            != TokenClass::SemiColon by {
            assert(t[i] == input[i + 1]);
        }
        law_patterns_match(p, t);
        assert(input[0].class != TokenClass::SemiColon);
        if starts_with(input, pattern) {
            assert(pattern[0].class == TokenClass::Placeholder || pattern[0].repr
                == input[0].repr);
            assert forall|i: int| 0 <= i < p.len() implies (#[trigger] p[i]).class
                == TokenClass::Placeholder || p[i].repr == t[i].repr by {
                assert(p[i] == pattern[i + 1]);
            }
        } else if starts_with(t, p) && crate::sql::parser::token_matches(pattern[0], input[0]) {
            assert forall|i: int| 0 <= i < pattern.len() implies (#[trigger] pattern[i]).class
                == TokenClass::Placeholder || pattern[i].repr == input[i].repr by {
                if i > 0 {
                    assert(p[i - 1] == pattern[i]);
                    assert(t[i - 1] == input[i]);
                }
            }
            assert(false);
        }
    }
}

/// A semicolon in the input before the end of a match is passed over: the match is longer by
/// it, and there is none where there is none without it.
pub proof fn law_semicolons_are_passed_over(
    pattern: Seq<TokenV>,
    before: Seq<TokenV>,
    semicolon: TokenV,
    after: Seq<TokenV>,
)
    requires
        is_one_statement(before),
        before.len() < pattern.len(),
        semicolon.class == TokenClass::SemiColon,
    ensures
        crate::sql::parser::match_len(pattern, before + seq![semicolon] + after) == (match crate::sql::parser::match_len(
            pattern,
            before + after,
        ) {
            Some(n) => Some((n + 1) as nat),
            None => None,
        }),
    decreases before.len(),
{
    let with = before + seq![semicolon] + after;
    let without = before + after;
    if before.len() == 0 {
        assert(with[0] == semicolon);
        assert(with.skip(1) == without);
    } else {
        let rest = before.skip(1);
        assert forall|i: int| 0 <= i < rest.len() implies (#[trigger] rest[i]).class
            != TokenClass::SemiColon by {
            assert(rest[i] == before[i + 1]);
        }
        assert(with[0] == before[0] && without[0] == before[0]);
        assert(with.skip(1) == rest + seq![semicolon] + after);
        assert(without.skip(1) == rest + after);
        assert(before[0].class != TokenClass::SemiColon);
        law_semicolons_are_passed_over(pattern.skip(1), rest, semicolon, after);
    }
}

/// Of the entries whose patterns match, the first one counts. An empty pattern does not.
pub proof fn law_first_pattern_counts(
    entries: Seq<(Seq<TokenV>, Seq<TokenV>)>,
    input: Seq<TokenV>,
    k: int,
)
    requires
        0 <= k <= entries.len(),
        forall|j: int|
            0 <= j < k ==> (#[trigger] entries[j]).0.len() == 0 || crate::sql::parser::match_len(
                entries[j].0,
                input,
            ) is None,
    ensures
        k < entries.len() && entries[k].0.len() > 0 && crate::sql::parser::match_len(entries[k].0, input)
            is Some ==> crate::sql::parser::first_match(entries, 0, input) == Some(
            (k, crate::sql::parser::match_len(entries[k].0, input)->0),
        ),
        k == entries.len() ==> crate::sql::parser::first_match(entries, 0, input) is None,
{
    lemma_first_pattern(entries, input, 0, k);
}

proof fn lemma_first_pattern(
    entries: Seq<(Seq<TokenV>, Seq<TokenV>)>,
    input: Seq<TokenV>,
    from: int,
    k: int,
)
    requires
        0 <= from <= k <= entries.len(),
        forall|j: int|
            0 <= j < k ==> (#[trigger] entries[j]).0.len() == 0 || crate::sql::parser::match_len(
                entries[j].0,
                input,
            ) is None,
    ensures
        k < entries.len() && entries[k].0.len() > 0 && crate::sql::parser::match_len(entries[k].0, input)
            is Some ==> crate::sql::parser::first_match(entries, from, input) == Some(
            (k, crate::sql::parser::match_len(entries[k].0, input)->0),
        ),
        k == entries.len() ==> crate::sql::parser::first_match(entries, from, input) is None,
    decreases k - from,
{
    if from < k {
        assert(entries[from].0.len() == 0 || crate::sql::parser::match_len(entries[from].0, input) is None);
        lemma_first_pattern(entries, input, from + 1, k);
    }
}

/// A known query is replaced wherever it stands: the tokens before it are kept, those after
/// it are gone through in the same way.
pub proof fn law_queries_are_replaced_in_place(
    entries: Seq<(Seq<TokenV>, Seq<TokenV>)>,
    before: Seq<TokenV>,
    input: Seq<TokenV>,
    k: int,
    len: nat,
)
    requires
        forall|i: int|
            0 <= i < before.len() ==> before[i].class == TokenClass::SemiColon
                || crate::sql::parser::first_match(entries, 0, #[trigger] (before + input).skip(i)) is None,
        input.len() > 0,
        input[0].class != TokenClass::SemiColon,
        crate::sql::parser::first_match(entries, 0, input) == Some((k, len)),
    ensures
        0 <= k < entries.len(),
        0 < len <= input.len(),
        crate::sql::parser::replaced(entries, before + input) == before + (entries[k].1 + crate::sql::parser::replaced(
            entries,
            input.skip(len as int),
        )),
    decreases before.len(),
{
    let all = before + input;
    crate::sql::parser::lemma_first_match(entries, 0, input);
    if before.len() == 0 {
        assert(all == input);
        assert(before + (entries[k].1 + crate::sql::parser::replaced(entries, input.skip(len as int)))
            == entries[k].1 + crate::sql::parser::replaced(entries, input.skip(len as int)));
    } else {
        let rest = before.skip(1);
        assert(all.skip(1) == rest + input);
        assert forall|i: int| 0 <= i < rest.len() implies rest[i].class == TokenClass::SemiColon
            || crate::sql::parser::first_match(entries, 0, #[trigger] (rest + input).skip(i)) is None by {
            assert((rest + input).skip(i) == all.skip(i + 1));
            assert(rest[i] == before[i + 1]);
        }
        law_queries_are_replaced_in_place(entries, rest, input, k, len);
        assert(all.skip(0) == all);
        assert(all[0] == before[0]);
        let tail = entries[k].1 + crate::sql::parser::replaced(entries, input.skip(len as int));
        assert(seq![before[0]] + (rest + tail) == before + tail);
    }
}

/// Each `ABORT` becomes the keyword `ROLLBACK`, and every other token stays as it is.
pub proof fn law_abort_is_rollback(input: Seq<TokenV>, i: int)
    requires
        0 <= i < input.len(),
    ensures
        crate::sql::parser::abort_as_rollback(input).len() == input.len(),
        crate::sql::parser::abort_as_rollback(input)[i] == (if input[i].class == TokenClass::Abort {
            tokens::keyword_token("ROLLBACK"@)
        } else {
            input[i]
        }),
{
}

/// White space is dropped token by token, and nothing else is. A pattern is without its
/// semicolons as well.
pub proof fn law_white_space_is_dropped(a: Seq<TokenV>, t: TokenV)
    ensures
        crate::sql::parser::without_whitespace(Seq::empty()) == Seq::<TokenV>::empty(),
        crate::sql::parser::without_whitespace(a.push(t)) == (if t.class == TokenClass::Whitespace {
            crate::sql::parser::without_whitespace(a)
        } else {
            crate::sql::parser::without_whitespace(a).push(t)
        }),
        crate::sql::parser::without_separators(Seq::empty()) == Seq::<TokenV>::empty(),
        crate::sql::parser::without_separators(a.push(t)) == (if t.class == TokenClass::Whitespace || t.class
            == TokenClass::SemiColon {
            crate::sql::parser::without_separators(a)
        } else {
            crate::sql::parser::without_separators(a).push(t)
        }),
{
    reveal(Seq::filter);
    let b = a.push(t);
    assert(b.drop_last() == a);
    assert(b.last() == t);
}

/// The known queries: each is a text that is replaced, without its white space and
/// semicolons, by the text that goes with it. There are none where one has no tokens.
pub proof fn law_known_queries(queries: Seq<(Seq<char>, Seq<char>)>, i: int)
    requires
        0 <= i < queries.len(),
    ensures
        match crate::sql::parser::entries_of(queries) {
            Some(entries) => {
                &&& entries.len() == queries.len()
                &&& tokens::sql_tokens(queries[i].0) matches Some(t) && entries[i].0
                    == crate::sql::parser::without_separators(t)
                &&& tokens::sql_tokens(queries[i].1) matches Some(t) && entries[i].1
                    == crate::sql::parser::without_separators(t)
            },
            None => exists|j: int|
                0 <= j < queries.len() && (tokens::sql_tokens((#[trigger] queries[j]).0) is None
                    || tokens::sql_tokens(queries[j].1) is None),
        },
    decreases queries.len(),
{
    let init = queries.drop_last();
    let n = queries.len() - 1;
    assert(queries.last() == queries[n]);
    lemma_known_queries(init);
    if i < n {
        assert(init[i] == queries[i]);
        law_known_queries(init, i);
    }
    if crate::sql::parser::entries_of(init) is None {
        let j = choose|j: int|
            0 <= j < init.len() && (tokens::sql_tokens((#[trigger] init[j]).0) is None
                || tokens::sql_tokens(init[j].1) is None);
        assert(queries[j] == init[j]);
    }
}

proof fn lemma_known_queries(queries: Seq<(Seq<char>, Seq<char>)>)
    ensures
        match crate::sql::parser::entries_of(queries) {
            Some(entries) => entries.len() == queries.len(),
            None => exists|j: int|
                0 <= j < queries.len() && (tokens::sql_tokens((#[trigger] queries[j]).0) is None
                    || tokens::sql_tokens(queries[j].1) is None),
        },
    decreases queries.len(),
{
    if queries.len() > 0 {
        let init = queries.drop_last();
        assert(queries.last() == queries[queries.len() - 1]);
        lemma_known_queries(init);
        if crate::sql::parser::entries_of(init) is None {
            let j = choose|j: int|
                0 <= j < init.len() && (tokens::sql_tokens((#[trigger] init[j]).0) is None
                    || tokens::sql_tokens(init[j].1) is None);
            assert(queries[j] == init[j]);
        }
    }
}

/// A text is parsed without its white space, with `ROLLBACK` for `ABORT`, and with the known
/// queries replaced, in this order.
pub proof fn law_texts_are_prepared(
    p: PostgresCompatibilityParser,
    raw: Seq<TokenV>,
    plain: Seq<TokenV>,
)
    requires
        plain.len() == crate::sql::parser::without_whitespace(raw).len(),
        forall|i: int|
            0 <= i < plain.len() ==> #[trigger] plain[i] == (
            if crate::sql::parser::without_whitespace(raw)[i].class == TokenClass::Abort {
                tokens::keyword_token("ROLLBACK"@)
            } else {
                crate::sql::parser::without_whitespace(raw)[i]
            }),
    ensures
        p.prepared(raw) == crate::sql::parser::replaced(p.entries(), plain),
{
    assert(plain =~= crate::sql::parser::abort_as_rollback(crate::sql::parser::without_whitespace(raw)));
}

/// A statement goes through all rules, one after the other, in this order.
pub proof fn law_rules_are_applied_in_order(p: PostgresCompatibilityParser, t: Seq<NodeV>)
    requires
        t.len() == 13,
        t[1] == AliasDuplicatedProjectionRewrite.rewritten(t[0]),
        t[2] == ResolveUnqualifiedIdentifier.rewritten(t[1]),
        t[3] == RewriteArrayAnyAllOperation.rewritten(t[2]),
        t[4] == PrependUnqualifiedPgTableName.rewritten(t[3]),
        t[5] == StripCallableQualifier.rewritten(t[4]),
        t[6] == FixArrayLiteral.rewritten(t[5]),
        t[7] == CurrentUserVariableToSessionUserFunctionCall.rewritten(t[6]),
        t[8] == StripCollate.rewritten(t[7]),
        t[9] == RewritePgCatalogOperator.rewritten(t[8]),
        t[10] == p.reg_cast_rule().rewritten(t[9]),
        t[11] == RemoveSubqueryFromProjection.rewritten(t[10]),
        t[12] == FixVersionColumnName.rewritten(t[11]),
    ensures
        p.rewritten(t[0]) == t[12],
{
}

} // verus!
