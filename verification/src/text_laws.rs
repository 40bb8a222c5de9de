//! What the functions on text are for.
use crate::text;
use vstd::prelude::*;

verus! {

/// True when every character of a text is white space.
pub open spec fn is_blank(s: Seq<char>) -> bool {
    forall|i: int| 0 <= i < s.len() ==> text::is_space(#[trigger] s[i])
}

/// The white space of Unicode, by its code points.
pub proof fn law_white_space(c: char)
    ensures
        text::is_space(c) <==> {
            let n = c as u32;
            9 <= n <= 13 || n == 0x20 || n == 0x85 || n == 0xa0 || n == 0x1680 || 0x2000 <= n
                <= 0x200a || n == 0x2028 || n == 0x2029 || n == 0x202f || n == 0x205f || n == 0x3000
        },
{
}

proof fn lemma_trim_start(s: Seq<char>, p: spec_fn(char) -> bool) -> (k: int)
    ensures
        0 <= k <= s.len(),
        text::trim_start_by(s, p) == s.skip(k),
        forall|i: int| 0 <= i < k ==> p(#[trigger] s[i]),
        k < s.len() ==> !p(s[k]),
    decreases s.len(),
{
    if s.len() > 0 && p(s[0]) {
        let k = lemma_trim_start(s.skip(1), p);
        assert(s.skip(1).skip(k) == s.skip(k + 1));
        assert forall|i: int| 0 <= i < k + 1 implies p(#[trigger] s[i]) by {
            if i > 0 {
                assert(s.skip(1)[i - 1] == s[i]);
            }
        }
        if k + 1 < s.len() {
            assert(s.skip(1)[k] == s[k + 1]);
        }
        k + 1
    } else {
        assert(s.skip(0) == s);
        0
    }
}

proof fn lemma_trim_end(s: Seq<char>, p: spec_fn(char) -> bool) -> (k: int)
    ensures
        0 <= k <= s.len(),
        text::trim_end_by(s, p) == s.take(k),
        forall|i: int| k <= i < s.len() ==> p(#[trigger] s[i]),
        k > 0 ==> !p(s[k - 1]),
    decreases s.len(),
{
    if s.len() > 0 && p(s.last()) {
        let k = lemma_trim_end(s.drop_last(), p);
        assert(s.drop_last().take(k) == s.take(k));
        assert forall|i: int| k <= i < s.len() implies p(#[trigger] s[i]) by {
            if i < s.len() - 1 {
                assert(s.drop_last()[i] == s[i]);
            }
        }
        k
    } else {
        assert(s.take(s.len() as int) == s);
        s.len() as int
    }
}

/// Of a text the white space at its ends is trimmed and nothing else: what is left is a part
/// of the text, with nothing but white space before and behind it, and it neither starts nor
/// ends with white space.
pub proof fn law_trimmed(s: Seq<char>)
    ensures
        ({
            let t = text::trimmed(s);
            &&& exists|a: int, b: int|
                0 <= a <= b <= s.len() && t == #[trigger] s.subrange(a, b) && is_blank(
                    s.subrange(0, a),
                ) && is_blank(s.subrange(b, s.len() as int))
            &&& t.len() > 0 ==> !text::is_space(t[0]) && !text::is_space(t[t.len() - 1])
        }),
{
    let p = |c: char| text::is_space(c);
    let a = lemma_trim_start(s, p);
    let rest = s.skip(a);
    let k = lemma_trim_end(rest, p);
    let b = a + k;
    assert(rest.take(k) == s.subrange(a, b));
    assert forall|i: int| 0 <= i < s.subrange(0, a).len() implies text::is_space(
        #[trigger] s.subrange(0, a)[i],
    ) by {
        assert(p(s[i]));
    }
    assert forall|i: int| 0 <= i < s.subrange(b, s.len() as int).len() implies text::is_space(
        #[trigger] s.subrange(b, s.len() as int)[i],
    ) by {
        assert(p(rest[k + i]));
    }
    let t = text::trimmed(s);
    if t.len() > 0 {
        assert(t[t.len() - 1] == rest[k - 1]);
        assert(!p(rest[k - 1]));
        assert(!p(s[a]));
        assert(t[0] == s[a]);
    }
}

proof fn lemma_split_shape(s: Seq<char>, sep: char)
    ensures
        text::split_on(s, sep).len() > 0,
        forall|i: int|
            0 <= i < text::split_on(s, sep).len() ==> text::lacks(
                #[trigger] text::split_on(s, sep)[i],
                sep,
            ),
        text::join_with(text::split_on(s, sep), seq![sep]) == s,
    decreases s.len(),
{
    if s.len() == 0 {
        assert(text::split_on(s, sep) == seq![Seq::<char>::empty()]);
        assert(text::join_with(text::split_on(s, sep), seq![sep]) == s);
    } else {
        let init = s.drop_last();
        lemma_split_shape(init, sep);
        let before = text::split_on(init, sep);
        let all = text::split_on(s, sep);
        assert(s == init.push(s.last()));
        if s.last() == sep {
            assert(all == before.push(Seq::empty()));
            assert(all.drop_last() == before);
            assert(text::join_with(all, seq![sep]) == text::join_with(before, seq![sep]) + seq![sep]
                + Seq::<char>::empty());
            assert(text::join_with(all, seq![sep]) == s);
        } else {
            let last = before.last().push(s.last());
            assert(all == before.update(before.len() - 1, last));
            assert(all.drop_last() == before.drop_last());
            assert(all.last() == last);
            assert(text::lacks(last, sep)) by {
                assert(text::lacks(before[before.len() - 1], sep));
                assert forall|i: int| 0 <= i < last.len() implies #[trigger] last[i] != sep by {
                    if i < before.last().len() {
                        assert(last[i] == before.last()[i]);
                    }
                }
            }
            assert forall|i: int| 0 <= i < all.len() implies text::lacks(#[trigger] all[i], sep) by {
                if i < before.len() - 1 {
                    assert(all[i] == before[i]);
                }
            }
            if all.len() == 1 {
                assert(text::join_with(before, seq![sep]) == before[0]);
            }
            assert(text::join_with(all, seq![sep]) == text::join_with(before, seq![sep]).push(
                s.last(),
            ));
        }
    }
}

/// A text is split at each separator and nowhere else: no piece holds one, and the pieces
/// with the separator between them are the text.
pub proof fn law_split(s: Seq<char>, sep: char)
    ensures
        ({
            let pieces = text::split_on(s, sep);
            &&& pieces.len() > 0
            &&& forall|i: int| 0 <= i < pieces.len() ==> text::lacks(#[trigger] pieces[i], sep)
            &&& text::join_with(pieces, seq![sep]) == s
        }),
{
    lemma_split_shape(s, sep);
}

/// The length of joined texts is that of all of them and of the separators between them, and
/// texts are joined one behind the other.
pub proof fn law_join(parts: Seq<Seq<char>>, last: Seq<char>, sep: Seq<char>)
    ensures
        text::join_with(Seq::empty(), sep) == Seq::<char>::empty(),
        text::join_with(seq![last], sep) == last,
        parts.len() > 0 ==> text::join_with(parts.push(last), sep) == text::join_with(parts, sep)
            + sep + last,
{
    assert(parts.push(last).drop_last() == parts);
}

/// The items of an array in braces are those that are written, in order, where they hold
/// neither commas nor braces nor white space and are not empty.
pub proof fn law_array_items(items: Seq<Seq<char>>)
    requires
        items.len() > 0,
        forall|i: int|
            0 <= i < items.len() ==> (#[trigger] items[i]).len() > 0 && text::is_solid(items[i])
                && text::lacks(items[i], ',') && text::lacks(items[i], '{') && text::lacks(
                items[i],
                '}',
            ),
    ensures
        ({
            let s = seq!['{'] + text::join_with(items, seq![',']) + seq!['}'];
            &&& text::is_braced(s)
            &&& text::array_items(s) == items
            &&& text::nonempty_array_items(s) == items
        }),
{
    let inner = text::join_with(items, seq![',']);
    let s = seq!['{'] + inner + seq!['}'];
    lemma_join_ends(items);
    lemma_body(inner);
    text::law_split_undoes_join(items, ',');
    let read = text::array_items(s);
    assert forall|i: int| 0 <= i < items.len() implies read[i] == items[i] by {
        text::law_solid_text_is_trimmed(items[i]);
    }
    assert(read =~= items);
    let p = |x: Seq<char>| x.len() > 0;
    lemma_filter_all(items, p);
}

proof fn lemma_filter_all(items: Seq<Seq<char>>, p: spec_fn(Seq<char>) -> bool)
    requires
        forall|i: int| 0 <= i < items.len() ==> p(#[trigger] items[i]),
    ensures
        items.filter(p) == items,
    decreases items.len(),
{
    reveal(Seq::filter);
    if items.len() > 0 {
        lemma_filter_all(items.drop_last(), p);
        assert(items.drop_last().push(items.last()) == items);
        assert(p(items[items.len() - 1]));
    }
}

/// True of a character that is trimmed at the ends of an array.
pub open spec fn is_delimiter(c: char) -> bool {
    c == '{' || c == '}' || c == ' '
}

proof fn lemma_join_ends(items: Seq<Seq<char>>)
    requires
        items.len() > 0,
        forall|i: int|
            0 <= i < items.len() ==> (#[trigger] items[i]).len() > 0 && text::is_solid(items[i])
                && text::lacks(items[i], '{') && text::lacks(items[i], '}'),
    ensures
        ({
            let s = text::join_with(items, seq![',']);
            s.len() > 0 && s[0] == items[0][0] && s[s.len() - 1] == items[items.len() - 1][items[items.len()
                - 1].len() - 1] && !is_delimiter(s[0]) && !is_delimiter(s[s.len() - 1])
        }),
    decreases items.len(),
{
    let s = text::join_with(items, seq![',']);
    let last = items[items.len() - 1];
    assert(last.len() > 0);
    assert(!text::is_space(last[last.len() - 1]));
    assert(last[last.len() - 1] != '{' && last[last.len() - 1] != '}');
    let first = items[0];
    assert(first.len() > 0);
    assert(!text::is_space(first[0]));
    assert(first[0] != '{' && first[0] != '}');
    if items.len() > 1 {
        let init = items.drop_last();
        assert(forall|i: int| 0 <= i < init.len() ==> init[i] == #[trigger] items[i]);
        lemma_join_ends(init);
        let head = text::join_with(init, seq![',']);
        assert(s == head + seq![','] + last);
        assert(s[0] == head[0]);
    }
}

proof fn lemma_body(inner: Seq<char>)
    requires
        inner.len() > 0,
        !is_delimiter(inner[0]),
        !is_delimiter(inner[inner.len() - 1]),
    ensures
        text::array_body(seq!['{'] + inner + seq!['}']) == inner,
{
    let s = seq!['{'] + inner + seq!['}'];
    let p = |c: char| text::is_array_delimiter(c);
    let k = lemma_trim_start(s, p);
    if k == 0 {
        assert(!p(s[0]));
    }
    if k > 1 {
        assert(p(s[1]));
        assert(s[1] == inner[0]);
    }
    assert(k == 1);
    let rest = s.skip(1);
    assert(rest == inner.push('}'));
    let e = lemma_trim_end(rest, p);
    if e == rest.len() {
        assert(!p(rest[e - 1]));
    }
    if e < inner.len() {
        assert(p(rest[inner.len() - 1]));
        assert(rest[inner.len() - 1] == inner[inner.len() - 1]);
    }
    assert(e == inner.len());
    assert(rest.take(e) == inner);
}

/// No item of an array starts or ends with white space, none holds a comma, and where the
/// empty ones are left out, none is empty and all others are there.
pub proof fn law_items_are_trimmed(s: Seq<char>, i: int)
    ensures
        0 <= i < text::array_items(s).len() ==> {
            let x = text::array_items(s)[i];
            x.len() > 0 ==> !text::is_space(x[0]) && !text::is_space(x[x.len() - 1])
        },
        0 <= i < text::nonempty_array_items(s).len() ==> text::nonempty_array_items(s)[i].len() > 0
            && text::array_items(s).contains(text::nonempty_array_items(s)[i]),
        0 <= i < text::array_items(s).len() && text::array_items(s)[i].len() > 0
            ==> text::nonempty_array_items(s).contains(text::array_items(s)[i]),
{
    let items = text::array_items(s);
    let p = |x: Seq<char>| x.len() > 0;
    if 0 <= i < items.len() {
        law_trimmed(text::split_on(text::array_body(s), ',')[i]);
        if items[i].len() > 0 {
            items.lemma_filter_contains(p, i);
            assert(items.filter(p).contains(items[i]));
        }
    }
    if 0 <= i < items.filter(p).len() {
        items.lemma_filter_pred(p, i);
        items.lemma_filter_contains_rev(p, items.filter(p)[i]);
    }
}

/// The value of a text of digits grows by one digit at a time, signs change it as signs do,
/// and no other text is a number.
pub proof fn law_numbers_in_text(s: Seq<char>, d: char)
    ensures
        '0' <= d <= '9' ==> text::int_text(seq![d]) == Some(d as int - 48),
        '0' <= d <= '9' && text::is_digits(s) ==> text::int_text(s.push(d)) == Some(
            text::int_text(s)->0 * 10 + (d as int - 48),
        ),
        text::is_digits(s) ==> text::int_text(seq!['-'] + s) == Some(-text::int_text(s)->0),
        text::is_digits(s) ==> text::int_text(seq!['+'] + s) == text::int_text(s),
        text::int_text(s) is Some ==> s.len() > 0 && forall|i: int|
            0 <= i < s.len() ==> '0' <= #[trigger] s[i] <= '9' || i == 0 && s.len() > 1 && (s[i]
                == '-' || s[i] == '+'),
{
    if '0' <= d <= '9' {
        let one = seq![d];
        assert(one.drop_last() == Seq::<char>::empty());
        assert(text::digits_value(one.drop_last()) == 0);
        assert(one.last() == d);
        assert(text::is_digits(one));
        if text::is_digits(s) {
            assert(s.push(d).drop_last() == s);
            assert(text::is_digits(s.push(d)));
            assert(s.push(d)[0] == s[0]);
        }
    }
    assert((seq!['-'] + s).skip(1) == s);
    assert((seq!['+'] + s).skip(1) == s);
    if text::int_text(s) is Some && (s[0] == '-' || s[0] == '+') {
        let rest = s.skip(1);
        assert forall|i: int| 0 <= i < s.len() implies '0' <= #[trigger] s[i] <= '9' || i == 0
            && s.len() > 1 && (s[i] == '-' || s[i] == '+') by {
            if i > 0 {
                assert(rest[i - 1] == s[i]);
            }
        }
    }
}

/// Two texts are the same in any case where they have the same characters one by one, or
/// letters of ASCII that differ in their case.
pub proof fn law_same_in_any_case(a: Seq<char>, b: Seq<char>)
    ensures
        text::same_ignoring_ascii_case(a, b) <==> a.len() == b.len() && forall|i: int|
            0 <= i < a.len() ==> is_same_letter(#[trigger] a[i], b[i]),
        text::same_ignoring_ascii_case(a, b) <==> text::same_ignoring_ascii_case(b, a),
        text::is_digits(a) <==> a.len() > 0 && forall|i: int|
            0 <= i < a.len() ==> 48 <= #[trigger] a[i] as int <= 57,
{
    if a.len() == b.len() {
        if forall|i: int| 0 <= i < a.len() ==> is_same_letter(#[trigger] a[i], b[i]) {
            assert forall|i: int| 0 <= i < a.len() implies text::ascii_lower(#[trigger] a[i])
                == text::ascii_lower(b[i]) by {
                assert(is_same_letter(a[i], b[i]));
            }
            assert forall|i: int| 0 <= i < b.len() implies text::ascii_lower(#[trigger] b[i])
                == text::ascii_lower(a[i]) by {
                assert(is_same_letter(a[i], b[i]));
            }
        }
        if text::same_ignoring_ascii_case(b, a) {
            assert forall|i: int| 0 <= i < a.len() implies text::ascii_lower(#[trigger] a[i])
                == text::ascii_lower(b[i]) by {
                assert(text::ascii_lower(b[i]) == text::ascii_lower(a[i]));
            }
        }
        if text::same_ignoring_ascii_case(a, b) {
            assert forall|i: int| 0 <= i < a.len() implies is_same_letter(
                #[trigger] a[i],
                b[i],
            ) by {
                assert(text::ascii_lower(a[i]) == text::ascii_lower(b[i]));
            }
        }
    }
}

/// True of the same characters, and of one letter of ASCII in two cases.
pub open spec fn is_same_letter(c: char, d: char) -> bool {
    ||| c == d
    ||| 65 <= c as int <= 90 && d as int == c as int + 32
    ||| 65 <= d as int <= 90 && c as int == d as int + 32
}

/// An ASCII text in lower case has each of its capital letters as a small one, and all else
/// as it is.
pub proof fn law_lower_case(s: Seq<char>, i: int)
    requires
        text::all_ascii(s),
        0 <= i < s.len(),
    ensures
        text::lowered(s).len() == s.len(),
        'A' <= s[i] <= 'Z' ==> text::lowered(s)[i] as int == s[i] as int + 32,
        !('A' <= s[i] <= 'Z') ==> text::lowered(s)[i] == s[i],
        text::lowered(text::lowered(s)) == text::lowered(s),
{
    let l = text::lowered(s);
    assert(text::all_ascii(l)) by {
        assert forall|k: int| 0 <= k < l.len() implies (#[trigger] l[k] as int) < 128 by {
            assert((s[k] as int) < 128);
        }
    }
    assert(text::lowered(l) =~= l);
}

} // verus!
