//! Text helpers: the few operations on strings that the rest of the library
//! states its contracts with.
use vstd::prelude::*;
use vstd::string::*;

verus! {

/// `String::push` appends one character.
pub assume_specification[ String::push ](s: &mut String, c: char)
    ensures
        final(s)@ == old(s)@.push(c),
;

/// The result of `str::to_lowercase`.
pub uninterp spec fn lowercase(s: Seq<char>) -> Seq<char>;

/// One ASCII character in lower case; every other character is kept.
pub open spec fn ascii_lower(c: char) -> char {
    if 'A' <= c && c <= 'Z' {
        ((c as int) + 32) as char
    } else {
        c
    }
}

/// True of text that holds ASCII characters only.
pub open spec fn all_ascii(s: Seq<char>) -> bool {
    forall|i: int| 0 <= i < s.len() ==> (#[trigger] s[i] as int) < 128
}

/// A text in lower case. ASCII text has `A` to `Z` replaced by `a` to `z`; what becomes of
/// other text is left to the standard library.
pub open spec fn lowered(s: Seq<char>) -> Seq<char> {
    if all_ascii(s) {
        s.map_values(|c: char| ascii_lower(c))
    } else {
        lowercase(s)
    }
}

/// `str::to_lowercase`: the Unicode lower-case form of `s`. On ASCII text that
/// is the text with `A` to `Z` replaced by `a` to `z`. What it is on other text
/// is left to the standard library.
#[verifier::external_body]
pub(crate) fn to_lowercase(s: &str) -> (r: String)
    ensures
        r@ == lowercase(s@),
        all_ascii(s@) ==> r@ == s@.map_values(|c: char| ascii_lower(c)),
{
    s.to_lowercase()
}

/// The views of a sequence of strings.
pub open spec fn views(v: Seq<String>) -> Seq<Seq<char>> {
    v.map_values(|s: String| s@)
}

/// The characters that the Unicode `White_Space` property holds of.
pub open spec fn is_space(c: char) -> bool {
    ||| '\u{9}' <= c <= '\u{d}'
    ||| c == ' '
    ||| c == '\u{85}'
    ||| c == '\u{a0}'
    ||| c == '\u{1680}'
    ||| '\u{2000}' <= c <= '\u{200a}'
    ||| c == '\u{2028}'
    ||| c == '\u{2029}'
    ||| c == '\u{202f}'
    ||| c == '\u{205f}'
    ||| c == '\u{3000}'
}

/// The characters stripped from both ends of an array literal such as `{a, b}`.
pub open spec fn is_array_delimiter(c: char) -> bool {
    c == '{' || c == '}' || c == ' '
}

/// `s` without the leading characters that `p` holds of.
pub open spec fn trim_start_by(s: Seq<char>, p: spec_fn(char) -> bool) -> Seq<char>
    decreases s.len(),
{
    if s.len() > 0 && p(s[0]) {
        trim_start_by(s.skip(1), p)
    } else {
        s
    }
}

/// `s` without the trailing characters that `p` holds of.
pub open spec fn trim_end_by(s: Seq<char>, p: spec_fn(char) -> bool) -> Seq<char>
    decreases s.len(),
{
    if s.len() > 0 && p(s.last()) {
        trim_end_by(s.drop_last(), p)
    } else {
        s
    }
}

/// `s` without the white space at its two ends.
pub open spec fn trimmed(s: Seq<char>) -> Seq<char> {
    trim_end_by(trim_start_by(s, |c: char| is_space(c)), |c: char| is_space(c))
}

/// `s` without the braces and blanks at its two ends.
pub open spec fn array_body(s: Seq<char>) -> Seq<char> {
    trim_end_by(
        trim_start_by(s, |c: char| is_array_delimiter(c)),
        |c: char| is_array_delimiter(c),
    )
}

/// The pieces of `s` between the occurrences of `sep`, empty ones included.
pub open spec fn split_on(s: Seq<char>, sep: char) -> Seq<Seq<char>>
    decreases s.len(),
{
    if s.len() == 0 {
        seq![Seq::empty()]
    } else {
        let before = split_on(s.drop_last(), sep);
        if s.last() == sep {
            before.push(Seq::empty())
        } else {
            before.update(before.len() - 1, before.last().push(s.last()))
        }
    }
}

/// The parts with `sep` between each two of them.
pub open spec fn join_with(parts: Seq<Seq<char>>, sep: Seq<char>) -> Seq<char>
    decreases parts.len(),
{
    if parts.len() == 0 {
        Seq::empty()
    } else if parts.len() == 1 {
        parts[0]
    } else {
        join_with(parts.drop_last(), sep) + sep + parts.last()
    }
}

/// The comma-separated items of an array literal, each trimmed.
pub open spec fn array_items(s: Seq<char>) -> Seq<Seq<char>> {
    split_on(array_body(s), ',').map_values(|p: Seq<char>| trimmed(p))
}

/// The items of an array literal without the empty ones.
pub open spec fn nonempty_array_items(s: Seq<char>) -> Seq<Seq<char>> {
    array_items(s).filter(|p: Seq<char>| p.len() > 0)
}

/// The number that decimal digits stand for.
pub open spec fn digits_value(s: Seq<char>) -> int
    decreases s.len(),
{
    if s.len() == 0 {
        0
    } else {
        digits_value(s.drop_last()) * 10 + (s.last() as int - '0' as int)
    }
}

/// The number that a text is: digits after an optional sign.
pub open spec fn int_text(s: Seq<char>) -> Option<int> {
    if s.len() > 0 && (s[0] == '-' || s[0] == '+') {
        if is_digits(s.skip(1)) {
            Some(
                if s[0] == '-' {
                    -digits_value(s.skip(1))
                } else {
                    digits_value(s.skip(1))
                },
            )
        } else {
            None
        }
    } else if is_digits(s) {
        Some(digits_value(s))
    } else {
        None
    }
}

/// True of text that starts with `{` and ends with `}`.
pub open spec fn is_braced(s: Seq<char>) -> bool {
    s.len() > 0 && s[0] == '{' && s.last() == '}'
}

/// True of two texts that differ in the case of ASCII letters at most.
pub open spec fn same_ignoring_ascii_case(a: Seq<char>, b: Seq<char>) -> bool {
    &&& a.len() == b.len()
    &&& forall|i: int| 0 <= i < a.len() ==> ascii_lower(#[trigger] a[i]) == ascii_lower(b[i])
}

/// True of one or more ASCII digits.
pub open spec fn is_digits(s: Seq<char>) -> bool {
    &&& s.len() > 0
    &&& forall|i: int| 0 <= i < s.len() ==> '0' <= #[trigger] s[i] <= '9'
}

pub(crate) fn space(c: char) -> (r: bool)
    ensures
        r == is_space(c),
{
    ('\u{9}' <= c && c <= '\u{d}') || c == ' ' || c == '\u{85}' || c == '\u{a0}' || c == '\u{1680}'
        || ('\u{2000}' <= c && c <= '\u{200a}') || c == '\u{2028}' || c == '\u{2029}' || c
        == '\u{202f}' || c == '\u{205f}' || c == '\u{3000}'
}

pub(crate) fn array_delimiter(c: char) -> (r: bool)
    ensures
        r == is_array_delimiter(c),
{
    c == '{' || c == '}' || c == ' '
}

fn lower(c: char) -> (r: char)
    ensures
        r == ascii_lower(c),
{
    if 'A' <= c && c <= 'Z' {
        ((c as u8) + 32) as char
    } else {
        c
    }
}

/// The characters of `s`.
pub fn chars_of(s: &str) -> (r: Vec<char>)
    ensures
        r@ == s@,
{
    let mut v: Vec<char> = Vec::new();
    for c in it: s.chars()
        invariant
            it.seq() == s@,
            v@ == s@.take(it.index()),
    {
        proof {
            assert(s@.take(it.index() + 1) == s@.take(it.index()).push(c));
        }
        v.push(c);
    }
    assert(s@.take(s@.len() as int) == s@);
    v
}

/// The text of the characters `v[from..to]`.
pub fn text_of(v: &Vec<char>, from: usize, to: usize) -> (r: String)
    requires
        from <= to <= v@.len(),
    ensures
        r@ == v@.subrange(from as int, to as int),
{
    let mut s = String::new();
    let mut i: usize = from;
    while i < to
        invariant
            from <= i <= to <= v@.len(),
            s@ == v@.subrange(from as int, i as int),
        decreases to - i,
    {
        s.push(v[i]);
        i += 1;
        assert(v@.subrange(from as int, i as int) == v@.subrange(from as int, i - 1).push(
            v@[i - 1],
        ));
    }
    s
}

/// True when the two texts are the same.
pub fn same(a: &str, b: &str) -> (r: bool)
    ensures
        r == (a@ == b@),
{
    a.to_owned() == b.to_owned()
}

/// True when `parts` holds `s`.
pub fn contains_text(parts: &Vec<String>, s: &str) -> (r: bool)
    ensures
        r == views(parts@).contains(s@),
{
    let mut i: usize = 0;
    while i < parts.len()
        invariant
            i <= parts@.len(),
            forall|j: int| 0 <= j < i ==> parts@[j]@ != s@,
        decreases parts@.len() - i,
    {
        if same(parts[i].as_str(), s) {
            assert(views(parts@)[i as int] == s@);
            return true;
        }
        i += 1;
    }
    assert(!views(parts@).contains(s@));
    false
}

proof fn lemma_trim_start_prefix(s: Seq<char>, p: spec_fn(char) -> bool, i: int)
    requires
        0 <= i <= s.len(),
        forall|j: int| 0 <= j < i ==> p(#[trigger] s[j]),
        i < s.len() ==> !p(s[i]),
    ensures
        trim_start_by(s, p) == s.skip(i),
    decreases i,
{
    if i > 0 {
        let t = s.skip(1);
        assert forall|j: int| 0 <= j < i - 1 implies p(#[trigger] t[j]) by {
            assert(t[j] == s[j + 1]);
        }
        lemma_trim_start_prefix(t, p, i - 1);
        assert(t.skip(i - 1) == s.skip(i));
    } else {
        assert(s.skip(0) == s);
    }
}

proof fn lemma_trim_end_suffix(s: Seq<char>, p: spec_fn(char) -> bool, i: int)
    requires
        0 <= i <= s.len(),
        forall|j: int| i <= j < s.len() ==> p(#[trigger] s[j]),
        i > 0 ==> !p(s[i - 1]),
    ensures
        trim_end_by(s, p) == s.take(i),
    decreases s.len() - i,
{
    if i < s.len() {
        let t = s.drop_last();
        lemma_trim_end_suffix(t, p, i);
        assert(t.take(i) == s.take(i));
    } else {
        assert(s.take(i) == s);
    }
}

/// `s` without the white space at its two ends.
pub fn trim(s: &str) -> (r: String)
    ensures
        r@ == trimmed(s@),
{
    let v = chars_of(s);
    let ghost p = |c: char| is_space(c);
    let mut from: usize = 0;
    while from < v.len() && space(v[from])
        invariant
            from <= v@.len(),
            p == (|c: char| is_space(c)),
            forall|j: int| 0 <= j < from ==> p(#[trigger] v@[j]),
        decreases v@.len() - from,
    {
        from += 1;
    }
    let mut to: usize = v.len();
    while to > from && space(v[to - 1])
        invariant
            from <= to <= v@.len(),
            p == (|c: char| is_space(c)),
            forall|j: int| to <= j < v@.len() ==> p(#[trigger] v@[j]),
        decreases to,
    {
        to -= 1;
    }
    proof {
        lemma_trim_start_prefix(v@, p, from as int);
        let t = v@.skip(from as int);
        assert forall|j: int| to - from <= j < t.len() implies p(#[trigger] t[j]) by {
            assert(t[j] == v@[j + from]);
        }
        lemma_trim_end_suffix(t, p, to - from);
        assert(t.take(to - from) == v@.subrange(from as int, to as int));
    }
    text_of(&v, from, to)
}

/// `s` without the braces and blanks at its two ends.
pub fn trim_array_delimiters(s: &str) -> (r: String)
    ensures
        r@ == array_body(s@),
{
    let v = chars_of(s);
    let ghost p = |c: char| is_array_delimiter(c);
    let mut from: usize = 0;
    while from < v.len() && array_delimiter(v[from])
        invariant
            from <= v@.len(),
            p == (|c: char| is_array_delimiter(c)),
            forall|j: int| 0 <= j < from ==> p(#[trigger] v@[j]),
        decreases v@.len() - from,
    {
        from += 1;
    }
    let mut to: usize = v.len();
    while to > from && array_delimiter(v[to - 1])
        invariant
            from <= to <= v@.len(),
            p == (|c: char| is_array_delimiter(c)),
            forall|j: int| to <= j < v@.len() ==> p(#[trigger] v@[j]),
        decreases to,
    {
        to -= 1;
    }
    proof {
        lemma_trim_start_prefix(v@, p, from as int);
        let t = v@.skip(from as int);
        assert forall|j: int| to - from <= j < t.len() implies p(#[trigger] t[j]) by {
            assert(t[j] == v@[j + from]);
        }
        lemma_trim_end_suffix(t, p, to - from);
        assert(t.take(to - from) == v@.subrange(from as int, to as int));
    }
    text_of(&v, from, to)
}

proof fn lemma_split_len(s: Seq<char>, sep: char)
    ensures
        split_on(s, sep).len() > 0,
    decreases s.len(),
{
    if s.len() > 0 {
        lemma_split_len(s.drop_last(), sep);
    }
}

/// The pieces of `s` between the occurrences of `sep`.
pub fn split(s: &str, sep: char) -> (r: Vec<String>)
    ensures
        views(r@) == split_on(s@, sep),
{
    let v = chars_of(s);
    let mut pieces: Vec<String> = Vec::new();
    let mut current = String::new();
    let mut i: usize = 0;
    assert(v@.take(0) == Seq::<char>::empty());
    assert(views(pieces@).push(current@) == split_on(v@.take(0), sep));
    while i < v.len()
        invariant
            i <= v@.len(),
            views(pieces@).push(current@) == split_on(v@.take(i as int), sep),
        decreases v@.len() - i,
    {
        let c = v[i];
        let ghost before = views(pieces@).push(current@);
        proof {
            assert(v@.take(i + 1).drop_last() == v@.take(i as int));
            assert(v@.take(i + 1).last() == c);
        }
        if c == sep {
            let ghost old_pieces = pieces@;
            pieces.push(current);
            current = String::new();
            proof {
                assert(views(pieces@) == views(old_pieces).push(before.last()));
                assert(views(pieces@).push(current@) == before.push(Seq::empty()));
            }
        } else {
            current.push(c);
            proof {
                assert(views(pieces@).push(current@) == before.update(
                    before.len() - 1,
                    before.last().push(c),
                ));
            }
        }
        i += 1;
    }
    assert(v@.take(v@.len() as int) == v@);
    let ghost old_pieces = pieces@;
    let ghost last = current@;
    pieces.push(current);
    assert(views(pieces@) == views(old_pieces).push(last));
    pieces
}

/// The parts with `sep` between each two of them.
pub fn join(parts: &Vec<String>, sep: &str) -> (r: String)
    ensures
        r@ == join_with(views(parts@), sep@),
{
    let mut out = String::new();
    let mut i: usize = 0;
    while i < parts.len()
        invariant
            i <= parts@.len(),
            out@ == join_with(views(parts@).take(i as int), sep@),
        decreases parts@.len() - i,
    {
        if i > 0 {
            out.append(sep);
        }
        out.append(parts[i].as_str());
        proof {
            let w = views(parts@);
            assert(w.take(i + 1).drop_last() == w.take(i as int));
            assert(w.take(i + 1).last() == parts@[i as int]@);
            if i == 0 {
                assert(out@ == parts@[0]@);
            }
        }
        i += 1;
    }
    assert(views(parts@).take(parts@.len() as int) == views(parts@));
    out
}

/// The comma-separated items of an array literal, each trimmed.
pub fn split_array_items(s: &str) -> (r: Vec<String>)
    ensures
        views(r@) == array_items(s@),
{
    let body = trim_array_delimiters(s);
    let pieces = split(body.as_str(), ',');
    let mut items: Vec<String> = Vec::new();
    let mut i: usize = 0;
    while i < pieces.len()
        invariant
            i <= pieces@.len(),
            items@.len() == i,
            forall|j: int| 0 <= j < i ==> (#[trigger] items@[j])@ == trimmed(pieces@[j]@),
        decreases pieces@.len() - i,
    {
        items.push(trim(pieces[i].as_str()));
        i += 1;
    }
    assert(views(items@) == array_items(s@));
    items
}

/// The items of an array literal, each trimmed, without the empty ones.
pub fn split_nonempty_array_items(s: &str) -> (r: Vec<String>)
    ensures
        views(r@) == nonempty_array_items(s@),
{
    let items = split_array_items(s);
    let mut kept: Vec<String> = Vec::new();
    let mut i: usize = 0;
    let ghost all = views(items@);
    let ghost keep = |p: Seq<char>| p.len() > 0;
    assert(all.take(0).filter(keep) == Seq::<Seq<char>>::empty()) by {
        reveal(Seq::filter);
    }
    while i < items.len()
        invariant
            i <= items@.len(),
            all == views(items@),
            keep == (|p: Seq<char>| p.len() > 0),
            views(kept@) == all.take(i as int).filter(keep),
        decreases items@.len() - i,
    {
        let ghost before = kept@;
        proof {
            assert(all.take(i + 1).drop_last() == all.take(i as int));
            reveal(Seq::filter);
        }
        if !items[i].as_str().is_empty() {
            kept.push(items[i].clone());
            assert(views(kept@) == views(before).push(items@[i as int]@));
        }
        i += 1;
    }
    assert(all.take(all.len() as int) == all);
    kept
}

/// True when `s` starts with `{` and ends with `}`.
pub fn braced(s: &str) -> (r: bool)
    ensures
        r == is_braced(s@),
{
    let v = chars_of(s);
    v.len() > 0 && v[0] == '{' && v[v.len() - 1] == '}'
}

/// True when the two texts differ in the case of ASCII letters at most.
pub fn eq_ignore_ascii_case(a: &str, b: &str) -> (r: bool)
    ensures
        r == same_ignoring_ascii_case(a@, b@),
{
    let x = chars_of(a);
    let y = chars_of(b);
    if x.len() != y.len() {
        return false;
    }
    let mut i: usize = 0;
    while i < x.len()
        invariant
            i <= x@.len(),
            x@.len() == y@.len(),
            x@ == a@,
            y@ == b@,
            forall|j: int| 0 <= j < i ==> ascii_lower(#[trigger] x@[j]) == ascii_lower(y@[j]),
        decreases x@.len() - i,
    {
        if lower(x[i]) != lower(y[i]) {
            assert(ascii_lower(a@[i as int]) != ascii_lower(b@[i as int]));
            return false;
        }
        i += 1;
    }
    true
}

/// True when `s` is one or more ASCII digits.
pub fn digits(s: &str) -> (r: bool)
    ensures
        r == is_digits(s@),
{
    let v = chars_of(s);
    let mut i: usize = 0;
    while i < v.len()
        invariant
            i <= v@.len(),
            v@ == s@,
            forall|j: int| 0 <= j < i ==> '0' <= #[trigger] v@[j] <= '9',
        decreases v@.len() - i,
    {
        let c = v[i];
        if !('0' <= c && c <= '9') {
            assert(!('0' <= s@[i as int] <= '9'));
            return false;
        }
        i += 1;
    }
    v.len() > 0
}

/// True of text that does not hold `sep`.
pub open spec fn lacks(s: Seq<char>, sep: char) -> bool {
    forall|i: int| 0 <= i < s.len() ==> #[trigger] s[i] != sep
}

proof fn lemma_split_last(a: Seq<char>, b: Seq<char>, sep: char)
    requires
        lacks(b, sep),
    ensures
        split_on(b, sep) == seq![b],
        split_on(a + seq![sep] + b, sep) == split_on(a, sep).push(b),
    decreases b.len(),
{
    let s = a + seq![sep] + b;
    if b.len() == 0 {
        assert(b == Seq::<char>::empty());
        assert(s.drop_last() == a);
        assert(split_on(b, sep) == seq![b]);
        assert(split_on(s, sep) == split_on(a, sep).push(b));
    } else {
        let init = b.drop_last();
        assert(b.last() == b[b.len() - 1]);
        assert forall|i: int| 0 <= i < init.len() implies #[trigger] init[i] != sep by {
            assert(init[i] == b[i]);
        }
        lemma_split_last(a, init, sep);
        assert(s.drop_last() == a + seq![sep] + init);
        assert(init.push(b.last()) == b);
        assert(split_on(b, sep) == seq![b]);
        assert(split_on(s, sep) == split_on(a, sep).push(b));
    }
}

/// Splitting undoes joining, where no part holds the separator.
pub proof fn law_split_undoes_join(parts: Seq<Seq<char>>, sep: char)
    requires
        parts.len() > 0,
        forall|i: int| 0 <= i < parts.len() ==> lacks(#[trigger] parts[i], sep),
    ensures
        split_on(join_with(parts, seq![sep]), sep) == parts,
    decreases parts.len(),
{
    let init = parts.drop_last();
    assert(parts.last() == parts[parts.len() - 1]);
    if parts.len() == 1 {
        lemma_split_last(Seq::empty(), parts[0], sep);
        assert(parts == seq![parts[0]]);
    } else {
        assert forall|i: int| 0 <= i < init.len() implies lacks(#[trigger] init[i], sep) by {
            assert(init[i] == parts[i]);
        }
        law_split_undoes_join(init, sep);
        lemma_split_last(join_with(init, seq![sep]), parts.last(), sep);
        assert(init.push(parts.last()) == parts);
    }
}

/// True of text without white space.
pub open spec fn is_solid(s: Seq<char>) -> bool {
    forall|i: int| 0 <= i < s.len() ==> !is_space(#[trigger] s[i])
}

/// Text without white space has none to be trimmed.
pub proof fn law_solid_text_is_trimmed(s: Seq<char>)
    requires
        is_solid(s),
    ensures
        trimmed(s) == s,
{
}

pub(crate) proof fn lemma_solid_join(parts: Seq<Seq<char>>, sep: Seq<char>)
    requires
        is_solid(sep),
        forall|i: int| 0 <= i < parts.len() ==> is_solid(#[trigger] parts[i]),
    ensures
        is_solid(join_with(parts, sep)),
    decreases parts.len(),
{
    if parts.len() > 1 {
        let init = parts.drop_last();
        assert forall|i: int| 0 <= i < init.len() implies is_solid(#[trigger] init[i]) by {
            assert(init[i] == parts[i]);
        }
        lemma_solid_join(init, sep);
        assert(is_solid(parts[parts.len() - 1]));
    }
}

} // verus!
