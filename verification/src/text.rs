//! Character-level text helpers shared by the resolver, the argument binder
//! and the build stack.
//!
//! Every function here is stated over the `Seq<char>` view of a string, so
//! callers can reason about names and tokens without looking at bytes.

use vstd::prelude::*;

verus! {

broadcast use vstd::string::group_string_axioms;

/// The characters that count as white space when a name is trimmed: the
/// code points that carry the Unicode `White_Space` property.
pub open spec fn is_whitespace(c: char) -> bool {
    ||| ('\u{9}' <= c && c <= '\u{D}')
    ||| c == ' '
    ||| c == '\u{85}'
    ||| c == '\u{A0}'
    ||| c == '\u{1680}'
    ||| ('\u{2000}' <= c && c <= '\u{200A}')
    ||| c == '\u{2028}'
    ||| c == '\u{2029}'
    ||| c == '\u{202F}'
    ||| c == '\u{205F}'
    ||| c == '\u{3000}'
}

/// `s` without its leading white space.
pub open spec fn skip_whitespace(s: Seq<char>) -> Seq<char>
    decreases s.len(),
{
    if s.len() > 0 && is_whitespace(s.first()) {
        skip_whitespace(s.drop_first())
    } else {
        s
    }
}

/// `s` without its trailing white space.
pub open spec fn drop_trailing_whitespace(s: Seq<char>) -> Seq<char>
    decreases s.len(),
{
    if s.len() > 0 && is_whitespace(s.last()) {
        drop_trailing_whitespace(s.drop_last())
    } else {
        s
    }
}

/// `s` with leading and trailing white space removed.
pub open spec fn trimmed(s: Seq<char>) -> Seq<char> {
    drop_trailing_whitespace(skip_whitespace(s))
}

/// Index of the first occurrence of `c` in `s`, or `s.len()` when `c` does
/// not occur.
pub open spec fn first_index_of<A>(s: Seq<A>, c: A) -> int
    decreases s.len(),
{
    if s.len() == 0 {
        0
    } else if s.first() == c {
        0
    } else {
        1 + first_index_of(s.drop_first(), c)
    }
}

/// Index of the last occurrence of `c` in `s`, or `-1` when `c` does not
/// occur.
pub open spec fn last_index_of(s: Seq<char>, c: char) -> int
    decreases s.len(),
{
    if s.len() == 0 {
        -1
    } else if s.last() == c {
        s.len() - 1
    } else {
        last_index_of(s.drop_last(), c)
    }
}

/// Strict lexicographic order on names, character by character.
pub open spec fn name_precedes(a: Seq<char>, b: Seq<char>) -> bool
    decreases a.len(),
{
    if b.len() == 0 {
        false
    } else if a.len() == 0 {
        true
    } else if a.first() != b.first() {
        a.first() < b.first()
    } else {
        name_precedes(a.drop_first(), b.drop_first())
    }
}

/// Where leading white space ends: everything before `k` is white space and
/// `k` is the end of `s` or a character that is not.
pub proof fn lemma_skip_whitespace(s: Seq<char>, k: int)
    requires
        0 <= k <= s.len(),
        forall|i: int| 0 <= i < k ==> is_whitespace(#[trigger] s[i]),
        k < s.len() ==> !is_whitespace(s[k]),
    ensures
        skip_whitespace(s) == s.subrange(k, s.len() as int),
    decreases k,
{
    if k == 0 {
        assert(s.subrange(0, s.len() as int) =~= s);
    } else {
        let rest = s.drop_first();
        assert forall|i: int| 0 <= i < k - 1 implies is_whitespace(#[trigger] rest[i]) by {
            assert(rest[i] == s[i + 1]);
        }
        lemma_skip_whitespace(rest, k - 1);
        assert(rest.subrange(k - 1, rest.len() as int) =~= s.subrange(k, s.len() as int));
    }
}

/// Where trailing white space begins: everything from `k` on is white space
/// and `k` is the start of `s` or follows a character that is not.
pub proof fn lemma_drop_trailing_whitespace(s: Seq<char>, k: int)
    requires
        0 <= k <= s.len(),
        forall|i: int| k <= i < s.len() ==> is_whitespace(#[trigger] s[i]),
        k > 0 ==> !is_whitespace(s[k - 1]),
    ensures
        drop_trailing_whitespace(s) == s.subrange(0, k),
    decreases s.len() - k,
{
    if k == s.len() {
        assert(s.subrange(0, s.len() as int) =~= s);
    } else {
        let rest = s.drop_last();
        lemma_drop_trailing_whitespace(rest, k);
        assert(rest.subrange(0, k) =~= s.subrange(0, k));
    }
}

/// What `first_index_of` finds: the least index that holds `c`.
pub proof fn lemma_first_index_of<A>(s: Seq<A>, c: A)
    ensures
        0 <= first_index_of(s, c) <= s.len(),
        first_index_of(s, c) < s.len() ==> s[first_index_of(s, c)] == c,
        forall|i: int| 0 <= i < first_index_of(s, c) ==> #[trigger] s[i] != c,
        s.contains(c) <==> first_index_of(s, c) < s.len(),
    decreases s.len(),
{
    if s.len() == 0 {
    } else if s.first() == c {
        assert(s[0] == c);
    } else {
        let rest = s.drop_first();
        lemma_first_index_of(rest, c);
        let k = first_index_of(rest, c);
        assert forall|i: int| 0 <= i < k + 1 implies #[trigger] s[i] != c by {
            if i > 0 {
                assert(s[i] == rest[i - 1]);
            }
        }
        if k < rest.len() {
            assert(s[k + 1] == rest[k]);
        }
        if s.contains(c) {
            let j = choose|j: int| 0 <= j < s.len() && s[j] == c;
            assert(rest[j - 1] == c);
        }
    }
}

/// What `last_index_of` finds: the greatest index that holds `c`.
pub proof fn lemma_last_index_of(s: Seq<char>, c: char)
    ensures
        -1 <= last_index_of(s, c) < s.len(),
        last_index_of(s, c) >= 0 ==> s[last_index_of(s, c)] == c,
        forall|i: int| last_index_of(s, c) < i < s.len() ==> #[trigger] s[i] != c,
        s.contains(c) <==> last_index_of(s, c) >= 0,
    decreases s.len(),
{
    if s.len() == 0 {
    } else if s.last() == c {
        assert(s[s.len() - 1] == c);
    } else {
        let rest = s.drop_last();
        lemma_last_index_of(rest, c);
        let k = last_index_of(rest, c);
        assert forall|i: int| k < i < s.len() implies #[trigger] s[i] != c by {
            if i < rest.len() {
                assert(s[i] == rest[i]);
            }
        }
        if k >= 0 {
            assert(s[k] == rest[k]);
        }
        if s.contains(c) {
            let j = choose|j: int| 0 <= j < s.len() && s[j] == c;
            assert(rest[j] == c);
        }
    }
}

/// Tells whether `c` is white space.
pub fn char_is_whitespace(c: char) -> (r: bool)
    ensures
        r == is_whitespace(c),
{
    ('\u{9}' <= c && c <= '\u{D}') || c == ' ' || c == '\u{85}' || c == '\u{A0}' || c
        == '\u{1680}' || ('\u{2000}' <= c && c <= '\u{200A}') || c == '\u{2028}' || c
        == '\u{2029}' || c == '\u{202F}' || c == '\u{205F}' || c == '\u{3000}'
}

/// The characters of `s`, in order.
pub fn chars_of(s: &str) -> (v: Vec<char>)
    ensures
        v@ == s@,
{
    let mut v: Vec<char> = Vec::new();
    for c in it: s.chars()
        invariant
            it.seq() == s@,
            v@ == s@.subrange(0, it.index()),
    {
        v.push(c);
    }
    assert(v@ == s@.subrange(0, s@.len() as int));
    v
}

/// `s` with leading and trailing white space removed.
pub fn trim(s: &str) -> (r: &str)
    ensures
        r@ == trimmed(s@),
{
    let chars = chars_of(s);
    let n = chars.len();
    let mut start: usize = 0;
    while start < n && char_is_whitespace(chars[start])
        invariant
            n == chars@.len(),
            start <= n,
            forall|i: int| 0 <= i < start ==> is_whitespace(#[trigger] chars@[i]),
        decreases n - start,
    {
        start += 1;
    }
    let mut end: usize = n;
    while end > start && char_is_whitespace(chars[end - 1])
        invariant
            n == chars@.len(),
            start <= end <= n,
            forall|i: int| end <= i < n ==> is_whitespace(#[trigger] chars@[i]),
        decreases end,
    {
        end -= 1;
    }
    proof {
        lemma_skip_whitespace(s@, start as int);
        let rest = s@.subrange(start as int, n as int);
        assert forall|i: int| end - start <= i < rest.len() implies is_whitespace(
            #[trigger] rest[i],
        ) by {
            assert(rest[i] == chars@[i + start]);
        }
        lemma_drop_trailing_whitespace(rest, end - start);
        assert(rest.subrange(0, end - start) =~= s@.subrange(start as int, end as int));
    }
    s.substring_char(start, end)
}

/// Tells whether two strings hold the same characters.
pub fn same_text(a: &str, b: &str) -> (r: bool)
    ensures
        r == (a@ == b@),
{
    let x = chars_of(a);
    let y = chars_of(b);
    if x.len() != y.len() {
        return false;
    }
    let mut i: usize = 0;
    while i < x.len()
        invariant
            x@ == a@,
            y@ == b@,
            x@.len() == y@.len(),
            i <= x@.len(),
            forall|j: int| 0 <= j < i ==> x@[j] == y@[j],
        decreases x@.len() - i,
    {
        if x[i] != y[i] {
            assert(a@[i as int] != b@[i as int]);
            return false;
        }
        i += 1;
    }
    assert(x@ =~= y@);
    true
}

/// Tells whether `c` occurs in `s`.
pub fn contains_char(s: &str, c: char) -> (r: bool)
    ensures
        r == s@.contains(c),
{
    let chars = chars_of(s);
    let mut i: usize = 0;
    while i < chars.len()
        invariant
            chars@ == s@,
            i <= chars@.len(),
            forall|j: int| 0 <= j < i ==> chars@[j] != c,
        decreases chars@.len() - i,
    {
        if chars[i] == c {
            assert(s@[i as int] == c);
            return true;
        }
        i += 1;
    }
    false
}

/// Splits `s` at its first `c`: the text before it and the text after it.
pub fn split_once(s: &str, c: char) -> (r: Option<(&str, &str)>)
    ensures
        r is Some <==> s@.contains(c),
        r matches Some((head, tail)) ==> head@ == s@.subrange(0, first_index_of(s@, c)) && tail@
            == s@.subrange(first_index_of(s@, c) + 1, s@.len() as int),
{
    let chars = chars_of(s);
    let n = chars.len();
    let mut i: usize = 0;
    proof {
        lemma_first_index_of(s@, c);
    }
    while i < n
        invariant
            n == chars@.len(),
            chars@ == s@,
            i <= n,
            forall|j: int| 0 <= j < i ==> chars@[j] != c,
            0 <= first_index_of(s@, c) <= s@.len(),
            first_index_of(s@, c) < s@.len() ==> s@[first_index_of(s@, c)] == c,
            forall|j: int| 0 <= j < first_index_of(s@, c) ==> #[trigger] s@[j] != c,
            s@.contains(c) <==> first_index_of(s@, c) < s@.len(),
        decreases n - i,
    {
        if chars[i] == c {
            assert(first_index_of(s@, c) == i) by {
                let k = first_index_of(s@, c);
                if k < i {
                    assert(chars@[k] != c);
                }
                if k > i {
                    assert(s@[i as int] != c);
                }
            }
            return Some((s.substring_char(0, i), s.substring_char(i + 1, n)));
        }
        i += 1;
    }
    None
}

/// Tells whether `s` starts with two hyphens.
pub fn has_option_prefix(s: &str) -> (r: bool)
    ensures
        r == is_option(s@),
{
    let chars = chars_of(s);
    chars.len() >= 2 && chars[0] == '-' && chars[1] == '-'
}

/// A token that starts with `--`.
pub open spec fn is_option(token: Seq<char>) -> bool {
    token.len() >= 2 && token[0] == '-' && token[1] == '-'
}

/// Tells whether name `a` sorts strictly before name `b`.
pub fn sorts_before(a: &str, b: &str) -> (r: bool)
    ensures
        r == name_precedes(a@, b@),
{
    let x = chars_of(a);
    let y = chars_of(b);
    let mut i: usize = 0;
    assert(x@.subrange(0, x@.len() as int) =~= x@);
    assert(y@.subrange(0, y@.len() as int) =~= y@);
    while i < x.len() && i < y.len()
        invariant
            x@ == a@,
            y@ == b@,
            i <= x@.len(),
            i <= y@.len(),
            name_precedes(x@, y@) == name_precedes(
                x@.subrange(i as int, x@.len() as int),
                y@.subrange(i as int, y@.len() as int),
            ),
        decreases x@.len() - i,
    {
        let ghost xs = x@.subrange(i as int, x@.len() as int);
        let ghost ys = y@.subrange(i as int, y@.len() as int);
        if x[i] != y[i] {
            assert(xs.first() == x@[i as int] && ys.first() == y@[i as int]);
            return x[i] < y[i];
        }
        proof {
            assert(xs.first() == x@[i as int] && ys.first() == y@[i as int]);
            assert(xs.drop_first() =~= x@.subrange(i + 1, x@.len() as int));
            assert(ys.drop_first() =~= y@.subrange(i + 1, y@.len() as int));
        }
        i += 1;
    }
    proof {
        let xs = x@.subrange(i as int, x@.len() as int);
        let ys = y@.subrange(i as int, y@.len() as int);
        assert(i == x@.len() ==> xs.len() == 0);
        assert(i == y@.len() ==> ys.len() == 0);
    }
    i < y.len()
}

/// `left`, then `right`, as one new string.
pub fn concat(left: &str, right: &str) -> (r: String)
    ensures
        r@ == left@ + right@,
{
    let mut out = String::from_str(left);
    out.append(right);
    out
}

/// `before`, then `subject`, then `after`, as one new string.
pub fn framed(before: &str, subject: &str, after: &str) -> (text: String)
    ensures
        text@ == before@ + subject@ + after@,
{
    let mut text = String::from_str(before);
    text.append(subject);
    text.append(after);
    text
}

/// Whether `pattern` stands in `text` at index `at`.
pub open spec fn occurs_at(text: Seq<char>, pattern: Seq<char>, at: int) -> bool {
    0 <= at && at + pattern.len() <= text.len() && text.subrange(at, at + pattern.len())
        == pattern
}

/// Whether `pattern` stands somewhere in `text`.
pub open spec fn contains_text(text: Seq<char>, pattern: Seq<char>) -> bool {
    exists|at: int| occurs_at(text, pattern, at)
}

/// The least index from `from` on at which `pattern` stands in `text`, or
/// `text.len() + 1` when there is none.
pub open spec fn next_occurrence(text: Seq<char>, pattern: Seq<char>, from: int) -> int
    decreases text.len() - from,
{
    if 0 <= from <= text.len() && occurs_at(text, pattern, from) {
        from
    } else if 0 <= from < text.len() {
        next_occurrence(text, pattern, from + 1)
    } else {
        (text.len() + 1) as int
    }
}

/// `text` with the first occurrence of `pattern` replaced by `with`; `text`
/// itself when `pattern` does not occur.
pub open spec fn replaced_first(text: Seq<char>, pattern: Seq<char>, with: Seq<char>) -> Seq<char> {
    let at = next_occurrence(text, pattern, 0);
    if at <= text.len() {
        text.subrange(0, at) + with + text.subrange(at + pattern.len(), text.len() as int)
    } else {
        text
    }
}

/// `text` from index `from` on, with every occurrence of `pattern` replaced
/// by `with`: occurrences are taken from the left and do not overlap.
pub open spec fn replaced_from(
    text: Seq<char>,
    pattern: Seq<char>,
    with: Seq<char>,
    from: int,
) -> Seq<char>
    decreases text.len() - from,
{
    let at = next_occurrence(text, pattern, from);
    if from < 0 || from > text.len() {
        Seq::empty()
    } else if pattern.len() == 0 || at > text.len() {
        text.subrange(from, text.len() as int)
    } else if at < from || at + pattern.len() > text.len() {
        Seq::empty()
    } else {
        text.subrange(from, at) + with + replaced_from(text, pattern, with, at + pattern.len())
    }
}

/// `text` with every occurrence of `pattern` replaced by `with`.
pub open spec fn replaced_all(text: Seq<char>, pattern: Seq<char>, with: Seq<char>) -> Seq<char> {
    replaced_from(text, pattern, with, 0)
}

/// What `next_occurrence` finds: the least index from `from` on at which
/// the pattern stands.
pub proof fn lemma_next_occurrence(text: Seq<char>, pattern: Seq<char>, from: int)
    requires
        0 <= from <= text.len(),
    ensures
        from <= next_occurrence(text, pattern, from) <= text.len() + 1,
        next_occurrence(text, pattern, from) <= text.len() ==> occurs_at(
            text,
            pattern,
            next_occurrence(text, pattern, from),
        ),
        forall|at: int|
            from <= at < next_occurrence(text, pattern, from) ==> !occurs_at(text, pattern, at),
        from == 0 ==> (contains_text(text, pattern) <==> next_occurrence(text, pattern, from)
            <= text.len()),
    decreases text.len() - from,
{
    if !occurs_at(text, pattern, from) {
        if from < text.len() {
            lemma_next_occurrence(text, pattern, from + 1);
        }
    }
    if from == 0 && contains_text(text, pattern) {
        let at = choose|at: int| occurs_at(text, pattern, at);
        assert(occurs_at(text, pattern, at));
        if next_occurrence(text, pattern, from) > text.len() {
            assert(!occurs_at(text, pattern, at));
        }
    }
}

/// Tells whether `pattern` stands in `text` at index `at`.
fn matches_at(text: &Vec<char>, pattern: &Vec<char>, at: usize) -> (found: bool)
    requires
        at <= text.len(),
    ensures
        found == occurs_at(text@, pattern@, at as int),
{
    if pattern.len() > text.len() - at {
        return false;
    }
    let mut i: usize = 0;
    while i < pattern.len()
        invariant
            i <= pattern.len(),
            at + pattern.len() <= text.len(),
            forall|j: int| 0 <= j < i ==> text@[at + j] == pattern@[j],
        decreases pattern.len() - i,
    {
        if text[at + i] != pattern[i] {
            assert(text@.subrange(at as int, at + pattern.len())[i as int] != pattern@[i as int]);
            return false;
        }
        i += 1;
    }
    assert(text@.subrange(at as int, at + pattern.len()) =~= pattern@);
    true
}

/// The least index from `from` on at which `pattern` stands in `text`.
fn find_from(text: &Vec<char>, pattern: &Vec<char>, from: usize) -> (found: Option<usize>)
    requires
        from <= text.len(),
    ensures
        match found {
            Some(at) => at as int == next_occurrence(text@, pattern@, from as int) && at
                <= text.len(),
            None => next_occurrence(text@, pattern@, from as int) > text.len(),
        },
{
    let mut at: usize = from;
    loop
        invariant
            from <= at <= text.len(),
            next_occurrence(text@, pattern@, from as int) == next_occurrence(
                text@,
                pattern@,
                at as int,
            ),
        decreases text.len() - at,
    {
        if matches_at(text, pattern, at) {
            return Some(at);
        }
        if at == text.len() {
            return None;
        }
        at += 1;
    }
}

/// Tells whether `pattern` stands somewhere in `text`.
pub fn contains(text: &str, pattern: &str) -> (found: bool)
    ensures
        found == contains_text(text@, pattern@),
{
    let chars = chars_of(text);
    let wanted = chars_of(pattern);
    proof {
        lemma_next_occurrence(text@, pattern@, 0);
    }
    find_from(&chars, &wanted, 0).is_some()
}

/// `text` with the first occurrence of `pattern` replaced by `with`.
pub fn replace_first(text: &str, pattern: &str, with: &str) -> (out: String)
    ensures
        out@ == replaced_first(text@, pattern@, with@),
{
    let chars = chars_of(text);
    let wanted = chars_of(pattern);
    match find_from(&chars, &wanted, 0) {
        Some(at) => {
            proof {
                lemma_next_occurrence(text@, pattern@, 0);
            }
            let mut out = framed(text.substring_char(0, at), with, "");
            out.append(text.substring_char(at + wanted.len(), chars.len()));
            proof {
                reveal_strlit("");
                assert(""@ =~= Seq::<char>::empty());
                assert(out@ =~= replaced_first(text@, pattern@, with@));
            }
            out
        },
        None => text.to_owned(),
    }
}

/// `text` with every occurrence of `pattern` replaced by `with`.
pub fn replace_all(text: &str, pattern: &str, with: &str) -> (out: String)
    ensures
        out@ == replaced_all(text@, pattern@, with@),
{
    let chars = chars_of(text);
    let wanted = chars_of(pattern);
    if wanted.len() == 0 {
        assert(text@.subrange(0, text@.len() as int) =~= text@);
        return text.to_owned();
    }
    let mut out = String::new();
    let mut from: usize = 0;
    assert(out@ + replaced_from(text@, pattern@, with@, 0) =~= replaced_all(
        text@,
        pattern@,
        with@,
    ));
    loop
        invariant
            chars@ == text@,
            wanted@ == pattern@,
            pattern@.len() > 0,
            from <= chars.len(),
            replaced_all(text@, pattern@, with@) == out@ + replaced_from(
                text@,
                pattern@,
                with@,
                from as int,
            ),
        decreases chars.len() - from,
    {
        proof {
            lemma_next_occurrence(text@, pattern@, from as int);
        }
        match find_from(&chars, &wanted, from) {
            Some(at) => {
                let ghost before = out@;
                out.append(text.substring_char(from, at));
                out.append(with);
                proof {
                    let rest = replaced_from(text@, pattern@, with@, at + pattern@.len());
                    assert(before + (text@.subrange(from as int, at as int) + with@ + rest)
                        =~= out@ + rest);
                }
                from = at + wanted.len();
            },
            None => {
                let ghost before = out@;
                out.append(text.substring_char(from, chars.len()));
                return out;
            },
        }
    }
}

/// Tells whether `text` starts with `prefix`.
pub fn has_prefix(text: &str, prefix: &str) -> (found: bool)
    ensures
        found == prefix@.is_prefix_of(text@),
{
    let chars = chars_of(text);
    let wanted = chars_of(prefix);
    let found = matches_at(&chars, &wanted, 0);
    proof {
        if prefix@.is_prefix_of(text@) {
            assert(text@.subrange(0, prefix@.len() as int) =~= prefix@);
        }
        if occurs_at(text@, prefix@, 0) {
            assert(text@.subrange(0, 0 + prefix@.len() as int) == prefix@);
            assert(prefix@.is_prefix_of(text@));
        }
    }
    found
}

/// Of two different names one sorts before the other.
pub proof fn lemma_names_compare(a: Seq<char>, b: Seq<char>)
    ensures
        a == b || name_precedes(a, b) || name_precedes(b, a),
        !(name_precedes(a, b) && name_precedes(b, a)),
    decreases a.len(),
{
    if a.len() > 0 && b.len() > 0 {
        lemma_names_compare(a.drop_first(), b.drop_first());
        if a.first() == b.first() && a.drop_first() == b.drop_first() {
            assert(a =~= seq![a.first()] + a.drop_first());
            assert(b =~= seq![b.first()] + b.drop_first());
        }
    } else if a.len() == 0 && b.len() == 0 {
        assert(a =~= b);
    }
}

} // verus!
