//! Text as a sequence of characters: trimming, lines, searching and joining.

use vstd::prelude::*;
use vstd::string::{StrSliceExecFns, StringExecFns};

verus! {

/// `String::push` appends the given character to the end of the string and
/// changes nothing else.
pub assume_specification[ String::push ](s: &mut String, ch: char)
    ensures
        final(s)@ == old(s)@.push(ch),
;

/// The characters with the Unicode `White_Space` property.
pub open spec fn is_white_space(c: char) -> bool {
    ||| '\u{9}' <= c <= '\u{D}'
    ||| c == '\u{20}'
    ||| c == '\u{85}'
    ||| c == '\u{A0}'
    ||| c == '\u{1680}'
    ||| '\u{2000}' <= c <= '\u{200A}'
    ||| c == '\u{2028}'
    ||| c == '\u{2029}'
    ||| c == '\u{202F}'
    ||| c == '\u{205F}'
    ||| c == '\u{3000}'
}

/// Is `c` a white space character?
pub fn is_whitespace(c: char) -> (r: bool)
    ensures
        r == is_white_space(c),
{
    ('\u{9}' <= c && c <= '\u{D}') || c == '\u{20}' || c == '\u{85}' || c == '\u{A0}' || c
        == '\u{1680}' || ('\u{2000}' <= c && c <= '\u{200A}') || c == '\u{2028}' || c == '\u{2029}'
        || c == '\u{202F}' || c == '\u{205F}' || c == '\u{3000}'
}

/// The ASCII letters and digits.
pub open spec fn is_alphanumeric_ascii(c: char) -> bool {
    ||| 'a' <= c <= 'z'
    ||| 'A' <= c <= 'Z'
    ||| '0' <= c <= '9'
}

/// Is `c` an ASCII letter or digit?
pub fn is_ascii_alphanumeric(c: char) -> (r: bool)
    ensures
        r == is_alphanumeric_ascii(c),
{
    ('a' <= c && c <= 'z') || ('A' <= c && c <= 'Z') || ('0' <= c && c <= '9')
}

/// The ASCII hexadecimal digits, in either case.
pub open spec fn is_hexdigit_ascii(c: char) -> bool {
    ||| 'a' <= c <= 'f'
    ||| 'A' <= c <= 'F'
    ||| '0' <= c <= '9'
}

/// Is `c` an ASCII hexadecimal digit?
pub fn is_ascii_hexdigit(c: char) -> (r: bool)
    ensures
        r == is_hexdigit_ascii(c),
{
    ('a' <= c && c <= 'f') || ('A' <= c && c <= 'F') || ('0' <= c && c <= '9')
}

/// An ASCII capital becomes its small letter; every other character stays.
pub open spec fn lower_char(c: char) -> char {
    if 'A' <= c <= 'Z' {
        ((c as u8) + 32) as u8 as char
    } else {
        c
    }
}

/// `s` with every ASCII capital replaced by its small letter.
pub open spec fn lowered(s: Seq<char>) -> Seq<char> {
    Seq::new(s.len(), |i: int| lower_char(s[i]))
}

/// The characters of `s`, in order.
pub fn to_chars(s: &str) -> (r: Vec<char>)
    ensures
        r@ == s@,
{
    let mut r: Vec<char> = Vec::new();
    for c in iter: s.chars()
        invariant
            iter.seq() == s@,
            r@ == s@.take(iter.index() as int),
    {
        r.push(c);
    }
    r
}

/// The text made of the characters `start..end` of `chars`.
pub fn from_chars(chars: &[char], start: usize, end: usize) -> (r: String)
    requires
        start <= end <= chars@.len(),
    ensures
        r@ == chars@.subrange(start as int, end as int),
{
    let mut r = String::new();
    let mut i: usize = start;
    while i < end
        invariant
            start <= i <= end <= chars@.len(),
            r@ == chars@.subrange(start as int, i as int),
        decreases end - i,
    {
        r.push(chars[i]);
        i = i + 1;
        assert(chars@.subrange(start as int, i as int) =~= chars@.subrange(
            start as int,
            i - 1,
        ).push(chars@[i - 1]));
    }
    r
}

/// `s` in small ASCII letters.
pub fn to_ascii_lowercase(s: &str) -> (r: String)
    ensures
        r@ == lowered(s@),
{
    let mut r = String::new();
    for c in iter: s.chars()
        invariant
            iter.seq() == s@,
            r@ == lowered(s@.take(iter.index() as int)),
    {
        let small = if 'A' <= c && c <= 'Z' {
            ((c as u8) + 32) as char
        } else {
            c
        };
        r.push(small);
        assert(r@ =~= lowered(s@.take(iter.index() as int + 1)));
    }
    assert(s@.take(s@.len() as int) =~= s@);
    r
}

/// Are the two texts the same?
pub fn same_text(a: &str, b: &str) -> (r: bool)
    ensures
        r == (a@ == b@),
{
    let left = to_chars(a);
    let right = to_chars(b);
    if left.len() != right.len() {
        return false;
    }
    assert(a@.subrange(0, a@.len() as int) =~= a@);
    occurs_at_index(&left, 0, &right)
}

/// Do the two texts differ at most in the case of ASCII letters?
pub fn eq_ignore_ascii_case(a: &str, b: &str) -> (r: bool)
    ensures
        r == (lowered(a@) == lowered(b@)),
{
    let left = to_ascii_lowercase(a);
    let right = to_ascii_lowercase(b);
    left == right
}

/// `part` stands in `s` at index `i`.
pub open spec fn occurs_at(s: Seq<char>, i: int, part: Seq<char>) -> bool {
    &&& 0 <= i
    &&& i + part.len() <= s.len()
    &&& s.subrange(i, i + part.len()) == part
}

/// `part` stands somewhere in `s`.
pub open spec fn occurs(s: Seq<char>, part: Seq<char>) -> bool {
    exists|i: int| occurs_at(s, i, part)
}

/// `s` begins with `part`.
pub open spec fn has_prefix(s: Seq<char>, part: Seq<char>) -> bool {
    occurs_at(s, 0, part)
}

/// `s` ends with `part`.
pub open spec fn has_suffix(s: Seq<char>, part: Seq<char>) -> bool {
    occurs_at(s, s.len() - part.len(), part)
}

/// Does `part` stand in `chars` at index `at`?
pub fn occurs_at_index(chars: &[char], at: usize, part: &[char]) -> (r: bool)
    requires
        at <= chars@.len(),
    ensures
        r == occurs_at(chars@, at as int, part@),
{
    let n: usize = chars.len();
    if part.len() > n - at {
        return false;
    }
    let mut k: usize = 0;
    while k < part.len()
        invariant
            k <= part@.len(),
            n == chars@.len(),
            at + part@.len() <= n,
            forall|j: int| 0 <= j < k ==> #[trigger] part@[j] == chars@[at + j],
        decreases part@.len() - k,
    {
        if chars[at + k] != part[k] {
            assert(chars@.subrange(at as int, at + part@.len())[k as int] != part@[k as int]);
            return false;
        }
        k = k + 1;
    }
    assert(chars@.subrange(at as int, at + part@.len()) =~= part@);
    true
}

/// Does `s` begin with `part`?
pub fn starts_with(s: &str, part: &str) -> (r: bool)
    ensures
        r == has_prefix(s@, part@),
{
    occurs_at_index(&to_chars(s), 0, &to_chars(part))
}

/// Does `s` end with `part`?
pub fn ends_with(s: &str, part: &str) -> (r: bool)
    ensures
        r == has_suffix(s@, part@),
{
    let chars = to_chars(s);
    let tail = to_chars(part);
    if tail.len() > chars.len() {
        return false;
    }
    occurs_at_index(&chars, chars.len() - tail.len(), &tail)
}

/// Does `part` stand anywhere in `s`?
pub fn contains(s: &str, part: &str) -> (r: bool)
    ensures
        r == occurs(s@, part@),
{
    let chars = to_chars(s);
    let wanted = to_chars(part);
    let mut i: usize = 0;
    while i <= chars.len()
        invariant
            chars@ == s@,
            wanted@ == part@,
            i <= chars@.len() + 1,
            forall|j: int| 0 <= j < i ==> !occurs_at(s@, j, part@),
        decreases chars@.len() + 1 - i,
    {
        if occurs_at_index(&chars, i, &wanted) {
            return true;
        }
        if i == chars.len() {
            return false;
        }
        i = i + 1;
    }
    false
}

/// Is `c` one of the characters of `s`?
pub fn contains_char(s: &str, c: char) -> (r: bool)
    ensures
        r == s@.contains(c),
{
    let chars = to_chars(s);
    let mut i: usize = 0;
    while i < chars.len()
        invariant
            chars@ == s@,
            i <= chars@.len(),
            forall|j: int| 0 <= j < i ==> s@[j] != c,
        decreases chars@.len() - i,
    {
        if chars[i] == c {
            return true;
        }
        i = i + 1;
    }
    false
}

/// `s` without the white space it begins with.
pub open spec fn trimmed_start(s: Seq<char>) -> Seq<char>
    decreases s.len(),
{
    if s.len() > 0 && is_white_space(s[0]) {
        trimmed_start(s.drop_first())
    } else {
        s
    }
}

/// `s` without the white space it ends with.
pub open spec fn trimmed_end(s: Seq<char>) -> Seq<char>
    decreases s.len(),
{
    if s.len() > 0 && is_white_space(s.last()) {
        trimmed_end(s.drop_last())
    } else {
        s
    }
}

/// `s` without the white space around it.
pub open spec fn trimmed(s: Seq<char>) -> Seq<char> {
    trimmed_end(trimmed_start(s))
}

/// The white space at the start of `s`, cut off.
pub fn trim_start(s: &str) -> (r: &str)
    ensures
        r@ == trimmed_start(s@),
{
    let chars = to_chars(s);
    let i = leading_white_space(&chars);
    s.substring_char(i, chars.len())
}

/// How many white space characters `chars` begins with.
fn leading_white_space(chars: &Vec<char>) -> (i: usize)
    ensures
        i <= chars@.len(),
        trimmed_start(chars@) == chars@.subrange(i as int, chars@.len() as int),
{
    let mut i: usize = 0;
    assert(chars@.subrange(0, chars@.len() as int) =~= chars@);
    while i < chars.len() && is_whitespace(chars[i])
        invariant
            i <= chars@.len(),
            trimmed_start(chars@) == trimmed_start(chars@.subrange(i as int, chars@.len() as int)),
        decreases chars@.len() - i,
    {
        assert(chars@.subrange(i as int, chars@.len() as int).drop_first() =~= chars@.subrange(
            i + 1,
            chars@.len() as int,
        ));
        i = i + 1;
    }
    i
}

/// The white space around `s`, cut off.
pub fn trim(s: &str) -> (r: &str)
    ensures
        r@ == trimmed(s@),
{
    let chars = to_chars(s);
    let i = leading_white_space(&chars);
    let mut j: usize = chars.len();
    while i < j && is_whitespace(chars[j - 1])
        invariant
            i <= j <= chars@.len(),
            trimmed(chars@) == trimmed_end(chars@.subrange(i as int, j as int)),
        decreases j,
    {
        assert(chars@.subrange(i as int, j as int).drop_last() =~= chars@.subrange(
            i as int,
            j - 1,
        ));
        j = j - 1;
    }
    s.substring_char(i, j)
}

/// An optional text as a `&str`.
pub(crate) fn text_of(value: &Option<String>) -> (r: Option<&str>)
    ensures
        r.deep_view() == value.deep_view(),
{
    match value {
        Some(text) => Some(text.as_str()),
        None => None,
    }
}

/// A text that is there and not blank, without white space around it.
pub open spec fn filled(value: Option<Seq<char>>) -> Option<Seq<char>> {
    match value {
        Some(text) => if trimmed(text).len() > 0 {
            Some(trimmed(text))
        } else {
            None
        },
        None => None,
    }
}

/// A text that is there and not blank, without white space around it.
pub fn filled_text(value: Option<&str>) -> (r: Option<String>)
    ensures
        r.deep_view() == filled(value.deep_view()),
{
    match value {
        Some(text) => {
            let text = trim(text);
            if text.is_empty() {
                None
            } else {
                Some(text.to_owned())
            }
        },
        None => None,
    }
}

/// The first index at or after `from` at which `c` stands in `s`, or the
/// length of `s` where there is none.
pub open spec fn find_char(s: Seq<char>, from: int, c: char) -> int
    decreases s.len() - from,
{
    if from >= s.len() {
        s.len() as int
    } else if s[from] == c {
        from
    } else {
        find_char(s, from + 1, c)
    }
}

/// `line` without the one carriage return it may end with.
pub open spec fn without_carriage_return(line: Seq<char>) -> Seq<char> {
    if line.len() > 0 && line.last() == '\r' {
        line.drop_last()
    } else {
        line
    }
}

/// The lines of `s`. A line ends at a line feed, with or without a carriage
/// return before it; neither belongs to the line. What follows the last line
/// feed is a line of its own unless it is empty.
pub open spec fn text_lines(s: Seq<char>) -> Seq<Seq<char>>
    decreases s.len(),
{
    if s.len() == 0 {
        seq![]
    } else {
        let end = find_char(s, 0, '\n');
        if 0 <= end < s.len() {
            seq![without_carriage_return(s.take(end))] + text_lines(s.skip(end + 1))
        } else {
            seq![s]
        }
    }
}

/// Moving the start of a search moves the index that it finds.
pub proof fn lemma_find_char_shift(s: Seq<char>, k: int, from: int, c: char)
    requires
        0 <= k <= s.len(),
        0 <= from,
    ensures
        find_char(s, k + from, c) == k + find_char(s.skip(k), from, c),
    decreases s.len() - k - from,
{
    if k + from < s.len() {
        lemma_find_char_shift(s, k, from + 1, c);
    }
}

/// The index of the first `c` at or after `from`, or the number of characters.
pub fn index_of_char(chars: &[char], from: usize, c: char) -> (r: usize)
    requires
        from <= chars@.len(),
    ensures
        r == find_char(chars@, from as int, c),
        from <= r <= chars@.len(),
        forall|j: int| from <= j < r ==> chars@[j] != c,
        r < chars@.len() ==> chars@[r as int] == c,
{
    let mut i: usize = from;
    while i < chars.len() && chars[i] != c
        invariant
            from <= i <= chars@.len(),
            find_char(chars@, from as int, c) == find_char(chars@, i as int, c),
            forall|j: int| from <= j < i ==> chars@[j] != c,
        decreases chars@.len() - i,
    {
        i = i + 1;
    }
    i
}

/// The lines of `s`.
pub fn lines(s: &str) -> (r: Vec<String>)
    ensures
        r.deep_view() == text_lines(s@),
{
    let chars = to_chars(s);
    let mut r: Vec<String> = Vec::new();
    let mut i: usize = 0;
    assert(s@.skip(0) =~= s@);
    assert(r.deep_view() + text_lines(s@) =~= text_lines(s@));
    while i < chars.len()
        invariant
            i <= chars@.len(),
            chars@ == s@,
            r.deep_view() + text_lines(s@.skip(i as int)) == text_lines(s@),
        decreases chars@.len() - i,
    {
        let ghost before = r.deep_view();
        let ghost rest = s@.skip(i as int);
        let end = index_of_char(&chars, i, '\n');
        proof {
            lemma_find_char_shift(s@, i as int, 0, '\n');
        }
        if end == chars.len() {
            let line = from_chars(&chars, i, end);
            assert(line@ =~= rest);
            r.push(line);
            assert(text_lines(rest) == seq![rest]);
            assert(r.deep_view() =~= before + seq![rest]);
            return r;
        }
        let stop = if i < end && chars[end - 1] == '\r' {
            end - 1
        } else {
            end
        };
        let line = from_chars(&chars, i, stop);
        assert(rest.take(end - i) =~= s@.subrange(i as int, end as int));
        assert(line@ =~= without_carriage_return(rest.take(end - i)));
        r.push(line);
        i = end + 1;
        proof {
            let at = end - (s@.len() - rest.len());
            assert(rest.skip(at + 1) =~= s@.skip(i as int));
            assert(r.deep_view() =~= before.push(line@));
            assert(before + (seq![line@] + text_lines(s@.skip(i as int))) =~= before.push(line@)
                + text_lines(s@.skip(i as int)));
        }
    }
    assert(s@.skip(i as int) =~= Seq::<char>::empty());
    assert(r.deep_view() + Seq::<Seq<char>>::empty() =~= r.deep_view());
    r
}

/// The parts in order, with `separator` between each two of them.
pub open spec fn joined(parts: Seq<Seq<char>>, separator: Seq<char>) -> Seq<char>
    decreases parts.len(),
{
    if parts.len() == 0 {
        seq![]
    } else if parts.len() == 1 {
        parts[0]
    } else {
        joined(parts.drop_last(), separator) + separator + parts.last()
    }
}

/// The parts in order, with `separator` between each two of them.
pub fn join(parts: &Vec<String>, separator: &str) -> (r: String)
    ensures
        r@ == joined(parts.deep_view(), separator@),
{
    let mut r = String::new();
    let ghost all = parts.deep_view();
    let mut i: usize = 0;
    while i < parts.len()
        invariant
            i <= parts@.len(),
            all == parts.deep_view(),
            r@ == joined(all.take(i as int), separator@),
        decreases parts@.len() - i,
    {
        proof {
            assert(all.take(i + 1).drop_last() =~= all.take(i as int));
            assert(all.take(i + 1).last() == parts@[i as int]@);
        }
        if i > 0 {
            r.append(separator);
        }
        r.append(parts[i].as_str());
        i = i + 1;
        assert(r@ =~= joined(all.take(i as int), separator@));
    }
    assert(all.take(i as int) =~= all);
    r
}

/// What the start of a text loses is white space, and what is left does not
/// begin with any.
pub proof fn lemma_trimmed_start(s: Seq<char>)
    ensures
        trimmed_start(s).len() <= s.len(),
        trimmed_start(s) == s.skip(s.len() - trimmed_start(s).len()),
        trimmed_start(s).len() > 0 ==> !is_white_space(trimmed_start(s)[0]),
        forall|i: int|
            0 <= i < s.len() - trimmed_start(s).len() ==> is_white_space(#[trigger] s[i]),
    decreases s.len(),
{
    if s.len() > 0 && is_white_space(s[0]) {
        let rest = s.drop_first();
        lemma_trimmed_start(rest);
        let k = rest.len() - trimmed_start(rest).len();
        assert(rest.skip(k) =~= s.skip(k + 1));
        assert forall|i: int| 0 <= i < k + 1 implies is_white_space(#[trigger] s[i]) by {
            if i > 0 {
                assert(s[i] == rest[i - 1]);
            }
        }
    } else {
        assert(s.skip(0) =~= s);
    }
}

/// What the end of a text loses is white space, and what is left does not end
/// with any.
pub proof fn lemma_trimmed_end(s: Seq<char>)
    ensures
        trimmed_end(s).len() <= s.len(),
        trimmed_end(s) == s.take(trimmed_end(s).len() as int),
        trimmed_end(s).len() > 0 ==> !is_white_space(trimmed_end(s).last()),
        forall|i: int| trimmed_end(s).len() <= i < s.len() ==> is_white_space(#[trigger] s[i]),
    decreases s.len(),
{
    if s.len() > 0 && is_white_space(s.last()) {
        let rest = s.drop_last();
        lemma_trimmed_end(rest);
        assert(rest.take(trimmed_end(rest).len() as int) =~= s.take(
            trimmed_end(rest).len() as int,
        ));
        assert forall|i: int| trimmed_end(rest).len() <= i < s.len() implies is_white_space(
            #[trigger] s[i],
        ) by {
            if i < rest.len() {
                assert(s[i] == rest[i]);
            }
        }
    } else {
        assert(s.take(s.len() as int) =~= s);
    }
}

/// A trimmed text neither begins nor ends with white space, and trimming it
/// again changes nothing.
pub proof fn law_trimmed(s: Seq<char>)
    ensures
        trimmed(s).len() <= s.len(),
        trimmed(s).len() > 0 ==> !is_white_space(trimmed(s)[0]) && !is_white_space(
            trimmed(s).last(),
        ),
        trimmed(trimmed(s)) == trimmed(s),
{
    let inner = trimmed_start(s);
    lemma_trimmed_start(s);
    lemma_trimmed_end(inner);
    if trimmed(s).len() > 0 {
        assert(trimmed(s)[0] == inner[0]);
    }
}

/// A text is trimmed away exactly where all of it is white space.
pub proof fn law_trimmed_away(s: Seq<char>)
    ensures
        trimmed(s).len() == 0 <==> (forall|i: int|
            0 <= i < s.len() ==> is_white_space(#[trigger] s[i])),
{
    let inner = trimmed_start(s);
    let k = s.len() - inner.len();
    lemma_trimmed_start(s);
    lemma_trimmed_end(inner);
    if inner.len() > 0 {
        assert(s[k] == inner[0]);
        if trimmed(s).len() == 0 {
            assert(is_white_space(inner[0]));
        }
    }
}

/// What stands in a part of a text stands in the text.
pub proof fn lemma_occurs_in_whole(
    before: Seq<char>,
    s: Seq<char>,
    after: Seq<char>,
    part: Seq<char>,
)
    requires
        occurs(s, part),
    ensures
        occurs(before + s + after, part),
{
    let i = choose|i: int| occurs_at(s, i, part);
    let whole = before + s + after;
    let at = before.len() + i;
    assert(whole.subrange(at, at + part.len()) =~= s.subrange(i, i + part.len()));
    assert(occurs_at(whole, at, part));
}

} // verus!
