//! Inline markdown, taken off a text: links, strong and emphasised spans,
//! code spans and heading marks.

use vstd::prelude::*;
use vstd::string::StringExecFns;

use crate::text::{
    from_chars, is_alphanumeric_ascii, is_ascii_alphanumeric, is_white_space, is_whitespace,
    occurs_at, occurs_at_index, to_chars,
};

verus! {

/// The first index at or after `from` at which `c` or a line feed stands, or
/// an index past the end of `t` where neither does.
pub open spec fn find_on_line(t: Seq<char>, from: int, c: char) -> int
    decreases t.len() - from,
{
    if from >= t.len() {
        from
    } else if t[from] == c || t[from] == '\n' {
        from
    } else {
        find_on_line(t, from + 1, c)
    }
}

/// Where the one-character delimiter that opens at `start` closes: at its next
/// occurrence on the same line, which may not follow at once.
pub open spec fn closing_single(t: Seq<char>, start: int, delim: char) -> Option<int> {
    let n = find_on_line(t, start + 1, delim);
    if start + 1 < n < t.len() && t[n] == delim {
        Some(n)
    } else {
        None
    }
}

/// The underscore at `i` closes emphasis that opened at `start`: something
/// stands between the two, and no word goes on behind it.
pub open spec fn underscore_closes(t: Seq<char>, start: int, i: int) -> bool {
    &&& t[i] == '_'
    &&& i > start + 1
    &&& i + 1 >= t.len() || !is_alphanumeric_ascii(t[i + 1])
}

/// The first index at or after `from` at which emphasis that opened at `start`
/// closes or the line ends, or an index past the end where neither happens.
pub open spec fn find_underscore_on_line(t: Seq<char>, start: int, from: int) -> int
    decreases t.len() - from,
{
    if from >= t.len() {
        from
    } else if underscore_closes(t, start, from) || t[from] == '\n' {
        from
    } else {
        find_underscore_on_line(t, start, from + 1)
    }
}

/// Where emphasis that opens with the underscore at `start` closes.
pub open spec fn closing_underscore(t: Seq<char>, start: int) -> Option<int> {
    let n = find_underscore_on_line(t, start, start + 1);
    if start < n < t.len() && underscore_closes(t, start, n) {
        Some(n)
    } else {
        None
    }
}

/// The underscore at `i` may open emphasis: it does not continue a word, and
/// what follows is neither white space nor another underscore.
pub open spec fn underscore_opens(t: Seq<char>, i: int) -> bool {
    &&& i == 0 || !is_alphanumeric_ascii(t[i - 1])
    &&& i + 1 < t.len()
    &&& t[i + 1] != '_'
    &&& !is_white_space(t[i + 1])
}

/// The first index at or after `from` at which `delim` or a line feed stands,
/// among those that leave room for `delim`; an index without that room where
/// there is none.
pub open spec fn find_delim_on_line(t: Seq<char>, from: int, delim: Seq<char>) -> int
    decreases t.len() - from,
{
    if from + delim.len() > t.len() {
        from
    } else if occurs_at(t, from, delim) || t[from] == '\n' {
        from
    } else if from >= t.len() {
        from
    } else {
        find_delim_on_line(t, from + 1, delim)
    }
}

/// The end of the span that `delim` opens at `start`: behind the next `delim`
/// on the same line, which may not follow at once.
pub open spec fn span_end(t: Seq<char>, start: int, delim: Seq<char>) -> Option<int> {
    let n = find_delim_on_line(t, start + delim.len(), delim);
    if occurs_at(t, start, delim) && n > start + delim.len() && occurs_at(t, n, delim) {
        Some(n + delim.len())
    } else {
        None
    }
}

/// The first of `delims` that opens a span at `start`, by its length, and the
/// end of that span.
pub open spec fn first_span(t: Seq<char>, start: int, delims: Seq<Seq<char>>) -> Option<(int, int)>
    decreases delims.len(),
{
    if delims.len() == 0 {
        None
    } else {
        match span_end(t, start, delims[0]) {
            Some(end) => Some((delims[0].len() as int, end)),
            None => first_span(t, start, delims.drop_first()),
        }
    }
}

/// A link `[label](target)` on one line that begins at `start`: the index of
/// its `]`, and the index behind its `)`.
pub open spec fn link_at(t: Seq<char>, start: int) -> Option<(int, int)> {
    let close = find_on_line(t, start + 1, ']');
    let end = find_on_line(t, close + 2, ')');
    if {
        &&& 0 <= start < t.len() && t[start] == '['
        &&& close < t.len() && t[close] == ']'
        &&& close + 1 < t.len() && t[close + 1] == '('
        &&& end < t.len() && t[end] == ')'
    } {
        Some((close, end + 1))
    } else {
        None
    }
}

/// The first index at or after `from` at which no `#` stands.
pub open spec fn hashes_end(t: Seq<char>, from: int) -> int
    decreases t.len() - from,
{
    if from < t.len() && t[from] == '#' {
        hashes_end(t, from + 1)
    } else {
        from
    }
}

/// Where the text of the heading begins whose hashes begin at `i`: behind the
/// one space that follows them, at the start of a line only.
pub open spec fn heading_text(t: Seq<char>, i: int) -> Option<int> {
    let j = hashes_end(t, i);
    if t[i] == '#' && (i == 0 || t[i - 1] == '\n') && j < t.len() && t[j] == ' ' {
        Some(j + 1)
    } else {
        None
    }
}

/// The delimiters of two characters: strong text twice, and struck text.
pub open spec fn strong_delims() -> Seq<Seq<char>> {
    seq!["**"@, "__"@, "~~"@]
}

/// What begins at an index of a text.
pub enum Markup {
    Link { close: int, end: int },
    Strong { width: int, end: int },
    Code { close: int },
    Emphasis { close: int },
    Heading { body: int },
    Plain,
}

/// The markup that begins at index `i`; where several readings are possible,
/// the first of them in this order.
pub open spec fn markup_at(t: Seq<char>, i: int) -> Markup {
    if let Some((close, end)) = link_at(t, i) {
        Markup::Link { close, end }
    } else if let Some((width, end)) = first_span(t, i, strong_delims()) {
        Markup::Strong { width, end }
    } else if t[i] == '`' && closing_single(t, i, '`') is Some {
        Markup::Code { close: closing_single(t, i, '`')->0 }
    } else if t[i] == '*' && closing_single(t, i, '*') is Some {
        Markup::Emphasis { close: closing_single(t, i, '*')->0 }
    } else if t[i] == '_' && underscore_opens(t, i) && closing_underscore(t, i) is Some {
        Markup::Emphasis { close: closing_underscore(t, i)->0 }
    } else if heading_text(t, i) is Some {
        Markup::Heading { body: heading_text(t, i)->0 }
    } else {
        Markup::Plain
    }
}

/// `t` without its inline markup. Labels and delimited spans are stripped in
/// turn, code spans keep their text as it is, link targets go.
pub open spec fn stripped(t: Seq<char>) -> Seq<char>
    decreases t.len(), t.len() + 1,
{
    stripped_from(t, 0)
}

/// What `stripped` leaves of `t` from index `i` on.
pub open spec fn stripped_from(t: Seq<char>, i: int) -> Seq<char>
    decreases t.len(), t.len() - i,
{
    if i < 0 || i >= t.len() {
        seq![]
    } else {
        proof {
            lemma_markup_bounds(t, i);
        }
        match markup_at(t, i) {
            Markup::Link { close, end } => stripped(t.subrange(i + 1, close)) + stripped_from(
                t,
                end,
            ),
            Markup::Strong { width, end } => stripped(t.subrange(i + width, end - width))
                + stripped_from(t, end),
            Markup::Code { close } => t.subrange(i + 1, close) + stripped_from(t, close + 1),
            Markup::Emphasis { close } => stripped(t.subrange(i + 1, close)) + stripped_from(
                t,
                close + 1,
            ),
            Markup::Heading { body } => stripped_from(t, body),
            Markup::Plain => seq![t[i]] + stripped_from(t, i + 1),
        }
    }
}

/// A search on a line never goes back.
proof fn lemma_find_on_line(t: Seq<char>, from: int, c: char)
    ensures
        find_on_line(t, from, c) >= from,
    decreases t.len() - from,
{
    if from < t.len() && t[from] != c && t[from] != '\n' {
        lemma_find_on_line(t, from + 1, c);
    }
}

/// The end of a run of hashes does not lie before the run.
proof fn lemma_hashes_end(t: Seq<char>, from: int)
    ensures
        hashes_end(t, from) >= from,
    decreases t.len() - from,
{
    if from < t.len() && t[from] == '#' {
        lemma_hashes_end(t, from + 1);
    }
}

/// A span that was found lies in the text, with something between its delimiters.
proof fn lemma_first_span(t: Seq<char>, start: int, delims: Seq<Seq<char>>)
    requires
        forall|k: int| 0 <= k < delims.len() ==> #[trigger] delims[k].len() > 0,
    ensures
        first_span(t, start, delims) matches Some((width, end)) ==> {
            &&& 0 < width
            &&& start + 2 * width < end <= t.len()
        },
    decreases delims.len(),
{
    if delims.len() > 0 && span_end(t, start, delims[0]) is None {
        lemma_first_span(t, start, delims.drop_first());
    }
}

/// Markup lies inside the text and is longer than what it delimits.
pub proof fn lemma_markup_bounds(t: Seq<char>, i: int)
    requires
        0 <= i < t.len(),
    ensures
        match markup_at(t, i) {
            Markup::Link { close, end } => i < close < end <= t.len(),
            Markup::Strong { width, end } => 0 < width && i + 2 * width < end <= t.len(),
            Markup::Code { close } => i + 1 < close < t.len(),
            Markup::Emphasis { close } => i + 1 < close < t.len(),
            Markup::Heading { body } => i < body <= t.len(),
            Markup::Plain => true,
        },
{
    lemma_find_on_line(t, i + 1, ']');
    lemma_find_on_line(t, find_on_line(t, i + 1, ']') + 2, ')');
    reveal_strlit("**");
    reveal_strlit("__");
    reveal_strlit("~~");
    lemma_first_span(t, i, strong_delims());
    lemma_hashes_end(t, i);
}

/// An index of `chars`, if there is one, as a number of the specification.
pub open spec fn at_index(found: Option<usize>) -> Option<int> {
    match found {
        Some(n) => Some(n as int),
        None => None,
    }
}

/// The index at which the delimiter that opens at `start` closes.
pub fn find_closing_single(chars: &[char], start: usize, delim: char) -> (r: Option<usize>)
    requires
        start < usize::MAX,
    ensures
        at_index(r) == closing_single(chars@, start as int, delim),
{
    let mut i: usize = start + 1;
    while i < chars.len()
        invariant
            start < i,
            find_on_line(chars@, start + 1, delim) == find_on_line(chars@, i as int, delim),
        decreases chars@.len() - i,
    {
        if chars[i] == delim {
            if i == start + 1 {
                return None;
            }
            return Some(i);
        }
        if chars[i] == '\n' {
            return None;
        }
        i = i + 1;
    }
    None
}

/// May the underscore at index `i` open emphasis?
pub fn is_markdown_underscore_open(chars: &[char], i: usize) -> (r: bool)
    requires
        i <= chars@.len(),
        i < usize::MAX,
    ensures
        r == underscore_opens(chars@, i as int),
{
    let prev_ok = i == 0 || !is_ascii_alphanumeric(chars[i - 1]);
    let next_ok = i + 1 < chars.len() && chars[i + 1] != '_' && !is_whitespace(chars[i + 1]);
    prev_ok && next_ok
}

/// The index of the underscore that closes the emphasis opened at `start`.
pub fn find_closing_underscore(chars: &[char], start: usize) -> (r: Option<usize>)
    requires
        start < usize::MAX,
    ensures
        at_index(r) == closing_underscore(chars@, start as int),
{
    let mut i: usize = start + 1;
    while i < chars.len()
        invariant
            start < i,
            find_underscore_on_line(chars@, start as int, start + 1) == find_underscore_on_line(
                chars@,
                start as int,
                i as int,
            ),
        decreases chars@.len() - i,
    {
        if chars[i] == '_' {
            let next_ok = i + 1 >= chars.len() || !is_ascii_alphanumeric(chars[i + 1]);
            if i > start + 1 && next_ok {
                return Some(i);
            }
        }
        if chars[i] == '\n' {
            return None;
        }
        i = i + 1;
    }
    None
}

/// The end of the span that `delim` opens at `start`.
fn delimited_span_end(chars: &[char], start: usize, delim: &[char]) -> (r: Option<usize>)
    requires
        start <= chars@.len(),
    ensures
        at_index(r) == span_end(chars@, start as int, delim@),
{
    let n: usize = chars.len();
    if !occurs_at_index(chars, start, delim) {
        return None;
    }
    let first: usize = start + delim.len();
    let mut i: usize = first;
    while delim.len() <= n - i
        invariant
            n == chars@.len(),
            first == start + delim@.len(),
            first <= i <= n,
            occurs_at(chars@, start as int, delim@),
            find_delim_on_line(chars@, first as int, delim@) == find_delim_on_line(
                chars@,
                i as int,
                delim@,
            ),
            delim@.len() == 0 ==> i == first,
        decreases chars@.len() - i,
    {
        if occurs_at_index(chars, i, delim) {
            if i == first {
                return None;
            }
            return Some(i + delim.len());
        }
        if chars[i] == '\n' {
            return None;
        }
        i = i + 1;
    }
    None
}

/// The first of `delims` that opens a span at `start`: its length, and the end
/// of the span.
pub fn parse_delimited_span(chars: &[char], start: usize, delims: &[&str]) -> (r: Option<
    (usize, usize),
>)
    requires
        start <= chars@.len(),
    ensures
        match r {
            Some((width, end)) => first_span(chars@, start as int, delims.deep_view()) == Some(
                (width as int, end as int),
            ),
            None => first_span(chars@, start as int, delims.deep_view()) is None,
        },
{
    let ghost all = delims.deep_view();
    let mut k: usize = 0;
    assert(all.skip(0) =~= all);
    while k < delims.len()
        invariant
            k <= delims@.len(),
            all == delims.deep_view(),
            start <= chars@.len(),
            first_span(chars@, start as int, all) == first_span(
                chars@,
                start as int,
                all.skip(k as int),
            ),
        decreases delims@.len() - k,
    {
        let delim = to_chars(delims[k]);
        assert(all.skip(k as int)[0] == delim@);
        if let Some(end) = delimited_span_end(chars, start, &delim) {
            return Some((delim.len(), end));
        }
        assert(all.skip(k as int).drop_first() =~= all.skip(k + 1));
        k = k + 1;
    }
    None
}

/// The link that begins at `start`: its label without markup, and the index
/// behind it.
pub fn parse_markdown_link(chars: &[char], start: usize) -> (r: Option<(String, usize)>)
    ensures
        match r {
            Some((label, next)) => link_at(chars@, start as int) matches Some((close, end)) && end
                == next && label@ == stripped(chars@.subrange(start + 1, close)),
            None => link_at(chars@, start as int) is None,
        },
    decreases chars@.len(), 0int,
{
    let n: usize = chars.len();
    if start >= n || chars[start] != '[' {
        return None;
    }
    let mut i: usize = start + 1;
    while i < n && chars[i] != ']'
        invariant
            n == chars@.len(),
            start < i <= n,
            find_on_line(chars@, start + 1, ']') == find_on_line(chars@, i as int, ']'),
        decreases n - i,
    {
        if chars[i] == '\n' {
            return None;
        }
        i = i + 1;
    }
    let close: usize = i;
    if close >= n || close + 1 >= n || chars[close + 1] != '(' {
        return None;
    }
    i = close + 2;
    while i < n && chars[i] != ')'
        invariant
            n == chars@.len(),
            close == find_on_line(chars@, start + 1, ']'),
            close + 2 <= i <= n,
            find_on_line(chars@, close + 2, ')') == find_on_line(chars@, i as int, ')'),
        decreases n - i,
    {
        if chars[i] == '\n' {
            return None;
        }
        i = i + 1;
    }
    if i >= n {
        return None;
    }
    let label = from_chars(chars, start + 1, close);
    Some((strip_inline_markdown(label.as_str()), i + 1))
}

/// The text of the heading whose hashes begin at `start`: where it begins.
fn find_heading_text(chars: &[char], start: usize) -> (r: Option<usize>)
    requires
        start < chars@.len(),
    ensures
        at_index(r) == heading_text(chars@, start as int),
{
    if chars[start] != '#' || (start != 0 && chars[start - 1] != '\n') {
        return None;
    }
    let mut j: usize = start;
    while j < chars.len() && chars[j] == '#'
        invariant
            j <= chars@.len(),
            hashes_end(chars@, start as int) == hashes_end(chars@, j as int),
        decreases chars@.len() - j,
    {
        j = j + 1;
    }
    if j < chars.len() && chars[j] == ' ' {
        Some(j + 1)
    } else {
        None
    }
}

/// `text` without its inline markup.
pub fn strip_inline_markdown(text: &str) -> (r: String)
    ensures
        r@ == stripped(text@),
    decreases text@.len(), 1int,
{
    let chars = to_chars(text);
    let n: usize = chars.len();
    let delims: [&str; 3] = ["**", "__", "~~"];
    assert(delims.deep_view() =~= strong_delims());
    let mut output = String::new();
    let mut i: usize = 0;
    assert(output@ + stripped_from(chars@, 0) =~= stripped(chars@));
    while i < n
        invariant
            n == chars@.len(),
            chars@ == text@,
            i <= n,
            delims.deep_view() == strong_delims(),
            output@ + stripped_from(chars@, i as int) == stripped(chars@),
        decreases n - i,
    {
        let ghost before = output@;
        let ghost at = i as int;
        proof {
            lemma_markup_bounds(chars@, at);
        }
        if let Some((label, next)) = parse_markdown_link(&chars, i) {
            output.append(label.as_str());
            i = next;
            assert(output@ + stripped_from(chars@, i as int) =~= before + stripped_from(
                chars@,
                at,
            ));
            continue;
        }
        if let Some((width, next)) = parse_delimited_span(&chars, i, &delims) {
            let inner = from_chars(&chars, i + width, next - width);
            let kept = strip_inline_markdown(inner.as_str());
            output.append(kept.as_str());
            i = next;
            assert(output@ + stripped_from(chars@, i as int) =~= before + stripped_from(
                chars@,
                at,
            ));
            continue;
        }
        if chars[i] == '`' {
            if let Some(next) = find_closing_single(&chars, i, '`') {
                let inner = from_chars(&chars, i + 1, next);
                output.append(inner.as_str());
                i = next + 1;
                assert(output@ + stripped_from(chars@, i as int) =~= before + stripped_from(
                    chars@,
                    at,
                ));
                continue;
            }
        }
        if chars[i] == '*' {
            if let Some(next) = find_closing_single(&chars, i, '*') {
                let inner = from_chars(&chars, i + 1, next);
                let kept = strip_inline_markdown(inner.as_str());
                output.append(kept.as_str());
                i = next + 1;
                assert(output@ + stripped_from(chars@, i as int) =~= before + stripped_from(
                    chars@,
                    at,
                ));
                continue;
            }
        }
        if chars[i] == '_' && is_markdown_underscore_open(&chars, i) {
            if let Some(next) = find_closing_underscore(&chars, i) {
                let inner = from_chars(&chars, i + 1, next);
                let kept = strip_inline_markdown(inner.as_str());
                output.append(kept.as_str());
                i = next + 1;
                assert(output@ + stripped_from(chars@, i as int) =~= before + stripped_from(
                    chars@,
                    at,
                ));
                continue;
            }
        }
        if let Some(body) = find_heading_text(&chars, i) {
            i = body;
            continue;
        }
        output.push(chars[i]);
        i = i + 1;
        assert(output@ + stripped_from(chars@, i as int) =~= before + stripped_from(chars@, at));
    }
    assert(output@ + stripped_from(chars@, i as int) =~= output@);
    output
}

/// The characters that markup can begin with.
pub open spec fn is_markup_char(c: char) -> bool {
    c == '[' || c == '*' || c == '_' || c == '~' || c == '`' || c == '#'
}

/// No span opens where no character of a delimiter stands.
pub proof fn lemma_no_span(t: Seq<char>, i: int)
    requires
        0 <= i < t.len(),
        !is_markup_char(t[i]),
    ensures
        first_span(t, i, strong_delims()) is None,
{
    reveal_strlit("**");
    reveal_strlit("__");
    reveal_strlit("~~");
    reveal_with_fuel(first_span, 4);
    let delims = strong_delims();
    assert(delims.drop_first()[0] == delims[1]);
    assert(delims.drop_first().drop_first()[0] == delims[2]);
    assert forall|k: int| 0 <= k < 3 implies !occurs_at(t, i, #[trigger] delims[k]) by {
        if occurs_at(t, i, delims[k]) {
            assert(t.subrange(i, i + 2)[0] == delims[k][0]);
        }
    }
}

proof fn lemma_plain_from(t: Seq<char>, i: int)
    requires
        forall|j: int| 0 <= j < t.len() ==> !is_markup_char(#[trigger] t[j]),
        0 <= i <= t.len(),
    ensures
        stripped_from(t, i) == t.skip(i),
    decreases t.len() - i,
{
    if i < t.len() {
        lemma_no_span(t, i);
        lemma_plain_from(t, i + 1);
        assert(t.skip(i) =~= seq![t[i]] + t.skip(i + 1));
    } else {
        assert(t.skip(i) =~= Seq::<char>::empty());
    }
}

/// A text without characters of markup stays as it is.
pub proof fn law_plain_text_stays(t: Seq<char>)
    requires
        forall|j: int| 0 <= j < t.len() ==> !is_markup_char(#[trigger] t[j]),
    ensures
        stripped(t) == t,
{
    lemma_plain_from(t, 0);
    assert(t.skip(0) =~= t);
}

/// Taking markup off makes no text longer.
pub proof fn law_stripped_is_not_longer(t: Seq<char>)
    ensures
        stripped(t).len() <= t.len(),
    decreases t.len(), t.len() + 1,
{
    lemma_stripped_from_is_not_longer(t, 0);
}

proof fn lemma_stripped_from_is_not_longer(t: Seq<char>, i: int)
    requires
        0 <= i <= t.len(),
    ensures
        stripped_from(t, i).len() <= t.len() - i,
    decreases t.len(), t.len() - i,
{
    if i < t.len() {
        lemma_markup_bounds(t, i);
        match markup_at(t, i) {
            Markup::Link { close, end } => {
                law_stripped_is_not_longer(t.subrange(i + 1, close));
                lemma_stripped_from_is_not_longer(t, end);
            },
            Markup::Strong { width, end } => {
                law_stripped_is_not_longer(t.subrange(i + width, end - width));
                lemma_stripped_from_is_not_longer(t, end);
            },
            Markup::Code { close } => {
                lemma_stripped_from_is_not_longer(t, close + 1);
            },
            Markup::Emphasis { close } => {
                law_stripped_is_not_longer(t.subrange(i + 1, close));
                lemma_stripped_from_is_not_longer(t, close + 1);
            },
            Markup::Heading { body } => {
                lemma_stripped_from_is_not_longer(t, body);
            },
            Markup::Plain => {
                lemma_stripped_from_is_not_longer(t, i + 1);
            },
        }
    }
}

/// How many line feeds a text has.
pub open spec fn line_feeds(t: Seq<char>) -> nat
    decreases t.len(),
{
    if t.len() == 0 {
        0
    } else {
        line_feeds(t.drop_last()) + (if t.last() == '\n' {
            1nat
        } else {
            0
        })
    }
}

proof fn lemma_line_feeds_concat(a: Seq<char>, b: Seq<char>)
    ensures
        line_feeds(a + b) == line_feeds(a) + line_feeds(b),
    decreases b.len(),
{
    if b.len() == 0 {
        assert(a + b =~= a);
    } else {
        lemma_line_feeds_concat(a, b.drop_last());
        assert((a + b).drop_last() =~= a + b.drop_last());
    }
}

/// No line feed stands in `t` from `start` to `end`.
pub open spec fn on_one_line(t: Seq<char>, start: int, end: int) -> bool {
    forall|j: int| start <= j < end ==> #[trigger] t[j] != '\n'
}

proof fn lemma_line_feeds_of_part(t: Seq<char>, start: int, end: int)
    requires
        0 <= start <= end <= t.len(),
        on_one_line(t, start, end),
    ensures
        line_feeds(t.subrange(start, end)) == 0,
    decreases end - start,
{
    if start < end {
        lemma_line_feeds_of_part(t, start, end - 1);
        assert(t.subrange(start, end).drop_last() =~= t.subrange(start, end - 1));
    }
}

proof fn lemma_find_on_line_stays(t: Seq<char>, from: int, c: char)
    requires
        0 <= from,
    ensures
        forall|j: int|
            from <= j < find_on_line(t, from, c) && j < t.len() ==> #[trigger] t[j] != '\n',
    decreases t.len() - from,
{
    if from < t.len() && t[from] != c && t[from] != '\n' {
        lemma_find_on_line_stays(t, from + 1, c);
    }
}

proof fn lemma_find_underscore_stays(t: Seq<char>, start: int, from: int)
    requires
        0 <= from,
    ensures
        forall|j: int|
            from <= j < find_underscore_on_line(t, start, from) && j < t.len() ==> #[trigger] t[j]
                != '\n',
    decreases t.len() - from,
{
    if from < t.len() && !underscore_closes(t, start, from) && t[from] != '\n' {
        lemma_find_underscore_stays(t, start, from + 1);
    }
}

proof fn lemma_find_delim_stays(t: Seq<char>, from: int, delim: Seq<char>)
    requires
        0 <= from,
    ensures
        forall|j: int|
            from <= j < find_delim_on_line(t, from, delim) && j < t.len() ==> #[trigger] t[j]
                != '\n',
    decreases t.len() - from,
{
    if from + delim.len() <= t.len() && !occurs_at(t, from, delim) && from < t.len() && t[from]
        != '\n' {
        lemma_find_delim_stays(t, from + 1, delim);
    }
}

proof fn lemma_hashes_are_hashes(t: Seq<char>, from: int)
    requires
        0 <= from,
    ensures
        forall|j: int| from <= j < hashes_end(t, from) ==> #[trigger] t[j] == '#',
    decreases t.len() - from,
{
    if from < t.len() && t[from] == '#' {
        lemma_hashes_are_hashes(t, from + 1);
    }
}

/// A span lies on one line, where its delimiter does.
proof fn lemma_span_on_one_line(t: Seq<char>, start: int, delims: Seq<Seq<char>>)
    requires
        0 <= start,
        forall|k: int|
            0 <= k < delims.len() ==> on_one_line(#[trigger] delims[k], 0, delims[k].len() as int),
    ensures
        first_span(t, start, delims) matches Some((width, end)) ==> on_one_line(t, start, end),
    decreases delims.len(),
{
    if delims.len() > 0 {
        let delim = delims[0];
        match span_end(t, start, delim) {
            Some(end) => {
                let d = delim.len() as int;
                let n = end - d;
                lemma_find_delim_stays(t, start + d, delim);
                assert forall|j: int| start <= j < end implies #[trigger] t[j] != '\n' by {
                    if j < start + d {
                        assert(t[j] == t.subrange(start, start + d)[j - start]);
                        assert(delim[j - start] != '\n');
                    } else if j >= n {
                        assert(t[j] == t.subrange(n, n + d)[j - n]);
                        assert(delim[j - n] != '\n');
                    }
                }
            },
            None => {
                lemma_span_on_one_line(t, start, delims.drop_first());
            },
        }
    }
}

/// Markup that takes characters away lies on one line.
proof fn lemma_markup_on_one_line(t: Seq<char>, i: int)
    requires
        0 <= i < t.len(),
    ensures
        match markup_at(t, i) {
            Markup::Link { close, end } => on_one_line(t, i, end),
            Markup::Strong { width, end } => on_one_line(t, i, end),
            Markup::Code { close } => on_one_line(t, i, close + 1),
            Markup::Emphasis { close } => on_one_line(t, i, close + 1),
            Markup::Heading { body } => on_one_line(t, i, body),
            Markup::Plain => true,
        },
{
    let close = find_on_line(t, i + 1, ']');
    lemma_find_on_line(t, i + 1, ']');
    lemma_find_on_line_stays(t, i + 1, ']');
    lemma_find_on_line_stays(t, close + 2, ')');
    reveal_strlit("**");
    reveal_strlit("__");
    reveal_strlit("~~");
    lemma_span_on_one_line(t, i, strong_delims());
    lemma_find_on_line_stays(t, i + 1, '`');
    lemma_find_on_line_stays(t, i + 1, '*');
    lemma_find_underscore_stays(t, i, i + 1);
    lemma_hashes_are_hashes(t, i);
    lemma_markup_bounds(t, i);
}

/// Taking markup off keeps every line feed, so that a text keeps its lines.
pub proof fn law_line_feeds_stay(t: Seq<char>)
    ensures
        line_feeds(stripped(t)) == line_feeds(t),
    decreases t.len(), t.len() + 1,
{
    lemma_line_feeds_stay_from(t, 0);
    assert(t.skip(0) =~= t);
}

proof fn lemma_line_feeds_stay_from(t: Seq<char>, i: int)
    requires
        0 <= i <= t.len(),
    ensures
        line_feeds(stripped_from(t, i)) == line_feeds(t.skip(i)),
    decreases t.len(), t.len() - i,
{
    if i < t.len() {
        lemma_markup_bounds(t, i);
        lemma_markup_on_one_line(t, i);
        match markup_at(t, i) {
            Markup::Link { close, end } => {
                lemma_kept_part(t, i, i + 1, close, end);
                law_line_feeds_stay(t.subrange(i + 1, close));
                lemma_line_feeds_stay_from(t, end);
                lemma_line_feeds_concat(
                    stripped(t.subrange(i + 1, close)),
                    stripped_from(t, end),
                );
            },
            Markup::Strong { width, end } => {
                lemma_kept_part(t, i, i + width, end - width, end);
                law_line_feeds_stay(t.subrange(i + width, end - width));
                lemma_line_feeds_stay_from(t, end);
                lemma_line_feeds_concat(
                    stripped(t.subrange(i + width, end - width)),
                    stripped_from(t, end),
                );
            },
            Markup::Code { close } => {
                lemma_kept_part(t, i, i + 1, close, close + 1);
                lemma_line_feeds_stay_from(t, close + 1);
                lemma_line_feeds_concat(t.subrange(i + 1, close), stripped_from(t, close + 1));
            },
            Markup::Emphasis { close } => {
                lemma_kept_part(t, i, i + 1, close, close + 1);
                law_line_feeds_stay(t.subrange(i + 1, close));
                lemma_line_feeds_stay_from(t, close + 1);
                lemma_line_feeds_concat(
                    stripped(t.subrange(i + 1, close)),
                    stripped_from(t, close + 1),
                );
            },
            Markup::Heading { body } => {
                lemma_kept_part(t, i, i, i, body);
                lemma_line_feeds_stay_from(t, body);
            },
            Markup::Plain => {
                lemma_line_feeds_stay_from(t, i + 1);
                lemma_line_feeds_concat(seq![t[i]], stripped_from(t, i + 1));
                lemma_line_feeds_concat(seq![t[i]], t.skip(i + 1));
                assert(t.skip(i) =~= seq![t[i]] + t.skip(i + 1));
            },
        }
    } else {
        assert(t.skip(i) =~= Seq::<char>::empty());
    }
}

/// Neither the markup from `i` to `end` nor the part of it from `from` to `to`
/// has a line feed.
proof fn lemma_kept_part(t: Seq<char>, i: int, from: int, to: int, end: int)
    requires
        0 <= i <= from <= to <= end <= t.len(),
        on_one_line(t, i, end),
    ensures
        line_feeds(t.subrange(from, to)) == 0,
        line_feeds(t.skip(i)) == line_feeds(t.skip(end)),
{
    lemma_line_feeds_of_part(t, from, to);
    lemma_line_feeds_of_part(t, i, end);
    lemma_line_feeds_concat(t.subrange(i, end), t.skip(end));
    assert(t.skip(i) =~= t.subrange(i, end) + t.skip(end));
}

} // verus!
