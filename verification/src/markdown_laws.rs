//! What holds of inline markup: what each kind of it leaves of a text.

use vstd::prelude::*;

use crate::markdown::{
    closing_single, closing_underscore, find_delim_on_line, find_on_line, find_underscore_on_line,
    first_span, hashes_end, heading_text, is_markup_char, law_plain_text_stays,
    lemma_markup_bounds, lemma_no_span, link_at, markup_at, span_end, strong_delims, stripped,
    stripped_from, underscore_closes, underscore_opens, Markup,
};
use crate::text::{is_alphanumeric_ascii, is_white_space, occurs_at};

verus! {

/// No character of `s` can begin markup.
pub open spec fn is_plain(s: Seq<char>) -> bool {
    forall|j: int| 0 <= j < s.len() ==> !is_markup_char(#[trigger] s[j])
}

/// Plain characters are kept one after the other.
proof fn lemma_plain_run(t: Seq<char>, i: int, j: int)
    requires
        0 <= i <= j <= t.len(),
        forall|k: int| i <= k < j ==> !is_markup_char(#[trigger] t[k]),
    ensures
        stripped_from(t, i) == t.subrange(i, j) + stripped_from(t, j),
    decreases j - i,
{
    if i < j {
        lemma_no_span(t, i);
        lemma_plain_run(t, i + 1, j);
        assert(t.subrange(i, j) + stripped_from(t, j) =~= seq![t[i]] + (t.subrange(i + 1, j)
            + stripped_from(t, j)));
    } else {
        assert(t.subrange(i, j) + stripped_from(t, j) =~= stripped_from(t, j));
    }
}

/// Whatever `before` is, a search in what follows it finds the same.
proof fn lemma_line_shift(before: Seq<char>, s: Seq<char>, from: int, c: char)
    requires
        0 <= from,
    ensures
        find_on_line(before + s, before.len() + from, c) == before.len() + find_on_line(s, from, c),
    decreases s.len() - from,
{
    if from < s.len() {
        assert((before + s)[before.len() + from] == s[from]);
        if s[from] != c && s[from] != '\n' {
            lemma_line_shift(before, s, from + 1, c);
        }
    }
}

proof fn lemma_underscore_shift(before: Seq<char>, s: Seq<char>, start: int, from: int)
    requires
        0 <= start,
        0 <= from,
    ensures
        find_underscore_on_line(before + s, before.len() + start, before.len() + from)
            == before.len() + find_underscore_on_line(s, start, from),
    decreases s.len() - from,
{
    let n = before.len() as int;
    let t = before + s;
    if from < s.len() {
        assert(t[n + from] == s[from]);
        if from + 1 < s.len() {
            assert(t[n + from + 1] == s[from + 1]);
        }
        assert(underscore_closes(t, n + start, n + from) == underscore_closes(s, start, from));
        if !underscore_closes(s, start, from) && s[from] != '\n' {
            lemma_underscore_shift(before, s, start, from + 1);
        }
    }
}

proof fn lemma_occurs_shift(before: Seq<char>, s: Seq<char>, i: int, part: Seq<char>)
    requires
        0 <= i,
    ensures
        occurs_at(before + s, before.len() + i, part) == occurs_at(s, i, part),
{
    let n = before.len() as int;
    if i + part.len() <= s.len() {
        assert((before + s).subrange(n + i, n + i + part.len()) =~= s.subrange(
            i,
            i + part.len(),
        ));
    }
}

proof fn lemma_delim_shift(before: Seq<char>, s: Seq<char>, from: int, delim: Seq<char>)
    requires
        0 <= from,
    ensures
        find_delim_on_line(before + s, before.len() + from, delim) == before.len()
            + find_delim_on_line(s, from, delim),
    decreases s.len() - from,
{
    lemma_occurs_shift(before, s, from, delim);
    if from < s.len() {
        assert((before + s)[before.len() + from] == s[from]);
        if !occurs_at(s, from, delim) && s[from] != '\n' {
            lemma_delim_shift(before, s, from + 1, delim);
        }
    } else if from == s.len() && delim.len() == 0 {
        assert(s.subrange(from, from) =~= delim);
        assert(occurs_at(s, from, delim));
    }
}

proof fn lemma_hashes_shift(before: Seq<char>, s: Seq<char>, from: int)
    requires
        0 <= from,
    ensures
        hashes_end(before + s, before.len() + from) == before.len() + hashes_end(s, from),
    decreases s.len() - from,
{
    if from < s.len() {
        assert((before + s)[before.len() + from] == s[from]);
        if s[from] == '#' {
            lemma_hashes_shift(before, s, from + 1);
        }
    }
}

proof fn lemma_span_shift(before: Seq<char>, s: Seq<char>, start: int, delims: Seq<Seq<char>>)
    requires
        0 <= start,
    ensures
        first_span(before + s, before.len() + start, delims) == (match first_span(
            s,
            start,
            delims,
        ) {
            Some((width, end)) => Some((width, before.len() + end)),
            None => None,
        }),
    decreases delims.len(),
{
    if delims.len() > 0 {
        let delim = delims[0];
        let n = find_delim_on_line(s, start + delim.len(), delim);
        lemma_delim_shift(before, s, start + delim.len(), delim);
        lemma_occurs_shift(before, s, start, delim);
        if n >= 0 {
            lemma_occurs_shift(before, s, n, delim);
        }
        lemma_span_shift(before, s, start, delims.drop_first());
    }
}

/// `s` may stand behind a character without being read otherwise than alone: a
/// heading needs the start of a line, and an underscore no word before it.
pub open spec fn stands_alike(c: char, s: Seq<char>) -> bool {
    s.len() > 0 ==> (s[0] == '#' ==> c == '\n') && (s[0] == '_' ==> !is_alphanumeric_ascii(c))
}

/// Where it is read as it is alone, the same markup begins behind `before`.
proof fn lemma_markup_shift(before: Seq<char>, s: Seq<char>, i: int)
    requires
        0 <= i < s.len(),
        before.len() > 0 && i == 0 ==> stands_alike(before[before.len() - 1], s),
    ensures
        ({
            let n = before.len() as int;
            markup_at(before + s, n + i) == (match markup_at(s, i) {
                Markup::Link { close, end } => Markup::Link { close: n + close, end: n + end },
                Markup::Strong { width, end } => Markup::Strong { width, end: n + end },
                Markup::Code { close } => Markup::Code { close: n + close },
                Markup::Emphasis { close } => Markup::Emphasis { close: n + close },
                Markup::Heading { body } => Markup::Heading { body: n + body },
                Markup::Plain => Markup::Plain,
            })
        }),
{
    let n = before.len() as int;
    let t = before + s;
    assert(t[n + i] == s[i]);
    if i + 1 < s.len() {
        assert(t[n + i + 1] == s[i + 1]);
    }
    if i > 0 {
        assert(t[n + i - 1] == s[i - 1]);
    } else if n > 0 {
        assert(t[n - 1] == before[n - 1]);
    }
    let close = find_on_line(s, i + 1, ']');
    lemma_line_shift(before, s, i + 1, ']');
    lemma_on_line_goes_on(s, i + 1, ']');
    lemma_line_shift(before, s, close + 2, ')');
    lemma_on_line_goes_on(s, close + 2, ')');
    let end = find_on_line(s, close + 2, ')');
    if close < s.len() {
        assert(t[n + close] == s[close]);
    }
    if close + 1 < s.len() {
        assert(t[n + close + 1] == s[close + 1]);
    }
    if end < s.len() {
        assert(t[n + end] == s[end]);
    }
    assert(link_at(t, n + i) == (match link_at(s, i) {
        Some((close, end)) => Some((n + close, n + end)),
        None => None,
    }));
    lemma_span_shift(before, s, i, strong_delims());
    lemma_single_shift(before, s, i, '`');
    lemma_single_shift(before, s, i, '*');
    lemma_underscore_shift(before, s, i, i + 1);
    lemma_closing_underscore_shift(before, s, i);
    lemma_hashes_shift(before, s, i);
    lemma_hashes_go_on(s, i);
    let j = hashes_end(s, i);
    if j < s.len() {
        assert(t[n + j] == s[j]);
    }
}

proof fn lemma_on_line_goes_on(t: Seq<char>, from: int, c: char)
    ensures
        find_on_line(t, from, c) >= from,
    decreases t.len() - from,
{
    if from < t.len() && t[from] != c && t[from] != '\n' {
        lemma_on_line_goes_on(t, from + 1, c);
    }
}

proof fn lemma_hashes_go_on(t: Seq<char>, from: int)
    ensures
        hashes_end(t, from) >= from,
    decreases t.len() - from,
{
    if from < t.len() && t[from] == '#' {
        lemma_hashes_go_on(t, from + 1);
    }
}

proof fn lemma_single_shift(before: Seq<char>, s: Seq<char>, i: int, c: char)
    requires
        0 <= i < s.len(),
    ensures
        closing_single(before + s, before.len() + i, c) == (match closing_single(s, i, c) {
            Some(close) => Some(before.len() + close),
            None => None,
        }),
{
    lemma_line_shift(before, s, i + 1, c);
    lemma_on_line_goes_on(s, i + 1, c);
    let close = find_on_line(s, i + 1, c);
    if close < s.len() {
        assert((before + s)[before.len() + close] == s[close]);
    }
}

proof fn lemma_closing_underscore_shift(before: Seq<char>, s: Seq<char>, i: int)
    requires
        0 <= i < s.len(),
    ensures
        closing_underscore(before + s, before.len() + i) == (match closing_underscore(s, i) {
            Some(close) => Some(before.len() + close),
            None => None,
        }),
{
    let n = before.len() as int;
    let t = before + s;
    lemma_underscore_shift(before, s, i, i + 1);
    let close = find_underscore_on_line(s, i, i + 1);
    if i < close < s.len() {
        assert(t[n + close] == s[close]);
        if close + 1 < s.len() {
            assert(t[n + close + 1] == s[close + 1]);
        }
        assert(underscore_closes(t, n + i, n + close) == underscore_closes(s, i, close));
    }
}

/// What stands behind `before` leaves what it leaves alone.
proof fn lemma_stripped_shift(before: Seq<char>, s: Seq<char>, i: int)
    requires
        0 <= i <= s.len(),
        before.len() > 0 && i == 0 ==> stands_alike(before[before.len() - 1], s),
    ensures
        stripped_from(before + s, before.len() + i) == stripped_from(s, i),
    decreases s.len() - i,
{
    let n = before.len() as int;
    let t = before + s;
    if i < s.len() {
        lemma_markup_shift(before, s, i);
        lemma_markup_bounds(s, i);
        match markup_at(s, i) {
            Markup::Link { close, end } => {
                assert(t.subrange(n + i + 1, n + close) =~= s.subrange(i + 1, close));
                lemma_stripped_shift(before, s, end);
            },
            Markup::Strong { width, end } => {
                assert(t.subrange(n + i + width, n + end - width) =~= s.subrange(
                    i + width,
                    end - width,
                ));
                lemma_stripped_shift(before, s, end);
            },
            Markup::Code { close } => {
                assert(t.subrange(n + i + 1, n + close) =~= s.subrange(i + 1, close));
                lemma_stripped_shift(before, s, close + 1);
            },
            Markup::Emphasis { close } => {
                assert(t.subrange(n + i + 1, n + close) =~= s.subrange(i + 1, close));
                lemma_stripped_shift(before, s, close + 1);
            },
            Markup::Heading { body } => {
                lemma_stripped_shift(before, s, body);
            },
            Markup::Plain => {
                assert(t[n + i] == s[i]);
                lemma_stripped_shift(before, s, i + 1);
            },
        }
    }
}

/// Plain text before other text stays, and the other text is stripped as it is
/// alone.
pub proof fn law_plain_text_before(pre: Seq<char>, rest: Seq<char>)
    requires
        is_plain(pre),
        pre.len() > 0 ==> stands_alike(pre[pre.len() - 1], rest),
    ensures
        stripped(pre + rest) == pre + stripped(rest),
{
    let t = pre + rest;
    let n = pre.len() as int;
    assert forall|k: int| 0 <= k < n implies !is_markup_char(#[trigger] t[k]) by {
        assert(t[k] == pre[k]);
    }
    lemma_plain_run(t, 0, n);
    assert(t.subrange(0, n) =~= pre);
    lemma_stripped_shift(pre, rest, 0);
}

/// Around what `out` is left of, plain text is kept as it is, and the rest is
/// stripped as it is alone.
proof fn lemma_kept_around(pre: Seq<char>, mid: Seq<char>, post: Seq<char>, out: Seq<char>)
    requires
        is_plain(pre),
        mid.len() > 0,
        stands_alike(mid[mid.len() - 1], post),
        ({
            let t = pre + mid + post;
            let i = pre.len() as int;
            stripped_from(t, i) == out + stripped_from(t, i + mid.len())
        }),
    ensures
        stripped(pre + mid + post) == pre + out + stripped(post),
{
    let t = pre + mid + post;
    let i = pre.len() as int;
    let j = i + mid.len();
    assert forall|k: int| 0 <= k < i implies !is_markup_char(#[trigger] t[k]) by {
        assert(t[k] == pre[k]);
    }
    lemma_plain_run(t, 0, i);
    assert((pre + mid)[(pre + mid).len() - 1] == mid[mid.len() - 1]);
    lemma_stripped_shift(pre + mid, post, 0);
    assert(t.subrange(0, i) =~= pre);
    assert(stripped(t) =~= pre + out + stripped(post));
}

proof fn lemma_delim_found(t: Seq<char>, from: int, at: int, delim: Seq<char>)
    requires
        0 <= from <= at,
        occurs_at(t, at, delim),
        delim.len() > 0,
        forall|j: int| from <= j < at ==> !#[trigger] occurs_at(t, j, delim),
        forall|j: int| from <= j < at ==> #[trigger] t[j] != '\n',
    ensures
        find_delim_on_line(t, from, delim) == at,
    decreases at - from,
{
    if from < at {
        assert(t[from] != '\n');
        lemma_delim_found(t, from + 1, at, delim);
    }
}

/// A search on a line ends at the first `c` or line feed, or at the end.
proof fn lemma_line_found(t: Seq<char>, from: int, at: int, c: char)
    requires
        0 <= from <= at <= t.len(),
        at < t.len() ==> t[at] == c || t[at] == '\n',
        forall|j: int| from <= j < at ==> #[trigger] t[j] != c && t[j] != '\n',
    ensures
        find_on_line(t, from, c) == at,
    decreases at - from,
{
    if from < at {
        assert(t[from] != c);
        lemma_line_found(t, from + 1, at, c);
    }
}

proof fn lemma_underscore_found(t: Seq<char>, start: int, from: int, at: int)
    requires
        0 <= from <= at <= t.len(),
        at < t.len() ==> underscore_closes(t, start, at) || t[at] == '\n',
        forall|j: int| from <= j < at ==> #[trigger] t[j] != '_' && t[j] != '\n',
    ensures
        find_underscore_on_line(t, start, from) == at,
    decreases at - from,
{
    if from < at {
        assert(t[from] != '_');
        lemma_underscore_found(t, start, from + 1, at);
    }
}

/// Where another character stands, or the delimiter is not doubled, no span of
/// two characters opens.
proof fn lemma_no_double(t: Seq<char>, i: int)
    requires
        0 <= i < t.len(),
        i + 1 < t.len() ==> t[i + 1] != t[i] || (t[i] != '*' && t[i] != '_' && t[i] != '~'),
    ensures
        first_span(t, i, strong_delims()) is None,
{
    reveal_strlit("**");
    reveal_strlit("__");
    reveal_strlit("~~");
    reveal_with_fuel(first_span, 4);
    let delims = strong_delims();
    assert(delims.drop_first()[0] == delims[1]);
    assert(delims.drop_first().drop_first()[0] == delims[2]);
    assert forall|k: int| 0 <= k < 3 implies !occurs_at(t, i, #[trigger] delims[k]) by {
        if occurs_at(t, i, delims[k]) {
            assert(t.subrange(i, i + 2)[0] == delims[k][0]);
            assert(t.subrange(i, i + 2)[1] == delims[k][1]);
        }
    }
}

/// Two asterisks, underscores or tildes around something on one line are taken
/// away, and what they hold is stripped in turn.
pub proof fn law_strong_text(pre: Seq<char>, mark: char, inner: Seq<char>, post: Seq<char>)
    requires
        mark == '*' || mark == '_' || mark == '~',
        is_plain(pre),
        post.len() > 0 ==> post[0] != '#',
        inner.len() > 0,
        !inner.contains('\n'),
        inner[inner.len() - 1] != mark,
        forall|i: int|
            0 <= i < inner.len() - 1 ==> !(#[trigger] inner[i] == mark && inner[i + 1] == mark),
    ensures
        stripped(pre + (seq![mark, mark] + inner + seq![mark, mark]) + post) == pre + stripped(
            inner,
        ) + stripped(post),
{
    let d = seq![mark, mark];
    let mid = d + inner + d;
    let t = pre + mid + post;
    let i = pre.len() as int;
    let at = i + 2 + inner.len();
    assert(t[i] == mark && t[i + 1] == mark);
    assert(t.subrange(i, i + 2) =~= d);
    assert(t.subrange(at, at + 2) =~= d);
    assert forall|j: int| i + 2 <= j < at implies #[trigger] t[j] != '\n' by {
        assert(t[j] == inner[j - i - 2]);
        assert(inner.contains(inner[j - i - 2]));
    }
    assert forall|j: int| i + 2 <= j < at implies !#[trigger] occurs_at(t, j, d) by {
        let k = j - i - 2;
        assert(t[j] == inner[k]);
        if occurs_at(t, j, d) {
            assert(t.subrange(j, j + 2)[0] == t[j]);
            assert(t.subrange(j, j + 2)[1] == t[j + 1]);
            if k < inner.len() - 1 {
                assert(t[j + 1] == inner[k + 1]);
            }
        }
    }
    lemma_delim_found(t, i + 2, at, d);
    reveal_strlit("**");
    reveal_strlit("__");
    reveal_strlit("~~");
    reveal_with_fuel(first_span, 4);
    let delims = strong_delims();
    assert(delims.drop_first()[0] == delims[1]);
    assert(delims.drop_first().drop_first()[0] == delims[2]);
    assert forall|k: int| 0 <= k < 3 && #[trigger] delims[k] != d implies !occurs_at(
        t,
        i,
        delims[k],
    ) by {
        if occurs_at(t, i, delims[k]) {
            assert(t.subrange(i, i + 2) =~= d);
        }
    }
    if mark == '*' {
        assert(delims[0] =~= d);
    } else if mark == '_' {
        assert(delims[1] =~= d);
        assert(delims[0][0] != d[0]);
    } else {
        assert(delims[2] =~= d);
        assert(delims[0][0] != d[0]);
        assert(delims[1][0] != d[0]);
    }
    assert(span_end(t, i, d) == Some(at + 2));
    assert(markup_at(t, i) == (Markup::Strong { width: 2, end: at + 2 }));
    assert(t.subrange(i + 2, at) =~= inner);
    lemma_kept_around(pre, mid, post, stripped(inner));
}

/// One asterisk on each side of something on one line is taken away, and what
/// they hold is stripped in turn.
pub proof fn law_emphasised_text(pre: Seq<char>, inner: Seq<char>, post: Seq<char>)
    requires
        is_plain(pre),
        post.len() > 0 ==> post[0] != '#',
        inner.len() > 0,
        !inner.contains('\n'),
        !inner.contains('*'),
    ensures
        stripped(pre + (seq!['*'] + inner + seq!['*']) + post) == pre + stripped(inner) + stripped(
            post,
        ),
{
    let mid = seq!['*'] + inner + seq!['*'];
    let t = pre + mid + post;
    let i = pre.len() as int;
    let at = i + 1 + inner.len();
    assert forall|j: int| i + 1 <= j < at implies #[trigger] t[j] != '*' && t[j] != '\n' by {
        assert(t[j] == inner[j - i - 1]);
        assert(inner.contains(inner[j - i - 1]));
    }
    assert(t[i] == '*' && t[at] == '*');
    assert(t[i + 1] != '*');
    lemma_no_double(t, i);
    lemma_line_found(t, i + 1, at, '*');
    assert(markup_at(t, i) == (Markup::Emphasis { close: at }));
    assert(t.subrange(i + 1, at) =~= inner);
    lemma_kept_around(pre, mid, post, stripped(inner));
}

/// Backticks around something on one line are taken away, and what they hold
/// is kept as it is, markup and all.
pub proof fn law_code_span(pre: Seq<char>, inner: Seq<char>, post: Seq<char>)
    requires
        is_plain(pre),
        post.len() > 0 ==> post[0] != '#',
        inner.len() > 0,
        !inner.contains('\n'),
        !inner.contains('`'),
    ensures
        stripped(pre + (seq!['`'] + inner + seq!['`']) + post) == pre + inner + stripped(post),
{
    let mid = seq!['`'] + inner + seq!['`'];
    let t = pre + mid + post;
    let i = pre.len() as int;
    let at = i + 1 + inner.len();
    assert forall|j: int| i + 1 <= j < at implies #[trigger] t[j] != '`' && t[j] != '\n' by {
        assert(t[j] == inner[j - i - 1]);
        assert(inner.contains(inner[j - i - 1]));
    }
    assert(t[i] == '`' && t[at] == '`');
    lemma_no_double(t, i);
    lemma_line_found(t, i + 1, at, '`');
    assert(markup_at(t, i) == (Markup::Code { close: at }));
    assert(t.subrange(i + 1, at) =~= inner);
    lemma_kept_around(pre, mid, post, inner);
}

/// Underscores around words on one line are taken away, where no word goes on
/// outside of them.
#[verifier::rlimit(40)]
pub proof fn law_underscored_text(pre: Seq<char>, inner: Seq<char>, post: Seq<char>)
    requires
        is_plain(pre),
        post.len() > 0 ==> post[0] != '#',
        inner.len() > 0,
        !inner.contains('\n'),
        !inner.contains('_'),
        !is_white_space(inner[0]),
        pre.len() > 0 ==> !is_alphanumeric_ascii(pre[pre.len() - 1]),
        post.len() > 0 ==> !is_alphanumeric_ascii(post[0]),
    ensures
        stripped(pre + (seq!['_'] + inner + seq!['_']) + post) == pre + stripped(inner) + stripped(
            post,
        ),
{
    let mid = seq!['_'] + inner + seq!['_'];
    let t = pre + mid + post;
    let i = pre.len() as int;
    let at = i + 1 + inner.len();
    assert forall|j: int| i + 1 <= j < at implies #[trigger] t[j] != '_' && t[j] != '\n' by {
        assert(t[j] == inner[j - i - 1]);
        assert(inner.contains(inner[j - i - 1]));
    }
    assert(t[i] == '_' && t[at] == '_');
    assert(t[i + 1] == inner[0]);
    if i > 0 {
        assert(t[i - 1] == pre[i - 1]);
    }
    if post.len() > 0 {
        assert(t[at + 1] == post[0]);
    }
    lemma_no_double(t, i);
    assert(underscore_closes(t, i, at));
    lemma_underscore_found(t, i, i + 1, at);
    assert(closing_underscore(t, i) == Some(at));
    assert(underscore_opens(t, i));
    assert(link_at(t, i) is None);
    assert(markup_at(t, i) == (Markup::Emphasis { close: at }));
    assert(t.subrange(i + 1, at) =~= inner);
    lemma_kept_around(pre, mid, post, stripped(inner));
}

/// Of a link on one line, its label is left, which is stripped in turn.
pub proof fn law_link(pre: Seq<char>, label: Seq<char>, target: Seq<char>, post: Seq<char>)
    requires
        is_plain(pre),
        post.len() > 0 ==> post[0] != '#',
        !label.contains(']'),
        !label.contains('\n'),
        !target.contains(')'),
        !target.contains('\n'),
    ensures
        stripped(pre + (seq!['['] + label + seq![']', '('] + target + seq![')']) + post) == pre
            + stripped(label) + stripped(post),
{
    let mid = seq!['['] + label + seq![']', '('] + target + seq![')'];
    let t = pre + mid + post;
    let i = pre.len() as int;
    let close = i + 1 + label.len();
    let end = close + 2 + target.len();
    assert forall|j: int| i + 1 <= j < close implies #[trigger] t[j] != ']' && t[j] != '\n' by {
        assert(t[j] == label[j - i - 1]);
        assert(label.contains(label[j - i - 1]));
    }
    assert forall|j: int| close + 2 <= j < end implies #[trigger] t[j] != ')' && t[j] != '\n' by {
        assert(t[j] == target[j - close - 2]);
        assert(target.contains(target[j - close - 2]));
    }
    assert(t[i] == '[' && t[close] == ']' && t[close + 1] == '(' && t[end] == ')');
    lemma_line_found(t, i + 1, close, ']');
    lemma_line_found(t, close + 2, end, ')');
    assert(link_at(t, i) == Some((close, end + 1)));
    assert(markup_at(t, i) == (Markup::Link { close, end: end + 1 }));
    assert(t.subrange(i + 1, close) =~= label);
    lemma_kept_around(pre, mid, post, stripped(label));
}

proof fn lemma_hashes_found(t: Seq<char>, from: int, at: int)
    requires
        0 <= from <= at < t.len(),
        t[at] != '#',
        forall|j: int| from <= j < at ==> #[trigger] t[j] == '#',
    ensures
        hashes_end(t, from) == at,
    decreases at - from,
{
    if from < at {
        assert(t[from] == '#');
        lemma_hashes_found(t, from + 1, at);
    }
}

/// The hashes of a heading and the one space behind them are taken away at the
/// start of a line.
pub proof fn law_heading(pre: Seq<char>, hashes: Seq<char>, post: Seq<char>)
    requires
        is_plain(pre),
        post.len() > 0 ==> post[0] != '#',
        pre.len() == 0 || pre[pre.len() - 1] == '\n',
        hashes.len() > 0,
        forall|j: int| 0 <= j < hashes.len() ==> #[trigger] hashes[j] == '#',
    ensures
        stripped(pre + (hashes + seq![' ']) + post) == pre + stripped(post),
{
    let mid = hashes + seq![' '];
    let t = pre + mid + post;
    let i = pre.len() as int;
    let at = i + hashes.len();
    assert forall|j: int| i <= j < at implies #[trigger] t[j] == '#' by {
        assert(t[j] == hashes[j - i]);
    }
    assert(t[i] == '#' && t[at] == ' ');
    if i > 0 {
        assert(t[i - 1] == pre[i - 1]);
    }
    lemma_no_double(t, i);
    lemma_hashes_found(t, i, at);
    assert(markup_at(t, i) == (Markup::Heading { body: at + 1 }));
    assert(stripped_from(t, i) =~= Seq::<char>::empty() + stripped_from(t, at + 1));
    lemma_kept_around(pre, mid, post, seq![]);
    assert(pre + Seq::<char>::empty() + stripped(post) =~= pre + stripped(post));
}

/// A mark that stands alone in plain text stays.
pub proof fn law_lone_mark_stays(pre: Seq<char>, mark: char, post: Seq<char>)
    requires
        is_plain(pre),
        is_plain(post),
        mark == '[' ==> !post.contains(']'),
        mark == '#' ==> (pre.len() > 0 && pre[pre.len() - 1] != '\n') || post.len() == 0 || post[0]
            != ' ',
    ensures
        stripped(pre + seq![mark] + post) == pre + seq![mark] + post,
{
    let t = pre + seq![mark] + post;
    let i = pre.len() as int;
    assert forall|j: int| i < j < t.len() implies !is_markup_char(#[trigger] t[j]) by {
        assert(t[j] == post[j - i - 1]);
    }
    assert(t[i] == mark);
    lemma_no_double(t, i);
    if is_markup_char(mark) {
        lemma_absent_on_line(t, i + 1, '`');
        lemma_absent_on_line(t, i + 1, '*');
        lemma_absent_underscore(t, i, i + 1);
        if mark == '[' {
            assert forall|j: int| i < j < t.len() implies #[trigger] t[j] != ']' by {
                assert(t[j] == post[j - i - 1]);
                assert(post.contains(post[j - i - 1]));
            }
            lemma_absent_on_line(t, i + 1, ']');
        }
        if mark == '#' {
            if i > 0 {
                assert(t[i - 1] == pre[i - 1]);
            }
            if post.len() > 0 {
                assert(t[i + 1] == post[0]);
                lemma_hashes_found(t, i, i + 1);
            } else {
                reveal_with_fuel(hashes_end, 2);
            }
            assert(heading_text(t, i) is None);
        }
    }
    assert(markup_at(t, i) == Markup::Plain);
    law_plain_text_stays(post);
    lemma_kept_around(pre, seq![mark], post, seq![mark]);
}

proof fn lemma_absent_on_line(t: Seq<char>, from: int, c: char)
    requires
        0 <= from <= t.len(),
        forall|j: int| from <= j < t.len() ==> #[trigger] t[j] != c,
    ensures
        find_on_line(t, from, c) >= t.len() || t[find_on_line(t, from, c)] == '\n',
        find_on_line(t, from, c) >= from,
    decreases t.len() - from,
{
    if from < t.len() {
        assert(t[from] != c);
        if t[from] != '\n' {
            lemma_absent_on_line(t, from + 1, c);
        }
    }
}

proof fn lemma_absent_underscore(t: Seq<char>, start: int, from: int)
    requires
        0 <= from <= t.len(),
        forall|j: int| from <= j < t.len() ==> #[trigger] t[j] != '_',
    ensures
        find_underscore_on_line(t, start, from) >= t.len() || t[find_underscore_on_line(
            t,
            start,
            from,
        )] == '\n',
    decreases t.len() - from,
{
    if from < t.len() {
        assert(t[from] != '_');
        if t[from] != '\n' {
            lemma_absent_underscore(t, start, from + 1);
        }
    }
}

/// The two underscores of a name such as `snake_case_name` stay: neither
/// begins a word.
pub proof fn law_snake_case_stays(a: Seq<char>, b: Seq<char>, c: Seq<char>)
    requires
        is_plain(a) && a.len() > 0 && is_alphanumeric_ascii(a[a.len() - 1]),
        is_plain(b) && b.len() > 0 && is_alphanumeric_ascii(b[b.len() - 1]),
        is_plain(c),
    ensures
        stripped(a + (seq!['_'] + b + seq!['_']) + c) == a + (seq!['_'] + b + seq!['_']) + c,
{
    let mid = seq!['_'] + b + seq!['_'];
    let t = a + mid + c;
    let i = a.len() as int;
    let j = i + 1 + b.len();
    assert(t[i] == '_' && t[i - 1] == a[i - 1]);
    assert(t[j] == '_' && t[j - 1] == b[b.len() - 1]);
    assert(t[i + 1] == b[0]);
    if c.len() > 0 {
        assert(t[j + 1] == c[0]);
    }
    lemma_no_double(t, i);
    lemma_no_double(t, j);
    assert(markup_at(t, i) == Markup::Plain);
    assert(markup_at(t, j) == Markup::Plain);
    assert forall|k: int| i + 1 <= k < j implies !is_markup_char(#[trigger] t[k]) by {
        assert(t[k] == b[k - i - 1]);
    }
    lemma_plain_run(t, i + 1, j);
    assert(t.subrange(i + 1, j) =~= b);
    assert(stripped_from(t, i) =~= mid + stripped_from(t, j + 1));
    law_plain_text_stays(c);
    lemma_kept_around(a, mid, c, mid);
}

/// Marks on two lines do not belong together, and stay.
pub proof fn law_marks_on_two_lines_stay(
    pre: Seq<char>,
    mark: char,
    above: Seq<char>,
    below: Seq<char>,
    post: Seq<char>,
)
    requires
        mark == '*' || mark == '`',
        is_plain(pre) && is_plain(above) && is_plain(below) && is_plain(post),
        !above.contains('\n'),
    ensures
        ({
            let mid = seq![mark] + above + seq!['\n'] + below + seq![mark];
            stripped(pre + mid + post) == pre + mid + post
        }),
{
    let mid = seq![mark] + above + seq!['\n'] + below + seq![mark];
    let t = pre + mid + post;
    let i = pre.len() as int;
    let feed = i + 1 + above.len();
    let j = feed + 1 + below.len();
    assert forall|k: int| i + 1 <= k < feed implies !is_markup_char(#[trigger] t[k]) && t[k]
        != '\n' by {
        assert(t[k] == above[k - i - 1]);
        assert(above.contains(above[k - i - 1]));
    }
    assert forall|k: int| feed < k < j implies !is_markup_char(#[trigger] t[k]) by {
        assert(t[k] == below[k - feed - 1]);
    }
    assert forall|k: int| j < k < t.len() implies !is_markup_char(#[trigger] t[k]) by {
        assert(t[k] == post[k - j - 1]);
    }
    assert(t[i] == mark && t[feed] == '\n' && t[j] == mark);
    lemma_no_double(t, i);
    lemma_no_double(t, j);
    lemma_line_found(t, i + 1, feed, mark);
    lemma_absent_on_line(t, j + 1, mark);
    assert(markup_at(t, i) == Markup::Plain);
    assert(markup_at(t, j) == Markup::Plain);
    lemma_plain_run(t, i + 1, j);
    assert(t.subrange(i + 1, j) =~= above + seq!['\n'] + below);
    assert(stripped_from(t, i) =~= mid + stripped_from(t, j + 1));
    law_plain_text_stays(post);
    lemma_kept_around(pre, mid, post, mid);
}

/// An asterisk or a backtick without another one on its line stays, and what
/// follows is stripped as it is alone.
pub proof fn law_unmatched_mark_stays(
    pre: Seq<char>,
    mark: char,
    line: Seq<char>,
    below: Seq<char>,
)
    requires
        mark == '*' || mark == '`',
        is_plain(pre),
        !line.contains(mark),
        !line.contains('\n'),
        below.len() > 0 ==> below[0] == '\n',
        line.len() > 0 ==> line[0] != '#',
    ensures
        stripped(pre + seq![mark] + (line + below)) == pre + seq![mark] + stripped(line + below),
{
    let post = line + below;
    let t = pre + seq![mark] + post;
    let i = pre.len() as int;
    let at = i + 1 + line.len();
    assert(t[i] == mark);
    assert forall|j: int| i + 1 <= j < at implies #[trigger] t[j] != mark && t[j] != '\n' by {
        assert(t[j] == line[j - i - 1]);
        assert(line.contains(line[j - i - 1]));
    }
    if below.len() > 0 {
        assert(t[at] == below[0]);
    }
    if line.len() > 0 {
        assert(post[0] == line[0]);
    } else if below.len() > 0 {
        assert(post[0] == below[0]);
    }
    lemma_no_double(t, i);
    lemma_line_found(t, i + 1, at, mark);
    assert(markup_at(t, i) == Markup::Plain);
    lemma_kept_around(pre, seq![mark], post, seq![mark]);
}

/// An underscore that continues a word stays, and what follows is stripped as
/// it is alone.
pub proof fn law_underscore_in_word_stays(pre: Seq<char>, post: Seq<char>)
    requires
        is_plain(pre),
        pre.len() > 0 && is_alphanumeric_ascii(pre[pre.len() - 1]),
        post.len() > 0 ==> post[0] != '_' && post[0] != '#',
    ensures
        stripped(pre + seq!['_'] + post) == pre + seq!['_'] + stripped(post),
{
    let t = pre + seq!['_'] + post;
    let i = pre.len() as int;
    assert(t[i] == '_' && t[i - 1] == pre[i - 1]);
    if post.len() > 0 {
        assert(t[i + 1] == post[0]);
    }
    lemma_no_double(t, i);
    assert(markup_at(t, i) == Markup::Plain);
    lemma_kept_around(pre, seq!['_'], post, seq!['_']);
}

/// A hash stays where no line begins with it, and what follows is stripped as
/// it is alone.
pub proof fn law_hash_in_line_stays(pre: Seq<char>, post: Seq<char>)
    requires
        is_plain(pre),
        pre.len() > 0 && pre[pre.len() - 1] != '\n',
        post.len() > 0 ==> post[0] != '#',
    ensures
        stripped(pre + seq!['#'] + post) == pre + seq!['#'] + stripped(post),
{
    let t = pre + seq!['#'] + post;
    let i = pre.len() as int;
    assert(t[i] == '#' && t[i - 1] == pre[i - 1]);
    lemma_no_double(t, i);
    assert(markup_at(t, i) == Markup::Plain);
    lemma_kept_around(pre, seq!['#'], post, seq!['#']);
}

} // verus!
