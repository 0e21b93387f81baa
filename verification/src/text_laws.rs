//! What holds of trimming, lines, joining and searching, for every text.

use vstd::prelude::*;

use crate::text::{
    filled, find_char, has_prefix, has_suffix, is_white_space, joined, law_trimmed,
    law_trimmed_away, lowered, occurs, occurs_at, text_lines, trimmed, trimmed_end, trimmed_start,
};

verus! {

/// Every character of `s` is white space.
pub open spec fn is_blank(s: Seq<char>) -> bool {
    forall|i: int| 0 <= i < s.len() ==> is_white_space(#[trigger] s[i])
}

/// `s` is not empty and has no white space at either end.
pub open spec fn is_tight(s: Seq<char>) -> bool {
    s.len() > 0 && !is_white_space(s[0]) && !is_white_space(s[s.len() - 1])
}

/// White space before a text that does not begin with any is all that its
/// start loses.
pub proof fn law_trim_start(before: Seq<char>, kept: Seq<char>)
    requires
        is_blank(before),
        kept.len() == 0 || !is_white_space(kept[0]),
    ensures
        trimmed_start(before + kept) == kept,
    decreases before.len(),
{
    let whole = before + kept;
    if before.len() == 0 {
        assert(whole =~= kept);
    } else {
        assert(is_white_space(before[0]));
        assert(whole[0] == before[0]);
        assert(whole.drop_first() =~= before.drop_first() + kept);
        assert forall|i: int| 0 <= i < before.drop_first().len() implies is_white_space(
            #[trigger] before.drop_first()[i],
        ) by {
            assert(is_white_space(before[i + 1]));
        }
        law_trim_start(before.drop_first(), kept);
    }
}

proof fn lemma_trim_end(kept: Seq<char>, after: Seq<char>)
    requires
        is_blank(after),
        kept.len() == 0 || !is_white_space(kept[kept.len() - 1]),
    ensures
        trimmed_end(kept + after) == kept,
    decreases after.len(),
{
    let whole = kept + after;
    if after.len() == 0 {
        assert(whole =~= kept);
    } else {
        assert(is_white_space(after[after.len() - 1]));
        assert(whole.last() == after[after.len() - 1]);
        assert(whole.drop_last() =~= kept + after.drop_last());
        assert forall|i: int| 0 <= i < after.drop_last().len() implies is_white_space(
            #[trigger] after.drop_last()[i],
        ) by {
            assert(is_white_space(after[i]));
        }
        lemma_trim_end(kept, after.drop_last());
    }
}

/// Trimming takes the white space around a text away and nothing else.
pub proof fn law_trim(before: Seq<char>, kept: Seq<char>, after: Seq<char>)
    requires
        is_blank(before),
        is_blank(after),
        is_tight(kept),
    ensures
        trimmed(before + kept + after) == kept,
{
    assert(before + kept + after =~= before + (kept + after));
    law_trim_start(before, kept + after);
    lemma_trim_end(kept, after);
}

/// A text without white space at its ends is not changed by trimming, and
/// blank text is trimmed away.
pub proof fn law_trim_whole(s: Seq<char>)
    ensures
        is_tight(s) ==> trimmed(s) == s,
        is_blank(s) ==> trimmed(s).len() == 0,
        trimmed(s).len() == 0 ==> is_blank(s),
        trimmed(s).len() > 0 ==> is_tight(trimmed(s)),
{
    if is_tight(s) {
        law_trim(seq![], s, seq![]);
        assert(Seq::<char>::empty() + s + Seq::<char>::empty() =~= s);
    }
    law_trimmed_away(s);
    law_trimmed(s);
}

/// A value is filled exactly where it is there and not blank, and then it is
/// the value without the white space around it.
pub proof fn law_filled(before: Seq<char>, kept: Seq<char>, after: Seq<char>)
    requires
        is_blank(before),
        is_blank(after),
    ensures
        is_tight(kept) ==> filled(Some(before + kept + after)) == Some(kept),
        filled(Some(before + after)) is None,
        filled(None) is None,
{
    if is_tight(kept) {
        law_trim(before, kept, after);
    }
    assert forall|i: int| 0 <= i < (before + after).len() implies is_white_space(
        #[trigger] (before + after)[i],
    ) by {
        if i < before.len() {
            assert(is_white_space(before[i]));
        } else {
            assert(is_white_space(after[i - before.len()]));
        }
    }
    law_trim_whole(before + after);
}

/// Where `c` stands at `at` and nowhere between `from` and `at`, a search for
/// it ends at `at`; where it does not stand at all, at the end.
pub proof fn lemma_found_at(s: Seq<char>, from: int, at: int, c: char)
    requires
        0 <= from <= at <= s.len(),
        at < s.len() ==> s[at] == c,
        forall|j: int| from <= j < at ==> #[trigger] s[j] != c,
    ensures
        find_char(s, from, c) == at,
    decreases at - from,
{
    if from < at {
        assert(s[from] != c);
        lemma_found_at(s, from + 1, at, c);
    }
}

/// A line feed ends a line; the line and a carriage return before the line
/// feed apart, the lines go on with what follows.
pub proof fn law_line_feed_ends_line(line: Seq<char>, rest: Seq<char>)
    requires
        !line.contains('\n'),
    ensures
        line.len() == 0 || line[line.len() - 1] != '\r' ==> text_lines(
            line + seq!['\n'] + rest,
        ) == seq![line] + text_lines(rest),
        text_lines(line + seq!['\r', '\n'] + rest) == seq![line] + text_lines(rest),
{
    let plain = line + seq!['\n'] + rest;
    let n = line.len() as int;
    assert forall|j: int| 0 <= j < n implies #[trigger] plain[j] != '\n' by {
        assert(plain[j] == line[j]);
        assert(line.contains(line[j]));
    }
    lemma_found_at(plain, 0, n, '\n');
    assert(plain.take(n) =~= line);
    assert(plain.skip(n + 1) =~= rest);

    let windows = line + seq!['\r', '\n'] + rest;
    assert forall|j: int| 0 <= j < n + 1 implies #[trigger] windows[j] != '\n' by {
        if j < n {
            assert(windows[j] == line[j]);
            assert(line.contains(line[j]));
        }
    }
    lemma_found_at(windows, 0, n + 1, '\n');
    assert(windows.take(n + 1).last() == '\r');
    assert(windows.take(n + 1).drop_last() =~= line);
    assert(windows.skip(n + 2) =~= rest);
}

/// What has no line feed is one line, unless it is empty.
pub proof fn law_last_line(line: Seq<char>)
    requires
        !line.contains('\n'),
    ensures
        text_lines(line) == (if line.len() == 0 {
            Seq::<Seq<char>>::empty()
        } else {
            seq![line]
        }),
{
    assert forall|j: int| 0 <= j < line.len() implies #[trigger] line[j] != '\n' by {
        assert(line.contains(line[j]));
    }
    lemma_found_at(line, 0, line.len() as int, '\n');
}

/// Joining puts the separator between two lists and nowhere else.
pub proof fn law_joined(a: Seq<Seq<char>>, b: Seq<Seq<char>>, separator: Seq<char>)
    requires
        a.len() > 0,
        b.len() > 0,
    ensures
        joined(a + b, separator) == joined(a, separator) + separator + joined(b, separator),
        forall|part: Seq<char>| joined(#[trigger] seq![part], separator) == part,
        joined(seq![], separator).len() == 0,
    decreases b.len(),
{
    if b.len() == 1 {
        assert((a + b).drop_last() =~= a);
        assert((a + b).last() == b[0]);
    } else {
        assert((a + b).drop_last() =~= a + b.drop_last());
        law_joined(a, b.drop_last(), separator);
        assert(joined(a + b, separator) =~= joined(a, separator) + separator + joined(
            b,
            separator,
        ));
    }
}

/// The list can be joined with line feeds and taken apart into the same lines.
pub open spec fn are_lines(lines: Seq<Seq<char>>) -> bool {
    &&& lines.len() > 0
    &&& lines[lines.len() - 1].len() > 0
    &&& forall|i: int|
        0 <= i < lines.len() ==> !(#[trigger] lines[i]).contains('\n') && !lines[i].contains('\r')
}

/// Lines that are joined with line feeds are read back as the same lines.
pub proof fn law_joined_lines_read_back(lines: Seq<Seq<char>>)
    requires
        are_lines(lines),
    ensures
        text_lines(joined(lines, "\n"@)) == lines,
    decreases lines.len(),
{
    reveal_strlit("\n");
    assert("\n"@ =~= seq!['\n']);
    let first = lines[0];
    if first.len() > 0 && first[first.len() - 1] == '\r' {
        assert(first.contains('\r'));
    }
    if lines.len() == 1 {
        assert(lines =~= seq![first]);
        law_last_line(first);
    } else {
        let rest = lines.drop_first();
        assert(lines =~= seq![first] + rest);
        assert forall|i: int| 0 <= i < rest.len() implies !(#[trigger] rest[i]).contains('\n')
            && !rest[i].contains('\r') by {
            assert(rest[i] == lines[i + 1]);
        }
        law_joined(seq![first], rest, "\n"@);
        law_joined_lines_read_back(rest);
        law_line_feed_ends_line(first, joined(rest, "\n"@));
    }
}

/// Small letters: capitals from A to Z become small, all else stays.
pub proof fn law_lowered(s: Seq<char>, i: int)
    requires
        0 <= i < s.len(),
    ensures
        lowered(s).len() == s.len(),
        'A' <= s[i] <= 'Z' ==> lowered(s)[i] as int == s[i] as int + 32,
        !('A' <= s[i] <= 'Z') ==> lowered(s)[i] == s[i],
{
}

/// Lowering goes character by character, and a second time changes nothing.
pub proof fn law_lowered_parts(a: Seq<char>, b: Seq<char>)
    ensures
        lowered(a + b) == lowered(a) + lowered(b),
        lowered(lowered(a)) == lowered(a),
{
    assert(lowered(a + b) =~= lowered(a) + lowered(b));
    assert forall|i: int| 0 <= i < a.len() implies lowered(lowered(a))[i] == #[trigger] lowered(
        a,
    )[i] by {
        law_lowered(a, i);
    }
    assert(lowered(lowered(a)) =~= lowered(a));
}

/// A text begins, ends and goes on with its own parts, and only with them.
pub proof fn law_parts_of_text(before: Seq<char>, part: Seq<char>, after: Seq<char>, s: Seq<char>)
    ensures
        has_prefix(part + after, part),
        has_suffix(before + part, part),
        occurs(before + part + after, part),
        has_prefix(s, part) ==> s == part + s.skip(part.len() as int),
        has_suffix(s, part) ==> s == s.take(s.len() - part.len()) + part,
{
    assert((part + after).subrange(0, part.len() as int) =~= part);
    let ended = before + part;
    assert(ended.subrange(before.len() as int, ended.len() as int) =~= part);
    let whole = before + part + after;
    assert(whole.subrange(before.len() as int, (before.len() + part.len()) as int) =~= part);
    assert(occurs_at(whole, before.len() as int, part));
    if has_prefix(s, part) {
        assert(s =~= s.subrange(0, part.len() as int) + s.skip(part.len() as int));
    }
    if has_suffix(s, part) {
        let k = s.len() - part.len();
        assert(s =~= s.take(k) + s.subrange(k, k + part.len()));
    }
}

/// Where a part occurs, the text can be taken apart around it.
pub proof fn law_occurrence(s: Seq<char>, part: Seq<char>) -> (found: (Seq<char>, Seq<char>))
    requires
        occurs(s, part),
    ensures
        s == found.0 + part + found.1,
{
    let i = choose|i: int| occurs_at(s, i, part);
    let before = s.take(i);
    let after = s.skip(i + part.len());
    assert(s =~= before + s.subrange(i, i + part.len()) + after);
    (before, after)
}

} // verus!
