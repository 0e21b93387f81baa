//! What holds of previews: which lines are code, which are shown, and how.

use vstd::prelude::*;
use vstd::utf8::encode_utf8;

use crate::answer_preview::{
    code_prefixes, cut_after, fence_is_open, has_any_prefix, is_code_line, is_fence,
    law_fenced_block_leaves_no_trace, law_prose_is_prose, prose_lines, prose_of, prose_preview,
    unfenced,
};
use crate::markdown::{is_markup_char, law_plain_text_stays, stripped};
use crate::text::{
    has_prefix, is_white_space, joined, lemma_trimmed_start, lowered, text_lines, trimmed,
    trimmed_start,
};
use crate::text_laws::{
    are_lines, is_blank, is_tight, law_joined_lines_read_back, law_lowered, law_parts_of_text,
    law_trim, law_trim_start, law_trim_whole,
};

verus! {

/// What a line of code begins with, in small letters, where it is a word of a
/// programming language or a mark of a script or a header.
pub open spec fn opens_code(word: Seq<char>) -> bool {
    ||| word == "import "@
    ||| word == "from "@
    ||| word == "const "@
    ||| word == "let "@
    ||| word == "var "@
    ||| word == "fn "@
    ||| word == "def "@
    ||| word == "class "@
    ||| word == "pub "@
    ||| word == "function "@
    ||| word == "package "@
    ||| word == "#include"@
    ||| word == "use "@
    ||| word == "export "@
    ||| word == "return "@
    ||| word == "async "@
    ||| word == "await "@
    ||| word == "#!/"@
}

/// The words that open code are those of the list, and no others.
proof fn lemma_code_prefixes(word: Seq<char>)
    ensures
        opens_code(word) <==> code_prefixes().contains(word),
{
    let all = code_prefixes();
    assert(all.len() == 18);
    assert(all[0] == "import "@ && all[1] == "from "@ && all[2] == "const "@ && all[3] == "let "@
        && all[4] == "var "@ && all[5] == "fn "@ && all[6] == "def "@ && all[7] == "class "@
        && all[8] == "pub "@ && all[9] == "function "@ && all[10] == "package "@ && all[11]
        == "#include"@ && all[12] == "use "@ && all[13] == "export "@ && all[14] == "return "@
        && all[15] == "async "@ && all[16] == "await "@ && all[17] == "#!/"@);
    if all.contains(word) {
        let k = choose|k: int| 0 <= k < all.len() && all[k] == word;
    }
}

/// A line that is neither blank nor indented is code only by what it begins
/// with: a fence, a prompt, a bracket of a short line, or a word that opens
/// code. All other lines are prose.
pub proof fn law_other_lines_are_prose(line: Seq<char>)
    requires
        is_tight(line),
        !(line.len() >= 3 && line[0] == '`' && line[1] == '`' && line[2] == '`'),
        !(line[0] == '$' && (line.len() == 1 || line[1] == ' ')),
        (line[0] == '{' || line[0] == '}') ==> encode_utf8(line).len() > 3,
        forall|word: Seq<char>| #[trigger] opens_code(word) ==> !has_prefix(lowered(line), word),
    ensures
        !is_code_line(line),
{
    law_trim_whole(line);
    reveal_strlit("```");
    reveal_strlit("$ ");
    reveal_strlit("$");
    reveal_strlit("{");
    reveal_strlit("}");
    reveal_strlit("};");
    reveal_strlit("})");
    reveal_strlit("},");
    reveal_strlit("    ");
    if has_prefix(line, "```"@) {
        let p = line.subrange(0, 3);
        assert(p[0] == line[0] && p[1] == line[1] && p[2] == line[2]);
    }
    if has_prefix(line, "$ "@) {
        let p = line.subrange(0, 2);
        assert(p[0] == line[0] && p[1] == line[1]);
    }
    if has_prefix(line, "    "@) {
        assert(line.subrange(0, 4)[0] == line[0]);
    }
    if line[0] == '{' || line[0] == '}' {
        if line.len() <= 2 && (line == "{"@ || line == "}"@ || line == "};"@ || line == "})"@
            || line == "},"@) {
            vstd::utf8::is_ascii_chars_encode_utf8(line);
        }
    }
    if has_any_prefix(lowered(line), code_prefixes()) {
        let k = choose|k: int|
            0 <= k < code_prefixes().len() && has_prefix(
                lowered(line),
                #[trigger] code_prefixes()[k],
            );
        lemma_code_prefixes(code_prefixes()[k]);
        assert(code_prefixes().contains(code_prefixes()[k]));
        assert(opens_code(code_prefixes()[k]));
    }
}

/// A letter from A to Z, in either case.
pub open spec fn is_letter(c: char) -> bool {
    'a' <= c <= 'z' || 'A' <= c <= 'Z'
}

/// A line that begins with none of the marks of code and with no letter, such
/// as an item of a list or a number, is prose.
pub proof fn law_first_character_of_prose(line: Seq<char>)
    requires
        is_tight(line),
        line[0] != '`' && line[0] != '$' && line[0] != '{' && line[0] != '}' && line[0] != '#',
        !is_letter(line[0]),
    ensures
        !is_code_line(line),
{
    law_lowered(line, 0);
    assert forall|word: Seq<char>| #[trigger] opens_code(word) implies !has_prefix(
        lowered(line),
        word,
    ) by {
        lemma_word_begins(word);
        if has_prefix(lowered(line), word) {
            assert(lowered(line).subrange(0, word.len() as int)[0] == word[0]);
        }
    }
    law_other_lines_are_prose(line);
}

/// A word that opens code begins with a small letter or a hash.
proof fn lemma_word_begins(word: Seq<char>)
    requires
        opens_code(word),
    ensures
        word.len() > 0,
        'a' <= word[0] <= 'z' || word[0] == '#',
{
    reveal_strlit("import ");
    reveal_strlit("from ");
    reveal_strlit("const ");
    reveal_strlit("let ");
    reveal_strlit("var ");
    reveal_strlit("fn ");
    reveal_strlit("def ");
    reveal_strlit("class ");
    reveal_strlit("pub ");
    reveal_strlit("function ");
    reveal_strlit("package ");
    reveal_strlit("#include");
    reveal_strlit("use ");
    reveal_strlit("export ");
    reveal_strlit("return ");
    reveal_strlit("async ");
    reveal_strlit("await ");
    reveal_strlit("#!/");
}

/// A line that begins with a word that opens code is code, whatever the case
/// of its letters.
pub proof fn law_code_words_are_code(line: Seq<char>, word: Seq<char>)
    requires
        is_tight(line),
        opens_code(word),
        has_prefix(lowered(line), word),
    ensures
        is_code_line(line),
{
    law_trim_whole(line);
    lemma_code_prefixes(word);
    let k = choose|k: int| 0 <= k < code_prefixes().len() && code_prefixes()[k] == word;
    assert(has_prefix(lowered(line), code_prefixes()[k]));
}

/// Blank and indented lines, fences, prompts and a bracket or two are code.
pub proof fn law_marks_of_code_are_code(line: Seq<char>, rest: Seq<char>)
    ensures
        is_blank(line) ==> is_code_line(line),
        is_code_line("    "@ + rest),
        is_code_line(seq!['\t'] + rest),
        is_tight(seq!['`', '`', '`'] + rest) ==> is_code_line(seq!['`', '`', '`'] + rest),
        is_tight(seq!['$', ' '] + rest) ==> is_code_line(seq!['$', ' '] + rest),
        is_code_line(seq!['$']),
        is_tight(line) && (line[0] == '{' || line[0] == '}') && encode_utf8(line).len() <= 3
            ==> is_code_line(line),
{
    law_trim_whole(line);
    reveal_strlit("    ");
    reveal_strlit("```");
    reveal_strlit("$ ");
    reveal_strlit("$");
    law_parts_of_text(seq![], "    "@, rest, seq![]);
    let fenced = seq!['`', '`', '`'] + rest;
    law_trim_whole(fenced);
    assert("```"@ =~= seq!['`', '`', '`']);
    law_parts_of_text(seq![], "```"@, rest, seq![]);
    let prompt = seq!['$', ' '] + rest;
    law_trim_whole(prompt);
    assert("$ "@ =~= seq!['$', ' ']);
    law_parts_of_text(seq![], "$ "@, rest, seq![]);
    law_trim_whole(seq!['$']);
    assert("$"@ =~= seq!['$']);
}

/// Which lines are prose is decided line by line, and their order stays.
pub proof fn law_prose_goes_line_by_line(a: Seq<Seq<char>>, b: Seq<Seq<char>>)
    ensures
        prose_of(a + b) == prose_of(a) + prose_of(b),
    decreases b.len(),
{
    if b.len() == 0 {
        assert(a + b =~= a);
        assert(prose_of(a) + prose_of(b) =~= prose_of(a));
    } else {
        assert((a + b).drop_last() =~= a + b.drop_last());
        assert((a + b).last() == b.last());
        law_prose_goes_line_by_line(a, b.drop_last());
        assert(prose_of(a + b) =~= prose_of(a) + prose_of(b));
    }
}

/// Of one line, its text without the white space around it is shown, unless it
/// is blank or code.
pub proof fn law_prose_of_one_line(before: Seq<char>, line: Seq<char>, after: Seq<char>)
    requires
        is_blank(before),
        is_blank(after),
    ensures
        is_tight(line) && !is_code_line(line) ==> prose_of(seq![before + line + after]) == seq![
            line,
        ],
        is_tight(line) && is_code_line(line) ==> prose_of(seq![before + line + after]).len() == 0,
        prose_of(seq![before]).len() == 0,
{
    reveal_with_fuel(prose_of, 2);
    if is_tight(line) {
        law_trim(before, line, after);
        let lines = seq![before + line + after];
        assert(lines.drop_last() =~= Seq::<Seq<char>>::empty());
        if !is_code_line(line) {
            assert(prose_of(lines) =~= seq![line]);
        }
    }
    law_trim_whole(before);
    assert(seq![before].drop_last() =~= Seq::<Seq<char>>::empty());
}

/// Every line that is not code is among the lines of prose.
pub proof fn law_every_prose_line_is_listed(lines: Seq<Seq<char>>, i: int)
    requires
        0 <= i < lines.len(),
        !is_blank(lines[i]),
        !is_code_line(trimmed(lines[i])),
    ensures
        prose_of(lines).contains(trimmed(lines[i])),
    decreases lines.len(),
{
    law_trim_whole(lines[i]);
    let before = prose_of(lines.drop_last());
    if i == lines.len() - 1 {
        assert(prose_of(lines)[before.len() as int] == trimmed(lines[i]));
    } else {
        law_every_prose_line_is_listed(lines.drop_last(), i);
        let k = choose|k: int| 0 <= k < before.len() && before[k] == trimmed(lines[i]);
        assert(prose_of(lines)[k] == trimmed(lines[i]));
    }
}

/// A line is a fence exactly where three backticks stand behind the white space
/// that it begins with.
pub proof fn law_fence(indent: Seq<char>, rest: Seq<char>)
    requires
        is_blank(indent),
        rest.len() == 0 || !is_white_space(rest[0]),
    ensures
        is_fence(indent + rest) <==> rest.len() >= 3 && rest[0] == '`' && rest[1] == '`' && rest[2]
            == '`',
{
    law_trim_start(indent, rest);
    reveal_strlit("```");
    if rest.len() >= 3 {
        let p = rest.subrange(0, 3);
        assert(p[0] == rest[0] && p[1] == rest[1] && p[2] == rest[2]);
        if rest[0] == '`' && rest[1] == '`' && rest[2] == '`' {
            assert(p =~= "```"@);
        }
    }
}

/// Without a fence every line is kept.
pub proof fn law_text_without_fences_stays(lines: Seq<Seq<char>>)
    requires
        lines.len() > 0,
        lines[0].len() > 0,
        forall|i: int| 0 <= i < lines.len() ==> !is_fence(#[trigger] lines[i]),
    ensures
        !fence_is_open(lines),
        unfenced(lines) == joined(lines, "\n"@),
        unfenced(lines).len() > 0,
    decreases lines.len(),
{
    reveal_strlit("\n");
    assert("\n"@ =~= seq!['\n']);
    let rest = lines.drop_last();
    assert(!is_fence(lines[lines.len() - 1]));
    reveal_with_fuel(fence_is_open, 2);
    reveal_with_fuel(unfenced, 2);
    if lines.len() == 1 {
        assert(rest =~= Seq::<Seq<char>>::empty());
    } else {
        law_text_without_fences_stays(rest);
        assert(unfenced(lines) =~= unfenced(rest) + "\n"@ + lines.last());
    }
}

/// A fence that is never closed hides all that follows.
pub proof fn law_open_fence_hides_rest(
    before: Seq<Seq<char>>,
    open: Seq<char>,
    inside: Seq<Seq<char>>,
)
    requires
        !fence_is_open(before),
        is_fence(open),
        forall|i: int| 0 <= i < inside.len() ==> !is_fence(#[trigger] inside[i]),
    ensures
        unfenced(before.push(open) + inside) == unfenced(before),
    decreases inside.len(),
{
    law_fenced_block_leaves_no_trace(before, open, inside, open, seq![]);
    let block = before.push(open) + inside;
    assert(block.push(open) + Seq::<Seq<char>>::empty() =~= block.push(open));
    assert(before + Seq::<Seq<char>>::empty() =~= before);
    assert(block.push(open).drop_last() =~= block);
}

/// A text that was cut keeps its first characters and ends in three dots; a
/// short one keeps all of it.
pub proof fn law_cut_text(before: Seq<char>, kept: Seq<char>, after: Seq<char>, max: nat)
    requires
        is_blank(before),
        is_blank(after),
        is_tight(kept),
    ensures
        kept.len() <= max ==> cut_after(before + kept + after, max) == kept,
        kept.len() > max ==> cut_after(before + kept + after, max) == kept.take(max as int) + seq![
            '.',
            '.',
            '.',
        ],
{
    law_trim(before, kept, after);
    reveal_strlit("...");
    assert("..."@ =~= seq!['.', '.', '.']);
}

/// No line has a character of markup.
pub open spec fn are_plain(lines: Seq<Seq<char>>) -> bool {
    forall|i: int, j: int|
        0 <= i < lines.len() && 0 <= j < lines[i].len() ==> !is_markup_char(#[trigger] lines[i][j])
}

/// Joined lines hold the characters of the lines and line feeds.
proof fn lemma_joined_plain(lines: Seq<Seq<char>>)
    requires
        are_plain(lines),
    ensures
        forall|j: int|
            0 <= j < joined(lines, "\n"@).len() ==> !is_markup_char(
                #[trigger] joined(lines, "\n"@)[j],
            ),
    decreases lines.len(),
{
    reveal_strlit("\n");
    if lines.len() > 1 {
        let rest = lines.drop_last();
        assert forall|i: int, j: int| 0 <= i < rest.len() && 0 <= j < rest[i].len() implies
            !is_markup_char(#[trigger] rest[i][j]) by {
            assert(rest[i] == lines[i]);
            assert(!is_markup_char(lines[i][j]));
        }
        lemma_joined_plain(rest);
        let whole = joined(lines, "\n"@);
        let head = joined(rest, "\n"@);
        assert forall|j: int| 0 <= j < whole.len() implies !is_markup_char(#[trigger] whole[j]) by {
            if j < head.len() {
                assert(whole[j] == head[j]);
            } else if j > head.len() {
                assert(whole[j] == lines[lines.len() - 1][j - head.len() - 1]);
            }
        }
    }
}

/// A line without backticks is no fence.
proof fn lemma_plain_is_no_fence(line: Seq<char>)
    requires
        forall|j: int| 0 <= j < line.len() ==> !is_markup_char(#[trigger] line[j]),
    ensures
        !is_fence(line),
{
    lemma_trimmed_start(line);
    reveal_strlit("```");
    let t = trimmed_start(line);
    if has_prefix(t, "```"@) {
        assert(t.subrange(0, 3)[0] == t[0]);
        assert(t[0] == line[line.len() - t.len()]);
    }
}

/// The lines of prose of a text without markup are those of its lines.
pub proof fn law_prose_of_plain_text(lines: Seq<Seq<char>>)
    requires
        are_lines(lines),
        are_plain(lines),
        lines[0].len() > 0,
    ensures
        prose_lines(joined(lines, "\n"@)) == prose_of(lines),
{
    let text = joined(lines, "\n"@);
    law_joined_lines_read_back(lines);
    assert forall|i: int| 0 <= i < lines.len() implies !is_fence(#[trigger] lines[i]) by {
        assert forall|j: int| 0 <= j < lines[i].len() implies !is_markup_char(
            #[trigger] lines[i][j],
        ) by {}
        lemma_plain_is_no_fence(lines[i]);
    }
    law_text_without_fences_stays(lines);
    lemma_joined_plain(lines);
    law_plain_text_stays(text);
}

/// What is shown of a line: at most a hundred characters, and three dots where
/// it has more.
pub open spec fn shown(line: Seq<char>) -> Seq<char> {
    if line.len() <= 100 {
        line
    } else {
        line.take(100) + seq!['.', '.', '.']
    }
}

/// Nothing but blank lines and code.
pub open spec fn has_no_prose(lines: Seq<Seq<char>>) -> bool {
    forall|i: int|
        0 <= i < lines.len() ==> is_blank(#[trigger] lines[i]) || is_code_line(trimmed(lines[i]))
}

proof fn lemma_no_prose(lines: Seq<Seq<char>>)
    requires
        has_no_prose(lines),
    ensures
        prose_of(lines).len() == 0,
    decreases lines.len(),
{
    if lines.len() > 0 {
        assert(is_blank(lines[lines.len() - 1]) || is_code_line(trimmed(lines[lines.len() - 1])));
        law_trim_whole(lines.last());
        assert forall|i: int| 0 <= i < lines.drop_last().len() implies is_blank(
            #[trigger] lines.drop_last()[i],
        ) || is_code_line(trimmed(lines.drop_last()[i])) by {
            assert(lines.drop_last()[i] == lines[i]);
        }
        lemma_no_prose(lines.drop_last());
    }
}

/// One line of prose between lines that are none.
proof fn lemma_ends_of_prose(
    before: Seq<Seq<char>>,
    first: Seq<char>,
    middle: Seq<Seq<char>>,
    last: Seq<char>,
    after: Seq<Seq<char>>,
)
    requires
        has_no_prose(before),
        has_no_prose(after),
        is_tight(first) && !is_code_line(first),
        is_tight(last) && !is_code_line(last),
    ensures
        prose_of(before + seq![first] + middle + seq![last] + after) == seq![first] + prose_of(
            middle,
        ) + seq![last],
        prose_of(before + seq![first] + after) == seq![first],
{
    lemma_no_prose(before);
    lemma_no_prose(after);
    law_prose_of_one_line(seq![], first, seq![]);
    law_prose_of_one_line(seq![], last, seq![]);
    assert(Seq::<char>::empty() + first + Seq::<char>::empty() =~= first);
    assert(Seq::<char>::empty() + last + Seq::<char>::empty() =~= last);
    law_prose_goes_line_by_line(before, seq![first]);
    law_prose_goes_line_by_line(before + seq![first], after);
    law_prose_goes_line_by_line(before + seq![first], middle);
    law_prose_goes_line_by_line(before + seq![first] + middle, seq![last]);
    law_prose_goes_line_by_line(before + seq![first] + middle + seq![last], after);
    assert(prose_of(before + seq![first] + middle + seq![last] + after) =~= seq![first]
        + prose_of(middle) + seq![last]);
    assert(prose_of(before + seq![first] + after) =~= seq![first]);
}

/// The preview of a text without markup is its first and its last line of
/// prose, with a line of three dots between them, each cut to a hundred
/// characters.
pub proof fn law_preview_shows_first_and_last(
    before: Seq<Seq<char>>,
    first: Seq<char>,
    middle: Seq<Seq<char>>,
    last: Seq<char>,
    after: Seq<Seq<char>>,
)
    requires
        ({
            let lines = before + seq![first] + middle + seq![last] + after;
            are_lines(lines) && are_plain(lines) && lines[0].len() > 0
        }),
        has_no_prose(before),
        has_no_prose(after),
        is_tight(first) && !is_code_line(first),
        is_tight(last) && !is_code_line(last),
    ensures
        prose_preview(joined(before + seq![first] + middle + seq![last] + after, "\n"@)) == Some(
            if first == last {
                shown(first)
            } else {
                shown(first) + seq!['\n', '.', '.', '.', '\n'] + shown(last)
            },
        ),
{
    let lines = before + seq![first] + middle + seq![last] + after;
    law_prose_of_plain_text(lines);
    lemma_ends_of_prose(before, first, middle, last, after);
    let prose = prose_of(lines);
    assert(prose.first() == first);
    assert(prose.last() == last);
    law_cut_text(seq![], first, seq![], 100);
    law_cut_text(seq![], last, seq![], 100);
    assert(Seq::<char>::empty() + first + Seq::<char>::empty() =~= first);
    assert(Seq::<char>::empty() + last + Seq::<char>::empty() =~= last);
    reveal_strlit("\n...\n");
    assert("\n...\n"@ =~= seq!['\n', '.', '.', '.', '\n']);
}

/// One line of prose is the whole preview, and without any there is none.
pub proof fn law_preview_of_one_line(
    before: Seq<Seq<char>>,
    only: Seq<char>,
    after: Seq<Seq<char>>,
    lines: Seq<Seq<char>>,
)
    requires
        ({
            let all = before + seq![only] + after;
            are_lines(all) && are_plain(all) && all[0].len() > 0
        }),
        has_no_prose(before),
        has_no_prose(after),
        is_tight(only) && !is_code_line(only),
        are_lines(lines) && are_plain(lines) && lines[0].len() > 0,
        has_no_prose(lines),
    ensures
        prose_preview(joined(before + seq![only] + after, "\n"@)) == Some(shown(only)),
        prose_preview(joined(lines, "\n"@)) is None,
        prose_preview(seq![]) is None,
{
    law_prose_of_plain_text(before + seq![only] + after);
    lemma_ends_of_prose(before, only, seq![], only, after);
    law_cut_text(seq![], only, seq![], 100);
    assert(Seq::<char>::empty() + only + Seq::<char>::empty() =~= only);
    law_prose_of_plain_text(lines);
    lemma_no_prose(lines);
    assert(text_lines(seq![]) =~= seq![]);
    assert(unfenced(seq![]) =~= seq![]);
    law_plain_text_stays(seq![]);
    assert(stripped(seq![]) =~= seq![]);
}

/// White space around a line makes no difference to whether it is code, unless
/// it indents the line by four spaces or a tab.
pub proof fn law_white_space_around_line(before: Seq<char>, line: Seq<char>, after: Seq<char>)
    requires
        is_blank(before) && is_blank(after),
        is_tight(line),
        !has_prefix(before + line + after, "    "@),
        before.len() > 0 ==> before[0] != '\t',
    ensures
        is_code_line(before + line + after) == is_code_line(line),
{
    let whole = before + line + after;
    law_trim(before, line, after);
    law_trim_whole(line);
    reveal_strlit("    ");
    if has_prefix(line, "    "@) {
        assert(line.subrange(0, 4)[0] == line[0]);
    }
    if before.len() > 0 {
        assert(whole[0] == before[0]);
    } else {
        assert(whole[0] == line[0]);
    }
}

/// The preview of any text: fenced blocks go first, markup goes next, and of
/// the lines of prose that are left the first and the last are shown.
pub proof fn law_preview_in_full(text: Seq<char>, prose: Seq<Seq<char>>)
    requires
        prose == prose_of(text_lines(stripped(unfenced(text_lines(text))))),
    ensures
        prose.len() == 0 ==> prose_preview(text) is None,
        prose.len() > 0 ==> prose_preview(text) == Some(
            if prose[0] == prose[prose.len() - 1] {
                shown(prose[0])
            } else {
                shown(prose[0]) + seq!['\n', '.', '.', '.', '\n'] + shown(prose[prose.len() - 1])
            },
        ),
{
    let lines = text_lines(stripped(unfenced(text_lines(text))));
    law_prose_is_prose(lines);
    if prose.len() > 0 {
        lemma_shown(prose[0]);
        lemma_shown(prose[prose.len() - 1]);
        reveal_strlit("\n...\n");
        assert("\n...\n"@ =~= seq!['\n', '.', '.', '.', '\n']);
    }
}

proof fn lemma_shown(line: Seq<char>)
    requires
        line.len() > 0 && trimmed(line) == line,
    ensures
        cut_after(line, 100) == shown(line),
{
    reveal_strlit("...");
    assert("..."@ =~= seq!['.', '.', '.']);
}

/// Two texts that leave the same outside of their fenced blocks have the same
/// preview.
pub proof fn law_fenced_code_is_never_shown(a: Seq<char>, b: Seq<char>)
    requires
        unfenced(text_lines(a)) == unfenced(text_lines(b)),
    ensures
        prose_preview(a) == prose_preview(b),
{
}

} // verus!
