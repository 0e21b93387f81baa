//! A short preview of the latest answer of an agent.

use vstd::prelude::*;
use vstd::string::StringExecFns;

use crate::live_session::{is_plausible_session_id, is_session_id};
use crate::markdown::{strip_inline_markdown, stripped};
use crate::text::{
    eq_ignore_ascii_case, filled, from_chars, has_prefix, law_trimmed, lines, lowered, same_text,
    starts_with, text_lines, to_ascii_lowercase, to_chars, trim, trim_start, trimmed,
    trimmed_start,
};
use crate::transcript::{preview_from_transcript, transcript_preview, TranscriptEntry};

verus! {

/// How many characters each side of a preview keeps.
pub const PREVIEW_SIDE_MAX_CHARS: usize = 100;

/// What stands between the two sides of a preview.
pub const PREVIEW_SEPARATOR: &'static str = "\n...\n";

/// The preview of an answer that leaves nothing to show.
pub const EMPTY_ANSWER_PREVIEW: &'static str = "(empty)";

/// `value` without white space around it, cut after `max_chars` characters
/// where it is longer; three dots then stand for the rest.
pub open spec fn cut_after(value: Seq<char>, max_chars: nat) -> Seq<char> {
    if trimmed(value).len() <= max_chars {
        trimmed(value)
    } else {
        trimmed(value).take(max_chars as int) + "..."@
    }
}

/// `value` without white space around it, cut after `max_chars` characters.
pub fn truncate_chars(value: &str, max_chars: usize) -> (r: String)
    ensures
        r@ == cut_after(value@, max_chars as nat),
{
    let value = trim(value);
    let chars = to_chars(value);
    if chars.len() <= max_chars {
        return value.to_owned();
    }
    let mut output = from_chars(&chars, 0, max_chars);
    assert(output@ =~= value@.take(max_chars as int));
    output.append("...");
    output
}

/// How lines of code begin, in small letters.
pub open spec fn code_prefixes() -> Seq<Seq<char>> {
    seq![
        "import "@,
        "from "@,
        "const "@,
        "let "@,
        "var "@,
        "fn "@,
        "def "@,
        "class "@,
        "pub "@,
        "function "@,
        "package "@,
        "#include"@,
        "use "@,
        "export "@,
        "return "@,
        "async "@,
        "await "@,
        "#!/"@,
    ]
}

/// `s` begins with one of `prefixes`.
pub open spec fn has_any_prefix(s: Seq<char>, prefixes: Seq<Seq<char>>) -> bool {
    exists|k: int| 0 <= k < prefixes.len() && has_prefix(s, #[trigger] prefixes[k])
}

/// A trimmed line that is no more than brackets.
pub open spec fn is_bracket_line(t: Seq<char>) -> bool {
    ||| t == "{"@
    ||| t == "}"@
    ||| t == "};"@
    ||| t == "})"@
    ||| t == "},"@
    ||| t.len() > 0 && (t[0] == '{' || t[0] == '}') && vstd::utf8::encode_utf8(t).len() <= 3
}

/// The line looks like code and not like prose: it is blank, opens or closes a
/// fence, is a shell prompt or a few brackets, is indented, or begins as a
/// line of code does.
pub open spec fn is_code_line(line: Seq<char>) -> bool {
    let t = trimmed(line);
    ||| t.len() == 0
    ||| has_prefix(t, "```"@)
    ||| has_prefix(t, "$ "@)
    ||| t == "$"@
    ||| is_bracket_line(t)
    ||| has_prefix(line, "    "@)
    ||| line.len() > 0 && line[0] == '\t'
    ||| has_any_prefix(lowered(t), code_prefixes())
}

/// Does `s` begin with one of `prefixes`?
fn starts_with_any(s: &str, prefixes: &[&str]) -> (r: bool)
    ensures
        r == has_any_prefix(s@, prefixes.deep_view()),
{
    let ghost all = prefixes.deep_view();
    let mut k: usize = 0;
    while k < prefixes.len()
        invariant
            k <= prefixes@.len(),
            all == prefixes.deep_view(),
            forall|j: int| 0 <= j < k ==> !has_prefix(s@, #[trigger] all[j]),
        decreases prefixes@.len() - k,
    {
        if starts_with(s, prefixes[k]) {
            assert(has_prefix(s@, all[k as int]));
            return true;
        }
        k = k + 1;
    }
    false
}

/// Does the line look like code and not like prose?
pub fn looks_like_code_line(line: &str) -> (r: bool)
    ensures
        r == is_code_line(line@),
{
    let t = trim(line);
    if t.is_empty() {
        return true;
    }
    if starts_with(t, "```") {
        return true;
    }
    if starts_with(t, "$ ") || same_text(t, "$") {
        return true;
    }
    if same_text(t, "{") || same_text(t, "}") || same_text(t, "};") || same_text(t, "})")
        || same_text(t, "},") {
        return true;
    }
    let chars = to_chars(t);
    if (chars[0] == '{' || chars[0] == '}') && t.as_bytes().len() <= 3 {
        return true;
    }
    let line_chars = to_chars(line);
    if starts_with(line, "    ") || (line_chars.len() > 0 && line_chars[0] == '\t') {
        return true;
    }
    let lower = to_ascii_lowercase(t);
    let prefixes: [&str; 18] = [
        "import ",
        "from ",
        "const ",
        "let ",
        "var ",
        "fn ",
        "def ",
        "class ",
        "pub ",
        "function ",
        "package ",
        "#include",
        "use ",
        "export ",
        "return ",
        "async ",
        "await ",
        "#!/",
    ];
    assert(prefixes.deep_view() =~= code_prefixes());
    starts_with_any(lower.as_str(), &prefixes)
}

/// A line that opens or closes a fenced block of code.
pub open spec fn is_fence(line: Seq<char>) -> bool {
    has_prefix(trimmed_start(line), "```"@)
}

/// After `lines`, a fenced block is open.
pub open spec fn fence_is_open(lines: Seq<Seq<char>>) -> bool
    decreases lines.len(),
{
    if lines.len() == 0 {
        false
    } else if is_fence(lines.last()) {
        !fence_is_open(lines.drop_last())
    } else {
        fence_is_open(lines.drop_last())
    }
}

/// The lines that stand outside of fenced blocks, with the fences gone too.
/// A line feed follows a line only where something was kept before the next.
pub open spec fn unfenced(lines: Seq<Seq<char>>) -> Seq<char>
    decreases lines.len(),
{
    if lines.len() == 0 {
        seq![]
    } else {
        let before = unfenced(lines.drop_last());
        if is_fence(lines.last()) || fence_is_open(lines.drop_last()) {
            before
        } else if before.len() == 0 {
            lines.last()
        } else {
            before.push('\n') + lines.last()
        }
    }
}

/// `text` without its fenced blocks of code.
pub fn strip_fenced_code(text: &str) -> (r: String)
    ensures
        r@ == unfenced(text_lines(text@)),
{
    let mut output = String::new();
    let mut in_fence = false;
    let all = lines(text);
    let ghost seen = all.deep_view();
    let mut i: usize = 0;
    assert(output@ =~= unfenced(seen.take(0)));
    while i < all.len()
        invariant
            i <= all@.len(),
            seen == all.deep_view(),
            in_fence == fence_is_open(seen.take(i as int)),
            output@ == unfenced(seen.take(i as int)),
        decreases all@.len() - i,
    {
        let line = &all[i];
        assert(seen.take(i + 1).drop_last() =~= seen.take(i as int));
        assert(seen.take(i + 1).last() == line@);
        i = i + 1;
        if starts_with(trim_start(line.as_str()), "```") {
            in_fence = !in_fence;
            continue;
        }
        if in_fence {
            continue;
        }
        if !output.as_str().is_empty() {
            output.push('\n');
        }
        output.append(line.as_str());
        assert(output@ =~= unfenced(seen.take(i as int)));
    }
    assert(seen.take(i as int) =~= seen);
    output
}

/// The lines that are prose, without the white space around them.
pub open spec fn prose_of(lines: Seq<Seq<char>>) -> Seq<Seq<char>>
    decreases lines.len(),
{
    if lines.len() == 0 {
        seq![]
    } else {
        let before = prose_of(lines.drop_last());
        let t = trimmed(lines.last());
        if t.len() == 0 || is_code_line(t) {
            before
        } else {
            before.push(t)
        }
    }
}

/// The lines of prose in a text: fenced blocks and inline markup are gone, and
/// so are the lines that still look like code.
pub open spec fn prose_lines(text: Seq<char>) -> Seq<Seq<char>> {
    prose_of(text_lines(stripped(unfenced(text_lines(text)))))
}

/// The preview of a text: its first and its last line of prose, each cut, or
/// the one line where both are the same; nothing where there is no prose.
pub open spec fn prose_preview(text: Seq<char>) -> Option<Seq<char>> {
    let prose = prose_lines(text);
    if prose.len() == 0 {
        None
    } else if prose.first() == prose.last() {
        Some(cut_after(prose.first(), PREVIEW_SIDE_MAX_CHARS as nat))
    } else {
        Some(
            cut_after(prose.first(), PREVIEW_SIDE_MAX_CHARS as nat) + PREVIEW_SEPARATOR@
                + cut_after(prose.last(), PREVIEW_SIDE_MAX_CHARS as nat),
        )
    }
}

/// The lines of prose among `all`.
fn keep_prose(all: &Vec<String>) -> (r: Vec<String>)
    ensures
        r.deep_view() == prose_of(all.deep_view()),
{
    let mut r: Vec<String> = Vec::new();
    let ghost seen = all.deep_view();
    let mut i: usize = 0;
    assert(r.deep_view() =~= prose_of(seen.take(0)));
    while i < all.len()
        invariant
            i <= all@.len(),
            seen == all.deep_view(),
            r.deep_view() == prose_of(seen.take(i as int)),
        decreases all@.len() - i,
    {
        let ghost before = r.deep_view();
        let line = trim(all[i].as_str());
        assert(seen.take(i + 1).drop_last() =~= seen.take(i as int));
        assert(seen.take(i + 1).last() == all@[i as int]@);
        if !line.is_empty() && !looks_like_code_line(line) {
            r.push(line.to_owned());
            assert(r.deep_view() =~= before.push(line@));
        }
        i = i + 1;
    }
    assert(seen.take(i as int) =~= seen);
    r
}

/// The preview of a text.
pub fn prose_preview_from_text(text: &str) -> (r: Option<String>)
    ensures
        r.deep_view() == prose_preview(text@),
{
    let without_fences = strip_fenced_code(text);
    let cleaned = strip_inline_markdown(without_fences.as_str());
    let prose = keep_prose(&lines(cleaned.as_str()));
    let n: usize = prose.len();
    assert(prose.deep_view().len() == n);
    if n == 0 {
        return None;
    }
    let first = &prose[0];
    let last = &prose[n - 1];
    assert(first@ == prose.deep_view().first());
    assert(last@ == prose.deep_view().last());
    let mut preview = truncate_chars(first.as_str(), PREVIEW_SIDE_MAX_CHARS);
    if !same_text(first.as_str(), last.as_str()) {
        preview.append(PREVIEW_SEPARATOR);
        preview.append(truncate_chars(last.as_str(), PREVIEW_SIDE_MAX_CHARS).as_str());
    }
    Some(preview)
}

/// The agent is the one whose transcripts can be read; case and white space
/// around its name do not matter.
pub open spec fn is_cursor(agent: Option<Seq<char>>) -> bool {
    match agent {
        Some(name) => lowered(trimmed(name)) == lowered("cursor"@),
        None => false,
    }
}

/// The session whose transcript to read: the one that the agent has open, or
/// else the reported one where it can be one.
pub open spec fn chosen_session(
    live_session_id: Option<Seq<char>>,
    herdr_session_id: Option<Seq<char>>,
) -> Option<Seq<char>> {
    match live_session_id {
        Some(id) => Some(id),
        None => match herdr_session_id {
            Some(id) => if is_session_id(trimmed(id)) {
                Some(trimmed(id))
            } else {
                None
            },
            None => None,
        },
    }
}

/// The session whose transcript to read.
pub fn choose_session(live_session_id: Option<String>, herdr_session_id: Option<&str>) -> (r:
    Option<String>)
    ensures
        r.deep_view() == chosen_session(live_session_id.deep_view(), herdr_session_id.deep_view()),
{
    match live_session_id {
        Some(id) => Some(id),
        None => match herdr_session_id {
            Some(id) => {
                let id = trim(id);
                if is_plausible_session_id(id) {
                    Some(id.to_owned())
                } else {
                    None
                }
            },
            None => None,
        },
    }
}

/// What happened last in the search for a preview.
pub enum PreviewEvent {
    /// Nothing yet.
    Begin,
    /// The search for the session that the agent has open ended with this.
    LiveSession(Option<String>),
    /// The transcript was read, or could not be found or read.
    Transcript(Option<Vec<TranscriptEntry>>),
}

/// What to do next in the search for a preview.
pub enum PreviewStep<T> {
    /// Find out which session the agent has open.
    ResolveLiveSession,
    /// Read the transcript of this session.
    ReadTranscript(T),
    /// The search is over, with this preview.
    Finish(Option<T>),
}

impl PreviewStep<String> {
    /// The step with the texts that it holds.
    pub open spec fn view(self) -> PreviewStep<Seq<char>> {
        match self {
            PreviewStep::ResolveLiveSession => PreviewStep::ResolveLiveSession,
            PreviewStep::ReadTranscript(id) => PreviewStep::ReadTranscript(id@),
            PreviewStep::Finish(preview) => PreviewStep::Finish(preview.deep_view()),
        }
    }
}

/// The step that follows `event`.
pub open spec fn preview_step(
    agent: Option<Seq<char>>,
    herdr_session_id: Option<Seq<char>>,
    event: PreviewEvent,
) -> PreviewStep<Seq<char>> {
    if !is_cursor(agent) {
        PreviewStep::Finish(None)
    } else {
        match event {
            PreviewEvent::Begin => PreviewStep::ResolveLiveSession,
            PreviewEvent::LiveSession(live) => match chosen_session(
                live.deep_view(),
                herdr_session_id,
            ) {
                Some(id) => PreviewStep::ReadTranscript(id),
                None => PreviewStep::Finish(None),
            },
            PreviewEvent::Transcript(Some(entries)) => PreviewStep::Finish(
                transcript_preview(entries@),
            ),
            PreviewEvent::Transcript(None) => PreviewStep::Finish(None),
        }
    }
}

/// A preview of the latest answer of an agent, step by step. Only the
/// transcripts of one agent can be read. The session that the agent has open
/// counts before the reported one, which can be out of date. The preview is
/// that of the latest turn in the transcript.
pub fn latest_answer_preview(
    agent: Option<&str>,
    herdr_session_id: Option<&str>,
    event: PreviewEvent,
) -> (r: PreviewStep<String>)
    ensures
        r@ == preview_step(agent.deep_view(), herdr_session_id.deep_view(), event),
{
    match agent {
        Some(name) => {
            if !eq_ignore_ascii_case(trim(name), "cursor") {
                return PreviewStep::Finish(None);
            }
        },
        None => {
            return PreviewStep::Finish(None);
        },
    }
    match event {
        PreviewEvent::Begin => PreviewStep::ResolveLiveSession,
        PreviewEvent::LiveSession(live) => match choose_session(live, herdr_session_id) {
            Some(id) => PreviewStep::ReadTranscript(id),
            None => PreviewStep::Finish(None),
        },
        PreviewEvent::Transcript(Some(entries)) => PreviewStep::Finish(
            preview_from_transcript(entries.as_slice()),
        ),
        PreviewEvent::Transcript(None) => PreviewStep::Finish(None),
    }
}

/// What is left of a text after a cut has at most three characters more than
/// were asked for, and only where something was cut off.
pub proof fn law_cut_after(value: Seq<char>, max_chars: nat)
    ensures
        cut_after(value, max_chars).len() <= max_chars + 3,
        trimmed(value).len() <= max_chars ==> cut_after(value, max_chars) == trimmed(value),
        trimmed(value).len() > max_chars ==> {
            &&& cut_after(value, max_chars).len() == max_chars + 3
            &&& has_prefix(cut_after(value, max_chars), trimmed(value).take(max_chars as int))
        },
{
    reveal_strlit("...");
    let t = trimmed(value);
    if t.len() > max_chars {
        let whole = cut_after(value, max_chars);
        assert(whole.subrange(0, max_chars as int) =~= t.take(max_chars as int));
    }
}

/// The lines of prose are trimmed, not blank, and do not look like code.
pub proof fn law_prose_is_prose(lines: Seq<Seq<char>>)
    ensures
        forall|i: int|
            0 <= i < prose_of(lines).len() ==> {
                let line = #[trigger] prose_of(lines)[i];
                line.len() > 0 && trimmed(line) == line && !is_code_line(line)
            },
    decreases lines.len(),
{
    if lines.len() > 0 {
        let before = prose_of(lines.drop_last());
        law_prose_is_prose(lines.drop_last());
        law_trimmed(lines.last());
        assert forall|i: int| 0 <= i < prose_of(lines).len() implies {
            let line = #[trigger] prose_of(lines)[i];
            line.len() > 0 && trimmed(line) == line && !is_code_line(line)
        } by {
            if i < before.len() {
                assert(prose_of(lines)[i] == before[i]);
            }
        }
    }
}

/// A preview is never empty, and no longer than two cut sides with the
/// separator between them.
pub proof fn law_preview_length(text: Seq<char>)
    ensures
        prose_preview(text) matches Some(preview) ==> 0 < preview.len() <= 2 * (
        PREVIEW_SIDE_MAX_CHARS + 3) + PREVIEW_SEPARATOR@.len(),
{
    let prose = prose_lines(text);
    law_prose_is_prose(text_lines(stripped(unfenced(text_lines(text)))));
    if prose.len() > 0 {
        assert(prose.first() == prose[0]);
        assert(prose.last() == prose[prose.len() - 1]);
        law_cut_after(prose.first(), PREVIEW_SIDE_MAX_CHARS as nat);
        law_cut_after(prose.last(), PREVIEW_SIDE_MAX_CHARS as nat);
    }
}

/// The whole way to a preview: for another agent there is none at once; else
/// the session that the agent has open counts before the reported one, its
/// transcript is read, and the preview is that of the transcript.
pub proof fn law_preview_steps(
    agent: Option<Seq<char>>,
    herdr_session_id: Option<Seq<char>>,
    live: Option<String>,
    entries: Vec<TranscriptEntry>,
)
    ensures
        !is_cursor(agent) ==> preview_step(agent, herdr_session_id, PreviewEvent::Begin)
            == PreviewStep::<Seq<char>>::Finish(None),
        is_cursor(agent) ==> {
            &&& preview_step(agent, herdr_session_id, PreviewEvent::Begin) == PreviewStep::<
                Seq<char>,
            >::ResolveLiveSession
            &&& live matches Some(id) ==> preview_step(
                agent,
                herdr_session_id,
                PreviewEvent::LiveSession(live),
            ) == PreviewStep::ReadTranscript(id@)
            &&& live is None ==> (preview_step(
                agent,
                herdr_session_id,
                PreviewEvent::LiveSession(live),
            ) matches PreviewStep::ReadTranscript(id) ==> is_session_id(id) && filled(
                herdr_session_id,
            ) == Some(id))
            &&& preview_step(agent, herdr_session_id, PreviewEvent::Transcript(Some(entries)))
                == PreviewStep::Finish(transcript_preview(entries@))
        },
{
}

/// Lines without a fence, behind a fence that opens a block, all belong to it.
proof fn lemma_inside_fence(before: Seq<Seq<char>>, open: Seq<char>, inside: Seq<Seq<char>>)
    requires
        !fence_is_open(before),
        is_fence(open),
        forall|i: int| 0 <= i < inside.len() ==> !is_fence(#[trigger] inside[i]),
    ensures
        fence_is_open(before.push(open) + inside),
        unfenced(before.push(open) + inside) == unfenced(before),
    decreases inside.len(),
{
    let all = before.push(open) + inside;
    if inside.len() == 0 {
        assert(all =~= before.push(open));
        assert(before.push(open).drop_last() =~= before);
    } else {
        assert(all.drop_last() =~= before.push(open) + inside.drop_last());
        assert(all.last() == inside[inside.len() - 1]);
        lemma_inside_fence(before, open, inside.drop_last());
    }
}

/// What follows is treated alike behind two beginnings that leave the same text
/// and the same state of the fence.
proof fn lemma_same_rest(a: Seq<Seq<char>>, b: Seq<Seq<char>>, rest: Seq<Seq<char>>)
    requires
        fence_is_open(a) == fence_is_open(b),
        unfenced(a) == unfenced(b),
    ensures
        fence_is_open(a + rest) == fence_is_open(b + rest),
        unfenced(a + rest) == unfenced(b + rest),
    decreases rest.len(),
{
    if rest.len() == 0 {
        assert(a + rest =~= a);
        assert(b + rest =~= b);
    } else {
        assert((a + rest).drop_last() =~= a + rest.drop_last());
        assert((b + rest).drop_last() =~= b + rest.drop_last());
        lemma_same_rest(a, b, rest.drop_last());
    }
}

/// A fenced block leaves no trace: without it, the same text is left.
pub proof fn law_fenced_block_leaves_no_trace(
    before: Seq<Seq<char>>,
    open: Seq<char>,
    inside: Seq<Seq<char>>,
    close: Seq<char>,
    after: Seq<Seq<char>>,
)
    requires
        !fence_is_open(before),
        is_fence(open),
        is_fence(close),
        forall|i: int| 0 <= i < inside.len() ==> !is_fence(#[trigger] inside[i]),
    ensures
        unfenced((before.push(open) + inside).push(close) + after) == unfenced(before + after),
{
    let block = before.push(open) + inside;
    lemma_inside_fence(before, open, inside);
    assert(block.push(close).drop_last() =~= block);
    lemma_same_rest(block.push(close), before, after);
}

} // verus!
