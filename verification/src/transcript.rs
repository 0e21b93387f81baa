//! The transcript of an agent session, and the preview of its latest answer.

use vstd::prelude::*;
use vstd::string::StringExecFns;

use crate::answer_preview::{
    law_preview_length, prose_preview, prose_preview_from_text, EMPTY_ANSWER_PREVIEW,
};
use crate::paths::{join_path, path_joined};
use crate::text::{
    eq_ignore_ascii_case, join, joined, lines, lowered, same_text, text_lines, text_of, trim,
    trimmed,
};

verus! {

/// One line of a transcript.
#[derive(Debug)]
pub struct TranscriptEntry {
    pub role: Option<String>,
    pub message: Option<TranscriptMessage>,
}

/// What was said in one turn.
#[derive(Debug)]
pub struct TranscriptMessage {
    pub content: Option<TranscriptContent>,
}

/// The content of a message: several parts, or one text.
#[derive(Debug)]
pub enum TranscriptContent {
    Parts(Vec<TranscriptPart>),
    Text(String),
}

/// One part of a message: some text, or the use of a tool.
#[derive(Debug)]
pub struct TranscriptPart {
    pub kind: Option<String>,
    pub text: Option<String>,
    pub name: Option<String>,
    pub input: Option<ToolInput>,
}

/// The input of a tool, read as the input of each tool that is known here;
/// `None` where it does not have the shape that the tool expects.
#[derive(Debug)]
pub struct ToolInput {
    pub ask_question: Option<AskQuestionInput>,
    pub create_plan: Option<CreatePlanInput>,
}

/// The input of the tool that asks the user.
#[derive(Debug)]
pub struct AskQuestionInput {
    pub title: Option<String>,
    pub questions: Option<Vec<AskQuestionItem>>,
}

/// One question to the user.
#[derive(Debug)]
pub struct AskQuestionItem {
    pub prompt: Option<String>,
}

/// The input of the tool that proposes a plan.
#[derive(Debug)]
pub struct CreatePlanInput {
    pub name: Option<String>,
    pub overview: Option<String>,
}

/// The optional text is there and reads `expected`.
pub open spec fn reads(value: Option<String>, expected: Seq<char>) -> bool {
    value.deep_view() == Some(expected)
}

/// Is the optional text there, and does it read `expected`?
fn text_is(value: &Option<String>, expected: &str) -> (r: bool)
    ensures
        r == reads(*value, expected@),
{
    match value {
        Some(text) => same_text(text.as_str(), expected),
        None => false,
    }
}

/// The first of `lines` that is not blank, without white space around it.
pub open spec fn first_filled(lines: Seq<Seq<char>>) -> Option<Seq<char>>
    decreases lines.len(),
{
    if lines.len() == 0 {
        None
    } else if trimmed(lines[0]).len() > 0 {
        Some(trimmed(lines[0]))
    } else {
        first_filled(lines.drop_first())
    }
}

/// The first line of an optional text that is not blank.
pub open spec fn headline(value: Option<Seq<char>>) -> Option<Seq<char>> {
    match value {
        Some(text) => first_filled(text_lines(text)),
        None => None,
    }
}

/// The first line of `value` that is not blank, without white space around it.
pub fn first_non_empty_line(value: Option<&str>) -> (r: Option<String>)
    ensures
        r.deep_view() == headline(value.deep_view()),
{
    let all = match value {
        Some(text) => lines(text),
        None => {
            return None;
        },
    };
    let ghost seen = all.deep_view();
    let mut i: usize = 0;
    assert(seen.skip(0) =~= seen);
    while i < all.len()
        invariant
            i <= all@.len(),
            seen == all.deep_view(),
            headline(value.deep_view()) == first_filled(seen.skip(i as int)),
        decreases all@.len() - i,
    {
        let line = trim(all[i].as_str());
        if !line.is_empty() {
            return Some(line.to_owned());
        }
        assert(seen.skip(i as int).drop_first() =~= seen.skip(i + 1));
        i = i + 1;
    }
    None
}

/// `lines` followed by `line`, unless there is none or it repeats the last.
pub open spec fn with_line(lines: Seq<Seq<char>>, line: Option<Seq<char>>) -> Seq<Seq<char>> {
    match line {
        None => lines,
        Some(line) => if lines.len() > 0 && lines.last() == line {
            lines
        } else {
            lines.push(line)
        },
    }
}

/// Adds `line` to `lines`, unless there is none or it repeats the last.
pub fn push_unique_line(lines: &mut Vec<String>, line: Option<String>)
    ensures
        final(lines).deep_view() == with_line(old(lines).deep_view(), line.deep_view()),
{
    let ghost before = lines.deep_view();
    let line = match line {
        Some(line) => line,
        None => {
            return;
        },
    };
    let n: usize = lines.len();
    if n > 0 && same_text(lines[n - 1].as_str(), line.as_str()) {
        return;
    }
    lines.push(line);
    assert(lines.deep_view() =~= before.push(line@));
}

/// `lines` followed by the headlines of the prompts of `questions`.
pub open spec fn with_prompts(
    lines: Seq<Seq<char>>,
    questions: Seq<AskQuestionItem>,
) -> Seq<Seq<char>>
    decreases questions.len(),
{
    if questions.len() == 0 {
        lines
    } else {
        with_line(
            with_prompts(lines, questions.drop_last()),
            headline(questions.last().prompt.deep_view()),
        )
    }
}

/// What a question to the user shows: its title and its prompts.
pub open spec fn question_lines(input: ToolInput) -> Seq<Seq<char>> {
    match input.ask_question {
        Some(parsed) => with_prompts(
            with_line(seq![], headline(parsed.title.deep_view())),
            match parsed.questions {
                Some(questions) => questions@,
                None => seq![],
            },
        ),
        None => seq![],
    }
}

/// A list of lines, where there are any.
pub open spec fn lines_if_any(lines: Seq<Seq<char>>) -> Option<Seq<Seq<char>>> {
    if lines.len() == 0 {
        None
    } else {
        Some(lines)
    }
}

/// What a question to the user shows, where it shows anything.
pub fn ask_question_lines(input: &ToolInput) -> (r: Option<Vec<String>>)
    ensures
        r.deep_view() == lines_if_any(question_lines(*input)),
{
    let parsed = match &input.ask_question {
        Some(parsed) => parsed,
        None => {
            return None;
        },
    };
    let mut lines: Vec<String> = Vec::new();
    assert(lines.deep_view() =~= Seq::<Seq<char>>::empty());
    push_unique_line(&mut lines, first_non_empty_line(text_of(&parsed.title)));
    let ghost start = lines.deep_view();
    match &parsed.questions {
        Some(questions) => {
            let mut i: usize = 0;
            assert(questions@.take(0) =~= Seq::<AskQuestionItem>::empty());
            while i < questions.len()
                invariant
                    i <= questions@.len(),
                    lines.deep_view() == with_prompts(start, questions@.take(i as int)),
                decreases questions@.len() - i,
            {
                assert(questions@.take(i + 1).drop_last() =~= questions@.take(i as int));
                push_unique_line(&mut lines, first_non_empty_line(text_of(&questions[i].prompt)));
                i = i + 1;
            }
            assert(questions@.take(i as int) =~= questions@);
        },
        None => {},
    }
    assert(lines.deep_view().len() == lines@.len());
    if lines.len() == 0 {
        None
    } else {
        Some(lines)
    }
}

/// What a plan shows: its overview, or else its name.
pub open spec fn plan_lines(input: ToolInput) -> Seq<Seq<char>> {
    match input.create_plan {
        Some(parsed) => match headline(parsed.overview.deep_view()) {
            Some(overview) => seq![overview],
            None => match headline(parsed.name.deep_view()) {
                Some(name) => seq![name],
                None => seq![],
            },
        },
        None => seq![],
    }
}

/// What a plan shows, where it shows anything.
pub fn create_plan_lines(input: &ToolInput) -> (r: Option<Vec<String>>)
    ensures
        r.deep_view() == lines_if_any(plan_lines(*input)),
{
    let parsed = match &input.create_plan {
        Some(parsed) => parsed,
        None => {
            return None;
        },
    };
    if let Some(overview) = first_non_empty_line(text_of(&parsed.overview)) {
        let mut lines: Vec<String> = Vec::new();
        lines.push(overview);
        assert(lines.deep_view() =~= seq![overview@]);
        return Some(lines);
    }
    if let Some(name) = first_non_empty_line(text_of(&parsed.name)) {
        let mut lines: Vec<String> = Vec::new();
        lines.push(name);
        assert(lines.deep_view() =~= seq![name@]);
        return Some(lines);
    }
    None
}

/// The texts of the parts that are text, without white space around them and
/// without those that are blank.
pub open spec fn text_chunks(parts: Seq<TranscriptPart>) -> Seq<Seq<char>>
    decreases parts.len(),
{
    if parts.len() == 0 {
        seq![]
    } else {
        let before = text_chunks(parts.drop_last());
        let part = parts.last();
        match part.text.deep_view() {
            Some(text) => if reads(part.kind, "text"@) && trimmed(text).len() > 0 {
                before.push(trimmed(text))
            } else {
                before
            },
            None => before,
        }
    }
}

/// The lines joined to one text, where there are any.
pub open spec fn text_if_any(lines: Seq<Seq<char>>) -> Option<Seq<char>> {
    if lines.len() == 0 {
        None
    } else {
        Some(joined(lines, "\n"@))
    }
}

/// The text of a message, from its parts.
pub fn message_text_from_parts(parts: &[TranscriptPart]) -> (r: Option<String>)
    ensures
        r.deep_view() == text_if_any(text_chunks(parts@)),
{
    let mut chunks: Vec<String> = Vec::new();
    let mut i: usize = 0;
    assert(chunks.deep_view() =~= text_chunks(parts@.take(0)));
    while i < parts.len()
        invariant
            i <= parts@.len(),
            chunks.deep_view() == text_chunks(parts@.take(i as int)),
        decreases parts@.len() - i,
    {
        let ghost before = chunks.deep_view();
        let part = &parts[i];
        assert(parts@.take(i + 1).drop_last() =~= parts@.take(i as int));
        assert(parts@.take(i + 1).last() == *part);
        i = i + 1;
        if !text_is(&part.kind, "text") {
            continue;
        }
        if let Some(text) = &part.text {
            let text = trim(text.as_str());
            if !text.is_empty() {
                chunks.push(text.to_owned());
                assert(chunks.deep_view() =~= before.push(text@));
            }
        }
    }
    assert(parts@.take(i as int) =~= parts@);
    assert(chunks.deep_view().len() == chunks@.len());
    if chunks.len() == 0 {
        None
    } else {
        Some(join(&chunks, "\n"))
    }
}

/// The tool that a part uses, where its input is known.
pub enum Tool {
    AskQuestion,
    CreatePlan,
    Other,
}

/// The tool that goes by `name`; case and white space around it do not matter.
pub open spec fn tool_named(name: Seq<char>) -> Tool {
    let name = lowered(trimmed(name));
    if name == lowered("AskQuestion"@) || name == lowered("Ask_question"@) {
        Tool::AskQuestion
    } else if name == lowered("CreatePlan"@) {
        Tool::CreatePlan
    } else {
        Tool::Other
    }
}

/// The tool that goes by `name`.
fn find_tool(name: &str) -> (r: Tool)
    ensures
        r == tool_named(name@),
{
    let name = trim(name);
    if eq_ignore_ascii_case(name, "AskQuestion") || eq_ignore_ascii_case(name, "Ask_question") {
        Tool::AskQuestion
    } else if eq_ignore_ascii_case(name, "CreatePlan") {
        Tool::CreatePlan
    } else {
        Tool::Other
    }
}

/// The tool that a part uses: it needs a name and an input.
pub open spec fn tool_of(part: TranscriptPart) -> Tool {
    match part.name.deep_view() {
        Some(name) => if reads(part.kind, "tool_use"@) && part.input is Some {
            tool_named(name)
        } else {
            Tool::Other
        },
        None => Tool::Other,
    }
}

/// What all questions to the user among `parts` show.
pub open spec fn all_question_lines(parts: Seq<TranscriptPart>) -> Seq<Seq<char>>
    decreases parts.len(),
{
    if parts.len() == 0 {
        seq![]
    } else if tool_of(parts.last()) is AskQuestion {
        all_question_lines(parts.drop_last()) + question_lines(parts.last().input->0)
    } else {
        all_question_lines(parts.drop_last())
    }
}

/// What all plans among `parts` show.
pub open spec fn all_plan_lines(parts: Seq<TranscriptPart>) -> Seq<Seq<char>>
    decreases parts.len(),
{
    if parts.len() == 0 {
        seq![]
    } else if tool_of(parts.last()) is CreatePlan {
        all_plan_lines(parts.drop_last()) + plan_lines(parts.last().input->0)
    } else {
        all_plan_lines(parts.drop_last())
    }
}

/// What the tools among `parts` show: questions come before plans.
pub open spec fn tool_lines(parts: Seq<TranscriptPart>) -> Seq<Seq<char>> {
    if all_question_lines(parts).len() > 0 {
        all_question_lines(parts)
    } else {
        all_plan_lines(parts)
    }
}

/// Moves what `found` holds, if anything, to the end of `lines`.
fn extend_lines(lines: &mut Vec<String>, found: Option<Vec<String>>)
    ensures
        final(lines).deep_view() == old(lines).deep_view() + (match found.deep_view() {
            Some(more) => more,
            None => seq![],
        }),
{
    let ghost before = lines.deep_view();
    match found {
        Some(more) => {
            let mut more = more;
            let ghost added = more.deep_view();
            lines.append(&mut more);
            assert(lines.deep_view() =~= before + added);
        },
        None => {
            assert(lines.deep_view() =~= before + Seq::<Seq<char>>::empty());
        },
    }
}

/// The text that the tools among `parts` show to the user.
pub fn tool_preview_text(parts: &[TranscriptPart]) -> (r: Option<String>)
    ensures
        r.deep_view() == text_if_any(tool_lines(parts@)),
{
    let mut ask_lines: Vec<String> = Vec::new();
    let mut plan_lines: Vec<String> = Vec::new();
    let mut i: usize = 0;
    assert(ask_lines.deep_view() =~= all_question_lines(parts@.take(0)));
    assert(plan_lines.deep_view() =~= all_plan_lines(parts@.take(0)));
    while i < parts.len()
        invariant
            i <= parts@.len(),
            ask_lines.deep_view() == all_question_lines(parts@.take(i as int)),
            plan_lines.deep_view() == all_plan_lines(parts@.take(i as int)),
        decreases parts@.len() - i,
    {
        let part = &parts[i];
        assert(parts@.take(i + 1).drop_last() =~= parts@.take(i as int));
        assert(parts@.take(i + 1).last() == *part);
        i = i + 1;
        if !text_is(&part.kind, "tool_use") {
            continue;
        }
        if let Some(name) = &part.name {
            if let Some(input) = &part.input {
                match find_tool(name.as_str()) {
                    Tool::AskQuestion => {
                        let ghost before = ask_lines.deep_view();
                        extend_lines(&mut ask_lines, ask_question_lines(input));
                        assert(ask_lines.deep_view() =~= before + question_lines(*input));
                    },
                    Tool::CreatePlan => {
                        let ghost before = plan_lines.deep_view();
                        extend_lines(&mut plan_lines, create_plan_lines(input));
                        assert(plan_lines.deep_view() =~= before + self::plan_lines(*input));
                    },
                    Tool::Other => {},
                }
            }
        }
    }
    assert(parts@.take(i as int) =~= parts@);
    assert(ask_lines.deep_view().len() == ask_lines@.len());
    assert(plan_lines.deep_view().len() == plan_lines@.len());
    if ask_lines.len() > 0 {
        Some(join(&ask_lines, "\n"))
    } else if plan_lines.len() > 0 {
        Some(join(&plan_lines, "\n"))
    } else {
        None
    }
}

/// The text that the preview of a message is made from. What tools show to the
/// user comes before plain text.
pub open spec fn message_text(message: Option<TranscriptMessage>) -> Option<Seq<char>> {
    match message {
        Some(message) => match message.content {
            Some(TranscriptContent::Text(text)) => Some(text@),
            Some(TranscriptContent::Parts(parts)) => match text_if_any(tool_lines(parts@)) {
                Some(text) => Some(text),
                None => text_if_any(text_chunks(parts@)),
            },
            None => None,
        },
        None => None,
    }
}

/// The preview of a message, where anything of it can be shown.
pub open spec fn message_preview(message: Option<TranscriptMessage>) -> Option<Seq<char>> {
    match message_text(message) {
        Some(text) => prose_preview(text),
        None => None,
    }
}

/// The preview of a message, where anything of it can be shown.
pub fn preview_from_message(message: Option<&TranscriptMessage>) -> (r: Option<String>)
    ensures
        r.deep_view() == message_preview(
            match message {
                Some(message) => Some(*message),
                None => None,
            },
        ),
{
    let message = match message {
        Some(message) => message,
        None => {
            return None;
        },
    };
    match &message.content {
        Some(TranscriptContent::Text(text)) => prose_preview_from_text(text.as_str()),
        Some(TranscriptContent::Parts(parts)) => {
            if let Some(text) = tool_preview_text(parts.as_slice()) {
                return prose_preview_from_text(text.as_str());
            }
            match message_text_from_parts(parts.as_slice()) {
                Some(text) => prose_preview_from_text(text.as_str()),
                None => None,
            }
        },
        None => None,
    }
}

/// The preview of a turn of the assistant: a marker stands for a turn that
/// leaves nothing to show.
pub open spec fn turn_preview(entry: TranscriptEntry) -> Seq<char> {
    match message_preview(entry.message) {
        Some(preview) => preview,
        None => EMPTY_ANSWER_PREVIEW@,
    }
}

/// The preview of the latest turn of the assistant; nothing where it had none.
pub open spec fn transcript_preview(entries: Seq<TranscriptEntry>) -> Option<Seq<char>>
    decreases entries.len(),
{
    if entries.len() == 0 {
        None
    } else if reads(entries.last().role, "assistant"@) {
        Some(turn_preview(entries.last()))
    } else {
        transcript_preview(entries.drop_last())
    }
}

/// The preview of the latest turn of the assistant.
pub fn preview_from_transcript(entries: &[TranscriptEntry]) -> (r: Option<String>)
    ensures
        r.deep_view() == transcript_preview(entries@),
{
    let mut i: usize = entries.len();
    assert(entries@.take(i as int) =~= entries@);
    while i > 0
        invariant
            i <= entries@.len(),
            transcript_preview(entries@) == transcript_preview(entries@.take(i as int)),
        decreases i,
    {
        let entry = &entries[i - 1];
        assert(entries@.take(i as int).last() == *entry);
        if text_is(&entry.role, "assistant") {
            return match preview_from_message(entry.message.as_ref()) {
                Some(preview) => Some(preview),
                None => Some(EMPTY_ANSWER_PREVIEW.to_owned()),
            };
        }
        assert(entries@.take(i as int).drop_last() =~= entries@.take(i - 1));
        i = i - 1;
    }
    None
}

/// The lines of a transcript that hold records: those that are not blank,
/// without white space around them.
pub open spec fn records_of(lines: Seq<Seq<char>>) -> Seq<Seq<char>>
    decreases lines.len(),
{
    if lines.len() == 0 {
        seq![]
    } else {
        let before = records_of(lines.drop_last());
        let record = trimmed(lines.last());
        if record.len() == 0 {
            before
        } else {
            before.push(record)
        }
    }
}

/// The records of the transcript `text`.
pub fn transcript_records(text: &str) -> (r: Vec<String>)
    ensures
        r.deep_view() == records_of(text_lines(text@)),
{
    let all = lines(text);
    let ghost seen = all.deep_view();
    let mut r: Vec<String> = Vec::new();
    let mut i: usize = 0;
    assert(r.deep_view() =~= records_of(seen.take(0)));
    while i < all.len()
        invariant
            i <= all@.len(),
            seen == all.deep_view(),
            r.deep_view() == records_of(seen.take(i as int)),
        decreases all@.len() - i,
    {
        let ghost before = r.deep_view();
        let record = trim(all[i].as_str());
        assert(seen.take(i + 1).drop_last() =~= seen.take(i as int));
        assert(seen.take(i + 1).last() == all@[i as int]@);
        if !record.is_empty() {
            r.push(record.to_owned());
            assert(r.deep_view() =~= before.push(record@));
        }
        i = i + 1;
    }
    assert(seen.take(i as int) =~= seen);
    r
}

/// Where the transcript of a session may lie below the directory of a project:
/// in a directory of its own, or beside the others.
pub open spec fn transcript_paths(project_root: Seq<char>, session_id: Seq<char>) -> Seq<
    Seq<char>,
> {
    let dir = path_joined(project_root, "agent-transcripts"@);
    let name = session_id + ".jsonl"@;
    seq![path_joined(path_joined(dir, session_id), name), path_joined(dir, name)]
}

/// Where the transcript of a session may lie below the directory of a project,
/// in the order to look.
pub fn transcript_candidates(project_root: &str, session_id: &str) -> (r: Vec<String>)
    ensures
        r.deep_view() == transcript_paths(project_root@, session_id@),
{
    let dir = join_path(project_root, "agent-transcripts");
    let mut name = session_id.to_owned();
    name.append(".jsonl");
    let nested = join_path(dir.as_str(), session_id);
    let mut r: Vec<String> = Vec::new();
    r.push(join_path(nested.as_str(), name.as_str()));
    r.push(join_path(dir.as_str(), name.as_str()));
    assert(r.deep_view() =~= transcript_paths(project_root@, session_id@));
    r
}

/// The latest turn of the assistant alone decides: what came before it and
/// what others said after it make no difference, and an empty turn does not
/// fall back on an older one.
pub proof fn law_latest_turn_decides(
    before: Seq<TranscriptEntry>,
    turn: TranscriptEntry,
    after: Seq<TranscriptEntry>,
)
    requires
        reads(turn.role, "assistant"@),
        forall|i: int| 0 <= i < after.len() ==> !reads((#[trigger] after[i]).role, "assistant"@),
    ensures
        transcript_preview(before.push(turn) + after) == Some(turn_preview(turn)),
    decreases after.len(),
{
    let entries = before.push(turn) + after;
    if after.len() == 0 {
        assert(entries =~= before.push(turn));
    } else {
        assert(entries.last() == after[after.len() - 1]);
        assert(entries.drop_last() =~= before.push(turn) + after.drop_last());
        law_latest_turn_decides(before, turn, after.drop_last());
    }
}

/// A transcript has a preview exactly where the assistant had a turn in it,
/// and the preview is never empty.
pub proof fn law_preview_where_assistant_spoke(entries: Seq<TranscriptEntry>)
    ensures
        transcript_preview(entries) is Some <==> exists|i: int|
            0 <= i < entries.len() && reads((#[trigger] entries[i]).role, "assistant"@),
        transcript_preview(entries) matches Some(preview) ==> preview.len() > 0,
    decreases entries.len(),
{
    if entries.len() > 0 {
        let earlier = entries.drop_last();
        law_preview_where_assistant_spoke(earlier);
        if reads(entries.last().role, "assistant"@) {
            assert(reads(entries[entries.len() - 1].role, "assistant"@));
            reveal_strlit("(empty)");
            if let Some(text) = message_text(entries.last().message) {
                law_preview_length(text);
            }
        } else if transcript_preview(earlier) is Some {
            let i = choose|i: int|
                0 <= i < earlier.len() && reads((#[trigger] earlier[i]).role, "assistant"@);
            assert(reads(entries[i].role, "assistant"@));
        } else {
            assert forall|i: int| 0 <= i < entries.len() implies !reads(
                (#[trigger] entries[i]).role,
                "assistant"@,
            ) by {
                if i < earlier.len() {
                    assert(!reads(earlier[i].role, "assistant"@));
                }
            }
        }
    }
}

/// What tools show to the user is preferred over plain text, and questions are
/// preferred over plans.
pub proof fn law_tools_before_text(parts: Vec<TranscriptPart>)
    ensures
        ({
            let message = Some(
                TranscriptMessage { content: Some(TranscriptContent::Parts(parts)) },
            );
            let questions = all_question_lines(parts@);
            let plans = all_plan_lines(parts@);
            let texts = text_chunks(parts@);
            &&& questions.len() > 0 ==> message_text(message) == Some(joined(questions, "\n"@))
            &&& questions.len() == 0 && plans.len() > 0 ==> message_text(message) == Some(
                joined(plans, "\n"@),
            )
            &&& questions.len() == 0 && plans.len() == 0 && texts.len() > 0 ==> message_text(
                message,
            ) == Some(joined(texts, "\n"@))
            &&& questions.len() == 0 && plans.len() == 0 && texts.len() == 0 ==> message_preview(
                message,
            ) is None
        }),
{
}

} // verus!
