//! What holds of transcripts: what each part of a turn adds to its preview.

use vstd::prelude::*;

use crate::answer_preview::{
    chosen_session, is_cursor, preview_step, prose_preview, PreviewEvent, PreviewStep,
};
use crate::live_session::is_session_id;
use crate::text::{joined, lowered, text_lines, trimmed};
use crate::text_laws::{is_blank, is_tight, law_trim, law_trim_whole};
use crate::transcript::{
    all_plan_lines, all_question_lines, first_filled, headline, law_latest_turn_decides,
    message_preview, plan_lines, question_lines, records_of, text_chunks, transcript_paths,
    transcript_preview, with_line, ToolInput, TranscriptContent, TranscriptEntry,
    TranscriptMessage, TranscriptPart,
};

verus! {

/// The headline of a text is its first line that is not blank, without the
/// white space around it; a text of blank lines has none.
pub proof fn law_headline(text: Seq<char>, k: int)
    requires
        0 <= k <= text_lines(text).len(),
        k < text_lines(text).len() ==> !is_blank(text_lines(text)[k]),
        forall|j: int| 0 <= j < k ==> is_blank(#[trigger] text_lines(text)[j]),
    ensures
        headline(Some(text)) == (if k < text_lines(text).len() {
            Some(trimmed(text_lines(text)[k]))
        } else {
            None
        }),
        headline(None) is None,
{
    lemma_first_filled(text_lines(text), k);
}

proof fn lemma_first_filled(lines: Seq<Seq<char>>, k: int)
    requires
        0 <= k <= lines.len(),
        k < lines.len() ==> !is_blank(lines[k]),
        forall|j: int| 0 <= j < k ==> is_blank(#[trigger] lines[j]),
    ensures
        first_filled(lines) == (if k < lines.len() {
            Some(trimmed(lines[k]))
        } else {
            None
        }),
    decreases lines.len(),
{
    if lines.len() > 0 {
        law_trim_whole(lines[0]);
        if k > 0 {
            assert(is_blank(lines[0]));
            let rest = lines.drop_first();
            assert forall|j: int| 0 <= j < k - 1 implies is_blank(#[trigger] rest[j]) by {
                assert(rest[j] == lines[j + 1]);
            }
            if k < lines.len() {
                assert(rest[k - 1] == lines[k]);
            }
            lemma_first_filled(rest, k - 1);
        }
    }
}

/// A line is added behind the others, unless it repeats the last of them.
pub proof fn law_line_is_added_once(lines: Seq<Seq<char>>, line: Seq<char>)
    ensures
        with_line(lines, None) == lines,
        with_line(lines.push(line), Some(line)) == lines.push(line),
        lines.len() == 0 || lines[lines.len() - 1] != line ==> with_line(lines, Some(line))
            == lines.push(line),
{
}

/// A question shows its title first.
pub proof fn law_question_shows_title(input: ToolInput)
    requires
        input.ask_question is Some,
        input.ask_question->0.questions is None || input.ask_question->0.questions->0@.len() == 0,
    ensures
        headline(input.ask_question->0.title.deep_view()) matches Some(title) ==> question_lines(
            input,
        ) == seq![title],
        headline(input.ask_question->0.title.deep_view()) is None ==> question_lines(input).len()
            == 0,
{
    if let Some(title) = headline(input.ask_question->0.title.deep_view()) {
        assert(Seq::<Seq<char>>::empty().push(title) =~= seq![title]);
    }
}

/// One more question shows the headline of its prompt behind all that was
/// shown before, unless it has none or repeats the last line.
pub proof fn law_question_shows_each_prompt(fewer: ToolInput, more: ToolInput)
    requires
        fewer.ask_question is Some && more.ask_question is Some,
        fewer.ask_question->0.title == more.ask_question->0.title,
        fewer.ask_question->0.questions is Some && more.ask_question->0.questions is Some,
        more.ask_question->0.questions->0@.len() > 0,
        more.ask_question->0.questions->0@.drop_last() == fewer.ask_question->0.questions->0@,
    ensures
        ({
            let shown = question_lines(fewer);
            match headline(more.ask_question->0.questions->0@.last().prompt.deep_view()) {
                Some(prompt) => question_lines(more) == (if shown.len() > 0 && shown[shown.len()
                    - 1] == prompt {
                    shown
                } else {
                    shown.push(prompt)
                }),
                None => question_lines(more) == shown,
            }
        }),
{
}

/// A plan shows the headline of its overview, or else that of its name.
pub proof fn law_plan_shows_overview_before_name(input: ToolInput)
    requires
        input.create_plan is Some,
    ensures
        ({
            let overview = headline(input.create_plan->0.overview.deep_view());
            let name = headline(input.create_plan->0.name.deep_view());
            &&& overview is Some ==> plan_lines(input) == seq![overview->0]
            &&& overview is None && name is Some ==> plan_lines(input) == seq![name->0]
            &&& overview is None && name is None ==> plan_lines(input).len() == 0
        }),
{
}

/// What cannot be read as a question or a plan shows nothing as one.
pub proof fn law_unreadable_input_shows_nothing(input: ToolInput)
    ensures
        input.ask_question is None ==> question_lines(input).len() == 0,
        input.create_plan is None ==> plan_lines(input).len() == 0,
{
}

/// The part uses a tool that goes by `small`, in whatever case, and has input.
pub open spec fn uses_tool(part: TranscriptPart, small: Seq<char>) -> bool {
    &&& part.kind is Some && part.kind->0@ == "tool_use"@
    &&& part.name is Some && lowered(trimmed(part.name->0@)) == small
    &&& part.input is Some
}

proof fn lemma_tool_names()
    ensures
        lowered("AskQuestion"@) == "askquestion"@,
        lowered("Ask_question"@) == "ask_question"@,
        lowered("CreatePlan"@) == "createplan"@,
        "createplan"@ != "askquestion"@,
        "createplan"@ != "ask_question"@,
{
    reveal_strlit("AskQuestion");
    reveal_strlit("askquestion");
    reveal_strlit("Ask_question");
    reveal_strlit("ask_question");
    reveal_strlit("CreatePlan");
    reveal_strlit("createplan");
    assert(lowered("AskQuestion"@) =~= "askquestion"@);
    assert(lowered("Ask_question"@) =~= "ask_question"@);
    assert(lowered("CreatePlan"@) =~= "createplan"@);
    assert("createplan"@[0] != "askquestion"@[0]);
    assert("createplan"@[0] != "ask_question"@[0]);
}

/// The questions among parts are those of each part in order, and a part has
/// some exactly where it uses the tool for questions.
pub proof fn law_questions_of_parts(
    a: Seq<TranscriptPart>,
    b: Seq<TranscriptPart>,
    part: TranscriptPart,
)
    ensures
        all_question_lines(a + b) == all_question_lines(a) + all_question_lines(b),
        uses_tool(part, "askquestion"@) || uses_tool(part, "ask_question"@) ==> all_question_lines(
            seq![part],
        ) == question_lines(part.input->0),
        !uses_tool(part, "askquestion"@) && !uses_tool(part, "ask_question"@)
            ==> all_question_lines(seq![part]).len() == 0,
    decreases b.len(),
{
    if b.len() == 0 {
        assert(a + b =~= a);
        assert(all_question_lines(a) + all_question_lines(b) =~= all_question_lines(a));
    } else {
        assert((a + b).drop_last() =~= a + b.drop_last());
        law_questions_of_parts(a, b.drop_last(), part);
        assert(all_question_lines(a + b) =~= all_question_lines(a) + all_question_lines(b));
    }
    reveal_with_fuel(all_question_lines, 2);
    lemma_tool_names();
    assert(seq![part].drop_last() =~= Seq::<TranscriptPart>::empty());
    if uses_tool(part, "askquestion"@) || uses_tool(part, "ask_question"@) {
        assert(all_question_lines(seq![part]) =~= question_lines(part.input->0));
    }
}

/// The plans among parts are those of each part in order, and a part has some
/// exactly where it uses the tool for plans.
pub proof fn law_plans_of_parts(
    a: Seq<TranscriptPart>,
    b: Seq<TranscriptPart>,
    part: TranscriptPart,
)
    ensures
        all_plan_lines(a + b) == all_plan_lines(a) + all_plan_lines(b),
        uses_tool(part, "createplan"@) ==> all_plan_lines(seq![part]) == plan_lines(part.input->0),
        !uses_tool(part, "createplan"@) ==> all_plan_lines(seq![part]).len() == 0,
    decreases b.len(),
{
    if b.len() == 0 {
        assert(a + b =~= a);
        assert(all_plan_lines(a) + all_plan_lines(b) =~= all_plan_lines(a));
    } else {
        assert((a + b).drop_last() =~= a + b.drop_last());
        law_plans_of_parts(a, b.drop_last(), part);
        assert(all_plan_lines(a + b) =~= all_plan_lines(a) + all_plan_lines(b));
    }
    reveal_with_fuel(all_plan_lines, 2);
    lemma_tool_names();
    assert(seq![part].drop_last() =~= Seq::<TranscriptPart>::empty());
    if uses_tool(part, "createplan"@) {
        assert(all_plan_lines(seq![part]) =~= plan_lines(part.input->0));
    }
}

/// The texts among parts are those of each part in order, and a part has one
/// exactly where it is text that is not blank.
pub proof fn law_texts_of_parts(
    a: Seq<TranscriptPart>,
    b: Seq<TranscriptPart>,
    part: TranscriptPart,
)
    ensures
        text_chunks(a + b) == text_chunks(a) + text_chunks(b),
        part.kind is Some && part.kind->0@ == "text"@ && part.text is Some && !is_blank(
            part.text->0@,
        ) ==> text_chunks(seq![part]) == seq![trimmed(part.text->0@)],
        part.kind is None || part.kind->0@ != "text"@ || part.text is None || is_blank(
            part.text->0@,
        ) ==> text_chunks(seq![part]).len() == 0,
    decreases b.len(),
{
    if b.len() == 0 {
        assert(a + b =~= a);
        assert(text_chunks(a) + text_chunks(b) =~= text_chunks(a));
    } else {
        assert((a + b).drop_last() =~= a + b.drop_last());
        law_texts_of_parts(a, b.drop_last(), part);
        assert(text_chunks(a + b) =~= text_chunks(a) + text_chunks(b));
    }
    reveal_with_fuel(text_chunks, 2);
    assert(seq![part].drop_last() =~= Seq::<TranscriptPart>::empty());
    if part.text is Some {
        law_trim_whole(part.text->0@);
        assert(Seq::<Seq<char>>::empty().push(trimmed(part.text->0@)) =~= seq![
            trimmed(part.text->0@),
        ]);
    }
}

/// The preview of a message is that of its text; of several parts, that of the
/// questions, or else of the plans, or else of the texts, one to a line.
pub proof fn law_preview_of_message(message: TranscriptMessage)
    ensures
        message_preview(None) is None,
        message.content is None ==> message_preview(Some(message)) is None,
        message.content matches Some(TranscriptContent::Text(text)) ==> message_preview(
            Some(message),
        ) == prose_preview(text@),
        message.content matches Some(TranscriptContent::Parts(parts)) ==> {
            let questions = all_question_lines(parts@);
            let plans = all_plan_lines(parts@);
            let texts = text_chunks(parts@);
            let preview = message_preview(Some(message));
            if questions.len() > 0 {
                preview == prose_preview(joined(questions, "\n"@))
            } else if plans.len() > 0 {
                preview == prose_preview(joined(plans, "\n"@))
            } else if texts.len() > 0 {
                preview == prose_preview(joined(texts, "\n"@))
            } else {
                preview is None
            }
        },
{
}

/// The entry is a turn of the assistant.
pub open spec fn is_answer(entry: TranscriptEntry) -> bool {
    entry.role is Some && entry.role->0@ == "assistant"@
}

/// The latest turn of the assistant is the one that is shown, whatever came
/// before it; a turn with nothing to show is marked as empty.
pub proof fn law_latest_answer_is_shown(
    before: Seq<TranscriptEntry>,
    turn: TranscriptEntry,
    after: Seq<TranscriptEntry>,
)
    requires
        is_answer(turn),
        forall|i: int| 0 <= i < after.len() ==> !is_answer(#[trigger] after[i]),
    ensures
        transcript_preview(before.push(turn) + after) == Some(
            if message_preview(turn.message) is Some {
                message_preview(turn.message)->0
            } else {
                "(empty)"@
            },
        ),
        transcript_preview(after) is None,
    decreases after.len(),
{
    law_latest_turn_decides(before, turn, after);
    if after.len() > 0 {
        assert(!is_answer(after[after.len() - 1]));
        law_latest_answer_is_shown(before, turn, after.drop_last());
    }
}

/// The records of a transcript are those of its lines in order, and a line is
/// one exactly where it is not blank.
pub proof fn law_records(a: Seq<Seq<char>>, b: Seq<Seq<char>>, line: Seq<char>)
    ensures
        records_of(a + b) == records_of(a) + records_of(b),
        is_blank(line) ==> records_of(seq![line]).len() == 0,
        !is_blank(line) ==> records_of(seq![line]) == seq![trimmed(line)],
    decreases b.len(),
{
    if b.len() == 0 {
        assert(a + b =~= a);
        assert(records_of(a) + records_of(b) =~= records_of(a));
    } else {
        assert((a + b).drop_last() =~= a + b.drop_last());
        law_records(a, b.drop_last(), line);
        assert(records_of(a + b) =~= records_of(a) + records_of(b));
    }
    reveal_with_fuel(records_of, 2);
    law_trim_whole(line);
    assert(seq![line].drop_last() =~= Seq::<Seq<char>>::empty());
    assert(Seq::<Seq<char>>::empty().push(trimmed(line)) =~= seq![trimmed(line)]);
}

/// The transcript of a session lies in a directory of its own or beside the
/// others, below the directory of the project.
pub proof fn law_transcript_paths(root: Seq<char>, id: Seq<char>)
    requires
        root.len() > 0 && root[root.len() - 1] != '/',
        id.len() > 0 && id[0] != '/' && id[id.len() - 1] != '/',
    ensures
        transcript_paths(root, id) == seq![
            root + "/agent-transcripts/"@ + id + "/"@ + id + ".jsonl"@,
            root + "/agent-transcripts/"@ + id + ".jsonl"@,
        ],
{
    reveal_strlit("/agent-transcripts/");
    reveal_strlit("agent-transcripts");
    reveal_strlit("/");
    let dir = root + seq!['/'] + "agent-transcripts"@;
    assert("/agent-transcripts/"@ =~= seq!['/'] + "agent-transcripts"@ + seq!['/']);
    let name = id + ".jsonl"@;
    assert(name[0] == id[0]);
    let nested = dir + seq!['/'] + id;
    assert(nested.last() == id[id.len() - 1]);
    assert(dir.last() == "agent-transcripts"@.last());
    assert(nested + seq!['/'] + name =~= root + "/agent-transcripts/"@ + id + "/"@ + id
        + ".jsonl"@);
    assert(dir + seq!['/'] + name =~= root + "/agent-transcripts/"@ + id + ".jsonl"@);
}

/// Transcripts are read of one agent alone, by its name in whatever case, and
/// white space around the name does not matter.
pub proof fn law_agent_with_transcripts(before: Seq<char>, name: Seq<char>, after: Seq<char>)
    requires
        is_blank(before) && is_blank(after),
        is_tight(name),
    ensures
        is_cursor(Some(before + name + after)) <==> lowered(name) == "cursor"@,
        !is_cursor(Some(before)),
        !is_cursor(None),
{
    law_trim(before, name, after);
    law_trim_whole(before);
    reveal_strlit("cursor");
    assert(lowered("cursor"@) =~= "cursor"@);
    assert(lowered(trimmed(before)).len() == 0);
}

/// The open session is read whatever was reported; without one, the reported
/// session is read exactly where it can be one.
pub proof fn law_session_to_read(
    live: Option<Seq<char>>,
    before: Seq<char>,
    reported: Seq<char>,
    after: Seq<char>,
)
    requires
        is_blank(before) && is_blank(after),
        is_tight(reported),
    ensures
        live is Some ==> chosen_session(live, Some(before + reported + after)) == live
            && chosen_session(live, None) == live,
        chosen_session(None, Some(before + reported + after)) == (if is_session_id(reported) {
            Some(reported)
        } else {
            None
        }),
        chosen_session(None, None) is None,
        chosen_session(None, Some(before)) is None,
{
    law_trim(before, reported, after);
    law_trim_whole(before);
}

/// The search for a preview goes from the open session to the transcript and
/// ends with its preview; without a session or a transcript it ends with none.
pub proof fn law_search_for_preview(
    agent: Option<Seq<char>>,
    reported: Option<Seq<char>>,
    live: Option<String>,
    entries: Vec<TranscriptEntry>,
)
    requires
        is_cursor(agent),
    ensures
        preview_step(agent, reported, PreviewEvent::Begin) == PreviewStep::<
            Seq<char>,
        >::ResolveLiveSession,
        chosen_session(live.deep_view(), reported) matches Some(id) ==> preview_step(
            agent,
            reported,
            PreviewEvent::LiveSession(live),
        ) == PreviewStep::ReadTranscript(id),
        chosen_session(live.deep_view(), reported) is None ==> preview_step(
            agent,
            reported,
            PreviewEvent::LiveSession(live),
        ) == PreviewStep::<Seq<char>>::Finish(None),
        preview_step(agent, reported, PreviewEvent::Transcript(Some(entries)))
            == PreviewStep::Finish(transcript_preview(entries@)),
        preview_step(agent, reported, PreviewEvent::Transcript(None)) == PreviewStep::<
            Seq<char>,
        >::Finish(None),
{
}

/// For every other agent the search ends at once, whatever has happened.
pub proof fn law_no_preview_of_other_agents(
    agent: Option<Seq<char>>,
    reported: Option<Seq<char>>,
    event: PreviewEvent,
)
    requires
        !is_cursor(agent),
    ensures
        preview_step(agent, reported, event) == PreviewStep::<Seq<char>>::Finish(None),
{
}

} // verus!
