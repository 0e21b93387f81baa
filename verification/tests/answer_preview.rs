use herdr_focus_notify::answer_preview::{
    choose_session, latest_answer_preview, looks_like_code_line, prose_preview_from_text,
    strip_fenced_code, truncate_chars, PreviewEvent, PreviewStep, EMPTY_ANSWER_PREVIEW,
    PREVIEW_SEPARATOR, PREVIEW_SIDE_MAX_CHARS,
};
use herdr_focus_notify::markdown::{
    find_closing_single, find_closing_underscore, is_markdown_underscore_open,
    parse_delimited_span, parse_markdown_link, strip_inline_markdown,
};
use herdr_focus_notify::transcript::{
    ask_question_lines, create_plan_lines, first_non_empty_line, message_text_from_parts,
    preview_from_message, preview_from_transcript, push_unique_line, tool_preview_text,
    transcript_candidates, transcript_records, AskQuestionInput, AskQuestionItem, CreatePlanInput,
    ToolInput, TranscriptContent, TranscriptEntry, TranscriptMessage, TranscriptPart,
};
use serde_json::Value;

fn text(value: &Value, key: &str) -> Option<String> {
    value.get(key).and_then(Value::as_str).map(str::to_string)
}

fn tool_input(value: &Value) -> ToolInput {
    let questions = value.get("questions").and_then(Value::as_array).map(|items| {
        items
            .iter()
            .map(|item| AskQuestionItem { prompt: text(item, "prompt") })
            .collect()
    });
    ToolInput {
        ask_question: Some(AskQuestionInput { title: text(value, "title"), questions }),
        create_plan: Some(CreatePlanInput {
            name: text(value, "name"),
            overview: text(value, "overview"),
        }),
    }
}

fn part(value: &Value) -> TranscriptPart {
    TranscriptPart {
        kind: text(value, "type"),
        text: text(value, "text"),
        name: text(value, "name"),
        input: value.get("input").map(tool_input),
    }
}

fn entry(record: &str) -> TranscriptEntry {
    let value: Value = serde_json::from_str(record).unwrap();
    let message = value.get("message").map(|message| {
        let content = message.get("content").map(|content| match content {
            Value::Array(parts) => TranscriptContent::Parts(parts.iter().map(part).collect()),
            other => TranscriptContent::Text(other.as_str().unwrap().to_string()),
        });
        TranscriptMessage { content }
    });
    TranscriptEntry { role: text(&value, "role"), message }
}

fn transcript(contents: &str) -> Vec<TranscriptEntry> {
    transcript_records(contents)
        .iter()
        .map(|record| entry(record))
        .collect()
}

fn text_part(text: &str) -> TranscriptPart {
    TranscriptPart {
        kind: Some("text".to_string()),
        text: Some(text.to_string()),
        name: None,
        input: None,
    }
}

fn tool_part(name: &str, input: ToolInput) -> TranscriptPart {
    TranscriptPart {
        kind: Some("tool_use".to_string()),
        text: None,
        name: Some(name.to_string()),
        input: Some(input),
    }
}

fn question(prompt: &str) -> ToolInput {
    ToolInput {
        ask_question: Some(AskQuestionInput {
            title: None,
            questions: Some(vec![AskQuestionItem { prompt: Some(prompt.to_string()) }]),
        }),
        create_plan: None,
    }
}

fn plan(name: Option<&str>, overview: Option<&str>) -> ToolInput {
    ToolInput {
        ask_question: None,
        create_plan: Some(CreatePlanInput {
            name: name.map(str::to_string),
            overview: overview.map(str::to_string),
        }),
    }
}

fn chars(text: &str) -> Vec<char> {
    text.chars().collect()
}

fn turn(role: &str, text: &str) -> TranscriptEntry {
    TranscriptEntry {
        role: Some(role.to_string()),
        message: Some(TranscriptMessage {
            content: Some(TranscriptContent::Text(text.to_string())),
        }),
    }
}

#[test]
fn joins_first_and_last_prose_lines() {
    let entries = transcript(
        r#"{"role":"assistant","message":{"content":[{"type":"text","text":"First prose line.\nMiddle detail.\nLast prose line."}]}}
"#,
    );

    assert_eq!(
        preview_from_transcript(&entries).as_deref(),
        Some("First prose line.\n...\nLast prose line.")
    );
}

#[test]
fn skips_fenced_code_at_start_and_end() {
    let text = "```bash\necho hi\n```\nHere is the summary.\nDone for now.\n```\ncode\n```";
    assert_eq!(
        prose_preview_from_text(text).as_deref(),
        Some("Here is the summary.\n...\nDone for now.")
    );
}

#[test]
fn skips_code_like_lines_around_prose() {
    let text = "import os\nActual answer starts here.\nconst x = 1\nWrap-up sentence.";
    assert_eq!(
        prose_preview_from_text(text).as_deref(),
        Some("Actual answer starts here.\n...\nWrap-up sentence.")
    );
}

#[test]
fn strips_inline_markdown_formatting() {
    let text = "**Bold start** with a [link](https://example.com).\nMiddle.\nDone with `code` and *emphasis*.";
    assert_eq!(
        prose_preview_from_text(text).as_deref(),
        Some("Bold start with a link.\n...\nDone with code and emphasis.")
    );
}

#[test]
fn single_prose_line_has_no_separator() {
    assert_eq!(
        prose_preview_from_text("Just one line.").as_deref(),
        Some("Just one line.")
    );
}

#[test]
fn all_code_returns_none() {
    assert_eq!(
        prose_preview_from_text("```rust\nfn main() {}\n```\nconst x = 1;"),
        None
    );
}

#[test]
fn truncates_each_side_to_one_hundred_chars() {
    let first = "A".repeat(120);
    let last = "B".repeat(120);
    let text = format!("{first}\nmiddle\n{last}");
    let preview = prose_preview_from_text(&text).unwrap();
    let (left, right) = preview.split_once(PREVIEW_SEPARATOR).unwrap();
    assert_eq!(left.chars().count(), PREVIEW_SIDE_MAX_CHARS + 3);
    assert_eq!(right.chars().count(), PREVIEW_SIDE_MAX_CHARS + 3);
    assert!(left.ends_with("..."));
    assert!(right.ends_with("..."));
    assert!(left.starts_with(&"A".repeat(PREVIEW_SIDE_MAX_CHARS)));
}

#[test]
fn prefers_latest_assistant_turn() {
    let entries = transcript(
        r#"{"role":"assistant","message":{"content":[{"type":"text","text":"Older first.\nOlder last."}]}}
{"role":"assistant","message":{"content":[{"type":"text","text":"Fresh first.\nFresh last."}]}}
"#,
    );

    assert_eq!(
        preview_from_transcript(&entries).as_deref(),
        Some("Fresh first.\n...\nFresh last.")
    );
}

#[test]
fn empty_latest_turn_returns_empty_marker() {
    let entries = transcript(
        r#"{"role":"assistant","message":{"content":[{"type":"text","text":"Older first.\nOlder last."}]}}
{"role":"assistant","message":{"content":[{"type":"text","text":"```rust\nfn main() {}\n```\nconst x = 1;"}]}}
"#,
    );

    assert_eq!(
        preview_from_transcript(&entries).as_deref(),
        Some(EMPTY_ANSWER_PREVIEW)
    );
}

#[test]
fn empty_message_latest_turn_returns_empty_marker() {
    let entries = transcript(
        r#"{"role":"assistant","message":{"content":[{"type":"text","text":"Older prose."}]}}
{"role":"assistant","message":{"content":[{"type":"text","text":""}]}}
"#,
    );

    assert_eq!(
        preview_from_transcript(&entries).as_deref(),
        Some(EMPTY_ANSWER_PREVIEW)
    );
}

#[test]
fn ask_question_only_uses_title_and_prompt() {
    let entries = transcript(
        r#"{"role":"assistant","message":{"content":[{"type":"text","text":"Older prose."}]}}
{"role":"assistant","message":{"content":[{"type":"tool_use","name":"AskQuestion","input":{"title":"Bluetooth 끊김 시 기본 장치 동작","questions":[{"id":"reconnect","prompt":"BT 헤드셋이 다시 연결되면 기본 장치를 어떻게 할까요?\n\n세부 설명","options":[{"id":"auto","label":"자동"}]}]}}]}}
"#,
    );

    assert_eq!(
        preview_from_transcript(&entries).as_deref(),
        Some(
            "Bluetooth 끊김 시 기본 장치 동작\n...\nBT 헤드셋이 다시 연결되면 기본 장치를 어떻게 할까요?"
        )
    );
}

#[test]
fn ask_question_prefers_prompt_over_status_text() {
    let entries = transcript(
        r#"{"role":"assistant","message":{"content":[{"type":"text","text":"설정을 먼저 확인하겠습니다."},{"type":"tool_use","name":"AskQuestion","input":{"title":"Clarify format-on-save behavior","questions":[{"id":"how","prompt":"저장할 때 어떤 식으로 바뀌나요? (원인 좁히기용)"}]}}]}}
"#,
    );

    assert_eq!(
        preview_from_transcript(&entries).as_deref(),
        Some(
            "Clarify format-on-save behavior\n...\n저장할 때 어떤 식으로 바뀌나요? (원인 좁히기용)"
        )
    );
}

#[test]
fn ask_question_multiple_prompts_use_first_and_last() {
    let entries = transcript(
        r#"{"role":"assistant","message":{"content":[{"type":"tool_use","name":"AskQuestion","input":{"questions":[{"id":"a","prompt":"알림 body를 어떻게 바꿀까요?"},{"id":"b","prompt":"중간 질문"},{"id":"c","prompt":"“답변의 첫번째 줄”은 어느 쪽을 말하는 건가요?"}]}}]}}
"#,
    );

    assert_eq!(
        preview_from_transcript(&entries).as_deref(),
        Some(
            "알림 body를 어떻게 바꿀까요?\n...\n“답변의 첫번째 줄”은 어느 쪽을 말하는 건가요?"
        )
    );
}

#[test]
fn create_plan_only_uses_overview() {
    let entries = transcript(
        r##"{"role":"assistant","message":{"content":[{"type":"tool_use","name":"CreatePlan","input":{"name":"fuzzel size followup","overview":"지금 활성 모니터는 scale 1.0이라 DPI만으로는 부족합니다.","plan":"# long plan body\n\nmore detail"}}]}}
"##,
    );

    assert_eq!(
        preview_from_transcript(&entries).as_deref(),
        Some("지금 활성 모니터는 scale 1.0이라 DPI만으로는 부족합니다.")
    );
}

#[test]
fn non_ask_tool_use_only_returns_empty_marker() {
    let entries = transcript(
        r#"{"role":"assistant","message":{"content":[{"type":"text","text":"Older prose."}]}}
{"role":"assistant","message":{"content":[{"type":"tool_use","name":"Shell","input":{"command":"echo hi"}}]}}
"#,
    );

    assert_eq!(
        preview_from_transcript(&entries).as_deref(),
        Some(EMPTY_ANSWER_PREVIEW)
    );
}

#[test]
fn skips_non_cursor_agents() {
    let step = latest_answer_preview(
        Some("codex"),
        Some("aaaaaaaa-bbbb-cccc-dddd-eeeeeeeeeeee"),
        PreviewEvent::Begin,
    );
    assert!(matches!(step, PreviewStep::Finish(None)));
}

#[test]
fn finds_transcript_under_fake_home_and_returns_preview() {
    let session_id = "11111111-2222-3333-4444-555555555555";
    let agent = Some("cursor");
    assert!(matches!(
        latest_answer_preview(agent, Some(session_id), PreviewEvent::Begin),
        PreviewStep::ResolveLiveSession
    ));
    match latest_answer_preview(agent, Some(session_id), PreviewEvent::LiveSession(None)) {
        PreviewStep::ReadTranscript(id) => assert_eq!(id, session_id),
        _ => panic!("the transcript is to be read"),
    }
    assert_eq!(
        transcript_candidates("/home/.cursor/projects/demo", session_id),
        vec![
            format!("/home/.cursor/projects/demo/agent-transcripts/{session_id}/{session_id}.jsonl"),
            format!("/home/.cursor/projects/demo/agent-transcripts/{session_id}.jsonl"),
        ]
    );
    let entries = transcript(
        r#"{"role":"assistant","message":{"content":[{"type":"text","text":"Older line"}]}}
{"role":"assistant","message":{"content":[{"type":"text","text":"Fresh preview line\nmore detail here"}]}}
"#,
    );
    match latest_answer_preview(agent, Some(session_id), PreviewEvent::Transcript(Some(entries))) {
        PreviewStep::Finish(preview) => assert_eq!(
            preview.as_deref(),
            Some("Fresh preview line\n...\nmore detail here")
        ),
        _ => panic!("the transcript is the last thing needed"),
    }
}

#[test]
fn preview_steps_end_without_agent_session_or_transcript() {
    for agent in [None, Some(""), Some("  "), Some("cursors")] {
        assert!(matches!(
            latest_answer_preview(agent, Some("0123456789"), PreviewEvent::Begin),
            PreviewStep::Finish(None)
        ));
    }
    assert!(matches!(
        latest_answer_preview(Some("  CurSor\n"), None, PreviewEvent::Begin),
        PreviewStep::ResolveLiveSession
    ));
    for reported in [None, Some(""), Some("short"), Some("not hexadecimal")] {
        assert!(matches!(
            latest_answer_preview(Some("cursor"), reported, PreviewEvent::LiveSession(None)),
            PreviewStep::Finish(None)
        ));
    }
    assert!(matches!(
        latest_answer_preview(Some("cursor"), None, PreviewEvent::Transcript(None)),
        PreviewStep::Finish(None)
    ));
}

#[test]
fn live_session_counts_before_the_reported_one() {
    assert_eq!(
        choose_session(Some("live-id".to_string()), Some("0123456789")),
        Some("live-id".to_string())
    );
    assert_eq!(
        choose_session(None, Some(" 0123-4567 \n")),
        Some("0123-4567".to_string())
    );
    assert_eq!(choose_session(None, Some("0123-45")), None);
    assert_eq!(choose_session(None, Some("0123-456g")), None);
    assert_eq!(choose_session(None, None), None);
}

#[test]
fn records_are_the_lines_that_are_not_blank() {
    assert_eq!(
        transcript_records("  {\"a\":1} \r\n\n \t\n{}\n"),
        vec!["{\"a\":1}".to_string(), "{}".to_string()]
    );
    assert!(transcript_records("\n \n").is_empty());
}

#[test]
fn latest_turn_of_the_assistant_decides() {
    let entries = vec![
        turn("assistant", "Old."),
        turn("assistant", "New."),
        turn("user", "Thanks."),
    ];
    assert_eq!(preview_from_transcript(&entries).as_deref(), Some("New."));

    let entries = vec![turn("user", "Hello."), turn("Assistant", "No such role.")];
    assert_eq!(preview_from_transcript(&entries), None);
    assert_eq!(preview_from_transcript(&[]), None);

    let silent = vec![
        turn("assistant", "Old."),
        TranscriptEntry { role: Some("assistant".to_string()), message: None },
    ];
    assert_eq!(
        preview_from_transcript(&silent).as_deref(),
        Some(EMPTY_ANSWER_PREVIEW)
    );
}

#[test]
fn message_without_content_has_no_preview() {
    assert_eq!(preview_from_message(None), None);
    assert_eq!(preview_from_message(Some(&TranscriptMessage { content: None })), None);
    let parts = TranscriptContent::Parts(vec![]);
    assert_eq!(
        preview_from_message(Some(&TranscriptMessage { content: Some(parts) })),
        None
    );
}

#[test]
fn text_parts_are_trimmed_and_joined() {
    let mut hidden = text_part("hidden");
    hidden.kind = Some("thinking".to_string());
    let parts = vec![text_part(" one "), hidden, text_part("\n"), text_part("two")];
    assert_eq!(message_text_from_parts(&parts).as_deref(), Some("one\ntwo"));
    assert_eq!(message_text_from_parts(&[text_part(" ")]), None);
}

#[test]
fn questions_count_before_plans_and_text() {
    let parts = vec![
        text_part("chatter"),
        tool_part("createplan", plan(None, Some("the plan"))),
        tool_part(" ask_QUESTION ", question("which one?")),
    ];
    assert_eq!(tool_preview_text(&parts).as_deref(), Some("which one?"));
    assert_eq!(tool_preview_text(&parts[..2]).as_deref(), Some("the plan"));
    assert_eq!(tool_preview_text(&parts[..1]), None);

    let mut wrong_kind = tool_part("AskQuestion", question("which one?"));
    wrong_kind.kind = Some("text".to_string());
    assert_eq!(tool_preview_text(&[wrong_kind]), None);

    let message = TranscriptMessage { content: Some(TranscriptContent::Parts(parts)) };
    assert_eq!(preview_from_message(Some(&message)).as_deref(), Some("which one?"));
}

#[test]
fn tool_without_usable_input_is_passed_over() {
    let unreadable = || ToolInput { ask_question: None, create_plan: None };
    assert_eq!(ask_question_lines(&unreadable()), None);
    assert_eq!(create_plan_lines(&unreadable()), None);
    assert_eq!(ask_question_lines(&question(" \n ")), None);
    assert_eq!(create_plan_lines(&plan(Some(" "), Some("\n"))), None);
    assert_eq!(
        create_plan_lines(&plan(Some("name"), Some("\n"))),
        Some(vec!["name".to_string()])
    );
    assert_eq!(
        create_plan_lines(&plan(Some("name"), Some("\n over\nview"))),
        Some(vec!["over".to_string()])
    );
    let mut part = tool_part("AskQuestion", unreadable());
    part.input = None;
    assert_eq!(tool_preview_text(&[part]), None);
}

#[test]
fn repeated_prompts_are_asked_once() {
    let input = ToolInput {
        ask_question: Some(AskQuestionInput {
            title: Some("same".to_string()),
            questions: Some(vec![
                AskQuestionItem { prompt: Some("same\nmore".to_string()) },
                AskQuestionItem { prompt: None },
                AskQuestionItem { prompt: Some("other".to_string()) },
                AskQuestionItem { prompt: Some("same".to_string()) },
            ]),
        }),
        create_plan: None,
    };
    assert_eq!(
        ask_question_lines(&input),
        Some(vec!["same".to_string(), "other".to_string(), "same".to_string()])
    );
}

#[test]
fn only_the_last_line_is_not_repeated() {
    let mut lines = vec!["a".to_string()];
    push_unique_line(&mut lines, None);
    push_unique_line(&mut lines, Some("a".to_string()));
    assert_eq!(lines, vec!["a"]);
    push_unique_line(&mut lines, Some("b".to_string()));
    push_unique_line(&mut lines, Some("a".to_string()));
    assert_eq!(lines, vec!["a", "b", "a"]);
}

#[test]
fn first_line_skips_blank_ones() {
    assert_eq!(
        first_non_empty_line(Some("\n  \r\n\t first \nsecond")).as_deref(),
        Some("first")
    );
    assert_eq!(first_non_empty_line(Some(" \n ")), None);
    assert_eq!(first_non_empty_line(None), None);
}

#[test]
fn same_first_and_last_line_is_shown_once() {
    assert_eq!(prose_preview_from_text("x\nmiddle\nx").as_deref(), Some("x"));
    assert_eq!(prose_preview_from_text(""), None);
}

#[test]
fn preview_has_at_most_two_cut_sides() {
    let text = format!("{}\n{}", "a".repeat(500), "b".repeat(500));
    let preview = prose_preview_from_text(&text).unwrap();
    assert_eq!(preview.chars().count(), 2 * 103 + 5);
}

#[test]
fn cut_keeps_characters_whole() {
    assert_eq!(truncate_chars("  héllo ", 5), "héllo");
    assert_eq!(truncate_chars("héllo", 4), "héll...");
    assert_eq!(truncate_chars("héllo", 0), "...");
    assert_eq!(truncate_chars("   ", 0), "");
}

#[test]
fn code_lines_are_told_from_prose() {
    for line in [
        "", "  ", "```rust", "$ ls", "$", "{", "}", "};", "})", "},", "{ab", "}é", "    indented",
        "\ttabbed", "import os", "From x import y", "LET x", "pub fn", "#include <a>", "#!/bin/sh",
        "return 1", "await x", "async fn", "use std", "function f", "package p", "class C",
        "export x", "var y", "def z", "const a", "fn b",
    ] {
        assert!(looks_like_code_line(line), "{line:?}");
    }
    for line in [
        "prose", "$5 each", "{abc", "}éé", "importance", "letter", "  two spaces", "# heading",
        "returned", "classes",
    ] {
        assert!(!looks_like_code_line(line), "{line:?}");
    }
}

#[test]
fn fences_hide_what_is_between_them() {
    assert_eq!(strip_fenced_code("a\n  ```x\nb\n```\nc"), "a\nc");
    assert_eq!(strip_fenced_code("a\n```\nb\n\nc\n```\nd"), strip_fenced_code("a\nd"));
    assert_eq!(strip_fenced_code("```\nnever closed"), "");
    assert_eq!(strip_fenced_code("\n\na"), "a");
    assert_eq!(strip_fenced_code("a\n\nb\n"), "a\n\nb");
}

#[test]
fn inline_markup_is_taken_off() {
    for (text, expected) in [
        ("plain text", "plain text"),
        ("[a **b**](u)!", "a b!"),
        ("[a]", "[a]"),
        ("[a](u", "[a](u"),
        ("[a\nb](u)", "[a\nb](u)"),
        ("**a *b* c**", "a b c"),
        ("__a__ ~~b~~", "a b"),
        ("****", "****"),
        ("**a\nb**", "**a\nb**"),
        ("`a*b*`", "a*b*"),
        ("``", "``"),
        ("*a*", "a"),
        ("_a_", "a"),
        ("snake_case_name", "snake_case_name"),
        ("_snake_case_", "snake_case"),
        ("_ a_", "_ a_"),
        ("# h\n## i\n#j", "h\ni\n#j"),
        ("a # b", "a # b"),
        ("##", "##"),
        ("é **ü**", "é ü"),
    ] {
        assert_eq!(strip_inline_markdown(text), expected, "{text:?}");
    }
}

#[test]
fn text_without_markup_stays() {
    let text = "No markup here: (a) {b} <c> \\ ] - + = | é\n\tand more.";
    assert_eq!(strip_inline_markdown(text), text);
}

#[test]
fn stripping_keeps_lines_and_adds_nothing() {
    let text = "# A *b*\n**c** [d](e)\n\n`f` _g_ ~~h~~\n";
    let stripped = strip_inline_markdown(text);
    assert_eq!(stripped, "A b\nc d\n\nf g h\n");
    assert_eq!(stripped.matches('\n').count(), text.matches('\n').count());
    assert!(stripped.chars().count() <= text.chars().count());
}

#[test]
fn delimiters_are_found_on_their_line() {
    assert_eq!(find_closing_single(&chars("*ab*"), 0, '*'), Some(3));
    assert_eq!(find_closing_single(&chars("**"), 0, '*'), None);
    assert_eq!(find_closing_single(&chars("*a\n*"), 0, '*'), None);
    assert_eq!(find_closing_single(&chars("*a"), 0, '*'), None);
    assert_eq!(find_closing_single(&chars("*a"), 9, '*'), None);

    assert_eq!(find_closing_underscore(&chars("_a_b_"), 0), Some(4));
    assert_eq!(find_closing_underscore(&chars("__"), 0), None);
    assert_eq!(find_closing_underscore(&chars("_a\n_"), 0), None);

    assert!(is_markdown_underscore_open(&chars("_a"), 0));
    assert!(!is_markdown_underscore_open(&chars("x_a"), 1));
    assert!(!is_markdown_underscore_open(&chars("__"), 0));
    assert!(!is_markdown_underscore_open(&chars("_ "), 0));
    assert!(!is_markdown_underscore_open(&chars("_"), 0));

    let delims = ["**", "__", "~~"];
    assert_eq!(parse_delimited_span(&chars("**a**b"), 0, &delims), Some((2, 5)));
    assert_eq!(parse_delimited_span(&chars("x~~a~~"), 1, &delims), Some((2, 6)));
    assert_eq!(parse_delimited_span(&chars("****"), 0, &delims), None);
    assert_eq!(parse_delimited_span(&chars("**a\n**"), 0, &delims), None);
    assert_eq!(parse_delimited_span(&chars("ab"), 2, &delims), None);

    assert_eq!(
        parse_markdown_link(&chars("x[*l*](u)y"), 1),
        Some(("l".to_string(), 9))
    );
    assert_eq!(parse_markdown_link(&chars("[l] (u)"), 0), None);
    assert_eq!(parse_markdown_link(&chars("[l](u"), 0), None);
    assert_eq!(parse_markdown_link(&chars("[l](\n)"), 0), None);
    assert_eq!(parse_markdown_link(&chars("l"), 5), None);
}
