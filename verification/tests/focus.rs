use herdr_focus_notify::focus::{
    agent_context_body_from_agent_list, agent_workspace_id, bundle_id_from_output,
    bundle_id_script, cache_current_sway_container_for_pane, compose_notification_body,
    configured_app_is_frontmost, cwd_basename, enrich_notification_body, find_agent,
    first_non_empty, focused_pane_id_from_agent_list, focused_sway_container_id_from_value,
    notification_decision, notification_decision_for_linux,
    notification_decision_from_focus_and_bundles, pane_is_focused,
    should_clear_notification_on_focus, sway_container_id_from_output, test_notification, truncate,
    workspace_display_name, workspace_label_from_workspace_get, AgentInfo, AgentListEnvelope,
    AgentListResult, AgentSession, Desktop, NotificationDecision, WorkspaceGetEnvelope,
    WorkspaceGetResult, WorkspaceInfo,
};
use herdr_focus_notify::json::{get_field, parse_json, Json};
use herdr_focus_notify::live_session::{
    cursor_agent_pids_from_process_info, is_plausible_session_id, live_cursor_session_id,
    looks_like_cursor_agent, next_process, probe_process, session_id_from_chat_store_path,
    session_id_from_linux_proc_fds, session_id_from_lsof, session_id_from_process_fds,
    ForegroundProcess, LiveStep, ProcessInfo, ProcessInfoEnvelope, ProcessInfoResult,
};
use serde_json::Value;

fn text(value: &Value, key: &str) -> Option<String> {
    value.get(key).and_then(Value::as_str).map(str::to_string)
}

fn number(value: &Value, key: &str) -> Option<u32> {
    value.get(key).and_then(Value::as_u64).map(|n| n as u32)
}

fn agent(value: &Value) -> AgentInfo {
    AgentInfo {
        focused: value.get("focused").and_then(Value::as_bool).unwrap(),
        agent: text(value, "agent"),
        pane_id: text(value, "pane_id"),
        cwd: text(value, "cwd"),
        workspace_id: text(value, "workspace_id"),
        terminal_title: text(value, "terminal_title"),
        terminal_title_stripped: text(value, "terminal_title_stripped"),
        agent_session: value
            .get("agent_session")
            .map(|session| AgentSession { value: text(session, "value") }),
    }
}

fn agent_list(json: &str) -> AgentListEnvelope {
    let value: Value = serde_json::from_str(json).unwrap();
    AgentListEnvelope {
        result: value.get("result").map(|result| AgentListResult {
            agents: result["agents"].as_array().unwrap().iter().map(agent).collect(),
        }),
    }
}

fn workspace_get(json: &str) -> WorkspaceGetEnvelope {
    let value: Value = serde_json::from_str(json).unwrap();
    WorkspaceGetEnvelope {
        result: value.get("result").map(|result| WorkspaceGetResult {
            workspace: result
                .get("workspace")
                .map(|workspace| WorkspaceInfo { label: text(workspace, "label") }),
        }),
    }
}

fn process(value: &Value) -> ForegroundProcess {
    ForegroundProcess {
        pid: number(value, "pid"),
        cmdline: text(value, "cmdline"),
        argv: value.get("argv").and_then(Value::as_array).map(|argv| {
            argv.iter()
                .map(|arg| arg.as_str().unwrap().to_string())
                .collect()
        }),
    }
}

fn process_info(json: &str) -> ProcessInfoEnvelope {
    let value: Value = serde_json::from_str(json).unwrap();
    ProcessInfoEnvelope {
        result: value.get("result").map(|result| ProcessInfoResult {
            process_info: result.get("process_info").map(|info| ProcessInfo {
                foreground_process_group_id: number(info, "foreground_process_group_id"),
                foreground_processes: info
                    .get("foreground_processes")
                    .and_then(Value::as_array)
                    .map(|processes| processes.iter().map(process).collect()),
            }),
        }),
    }
}

fn owned(text: &str) -> Option<String> {
    Some(text.to_string())
}

#[test]
fn finds_focused_pane_from_agent_list_json() {
    let json = r#"{
        "id": "cli:agent:list",
        "result": {
            "agents": [
                {"agent": "codex", "focused": false, "pane_id": "w1:p1"},
                {"agent": "kimi", "focused": true, "pane_id": "w1:p2"}
            ]
        }
    }"#;

    assert_eq!(
        focused_pane_id_from_agent_list(&agent_list(json)),
        Some("w1:p2".to_string())
    );
}

#[test]
fn decides_linux_notifications_from_sway_container_visibility() {
    assert_eq!(
        notification_decision_for_linux(false, Some("11".to_string()), Some("11".to_string())),
        NotificationDecision::Send
    );
    assert_eq!(
        notification_decision_for_linux(true, Some("11".to_string()), Some("11".to_string())),
        NotificationDecision::Skip
    );
    assert_eq!(
        notification_decision_for_linux(true, Some("11".to_string()), Some("22".to_string())),
        NotificationDecision::Send
    );
    assert_eq!(
        notification_decision_for_linux(true, Some("11".to_string()), None),
        NotificationDecision::Send
    );
}

#[test]
fn decides_when_to_skip_or_monitor_notifications() {
    assert_eq!(
        notification_decision_from_focus_and_bundles(
            true,
            Some("com.example.Herdr".to_string()),
            Some("com.example.Herdr".to_string())
        ),
        NotificationDecision::Skip
    );
    assert_eq!(
        notification_decision_from_focus_and_bundles(
            true,
            Some("com.example.Herdr".to_string()),
            Some("com.apple.Terminal".to_string())
        ),
        NotificationDecision::SendWithVisibilityMonitor
    );
    assert_eq!(
        notification_decision_from_focus_and_bundles(
            true,
            None,
            Some("com.example.Herdr".to_string())
        ),
        NotificationDecision::Send
    );
    assert_eq!(
        notification_decision_from_focus_and_bundles(
            true,
            Some("com.example.Herdr".to_string()),
            None
        ),
        NotificationDecision::Send
    );
    assert_eq!(
        notification_decision_from_focus_and_bundles(
            false,
            Some("com.example.Herdr".to_string()),
            Some("com.example.Herdr".to_string())
        ),
        NotificationDecision::Send
    );
}

#[test]
fn confirms_configured_app_is_frontmost_only_for_matching_bundle_ids() {
    assert!(configured_app_is_frontmost(
        Some("com.example.Herdr".to_string()),
        Some("com.example.Herdr".to_string())
    ));
    assert!(!configured_app_is_frontmost(
        Some("com.example.Herdr".to_string()),
        Some("com.apple.Terminal".to_string())
    ));
    assert!(!configured_app_is_frontmost(
        None,
        Some("com.example.Herdr".to_string())
    ));
}

#[test]
fn finds_focused_sway_container_id_from_tree() {
    let json = parse_json(
        br#"{
            "id": 1,
            "focused": false,
            "nodes": [
                {
                    "id": 2,
                    "focused": false,
                    "nodes": [
                        {"id": 42, "focused": true, "nodes": []}
                    ]
                }
            ],
            "floating_nodes": []
        }"#,
    )
    .unwrap();

    assert_eq!(
        focused_sway_container_id_from_value(&json),
        Some("42".to_string())
    );
}

#[test]
fn builds_context_body_from_cwd_and_terminal_title() {
    let json = r#"{
        "result": {
            "agents": [
                {
                    "agent": "cursor",
                    "focused": false,
                    "pane_id": "w13:p1",
                    "cwd": "/home/sungsik/projects/real-fake-peripheral",
                    "terminal_title": "Hello There",
                    "terminal_title_stripped": "Hello There"
                }
            ]
        }
    }"#;

    assert_eq!(
        agent_context_body_from_agent_list("w13:p1", &agent_list(json), None, None),
        Some("real-fake-peripheral · Hello There".to_string())
    );
}

#[test]
fn prefers_workspace_label_over_cwd_basename() {
    let json = r#"{
        "result": {
            "agents": [
                {
                    "agent": "cursor",
                    "focused": false,
                    "pane_id": "w1K:p2",
                    "cwd": "/home/sungsik/.config",
                    "workspace_id": "w1K",
                    "terminal_title": "Hello",
                    "terminal_title_stripped": "Hello"
                }
            ]
        }
    }"#;

    assert_eq!(
        agent_context_body_from_agent_list("w1K:p2", &agent_list(json), Some("project: dotfiles"), None),
        Some("dotfiles · Hello".to_string())
    );
}

#[test]
fn strips_navigator_style_workspace_labels() {
    assert_eq!(
        workspace_display_name("project: ree-drive").as_deref(),
        Some("ree-drive")
    );
    assert_eq!(workspace_display_name("dir: vifm").as_deref(), Some("vifm"));
    assert_eq!(workspace_display_name("~").as_deref(), Some("~"));
    assert_eq!(
        workspace_display_name("project:ree-drive").as_deref(),
        Some("project:ree-drive")
    );
}

#[test]
fn parses_workspace_label_from_workspace_get_json() {
    let json = r#"{
        "id": "cli:workspace:get",
        "result": {
            "type": "workspace_info",
            "workspace": {
                "label": "project: ask",
                "workspace_id": "w1J"
            }
        }
    }"#;

    assert_eq!(
        workspace_label_from_workspace_get(&workspace_get(json)).as_deref(),
        Some("project: ask")
    );
}

#[test]
fn prefers_answer_preview_over_session_title() {
    assert_eq!(
        compose_notification_body(
            Some("dotfiles"),
            Some("Latest answer first line."),
            Some("Session From First Question")
        ),
        Some("dotfiles · Latest answer first line.".to_string())
    );
}

#[test]
fn falls_back_to_session_title_without_answer_preview() {
    assert_eq!(
        compose_notification_body(Some("dotfiles"), None, Some("Session From First Question")),
        Some("dotfiles · Session From First Question".to_string())
    );
}

#[test]
fn truncates_notification_body_to_120_chars() {
    let long = "x".repeat(200);
    let body = compose_notification_body(Some("proj"), Some(&long), None).unwrap();
    assert_eq!(body.chars().count(), 120);
    assert!(body.ends_with("..."));
    assert!(body.starts_with("proj · "));
}

#[test]
fn builds_context_body_from_cwd_only() {
    let json = r#"{
        "result": {
            "agents": [
                {
                    "focused": false,
                    "pane_id": "w1:p1",
                    "cwd": "/tmp/project"
                }
            ]
        }
    }"#;

    assert_eq!(
        agent_context_body_from_agent_list("w1:p1", &agent_list(json), None, None),
        Some("project".to_string())
    );
}

#[test]
fn returns_none_when_pane_missing_from_agent_list() {
    let json = r#"{
        "result": {
            "agents": [
                {"focused": false, "pane_id": "w1:p1", "cwd": "/tmp/project"}
            ]
        }
    }"#;

    assert_eq!(
        agent_context_body_from_agent_list("w1:p9", &agent_list(json), None, None),
        None
    );
}

#[test]
fn parses_session_id_from_chat_store_path() {
    let path = "/home/sungsik/.cursor/chats/d42b9c57d24cf5db3bd8d332dc35437f/0d5f7b87-55e7-4904-b4a5-908d3d3f634c/store.db";
    assert_eq!(
        session_id_from_chat_store_path(path).as_deref(),
        Some("0d5f7b87-55e7-4904-b4a5-908d3d3f634c")
    );
    assert_eq!(session_id_from_chat_store_path("/tmp/store.db"), None);
}

#[test]
fn extracts_cursor_agent_pids_from_process_info() {
    let json = r#"{
      "id":"cli:pane:process_info",
      "result":{
        "type":"pane_process_info",
        "process_info":{
          "pane_id":"w1J:p1",
          "shell_pid":223036,
          "foreground_process_group_id":290942,
          "foreground_processes":[
            {
              "pid":290942,
              "name":"MainThread",
              "cwd":"/tmp",
              "cmdline":"/home/sungsik/.local/bin/agent --use-system-ca /home/sungsik/.local/share/cursor-agent/versions/x/index.js",
              "argv":["/home/sungsik/.local/bin/agent","--use-system-ca","/home/sungsik/.local/share/cursor-agent/versions/x/index.js"]
            }
          ]
        }
      }
    }"#;

    assert_eq!(
        cursor_agent_pids_from_process_info(&process_info(json)),
        Some(vec![290942])
    );
}

#[test]
fn reads_only_what_names_the_pane() {
    let json = r#"{"result": {"agents": [
        {"focused": true},
        {"focused": true, "pane_id": "  "},
        {"focused": false, "pane_id": "w1:p1", "cwd": "/a"},
        {"focused": true, "pane_id": " w1:p2\n", "cwd": "/b"},
        {"focused": true, "pane_id": "w1:p2", "cwd": "/c"}
    ]}}"#;
    let list = agent_list(json);
    assert_eq!(focused_pane_id_from_agent_list(&list), owned("w1:p2"));
    assert_eq!(find_agent(&list, "w1:p2").unwrap().cwd, owned("/b"));
    assert!(find_agent(&list, " w1:p2").is_none());
    let empty = AgentListEnvelope { result: None };
    assert_eq!(focused_pane_id_from_agent_list(&empty), None);
    assert!(find_agent(&empty, "w1:p2").is_none());
}

#[test]
fn workspace_is_asked_for_only_where_named() {
    let list = agent_list(
        r#"{"result": {"agents": [
            {"focused": false, "pane_id": "a", "workspace_id": " w1 "},
            {"focused": false, "pane_id": "b", "workspace_id": " "},
            {"focused": false, "pane_id": "c"}
        ]}}"#,
    );
    assert_eq!(agent_workspace_id(find_agent(&list, "a").unwrap()), owned("w1"));
    assert_eq!(agent_workspace_id(find_agent(&list, "b").unwrap()), None);
    assert_eq!(agent_workspace_id(find_agent(&list, "c").unwrap()), None);
}

#[test]
fn label_is_missing_where_any_level_is() {
    assert_eq!(workspace_label_from_workspace_get(&workspace_get("{}")), None);
    assert_eq!(
        workspace_label_from_workspace_get(&workspace_get(r#"{"result": {}}"#)),
        None
    );
    assert_eq!(
        workspace_label_from_workspace_get(&workspace_get(
            r#"{"result": {"workspace": {"label": "  "}}}"#
        )),
        None
    );
}

#[test]
fn body_names_the_workspace_or_directory_and_the_answer() {
    let list = agent_list(
        r#"{"result": {"agents": [
            {"focused": false, "pane_id": "p", "cwd": " /a/b/ ", "terminal_title": "full",
             "terminal_title_stripped": "  "}
        ]}}"#,
    );
    assert_eq!(
        agent_context_body_from_agent_list("p", &list, Some("  "), Some("answer")),
        owned("b · answer")
    );
    assert_eq!(
        agent_context_body_from_agent_list("p", &list, Some("x: y"), None),
        owned("y · full")
    );
}

#[test]
fn body_falls_back_to_what_is_known() {
    assert_eq!(compose_notification_body(None, Some(" a "), None), owned("a"));
    assert_eq!(compose_notification_body(None, Some("  "), Some("t")), owned("t"));
    assert_eq!(compose_notification_body(Some("p"), Some("  "), None), owned("p"));
    assert_eq!(compose_notification_body(None, None, Some("\n")), None);
    assert_eq!(
        compose_notification_body(Some("p"), Some("a"), Some("t")),
        compose_notification_body(Some("p"), Some("a"), Some("other"))
    );
}

#[test]
fn cut_text_keeps_its_beginning() {
    assert_eq!(truncate("  abcdef ", 6), "abcdef");
    assert_eq!(truncate("abcdefg", 6), "abc...");
    assert_eq!(truncate("äöüß", 3), "...");
    assert_eq!(truncate("abc", 2), "...");
    assert_eq!(truncate(" ", 0), "");
}

#[test]
fn directory_names_come_from_the_last_component() {
    assert_eq!(cwd_basename("/tmp/project"), owned("project"));
    assert_eq!(cwd_basename("/tmp/project/."), owned("project"));
    assert_eq!(cwd_basename("project//"), owned("project"));
    assert_eq!(cwd_basename("/"), None);
    assert_eq!(cwd_basename("/tmp/.."), None);
    assert_eq!(cwd_basename(""), None);
}

#[test]
fn labels_keep_their_text_without_a_tag() {
    assert_eq!(workspace_display_name("  "), None);
    assert_eq!(workspace_display_name(" a b: c "), owned("a b: c"));
    assert_eq!(workspace_display_name(": c"), owned(": c"));
    assert_eq!(workspace_display_name("a:\u{a0}b: c"), owned("b: c"));
    assert_eq!(workspace_display_name("a: "), owned("a:"));
    assert_eq!(workspace_display_name("a:b: c"), owned("c"));
    assert_eq!(workspace_display_name("a: b: c"), owned("b: c"));
    assert_eq!(workspace_display_name("a:b c: d"), owned("a:b c: d"));
}

#[test]
fn first_filled_value_is_trimmed() {
    assert_eq!(first_non_empty([None, Some(" "), Some(" x "), Some("y")]), Some("x"));
    assert_eq!(first_non_empty([None, Some("\t")]), None);
    assert_eq!(first_non_empty([]), None);
}

#[test]
fn pane_has_focus_only_by_its_own_name() {
    assert!(pane_is_focused("w1:p1", Some("w1:p1")));
    assert!(!pane_is_focused("w1:p1", Some("w1:p2")));
    assert!(!pane_is_focused("w1:p1", None));
}

#[test]
fn trial_notification_is_for_the_focused_pane() {
    let trial = test_notification("/bin/herdr", owned("w1:p3"));
    assert_eq!(trial.pane_id, "w1:p3");
    assert_eq!(trial.workspace_id, None);
    assert_eq!(trial.status, "blocked");
    assert_eq!(trial.title, "Herdr Focus Notify test");
    assert_eq!(trial.body, "Click to run: /bin/herdr agent focus w1:p3");
    assert_eq!(trial.group, "herdr-w1-p3");
    assert_eq!(trial.app_icon, None);
    assert_eq!(test_notification("h", None).pane_id, "test-pane");
}

#[test]
fn body_is_replaced_only_by_a_known_one() {
    let mut notification = test_notification("h", None);
    enrich_notification_body(&mut notification, None);
    assert_eq!(notification.body, "Click to run: h agent focus test-pane");
    enrich_notification_body(&mut notification, owned("new"));
    assert_eq!(notification.body, "new");
    assert_eq!(notification.pane_id, "test-pane");
}

#[test]
fn desktop_decides_with_its_own_means() {
    let linux = |cached: &str, current: &str| Desktop::Linux {
        cached: owned(cached),
        current: owned(current),
    };
    let apps = |herdr: &str, frontmost: &str| Desktop::Apps {
        herdr: owned(herdr),
        frontmost: owned(frontmost),
    };
    assert_eq!(notification_decision(true, linux("1", "1")), NotificationDecision::Skip);
    assert_eq!(notification_decision(true, linux("1", "2")), NotificationDecision::Send);
    assert_eq!(notification_decision(true, apps("a", "a")), NotificationDecision::Skip);
    assert_eq!(
        notification_decision(true, apps("a", "b")),
        NotificationDecision::SendWithVisibilityMonitor
    );
    assert_eq!(notification_decision(false, apps("a", "a")), NotificationDecision::Send);
    assert_eq!(notification_decision(false, linux("1", "1")), NotificationDecision::Send);

    assert!(should_clear_notification_on_focus(linux("1", "2")));
    assert!(should_clear_notification_on_focus(apps("a", "a")));
    assert!(!should_clear_notification_on_focus(apps("a", "b")));
    assert!(!should_clear_notification_on_focus(Desktop::Apps { herdr: None, frontmost: None }));
}

#[test]
fn container_is_kept_only_on_linux() {
    assert_eq!(cache_current_sway_container_for_pane(true, owned(" 7\n")), owned("7"));
    assert_eq!(cache_current_sway_container_for_pane(true, owned(" ")), None);
    assert_eq!(cache_current_sway_container_for_pane(true, None), None);
    assert_eq!(cache_current_sway_container_for_pane(false, owned("7")), None);
}

#[test]
fn bundle_ids_are_asked_for_and_read() {
    assert_eq!(bundle_id_script("kitty"), "id of app \"kitty\"");
    assert_eq!(bundle_id_script("a\"b\"\\"), "id of app \"a\\\"b\\\"\\\"");
    assert_eq!(bundle_id_from_output(true, Some(" com.x\n")), owned("com.x"));
    assert_eq!(bundle_id_from_output(true, Some("\n")), None);
    assert_eq!(bundle_id_from_output(true, None), None);
    assert_eq!(bundle_id_from_output(false, Some("com.x")), None);
}

#[test]
fn sway_tree_is_read_from_json_text() {
    let id = |json: &str| sway_container_id_from_output(true, json.as_bytes());
    assert_eq!(id(r#"{"focused": true, "id": 5}"#), owned("5"));
    assert_eq!(id(r#"{"focused": true, "id": "five"}"#), owned("five"));
    assert_eq!(id(r#"{"focused": true, "id": -7}"#), owned("-7"));
    assert_eq!(id(r#"{"focused": true, "id": 1.5}"#), owned("1.5"));
    assert_eq!(id(r#"{"focused": true, "id": null, "nodes": [{"focused": true, "id": 1}]}"#), None);
    assert_eq!(id(r#"{"focused": true}"#), None);
    assert_eq!(id(r#"{"focused": "true", "id": 5}"#), None);
    assert_eq!(
        id(r#"{"nodes": [{"focused": true}, {"focused": true, "id": 8}],
               "floating_nodes": [{"focused": true, "id": 9}]}"#),
        owned("8")
    );
    assert_eq!(
        id(r#"{"nodes": {"focused": true, "id": 8}, "floating_nodes": [{"focused": true, "id": 9}]}"#),
        owned("9")
    );
    assert_eq!(id("[]"), None);
    assert_eq!(id("{"), None);
    assert_eq!(id(""), None);
    assert_eq!(sway_container_id_from_output(false, br#"{"focused": true, "id": 5}"#), None);
}

#[test]
fn json_documents_keep_what_they_say() {
    let value = parse_json(br#"{"a": [null, true, 10, "t\u00e9", {"b": {}}]}"#).unwrap();
    let Some(Json::Array(items)) = get_field(&value, "a") else {
        panic!("an array is expected");
    };
    assert_eq!(items.len(), 5);
    assert!(matches!(items[0], Json::Null));
    assert!(matches!(items[1], Json::Bool(true)));
    assert!(matches!(&items[2], Json::Number(text) if text == "10"));
    assert!(matches!(&items[3], Json::Text(text) if text == "té"));
    assert!(matches!(get_field(&items[4], "b"), Some(Json::Object(fields)) if fields.is_empty()));
    assert!(get_field(&value, "b").is_none());
    assert!(get_field(&items[0], "a").is_none());
    assert!(parse_json(b"nul").is_none());
    assert!(parse_json(b"\xff").is_none());
}

#[test]
fn agents_are_known_by_their_command() {
    for text in ["CURSOR-AGENT", "/usr/Agent --x", "node agent", "bin/agent", "a /agents"] {
        assert!(looks_like_cursor_agent(text), "{text:?}");
    }
    for text in ["", "agent", "my-agent", "agent node", "cursor agent x"] {
        assert!(!looks_like_cursor_agent(text), "{text:?}");
    }
}

#[test]
fn processes_lead_to_ids_to_search() {
    let pids = |json: &str| cursor_agent_pids_from_process_info(&process_info(json));
    assert_eq!(
        pids(r#"{"result": {"process_info": {"foreground_process_group_id": 9,
            "foreground_processes": [
                {"pid": 1, "cmdline": "vim"},
                {"pid": 0, "cmdline": "cursor-agent"},
                {"pid": 3, "cmdline": "vim", "argv": ["/bin/agent", "x"]},
                {"pid": 2, "argv": ["x", "cursor-agent"]},
                {"pid": 4, "cmdline": "cursor-agent"}
            ]}}}"#),
        Some(vec![3, 4, 9])
    );
    assert_eq!(
        pids(r#"{"result": {"process_info": {"foreground_process_group_id": 9,
            "foreground_processes": [{"cmdline": "vim"}]}}}"#),
        None
    );
    assert_eq!(
        pids(r#"{"result": {"process_info": {"foreground_process_group_id": 9}}}"#),
        Some(vec![9])
    );
    assert_eq!(
        pids(r#"{"result": {"process_info": {"foreground_process_group_id": 0}}}"#),
        None
    );
    assert_eq!(pids(r#"{"result": {"process_info": {}}}"#), None);
    assert_eq!(pids(r#"{"result": {}}"#), None);
    assert_eq!(pids("{}"), None);
}

#[test]
fn session_ids_are_hexadecimal() {
    assert!(is_plausible_session_id("0123abCD"));
    assert!(is_plausible_session_id("--------"));
    assert!(!is_plausible_session_id("0123abc"));
    assert!(!is_plausible_session_id("0123abcg"));
    assert!(!is_plausible_session_id("éééé"));
}

#[test]
fn stores_lie_at_a_fixed_depth() {
    let id = |path: &str| session_id_from_chat_store_path(path);
    assert_eq!(id("chats/h/01234567/store.db"), owned("01234567"));
    assert_eq!(id("/x/chats//h/./01234567/store.db/"), owned("01234567"));
    assert_eq!(id("/x/chats/01234567/store.db"), None);
    assert_eq!(id("/x/chats/h/01234567/other.db"), None);
    assert_eq!(id("/x/chats/h/0123456z/store.db"), None);
    assert_eq!(id("/x/chats/h/i/01234567/store.db"), None);
    assert_eq!(id(""), None);
}

#[test]
fn open_files_give_the_first_session() {
    let store = |id: &str| Some(format!("/c/chats/h/{id}/store.db"));
    assert_eq!(
        session_id_from_linux_proc_fds(&vec![owned("/dev/null"), store("aaaaaaaa"), store("bbbbbbbb")]),
        owned("aaaaaaaa")
    );
    assert_eq!(session_id_from_linux_proc_fds(&vec![None, store("aaaaaaaa")]), None);
    assert_eq!(session_id_from_linux_proc_fds(&vec![]), None);

    assert_eq!(
        session_id_from_lsof("p12\nf1\nn/dev/null\r\nn/c/chats/h/aaaaaaaa/store.db\n"),
        owned("aaaaaaaa")
    );
    assert_eq!(session_id_from_lsof("/c/chats/h/aaaaaaaa/store.db\n"), None);
}

#[test]
fn search_goes_from_process_to_process() {
    assert!(matches!(live_cursor_session_id(None, Some("h")), LiveStep::Finish(None)));
    assert!(matches!(live_cursor_session_id(Some(" "), Some("h")), LiveStep::Finish(None)));
    assert!(matches!(live_cursor_session_id(Some("p"), None), LiveStep::Finish(None)));
    match live_cursor_session_id(Some(" p "), Some("h\n")) {
        LiveStep::ListProcesses { herdr_bin, pane_id } => {
            assert_eq!(herdr_bin, "h");
            assert_eq!(pane_id, "p");
        }
        _ => panic!("the processes are to be listed"),
    }

    let pids = [5u32, 6];
    let store = "/c/chats/h/aaaaaaaa/store.db";
    let line = format!("n{store}");
    assert!(matches!(probe_process(&pids, 0), LiveStep::ReadFdLinks(5)));
    assert!(matches!(probe_process(&pids, 2), LiveStep::Finish(None)));
    assert!(matches!(session_id_from_process_fds(5, None), LiveStep::RunLsof(5)));
    assert!(matches!(
        session_id_from_process_fds(5, Some(vec![owned("/x")])),
        LiveStep::RunLsof(5)
    ));
    assert!(matches!(
        session_id_from_process_fds(5, Some(vec![owned(store)])),
        LiveStep::Finish(Some(id)) if id == "aaaaaaaa"
    ));
    assert!(matches!(next_process(&pids, 0, None), LiveStep::ReadFdLinks(6)));
    assert!(matches!(next_process(&pids, 0, Some("x")), LiveStep::ReadFdLinks(6)));
    assert!(matches!(next_process(&pids, 1, None), LiveStep::Finish(None)));
    assert!(matches!(
        next_process(&pids, 0, Some(&line)),
        LiveStep::Finish(Some(id)) if id == "aaaaaaaa"
    ));
}
