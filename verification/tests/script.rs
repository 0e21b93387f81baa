use herdr_focus_notify::notification::FocusNotification;
use herdr_focus_notify::script::{
    activation_command, activation_command_from, activation_script, alerter_focus_script,
    debug_log_path, focus_script_content, focus_script_path, linux_focus_script, sway_focus_script,
    workspace_focus_script, ScriptSettings,
};

const STATE_DIR: &str = "/tmp/state dir";

fn sample_notification() -> FocusNotification {
    FocusNotification {
        pane_id: "w1:p3".to_string(),
        workspace_id: Some("w1".to_string()),
        status: "blocked".to_string(),
        title: "Codex needs attention".to_string(),
        body: "Needs an answer".to_string(),
        group: "herdr-w1-p3".to_string(),
        app_icon: Some("/tmp/codex icon.png".to_string()),
    }
}

fn settings(linux: bool) -> ScriptSettings {
    ScriptSettings {
        linux,
        sway_container_id: Some("123".to_string()),
        alerter_timeout_secs: 3600,
        activate_app: Some("kitty".to_string()),
        state_dir: STATE_DIR.to_string(),
    }
}

#[test]
fn focus_script_can_include_debug_click_log() {
    let notification = FocusNotification {
        pane_id: "pane ' one".to_string(),
        workspace_id: None,
        status: "blocked".to_string(),
        title: "x".to_string(),
        body: "y".to_string(),
        group: "g".to_string(),
        app_icon: None,
    };
    let script = alerter_focus_script(
        &notification,
        "/tmp/herdr bin",
        "/opt/homebrew/bin/alerter",
        3600,
        None,
        None,
        Some("/tmp/focus clicks.log"),
        STATE_DIR,
    );

    assert!(script.contains("alerter status=%s result=%s"));
    assert!(script.contains(">> '/tmp/focus clicks.log' 2>&1"));
    assert!(script.contains("'/tmp/herdr bin' agent focus 'pane '\\'' one'"));
    assert!(script.contains("focus exited %s"));
    assert!(script.contains("exit \"$status\""));
}

#[test]
fn alerter_script_invokes_alerter_and_runs_focus_on_click() {
    let script = alerter_focus_script(
        &sample_notification(),
        "/usr/local/bin/herdr",
        "/opt/homebrew/bin/alerter",
        3600,
        None,
        None,
        None,
        STATE_DIR,
    );

    assert!(script.starts_with("#!/bin/sh\n"));
    assert!(script.contains("'/opt/homebrew/bin/alerter' --title 'Codex needs attention'"));
    assert!(script.contains("--message 'Needs an answer'"));
    assert!(script.contains("--group 'herdr-w1-p3'"));
    assert!(script.contains("--app-icon '/tmp/codex icon.png'"));
    assert!(script.contains("--actions 'Focus'"));
    assert!(script.contains("--close-label 'Dismiss'"));
    assert!(script.contains(".cleared' ] && exit 0"));
    assert!(
        script.find(".cleared' ] && exit 0").unwrap()
            < script.find("'/opt/homebrew/bin/alerter' --title").unwrap()
    );
    assert!(script.contains("notifier_status=$(cat \"$status_path\""));
    assert!(script.contains("exit \"$notifier_status\""));
    assert!(script.contains("Focus|@ACTIONCLICKED|@CONTENTCLICKED)"));
    assert!(script.contains("exec '/usr/local/bin/herdr' agent focus 'w1:p3'"));
}

#[test]
fn alerter_script_includes_timeout_when_configured() {
    let script = alerter_focus_script(
        &sample_notification(),
        "/usr/local/bin/herdr",
        "/opt/homebrew/bin/alerter",
        120,
        None,
        None,
        None,
        STATE_DIR,
    );

    assert!(script.contains("--timeout 120"));
}

#[test]
fn alerter_script_omits_timeout_when_zero() {
    let script = alerter_focus_script(
        &sample_notification(),
        "/usr/local/bin/herdr",
        "/opt/homebrew/bin/alerter",
        0,
        None,
        None,
        None,
        STATE_DIR,
    );

    assert!(!script.contains("--timeout"));
}

#[test]
fn alerter_debug_script_logs_result() {
    let script = alerter_focus_script(
        &sample_notification(),
        "/usr/local/bin/herdr",
        "/opt/homebrew/bin/alerter",
        1800,
        None,
        None,
        Some("/tmp/click.log"),
        STATE_DIR,
    );

    assert!(script.contains("alerter status=%s result=%s"));
    assert!(script.contains(">> '/tmp/click.log' 2>&1"));
    assert!(script.contains("notifier_status=$(cat \"$status_path\""));
    assert!(script.contains("status=0\n"));
    assert!(script.contains("focus exited %s"));
    assert!(script.contains("Focus|@ACTIONCLICKED|@CONTENTCLICKED)"));
    assert!(!script.contains("content click ignored"));
}

#[test]
fn alerter_script_includes_activation_when_configured() {
    let script = alerter_focus_script(
        &sample_notification(),
        "/usr/local/bin/herdr",
        "/opt/homebrew/bin/alerter",
        3600,
        Some("open -a 'kitty'"),
        None,
        None,
        STATE_DIR,
    );

    assert!(script.contains("open -a 'kitty' >/dev/null 2>&1"));
    assert!(script.contains("exec '/usr/local/bin/herdr' agent focus 'w1:p3'"));
}

#[test]
fn alerter_script_monitors_visibility_after_starting_the_notifier() {
    let script = alerter_focus_script(
        &sample_notification(),
        "/usr/local/bin/herdr",
        "/opt/homebrew/bin/alerter",
        3600,
        Some("open -a 'kitty'"),
        Some("/tmp/herdr-focus-notify"),
        None,
        STATE_DIR,
    );

    assert!(script.contains("notifier_pid=$!"));
    assert!(script.contains("while kill -0 \"$notifier_pid\" 2>/dev/null"));
    assert!(script.contains("kill -0 \"$notifier_pid\" 2>/dev/null || exit 0"));
    assert!(script.contains("'/tmp/herdr-focus-notify' --check-pane-visibility 'w1:p3'"));
    assert!(script.contains("'/opt/homebrew/bin/alerter' --remove 'herdr-w1-p3'"));
    assert!(
        script.find("notifier_pid=$!").unwrap()
            < script.find("while kill -0 \"$notifier_pid\"").unwrap()
    );
    assert!(script.contains("kill \"$monitor_pid\" 2>/dev/null"));
}

#[test]
fn activation_command_opens_app_names_and_paths() {
    assert_eq!(
        activation_command_from("kitty".to_string()),
        "open -a 'kitty'".to_string()
    );
    assert_eq!(
        activation_command_from("/Applications/kitty.app".to_string()),
        "open '/Applications/kitty.app'".to_string()
    );
}

#[test]
fn linux_script_invokes_dbus_helper_and_focuses_sway_container() {
    let script = linux_focus_script(
        &sample_notification(),
        "/var/home/sungsik/.local/bin/herdr",
        "/plugin/scripts/linux-notify-wait.py",
        Some("123"),
        None,
        STATE_DIR,
    );

    assert!(script.contains("run_host python3 '/plugin/scripts/linux-notify-wait.py'"));
    assert!(script.contains("printf '%s' \"$notification_id\" >"));
    assert!(script.contains("run_host swaymsg \"[con_id=$(printf '%s' '123')]\" focus"));
    assert!(script.contains("*default*)"));
    assert!(!script.contains("*focus*)"));
    assert!(script.contains("exec '/var/home/sungsik/.local/bin/herdr' agent focus 'w1:p3'"));
    assert!(!script.contains("app_id=kitty"));
}

#[test]
fn linux_script_falls_back_to_notify_send_override() {
    let script = linux_focus_script(
        &sample_notification(),
        "/var/home/sungsik/.local/bin/herdr",
        "/usr/bin/notify-send",
        Some("123"),
        None,
        STATE_DIR,
    );

    assert!(script.contains("run_host '/usr/bin/notify-send' --print-id -A default=Focus --wait"));
    assert!(!script.contains("-A focus=Focus"));
    assert!(script.contains("printf '%s' \"$notification_id\" >"));
    assert!(script.contains("run_host swaymsg \"[con_id=$(printf '%s' '123')]\" focus"));
    assert!(script.contains("'/var/home/sungsik/.local/bin/herdr' workspace focus 'w1'"));
    assert!(script.contains("exec '/var/home/sungsik/.local/bin/herdr' agent focus 'w1:p3'"));
    assert!(!script.contains("app_id=kitty"));
}

#[test]
fn linux_debug_script_logs_missing_sway_container_and_still_focuses_pane() {
    let script = linux_focus_script(
        &sample_notification(),
        "/var/home/sungsik/.local/bin/herdr",
        "/plugin/scripts/linux-notify-wait.py",
        None,
        Some("/tmp/focus-click.log"),
        STATE_DIR,
    );

    assert!(script.contains("notifier status=%s result=%s"));
    assert!(script.contains("sway focus unavailable: no cached container id"));
    assert!(script.contains("run_host python3 '/plugin/scripts/linux-notify-wait.py'"));
    assert!(script.contains("*default*)"));
    assert!(!script.contains("*focus*)"));
    assert!(script.contains("'/var/home/sungsik/.local/bin/herdr' workspace focus 'w1'"));
    assert!(script.contains("'/var/home/sungsik/.local/bin/herdr' agent focus 'w1:p3' >> '/tmp/focus-click.log' 2>&1"));
}

#[test]
fn linux_script_focuses_pane_without_workspace_when_missing() {
    let mut notification = sample_notification();
    notification.workspace_id = None;
    let script = linux_focus_script(
        &notification,
        "/var/home/sungsik/.local/bin/herdr",
        "/usr/bin/notify-send",
        Some("123"),
        None,
        STATE_DIR,
    );

    assert!(!script.contains(" workspace focus "));
    assert!(script.contains("exec '/var/home/sungsik/.local/bin/herdr' agent focus 'w1:p3'"));
}

#[test]
fn linux_script_text_with_helper() {
    let expected = r#"#!/bin/sh
run_host() {
  if command -v "$1" >/dev/null 2>&1; then
    "$@"
  elif command -v flatpak-spawn >/dev/null 2>&1; then
    flatpak-spawn --host "$@"
  else
    return 127
  fi
}
[ -e '/tmp/state dir/herdr-w1-p3.cleared' ] && exit 0
mkdir -p "$(dirname '/tmp/state dir/linux-notifications/herdr-w1-p3')"
result_path=$(mktemp '/tmp/state dir/herdr-w1-p3.cleared.result.XXXXXX') || exit 1
status_path=$(mktemp '/tmp/state dir/herdr-w1-p3.cleared.status.XXXXXX') || { rm -f "$result_path"; exit 1; }
id_watcher_pid=
cleanup() {
  [ -z "$id_watcher_pid" ] || kill "$id_watcher_pid" 2>/dev/null
  rm -f "$result_path" "$status_path" '/tmp/state dir/linux-notifications/herdr-w1-p3'
}
trap cleanup EXIT
(
  run_host python3 '/plugin/scripts/linux-notify-wait.py' 'Codex needs attention' 'Needs an answer' > "$result_path" 2>/dev/null
  printf '%s' "$?" > "$status_path"
) &
notifier_pid=$!
(
  while kill -0 "$notifier_pid" 2>/dev/null; do
    notification_id=$(sed -n 's/^\([0-9][0-9]*\)$/\1/p' "$result_path" 2>/dev/null | tail -n 1)
    if [ -n "$notification_id" ]; then
      printf '%s' "$notification_id" > '/tmp/state dir/linux-notifications/herdr-w1-p3'
      exit 0
    fi
    sleep 0.1
  done
) &
id_watcher_pid=$!
wait "$notifier_pid"
kill "$id_watcher_pid" 2>/dev/null
wait "$id_watcher_pid" 2>/dev/null
id_watcher_pid=
notifier_status=$(cat "$status_path" 2>/dev/null || printf '1')
result=$(cat "$result_path")
rm -f "$result_path" "$status_path" '/tmp/state dir/linux-notifications/herdr-w1-p3'
if [ "$notifier_status" -ne 0 ]; then
    exit "$notifier_status"
fi
case "$result" in
  *default*)
    if [ -n '123' ]; then
      run_host swaymsg "[con_id=$(printf '%s' '123')]" focus >/dev/null 2>&1 || printf '%s\n' 'herdr-focus-notify: sway focus unavailable' >&2
    else
      printf '%s\n' 'herdr-focus-notify: sway focus unavailable: no cached container id' >&2
    fi
    '/usr/bin/herdr' workspace focus 'w1' >/dev/null 2>&1 || printf '%s\n' 'herdr-focus-notify: workspace focus unavailable' >&2
    exec '/usr/bin/herdr' agent focus 'w1:p3'
    ;;
esac
"#;
    let script = focus_script_content(
        &sample_notification(),
        "/usr/bin/herdr",
        "/plugin/scripts/linux-notify-wait.py",
        Some("/opt/notify"),
        None,
        &settings(true),
    );

    assert_eq!(script, expected);
}

#[test]
fn linux_script_text_with_notify_send_and_log() {
    let expected = r#"#!/bin/sh
run_host() {
  if command -v "$1" >/dev/null 2>&1; then
    "$@"
  elif command -v flatpak-spawn >/dev/null 2>&1; then
    flatpak-spawn --host "$@"
  else
    return 127
  fi
}
[ -e '/tmp/state dir/herdr-w1-p3.cleared' ] && exit 0
mkdir -p "$(dirname '/tmp/state dir/linux-notifications/herdr-w1-p3')"
result_path=$(mktemp '/tmp/state dir/herdr-w1-p3.cleared.result.XXXXXX') || exit 1
status_path=$(mktemp '/tmp/state dir/herdr-w1-p3.cleared.status.XXXXXX') || { rm -f "$result_path"; exit 1; }
id_watcher_pid=
cleanup() {
  [ -z "$id_watcher_pid" ] || kill "$id_watcher_pid" 2>/dev/null
  rm -f "$result_path" "$status_path" '/tmp/state dir/linux-notifications/herdr-w1-p3'
}
trap cleanup EXIT
(
  run_host '/usr/bin/notify-send' --print-id -A default=Focus --wait 'Codex needs attention' 'Needs an answer' > "$result_path" 2>/dev/null
  printf '%s' "$?" > "$status_path"
) &
notifier_pid=$!
(
  while kill -0 "$notifier_pid" 2>/dev/null; do
    notification_id=$(sed -n 's/^\([0-9][0-9]*\)$/\1/p' "$result_path" 2>/dev/null | tail -n 1)
    if [ -n "$notification_id" ]; then
      printf '%s' "$notification_id" > '/tmp/state dir/linux-notifications/herdr-w1-p3'
      exit 0
    fi
    sleep 0.1
  done
) &
id_watcher_pid=$!
wait "$notifier_pid"
kill "$id_watcher_pid" 2>/dev/null
wait "$id_watcher_pid" 2>/dev/null
id_watcher_pid=
notifier_status=$(cat "$status_path" 2>/dev/null || printf '1')
result=$(cat "$result_path")
rm -f "$result_path" "$status_path" '/tmp/state dir/linux-notifications/herdr-w1-p3'
printf '%s notifier status=%s result=%s\n' "$(date -u '+%Y-%m-%dT%H:%M:%SZ')" "$notifier_status" "$result" >> '/tmp/focus click.log' 2>&1
if [ "$notifier_status" -ne 0 ]; then
    exit "$notifier_status"
fi
status=0
case "$result" in
  *default*)
    if [ -n '' ]; then
      run_host swaymsg "[con_id=$(printf '%s' '')]" focus >> '/tmp/focus click.log' 2>&1 || printf '%s sway focus unavailable for con_id=%s\n' "$(date -u '+%Y-%m-%dT%H:%M:%SZ')" '' >> '/tmp/focus click.log' 2>&1
    else
      printf '%s sway focus unavailable: no cached container id\n' "$(date -u '+%Y-%m-%dT%H:%M:%SZ')" >> '/tmp/focus click.log' 2>&1
    fi
    '/usr/bin/herdr' workspace focus 'w1' >> '/tmp/focus click.log' 2>&1 || printf '%s workspace focus unavailable for workspace=%s\n' "$(date -u '+%Y-%m-%dT%H:%M:%SZ')" 'w1' >> '/tmp/focus click.log' 2>&1
    '/usr/bin/herdr' agent focus 'w1:p3' >> '/tmp/focus click.log' 2>&1
    status=$?
    printf '%s focus exited %s\n' "$(date -u '+%Y-%m-%dT%H:%M:%SZ')" "$status" >> '/tmp/focus click.log' 2>&1
    ;;
esac
exit "$status"
"#;
    let mut settings = settings(true);
    settings.sway_container_id = None;
    let script = focus_script_content(
        &sample_notification(),
        "/usr/bin/herdr",
        "/usr/bin/notify-send",
        None,
        Some("/tmp/focus click.log"),
        &settings,
    );

    assert_eq!(script, expected);
}

#[test]
fn alerter_script_text_with_visibility_check() {
    let expected = r#"#!/bin/sh
[ -e '/tmp/state dir/herdr-w1-p3.cleared' ] && exit 0
result_path=$(mktemp '/tmp/state dir/herdr-w1-p3.cleared.result.XXXXXX') || exit 1
status_path=$(mktemp '/tmp/state dir/herdr-w1-p3.cleared.status.XXXXXX') || { rm -f "$result_path"; exit 1; }
monitor_pid=
cleanup() {
  [ -z "$monitor_pid" ] || kill "$monitor_pid" 2>/dev/null
  rm -f "$result_path" "$status_path"
}
trap cleanup EXIT
(
  '/usr/bin/alerter' --title 'Codex needs attention' --message 'Needs an answer' --group 'herdr-w1-p3' --app-icon '/tmp/codex icon.png' --actions 'Focus' --close-label 'Dismiss' --timeout 3600 > "$result_path" 2>/dev/null
  printf '%s' "$?" > "$status_path"
) &
notifier_pid=$!
(
  while kill -0 "$notifier_pid" 2>/dev/null; do
    sleep 2
    kill -0 "$notifier_pid" 2>/dev/null || exit 0
    if '/opt/notify' --check-pane-visibility 'w1:p3' >/dev/null 2>&1 && '/usr/bin/alerter' --remove 'herdr-w1-p3' >/dev/null 2>&1; then
      exit 0
    fi
  done
) &
monitor_pid=$!
wait "$notifier_pid"
kill "$monitor_pid" 2>/dev/null
wait "$monitor_pid" 2>/dev/null
monitor_pid=
notifier_status=$(cat "$status_path" 2>/dev/null || printf '1')
result=$(cat "$result_path")
rm -f "$result_path" "$status_path"
if [ "$notifier_status" -ne 0 ]; then
    exit "$notifier_status"
fi
case "$result" in
  Focus|@ACTIONCLICKED|@CONTENTCLICKED)
    open -a 'kitty' >/dev/null 2>&1
    exec '/usr/bin/herdr' agent focus 'w1:p3'
    ;;
esac
"#;
    let script = focus_script_content(
        &sample_notification(),
        "/usr/bin/herdr",
        "/usr/bin/alerter",
        Some("/opt/notify"),
        None,
        &settings(false),
    );

    assert_eq!(script, expected);
}

#[test]
fn alerter_script_text_with_log() {
    let expected = r#"#!/bin/sh
[ -e '/tmp/state dir/herdr-w1-p3.cleared' ] && exit 0
result_path=$(mktemp '/tmp/state dir/herdr-w1-p3.cleared.result.XXXXXX') || exit 1
status_path=$(mktemp '/tmp/state dir/herdr-w1-p3.cleared.status.XXXXXX') || { rm -f "$result_path"; exit 1; }
monitor_pid=
cleanup() {
  [ -z "$monitor_pid" ] || kill "$monitor_pid" 2>/dev/null
  rm -f "$result_path" "$status_path"
}
trap cleanup EXIT
(
  '/usr/bin/alerter' --title 'Codex needs attention' --message 'Needs an answer' --group 'herdr-w1-p3' --actions 'Focus' --close-label 'Dismiss' > "$result_path" 2>/dev/null
  printf '%s' "$?" > "$status_path"
) &
notifier_pid=$!
wait "$notifier_pid"
notifier_status=$(cat "$status_path" 2>/dev/null || printf '1')
result=$(cat "$result_path")
rm -f "$result_path" "$status_path"
printf '%s alerter status=%s result=%s\n' "$(date -u '+%Y-%m-%dT%H:%M:%SZ')" "$notifier_status" "$result" >> '/tmp/focus click.log' 2>&1
if [ "$notifier_status" -ne 0 ]; then
    exit "$notifier_status"
fi
status=0
case "$result" in
  Focus|@ACTIONCLICKED|@CONTENTCLICKED)
    open -a 'kitty' >> '/tmp/focus click.log' 2>&1
    activate_status=$?
    printf '%s activate exited %s\n' "$(date -u '+%Y-%m-%dT%H:%M:%SZ')" "$activate_status" >> '/tmp/focus click.log' 2>&1
    '/usr/bin/herdr' agent focus 'w1:p3' >> '/tmp/focus click.log' 2>&1
    status=$?
    printf '%s focus exited %s\n' "$(date -u '+%Y-%m-%dT%H:%M:%SZ')" "$status" >> '/tmp/focus click.log' 2>&1
    ;;
esac
exit "$status"
"#;
    let mut notification = sample_notification();
    notification.app_icon = None;
    let mut settings = settings(false);
    settings.alerter_timeout_secs = 0;
    let script = focus_script_content(
        &notification,
        "/usr/bin/herdr",
        "/usr/bin/alerter",
        None,
        Some("/tmp/focus click.log"),
        &settings,
    );

    assert_eq!(script, expected);
}

#[test]
fn visibility_is_checked_only_with_an_app_to_activate() {
    let mut settings = settings(false);
    settings.activate_app = None;
    let notification = sample_notification();
    let with = focus_script_content(&notification, "h", "n", Some("/opt/notify"), None, &settings);
    let without = focus_script_content(&notification, "h", "n", None, None, &settings);

    assert_eq!(with, without);
    assert!(!with.contains("--check-pane-visibility"));
    assert!(!with.contains("open -a"));
}

#[test]
fn linux_script_ignores_alerter_settings() {
    let notification = sample_notification();
    let mut other = settings(true);
    other.alerter_timeout_secs = 7;
    other.activate_app = None;

    assert_eq!(
        focus_script_content(&notification, "h", "n", Some("/opt/notify"), None, &settings(true)),
        focus_script_content(&notification, "h", "n", None, None, &other)
    );
}

#[test]
fn marker_check_stands_before_everything_that_runs() {
    let notification = sample_notification();
    let check = "[ -e '/tmp/state dir/herdr-w1-p3.cleared' ] && exit 0\n";
    let alerter = focus_script_content(&notification, "h", "n", None, None, &settings(false));
    assert!(alerter.starts_with(&format!("#!/bin/sh\n{check}")));

    let linux = focus_script_content(&notification, "h", "n", None, None, &settings(true));
    assert!(linux.starts_with("#!/bin/sh\nrun_host() {\n"));
    let before = linux.split_once(check).unwrap().0;
    assert!(before.ends_with("  fi\n}\n"));
}

#[test]
fn every_script_focuses_its_pane() {
    let notification = sample_notification();
    for linux in [true, false] {
        for log in [None, Some("/tmp/l")] {
            let script =
                focus_script_content(&notification, "my herdr", "n", None, log, &settings(linux));
            assert!(script.contains("'my herdr' agent focus 'w1:p3'"));
        }
    }
}

#[test]
fn sections_without_a_subject_are_empty() {
    assert_eq!(workspace_focus_script("'h'", None, Some("'l'")), "");
    assert_eq!(workspace_focus_script("'h'", None, None), "");
    assert_eq!(activation_script(None, Some("'l'")), "");
    assert_eq!(activation_script(None, None), "");
    assert_eq!(activation_command(None), None);
    assert_eq!(
        activation_command(Some("it's".to_string())),
        Some("open -a 'it'\\''s'".to_string())
    );
}

#[test]
fn sway_section_tells_whether_a_container_is_known() {
    let plain = sway_focus_script("''", None);
    assert!(plain.starts_with("    if [ -n '' ]; then\n"));
    assert!(plain.contains("no cached container id' >&2\n    fi\n"));
    let logged = sway_focus_script("'7'", Some("'/l'"));
    assert!(logged.contains("sway focus unavailable for con_id=%s"));
    assert!(logged.contains("'7' >> '/l' 2>&1\n"));
}

#[test]
fn script_files_are_named_by_their_hash() {
    assert_eq!(focus_script_path("/s", 0), "/s/focus-0000000000000000.sh");
    assert_eq!(focus_script_path("/s", 0xabc), "/s/focus-0000000000000abc.sh");
    assert_eq!(
        focus_script_path("/s/", u64::MAX),
        "/s/focus-ffffffffffffffff.sh"
    );
    for hash in [1u64, 15, 16, 255, 0x0123_4567_89ab_cdef] {
        assert_eq!(
            focus_script_path("/s", hash),
            format!("/s/focus-{:016x}.sh", hash)
        );
    }
}

#[test]
fn clicks_are_logged_only_for_debugging() {
    assert_eq!(debug_log_path("/s", true), Some("/s/focus-click.log".to_string()));
    assert_eq!(debug_log_path("/s", false), None);
}
