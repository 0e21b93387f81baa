//! What holds of the scripts, whichever of their options are there.

use vstd::prelude::*;

use crate::notification::FocusNotification;
use crate::paths::name_of;
use crate::script::{
    activation, alerter_script, focus_command, linux_script, notify_command, on_click,
    open_command, quoted_option, script_content, sway_focus, temp_template, workspace_focus,
    ScriptSettings,
};
use crate::script_lines::{linux_wait, marker_check, run_host_definition};
use crate::state::{id_path, marker_path};
use crate::text::{has_prefix, occurs};
use crate::text_laws::law_parts_of_text;
use crate::util::{decimal, quoted};

verus! {

/// The script for a Linux desktop without a log: it ends at once where the
/// notification was cleared, shows the notification with its title and body,
/// keeps its id while it is shown, and on a click focuses the window, the
/// workspace where there is one, and the pane, in this order.
pub proof fn law_linux_script_without_log(
    notification: FocusNotification,
    herdr_bin: Seq<char>,
    notifier_bin: Seq<char>,
    sway_container_id: Option<Seq<char>>,
    state_dir: Seq<char>,
)
    ensures
        ({
            let marker = marker_path(state_dir, notification.pane_id@);
            let marker_q = quoted(marker);
            let result_q = quoted(marker + ".result.XXXXXX"@);
            let status_q = quoted(marker + ".status.XXXXXX"@);
            let id_q = quoted(id_path(state_dir, notification.pane_id@));
            let con_q = quoted(
                if sway_container_id is Some {
                    sway_container_id->0
                } else {
                    seq![]
                },
            );
            let herdr_q = quoted(herdr_bin);
            let pane_q = quoted(notification.pane_id@);
            let notifier_q = quoted(notifier_bin);
            let title_q = quoted(notification.title@);
            let body_q = quoted(notification.body@);
            let host = "run_host() {\n"@
                + "  if command -v \"$1\" >/dev/null 2>&1; then\n"@
                + "    \"$@\"\n"@
                + "  elif command -v flatpak-spawn >/dev/null 2>&1; then\n"@
                + "    flatpak-spawn --host \"$@\"\n"@
                + "  else\n"@
                + "    return 127\n"@
                + "  fi\n"@
                + "}\n"@;
            let check = "[ -e "@ + marker_q + " ] && exit 0\n"@;
            let command = if name_of(notifier_bin) == Some("linux-notify-wait.py"@) {
                    "run_host python3 "@ + notifier_q + " "@ + title_q + " "@ + body_q
                } else {
                    "run_host "@
                        + notifier_q
                        + " --print-id -A default=Focus --wait "@
                        + title_q
                        + " "@
                        + body_q
                };
            let show = "mkdir -p \"$(dirname "@
                + id_q
                + ")\"\n"@
                + "result_path=$(mktemp "@
                + result_q
                + ") || exit 1\n"@
                + "status_path=$(mktemp "@
                + status_q
                + ") || { rm -f \"$result_path\"; exit 1; }\n"@
                + "id_watcher_pid=\n"@
                + "cleanup() {\n"@
                + "  [ -z \"$id_watcher_pid\" ] || kill \"$id_watcher_pid\" 2>/dev/null\n"@
                + "  rm -f \"$result_path\" \"$status_path\" "@
                + id_q
                + "\n"@
                + "}\n"@
                + "trap cleanup EXIT\n"@
                + "(\n"@
                + "  "@
                + command
                + " > \"$result_path\" 2>/dev/null\n"@
                + "  printf '%s' \"$?\" > \"$status_path\"\n"@
                + ") &\n"@
                + "notifier_pid=$!\n"@
                + "(\n"@
                + "  while kill -0 \"$notifier_pid\" 2>/dev/null; do\n"@
                + "    notification_id=$(sed -n 's/^\\([0-9][0-9]*\\)$/\\1/p' \"$result_path\" 2>/dev/null | tail -n 1)\n"@
                + "    if [ -n \"$notification_id\" ]; then\n"@
                + "      printf '%s' \"$notification_id\" > "@
                + id_q
                + "\n"@
                + "      exit 0\n"@
                + "    fi\n"@
                + "    sleep 0.1\n"@
                + "  done\n"@
                + ") &\n"@
                + "id_watcher_pid=$!\n"@
                + "wait \"$notifier_pid\"\n"@
                + "kill \"$id_watcher_pid\" 2>/dev/null\n"@
                + "wait \"$id_watcher_pid\" 2>/dev/null\n"@
                + "id_watcher_pid=\n"@
                + "notifier_status=$(cat \"$status_path\" 2>/dev/null || printf '1')\n"@
                + "result=$(cat \"$result_path\")\n"@
                + "rm -f \"$result_path\" \"$status_path\" "@
                + id_q
                + "\n"@;
            let window = "    if [ -n "@
                + con_q
                + " ]; then\n"@
                + "      run_host swaymsg \"[con_id=$(printf '%s' "@
                + con_q
                + ")]\" focus >/dev/null 2>&1 || printf '%s\\n' 'herdr-focus-notify: sway focus unavailable' >&2\n"@
                + "    else\n"@
                + "      printf '%s\\n' 'herdr-focus-notify: sway focus unavailable: no cached container id' >&2\n"@
                + "    fi\n"@;
            let workspace = if notification.workspace_id is Some {
                    "    "@
                        + herdr_q
                        + " workspace focus "@
                        + quoted(notification.workspace_id->0@)
                        + " >/dev/null 2>&1 || printf '%s\\n' 'herdr-focus-notify: workspace focus unavailable' >&2\n"@
                } else {
                    seq![]
                };
            let click = "if [ \"$notifier_status\" -ne 0 ]; then\n"@
                + "    exit \"$notifier_status\"\n"@
                + "fi\n"@
                + "case \"$result\" in\n"@
                + "  "@
                + "*default*"@
                + ")\n"@
                + (window + workspace)
                + "    exec "@
                + herdr_q
                + " agent focus "@
                + pane_q
                + "\n"@
                + "    ;;\n"@
                + "esac\n"@;
            linux_script(
                notification,
                herdr_bin,
                notifier_bin,
                sway_container_id,
                None,
                state_dir,
            ) == "#!/bin/sh\n"@ + host + check + show + click
        }),
{
    reveal_strlit("");
}

/// The script for a Linux desktop that logs: it ends at once where the
/// notification was cleared, shows the notification with its title and body,
/// keeps its id while it is shown, and on a click focuses the window, the
/// workspace where there is one, and the pane, in this order; all of that is logged.
pub proof fn law_linux_script_with_log(
    notification: FocusNotification,
    herdr_bin: Seq<char>,
    notifier_bin: Seq<char>,
    sway_container_id: Option<Seq<char>>,
    log_path: Seq<char>,
    state_dir: Seq<char>,
)
    ensures
        ({
            let marker = marker_path(state_dir, notification.pane_id@);
            let marker_q = quoted(marker);
            let result_q = quoted(marker + ".result.XXXXXX"@);
            let status_q = quoted(marker + ".status.XXXXXX"@);
            let id_q = quoted(id_path(state_dir, notification.pane_id@));
            let con_q = quoted(
                if sway_container_id is Some {
                    sway_container_id->0
                } else {
                    seq![]
                },
            );
            let herdr_q = quoted(herdr_bin);
            let pane_q = quoted(notification.pane_id@);
            let notifier_q = quoted(notifier_bin);
            let title_q = quoted(notification.title@);
            let body_q = quoted(notification.body@);
            let log_q = quoted(log_path);
            let host = "run_host() {\n"@
                + "  if command -v \"$1\" >/dev/null 2>&1; then\n"@
                + "    \"$@\"\n"@
                + "  elif command -v flatpak-spawn >/dev/null 2>&1; then\n"@
                + "    flatpak-spawn --host \"$@\"\n"@
                + "  else\n"@
                + "    return 127\n"@
                + "  fi\n"@
                + "}\n"@;
            let check = "[ -e "@ + marker_q + " ] && exit 0\n"@;
            let command = if name_of(notifier_bin) == Some("linux-notify-wait.py"@) {
                    "run_host python3 "@ + notifier_q + " "@ + title_q + " "@ + body_q
                } else {
                    "run_host "@
                        + notifier_q
                        + " --print-id -A default=Focus --wait "@
                        + title_q
                        + " "@
                        + body_q
                };
            let show = "mkdir -p \"$(dirname "@
                + id_q
                + ")\"\n"@
                + "result_path=$(mktemp "@
                + result_q
                + ") || exit 1\n"@
                + "status_path=$(mktemp "@
                + status_q
                + ") || { rm -f \"$result_path\"; exit 1; }\n"@
                + "id_watcher_pid=\n"@
                + "cleanup() {\n"@
                + "  [ -z \"$id_watcher_pid\" ] || kill \"$id_watcher_pid\" 2>/dev/null\n"@
                + "  rm -f \"$result_path\" \"$status_path\" "@
                + id_q
                + "\n"@
                + "}\n"@
                + "trap cleanup EXIT\n"@
                + "(\n"@
                + "  "@
                + command
                + " > \"$result_path\" 2>/dev/null\n"@
                + "  printf '%s' \"$?\" > \"$status_path\"\n"@
                + ") &\n"@
                + "notifier_pid=$!\n"@
                + "(\n"@
                + "  while kill -0 \"$notifier_pid\" 2>/dev/null; do\n"@
                + "    notification_id=$(sed -n 's/^\\([0-9][0-9]*\\)$/\\1/p' \"$result_path\" 2>/dev/null | tail -n 1)\n"@
                + "    if [ -n \"$notification_id\" ]; then\n"@
                + "      printf '%s' \"$notification_id\" > "@
                + id_q
                + "\n"@
                + "      exit 0\n"@
                + "    fi\n"@
                + "    sleep 0.1\n"@
                + "  done\n"@
                + ") &\n"@
                + "id_watcher_pid=$!\n"@
                + "wait \"$notifier_pid\"\n"@
                + "kill \"$id_watcher_pid\" 2>/dev/null\n"@
                + "wait \"$id_watcher_pid\" 2>/dev/null\n"@
                + "id_watcher_pid=\n"@
                + "notifier_status=$(cat \"$status_path\" 2>/dev/null || printf '1')\n"@
                + "result=$(cat \"$result_path\")\n"@
                + "rm -f \"$result_path\" \"$status_path\" "@
                + id_q
                + "\n"@;
            let window = "    if [ -n "@
                + con_q
                + " ]; then\n"@
                + "      run_host swaymsg \"[con_id=$(printf '%s' "@
                + con_q
                + ")]\" focus >> "@
                + log_q
                + " 2>&1 || printf '%s sway focus unavailable for con_id=%s\\n' \"$(date -u '+%Y-%m-%dT%H:%M:%SZ')\" "@
                + con_q
                + " >> "@
                + log_q
                + " 2>&1\n"@
                + "    else\n"@
                + "      printf '%s sway focus unavailable: no cached container id\\n' \"$(date -u '+%Y-%m-%dT%H:%M:%SZ')\" >> "@
                + log_q
                + " 2>&1\n"@
                + "    fi\n"@;
            let workspace = if notification.workspace_id is Some {
                    "    "@
                        + herdr_q
                        + " workspace focus "@
                        + quoted(notification.workspace_id->0@)
                        + " >> "@
                        + log_q
                        + " 2>&1 || printf '%s workspace focus unavailable for workspace=%s\\n' \"$(date -u '+%Y-%m-%dT%H:%M:%SZ')\" "@
                        + quoted(notification.workspace_id->0@)
                        + " >> "@
                        + log_q
                        + " 2>&1\n"@
                } else {
                    seq![]
                };
            let click = "printf '%s "@
                + "notifier"@
                + " status=%s result=%s\\n' \"$(date -u '+%Y-%m-%dT%H:%M:%SZ')\" \"$notifier_status\" \"$result\" >> "@
                + log_q
                + " 2>&1\n"@
                + "if [ \"$notifier_status\" -ne 0 ]; then\n"@
                + "    exit \"$notifier_status\"\n"@
                + "fi\n"@
                + "status=0\n"@
                + "case \"$result\" in\n"@
                + "  "@
                + "*default*"@
                + ")\n"@
                + (window + workspace)
                + "    "@
                + herdr_q
                + " agent focus "@
                + pane_q
                + " >> "@
                + log_q
                + " 2>&1\n"@
                + "    status=$?\n"@
                + "    printf '%s focus exited %s\\n' \"$(date -u '+%Y-%m-%dT%H:%M:%SZ')\" \"$status\" >> "@
                + log_q
                + " 2>&1\n"@
                + "    ;;\n"@
                + "esac\n"@
                + "exit \"$status\"\n"@;
            linux_script(
                notification,
                herdr_bin,
                notifier_bin,
                sway_container_id,
                Some(log_path),
                state_dir,
            ) == "#!/bin/sh\n"@ + host + check + show + click
        }),
{
    reveal_strlit("");
}

/// The script for alerter without a log: it ends at once where the notification
/// was cleared, shows the notification with its title, body, group and icon,
/// takes it away once the pane is visible where there is a program to ask, and
/// on a click activates the application where there is one and focuses the
/// pane, in this order.
pub proof fn law_alerter_script_without_log(
    notification: FocusNotification,
    herdr_bin: Seq<char>,
    notifier_bin: Seq<char>,
    timeout_secs: nat,
    command: Option<Seq<char>>,
    binary: Option<Seq<char>>,
    state_dir: Seq<char>,
)
    ensures
        ({
            let marker = marker_path(state_dir, notification.pane_id@);
            let marker_q = quoted(marker);
            let result_q = quoted(marker + ".result.XXXXXX"@);
            let status_q = quoted(marker + ".status.XXXXXX"@);
            let herdr_q = quoted(herdr_bin);
            let pane_q = quoted(notification.pane_id@);
            let notifier_q = quoted(notifier_bin);
            let title_q = quoted(notification.title@);
            let body_q = quoted(notification.body@);
            let group_q = quoted(notification.group@);
            let check = "[ -e "@ + marker_q + " ] && exit 0\n"@;
            let icon = if notification.app_icon is Some {
                    " --app-icon "@ + quoted(notification.app_icon->0@)
                } else {
                    seq![]
                };
            let timeout = if timeout_secs > 0 {
                    " --timeout "@ + decimal(timeout_secs)
                } else {
                    seq![]
                };
            let show = "result_path=$(mktemp "@
                + result_q
                + ") || exit 1\n"@
                + "status_path=$(mktemp "@
                + status_q
                + ") || { rm -f \"$result_path\"; exit 1; }\n"@
                + "monitor_pid=\n"@
                + "cleanup() {\n"@
                + "  [ -z \"$monitor_pid\" ] || kill \"$monitor_pid\" 2>/dev/null\n"@
                + "  rm -f \"$result_path\" \"$status_path\"\n"@
                + "}\n"@
                + "trap cleanup EXIT\n"@
                + "(\n"@
                + "  "@
                + notifier_q
                + " --title "@
                + title_q
                + " --message "@
                + body_q
                + " --group "@
                + group_q
                + icon
                + " --actions "@
                + quoted("Focus"@)
                + " --close-label "@
                + quoted("Dismiss"@)
                + timeout
                + " > \"$result_path\" 2>/dev/null\n"@
                + "  printf '%s' \"$?\" > \"$status_path\"\n"@
                + ") &\n"@
                + "notifier_pid=$!\n"@;
            let watch = if binary is Some {
                    "(\n"@
                        + "  while kill -0 \"$notifier_pid\" 2>/dev/null; do\n"@
                        + "    sleep 2\n"@
                        + "    kill -0 \"$notifier_pid\" 2>/dev/null || exit 0\n"@
                        + "    if "@
                        + (quoted(binary->0) + " --check-pane-visibility "@ + pane_q)
                        + " >/dev/null 2>&1 && "@
                        + notifier_q
                        + " --remove "@
                        + group_q
                        + " >/dev/null 2>&1; then\n"@
                        + "      exit 0\n"@
                        + "    fi\n"@
                        + "  done\n"@
                        + ") &\n"@
                        + "monitor_pid=$!\n"@
                } else {
                    seq![]
                };
            let unwatch = if binary is Some {
                    "kill \"$monitor_pid\" 2>/dev/null\n"@
                        + "wait \"$monitor_pid\" 2>/dev/null\n"@
                        + "monitor_pid=\n"@
                } else {
                    seq![]
                };
            let result = "notifier_status=$(cat \"$status_path\" 2>/dev/null || printf '1')\n"@
                + "result=$(cat \"$result_path\")\n"@
                + "rm -f \"$result_path\" \"$status_path\"\n"@;
            let activate = if command is Some {
                    "    "@ + command->0 + " >/dev/null 2>&1\n"@
                } else {
                    seq![]
                };
            let click = "if [ \"$notifier_status\" -ne 0 ]; then\n"@
                + "    exit \"$notifier_status\"\n"@
                + "fi\n"@
                + "case \"$result\" in\n"@
                + "  "@
                + "Focus|@ACTIONCLICKED|@CONTENTCLICKED"@
                + ")\n"@
                + activate
                + "    exec "@
                + herdr_q
                + " agent focus "@
                + pane_q
                + "\n"@
                + "    ;;\n"@
                + "esac\n"@;
            alerter_script(
                notification,
                herdr_bin,
                notifier_bin,
                timeout_secs,
                command,
                binary,
                None,
                state_dir,
            ) == "#!/bin/sh\n"@ + check + show + watch + "wait \"$notifier_pid\"\n"@ + unwatch + result
                + click
        }),
{
}

/// The script for alerter that logs: it ends at once where the notification
/// was cleared, shows the notification with its title, body, group and icon,
/// takes it away once the pane is visible where there is a program to ask, and
/// on a click activates the application where there is one and focuses the
/// pane, in this order; all of that is logged.
pub proof fn law_alerter_script_with_log(
    notification: FocusNotification,
    herdr_bin: Seq<char>,
    notifier_bin: Seq<char>,
    timeout_secs: nat,
    command: Option<Seq<char>>,
    binary: Option<Seq<char>>,
    log_path: Seq<char>,
    state_dir: Seq<char>,
)
    ensures
        ({
            let marker = marker_path(state_dir, notification.pane_id@);
            let marker_q = quoted(marker);
            let result_q = quoted(marker + ".result.XXXXXX"@);
            let status_q = quoted(marker + ".status.XXXXXX"@);
            let herdr_q = quoted(herdr_bin);
            let pane_q = quoted(notification.pane_id@);
            let notifier_q = quoted(notifier_bin);
            let title_q = quoted(notification.title@);
            let body_q = quoted(notification.body@);
            let group_q = quoted(notification.group@);
            let log_q = quoted(log_path);
            let check = "[ -e "@ + marker_q + " ] && exit 0\n"@;
            let icon = if notification.app_icon is Some {
                    " --app-icon "@ + quoted(notification.app_icon->0@)
                } else {
                    seq![]
                };
            let timeout = if timeout_secs > 0 {
                    " --timeout "@ + decimal(timeout_secs)
                } else {
                    seq![]
                };
            let show = "result_path=$(mktemp "@
                + result_q
                + ") || exit 1\n"@
                + "status_path=$(mktemp "@
                + status_q
                + ") || { rm -f \"$result_path\"; exit 1; }\n"@
                + "monitor_pid=\n"@
                + "cleanup() {\n"@
                + "  [ -z \"$monitor_pid\" ] || kill \"$monitor_pid\" 2>/dev/null\n"@
                + "  rm -f \"$result_path\" \"$status_path\"\n"@
                + "}\n"@
                + "trap cleanup EXIT\n"@
                + "(\n"@
                + "  "@
                + notifier_q
                + " --title "@
                + title_q
                + " --message "@
                + body_q
                + " --group "@
                + group_q
                + icon
                + " --actions "@
                + quoted("Focus"@)
                + " --close-label "@
                + quoted("Dismiss"@)
                + timeout
                + " > \"$result_path\" 2>/dev/null\n"@
                + "  printf '%s' \"$?\" > \"$status_path\"\n"@
                + ") &\n"@
                + "notifier_pid=$!\n"@;
            let watch = if binary is Some {
                    "(\n"@
                        + "  while kill -0 \"$notifier_pid\" 2>/dev/null; do\n"@
                        + "    sleep 2\n"@
                        + "    kill -0 \"$notifier_pid\" 2>/dev/null || exit 0\n"@
                        + "    if "@
                        + (quoted(binary->0) + " --check-pane-visibility "@ + pane_q)
                        + " >/dev/null 2>&1 && "@
                        + notifier_q
                        + " --remove "@
                        + group_q
                        + " >/dev/null 2>&1; then\n"@
                        + "      exit 0\n"@
                        + "    fi\n"@
                        + "  done\n"@
                        + ") &\n"@
                        + "monitor_pid=$!\n"@
                } else {
                    seq![]
                };
            let unwatch = if binary is Some {
                    "kill \"$monitor_pid\" 2>/dev/null\n"@
                        + "wait \"$monitor_pid\" 2>/dev/null\n"@
                        + "monitor_pid=\n"@
                } else {
                    seq![]
                };
            let result = "notifier_status=$(cat \"$status_path\" 2>/dev/null || printf '1')\n"@
                + "result=$(cat \"$result_path\")\n"@
                + "rm -f \"$result_path\" \"$status_path\"\n"@;
            let activate = if command is Some {
                    "    "@
                        + command->0
                        + " >> "@
                        + log_q
                        + " 2>&1\n"@
                        + "    activate_status=$?\n"@
                        + "    printf '%s activate exited %s\\n' \"$(date -u '+%Y-%m-%dT%H:%M:%SZ')\" \"$activate_status\" >> "@
                        + log_q
                        + " 2>&1\n"@
                } else {
                    seq![]
                };
            let click = "printf '%s "@
                + "alerter"@
                + " status=%s result=%s\\n' \"$(date -u '+%Y-%m-%dT%H:%M:%SZ')\" \"$notifier_status\" \"$result\" >> "@
                + log_q
                + " 2>&1\n"@
                + "if [ \"$notifier_status\" -ne 0 ]; then\n"@
                + "    exit \"$notifier_status\"\n"@
                + "fi\n"@
                + "status=0\n"@
                + "case \"$result\" in\n"@
                + "  "@
                + "Focus|@ACTIONCLICKED|@CONTENTCLICKED"@
                + ")\n"@
                + activate
                + "    "@
                + herdr_q
                + " agent focus "@
                + pane_q
                + " >> "@
                + log_q
                + " 2>&1\n"@
                + "    status=$?\n"@
                + "    printf '%s focus exited %s\\n' \"$(date -u '+%Y-%m-%dT%H:%M:%SZ')\" \"$status\" >> "@
                + log_q
                + " 2>&1\n"@
                + "    ;;\n"@
                + "esac\n"@
                + "exit \"$status\"\n"@;
            alerter_script(
                notification,
                herdr_bin,
                notifier_bin,
                timeout_secs,
                command,
                binary,
                Some(log_path),
                state_dir,
            ) == "#!/bin/sh\n"@ + check + show + watch + "wait \"$notifier_pid\"\n"@ + unwatch + result
                + click
        }),
{
}

/// The lines of a click stand between lines that do not depend on them.
proof fn lemma_click_around(
    source: Seq<char>,
    pattern: Seq<char>,
    before: Seq<char>,
    herdr_q: Seq<char>,
    pane_q: Seq<char>,
    log_q: Option<Seq<char>>,
) -> (around: (Seq<char>, Seq<char>))
    ensures
        on_click(source, pattern, before, herdr_q, pane_q, log_q) == around.0 + (pattern + ")\n"@)
            + before + around.1,
        around.0 == click_head(source, log_q),
        around.1 == click_tail(herdr_q, pane_q, log_q),
{
    let whole = on_click(source, pattern, before, herdr_q, pane_q, log_q);
    let head = click_head(source, log_q);
    let tail = click_tail(herdr_q, pane_q, log_q);
    assert(whole =~= head + (pattern + ")\n"@) + before + tail);
    (head, tail)
}

/// What a script does between the end of the notifier and the test of its
/// result: it ends where the notifier failed.
pub open spec fn click_head(source: Seq<char>, log_q: Option<Seq<char>>) -> Seq<char> {
    let test = "if [ \"$notifier_status\" -ne 0 ]; then\n"@ + "    exit \"$notifier_status\"\n"@
        + "fi\n"@;
    let case = "case \"$result\" in\n"@ + "  "@;
    match log_q {
        Some(log_q) => "printf '%s "@ + source
            + " status=%s result=%s\\n' \"$(date -u '+%Y-%m-%dT%H:%M:%SZ')\" \"$notifier_status\" \"$result\" >> "@
            + log_q + " 2>&1\n"@ + test + "status=0\n"@ + case,
        None => test + case,
    }
}

/// What a script does last on a click: it focuses the pane.
pub open spec fn click_tail(
    herdr_q: Seq<char>,
    pane_q: Seq<char>,
    log_q: Option<Seq<char>>,
) -> Seq<char> {
    let focus = herdr_q + " agent focus "@ + pane_q;
    match log_q {
        Some(log_q) => "    "@ + focus + " >> "@ + log_q + " 2>&1\n"@ + "    status=$?\n"@
            + "    printf '%s focus exited %s\\n' \"$(date -u '+%Y-%m-%dT%H:%M:%SZ')\" \"$status\" >> "@
            + log_q + " 2>&1\n"@ + "    ;;\n"@ + "esac\n"@ + "exit \"$status\"\n"@,
        None => "    exec "@ + focus + "\n"@ + "    ;;\n"@ + "esac\n"@,
    }
}

/// The command of a script that focuses a window of sway.
pub open spec fn window_command(con_id: Seq<char>) -> Seq<char> {
    "run_host swaymsg \"[con_id=$(printf '%s' "@ + quoted(con_id) + ")]\" focus"@
}

/// The command of a script that focuses a workspace.
pub open spec fn workspace_command(herdr_bin: Seq<char>, workspace_id: Seq<char>) -> Seq<char> {
    quoted(herdr_bin) + " workspace focus "@ + quoted(workspace_id)
}

/// The lines that focus a window hold the command for it.
proof fn lemma_window_command(con_id: Seq<char>, log_q: Option<Seq<char>>) -> (around: (
    Seq<char>,
    Seq<char>,
))
    ensures
        sway_focus(quoted(con_id), log_q) == around.0 + window_command(con_id) + around.1,
{
    let con_q = quoted(con_id);
    let whole = sway_focus(con_q, log_q);
    let opening = "      run_host swaymsg \"[con_id=$(printf '%s' "@;
    let indent = "      "@;
    let start = "run_host swaymsg \"[con_id=$(printf '%s' "@;
    reveal_strlit("      run_host swaymsg \"[con_id=$(printf '%s' ");
    reveal_strlit("      ");
    reveal_strlit("run_host swaymsg \"[con_id=$(printf '%s' ");
    assert(opening =~= indent + start);
    let end = ")]\" focus"@;
    reveal_strlit(")]\" focus");
    let head = "    if [ -n "@ + con_q + " ]; then\n"@ + indent;
    let n = head.len() + window_command(con_id).len();
    let tail = whole.skip(n as int);
    match log_q {
        Some(_) => {
            let rest = ")]\" focus >> "@;
            reveal_strlit(")]\" focus >> ");
            assert(rest.take(end.len() as int) =~= end);
            assert(rest =~= end + rest.skip(end.len() as int));
        },
        None => {
            let rest =
                ")]\" focus >/dev/null 2>&1 || printf '%s\\n' 'herdr-focus-notify: sway focus unavailable' >&2\n"@;
            reveal_strlit(
                ")]\" focus >/dev/null 2>&1 || printf '%s\\n' 'herdr-focus-notify: sway focus unavailable' >&2\n",
            );
            assert(rest.take(end.len() as int) =~= end);
            assert(rest =~= end + rest.skip(end.len() as int));
        },
    }
    assert(whole =~= head + window_command(con_id) + tail);
    (head, tail)
}

/// All of a script for Linux before its click: it does not depend on what a
/// click does.
pub open spec fn linux_opening(
    pane_id: Seq<char>,
    title: Seq<char>,
    body: Seq<char>,
    notifier_bin: Seq<char>,
    state_dir: Seq<char>,
) -> Seq<char> {
    let marker = marker_path(state_dir, pane_id);
    "#!/bin/sh\n"@ + run_host_definition() + marker_check(quoted(marker)) + linux_wait(
        quoted(id_path(state_dir, pane_id)),
        temp_template(marker, ".result.XXXXXX"@),
        temp_template(marker, ".status.XXXXXX"@),
        notify_command(notifier_bin, title, body),
    )
}

/// A script for Linux is its opening and then its click.
proof fn lemma_linux_click(
    notification: FocusNotification,
    herdr_bin: Seq<char>,
    notifier_bin: Seq<char>,
    con_id: Option<Seq<char>>,
    debug_log_path: Option<Seq<char>>,
    state_dir: Seq<char>,
)
    ensures
        ({
            let log_q = quoted_option(debug_log_path);
            let con_q = quoted(
                match con_id {
                    Some(id) => id,
                    None => seq![],
                },
            );
            let before = sway_focus(con_q, log_q) + workspace_focus(
                quoted(herdr_bin),
                quoted_option(notification.workspace_id.deep_view()),
                log_q,
            );
            linux_script(
                notification,
                herdr_bin,
                notifier_bin,
                con_id,
                debug_log_path,
                state_dir,
            ) == linux_opening(
                notification.pane_id@,
                notification.title@,
                notification.body@,
                notifier_bin,
                state_dir,
            ) + (click_head("notifier"@, log_q) + ("*default*"@ + ")\n"@) + before + click_tail(
                quoted(herdr_bin),
                quoted(notification.pane_id@),
                log_q,
            ))
        }),
{
    let log_q = quoted_option(debug_log_path);
    let con_q = quoted(
        match con_id {
            Some(id) => id,
            None => seq![],
        },
    );
    let before = sway_focus(con_q, log_q) + workspace_focus(
        quoted(herdr_bin),
        quoted_option(notification.workspace_id.deep_view()),
        log_q,
    );
    lemma_click_around(
        "notifier"@,
        "*default*"@,
        before,
        quoted(herdr_bin),
        quoted(notification.pane_id@),
        log_q,
    );
}

/// The parts of a click with a window, in a row.
proof fn lemma_window_in_row(
    opening: Seq<char>,
    head: Seq<char>,
    mark: Seq<char>,
    a: Seq<char>,
    window: Seq<char>,
    b: Seq<char>,
    workspace: Seq<char>,
    c: Seq<char>,
    focus: Seq<char>,
    d: Seq<char>,
)
    ensures
        opening + (head + mark + ((a + window + b) + workspace) + (c + focus + d)) == (opening
            + head) + mark + a + window + (b + workspace + c) + focus + d,
{
    assert(opening + (head + mark + ((a + window + b) + workspace) + (c + focus + d)) =~= (opening
        + head) + mark + a + window + (b + workspace + c) + focus + d);
}

/// The parts of a click with a window and a workspace, in a row.
proof fn lemma_workspace_in_row(
    front: Seq<char>,
    window: Seq<char>,
    b: Seq<char>,
    indent: Seq<char>,
    command: Seq<char>,
    rest: Seq<char>,
    c: Seq<char>,
    focus: Seq<char>,
    d: Seq<char>,
)
    ensures
        front + window + (b + (indent + command + rest) + c) + focus + d == front + window + (b
            + indent) + command + (rest + c) + focus + d,
{
    assert(front + window + (b + (indent + command + rest) + c) + focus + d =~= front + window + (b
        + indent) + command + (rest + c) + focus + d);
}

/// The line that focuses a workspace begins with the command for it.
proof fn lemma_workspace_line(
    herdr_bin: Seq<char>,
    workspace_id: Seq<char>,
    log_q: Option<Seq<char>>,
) -> (rest: Seq<char>)
    ensures
        workspace_focus(quoted(herdr_bin), Some(quoted(workspace_id)), log_q) == "    "@
            + workspace_command(herdr_bin, workspace_id) + rest,
        rest == (match log_q {
            Some(log_q) => " >> "@ + log_q
                + " 2>&1 || printf '%s workspace focus unavailable for workspace=%s\\n' \"$(date -u '+%Y-%m-%dT%H:%M:%SZ')\" "@
                + quoted(workspace_id) + " >> "@ + log_q + " 2>&1\n"@,
            None =>
                " >/dev/null 2>&1 || printf '%s\\n' 'herdr-focus-notify: workspace focus unavailable' >&2\n"@,
        }),
{
    let line = workspace_focus(quoted(herdr_bin), Some(quoted(workspace_id)), log_q);
    let rest = match log_q {
        Some(log_q) => " >> "@ + log_q
            + " 2>&1 || printf '%s workspace focus unavailable for workspace=%s\\n' \"$(date -u '+%Y-%m-%dT%H:%M:%SZ')\" "@
            + quoted(workspace_id) + " >> "@ + log_q + " 2>&1\n"@,
        None =>
            " >/dev/null 2>&1 || printf '%s\\n' 'herdr-focus-notify: workspace focus unavailable' >&2\n"@,
    };
    assert(line =~= "    "@ + workspace_command(herdr_bin, workspace_id) + rest);
    rest
}

/// On Linux a click always raises the window of the pane before it focuses the
/// pane: with or without a workspace, and with or without a log.
pub proof fn law_linux_click_raises_window(
    notification: FocusNotification,
    herdr_bin: Seq<char>,
    notifier_bin: Seq<char>,
    con_id: Seq<char>,
    debug_log_path: Option<Seq<char>>,
    state_dir: Seq<char>,
) -> (parts: (Seq<char>, Seq<char>, Seq<char>, Seq<char>))
    ensures
        linux_script(
            notification,
            herdr_bin,
            notifier_bin,
            Some(con_id),
            debug_log_path,
            state_dir,
        ) == parts.0 + ("*default*"@ + ")\n"@) + parts.1 + window_command(con_id) + parts.2
            + focus_command(herdr_bin, notification.pane_id@) + parts.3,
{
    let log_q = quoted_option(debug_log_path);
    let opening = linux_opening(
        notification.pane_id@,
        notification.title@,
        notification.body@,
        notifier_bin,
        state_dir,
    );
    let head = click_head("notifier"@, log_q);
    let workspace = workspace_focus(
        quoted(herdr_bin),
        quoted_option(notification.workspace_id.deep_view()),
        log_q,
    );
    lemma_linux_click(
        notification,
        herdr_bin,
        notifier_bin,
        Some(con_id),
        debug_log_path,
        state_dir,
    );
    let (a, b) = lemma_window_command(con_id, log_q);
    let (c, d) = lemma_pane_command(herdr_bin, notification.pane_id@, log_q);
    lemma_window_in_row(
        opening,
        head,
        "*default*"@ + ")\n"@,
        a,
        window_command(con_id),
        b,
        workspace,
        c,
        focus_command(herdr_bin, notification.pane_id@),
        d,
    );
    (opening + head, a, b + workspace + c, d)
}

/// Where a workspace is known, a click focuses it behind the window and before
/// the pane.
pub proof fn law_linux_click_focuses_workspace(
    notification: FocusNotification,
    herdr_bin: Seq<char>,
    notifier_bin: Seq<char>,
    con_id: Seq<char>,
    debug_log_path: Option<Seq<char>>,
    state_dir: Seq<char>,
) -> (parts: (Seq<char>, Seq<char>, Seq<char>, Seq<char>))
    requires
        notification.workspace_id is Some,
    ensures
        linux_script(
            notification,
            herdr_bin,
            notifier_bin,
            Some(con_id),
            debug_log_path,
            state_dir,
        ) == parts.0 + window_command(con_id) + parts.1 + workspace_command(
            herdr_bin,
            notification.workspace_id->0@,
        ) + parts.2 + focus_command(herdr_bin, notification.pane_id@) + parts.3,
{
    let log_q = quoted_option(debug_log_path);
    let opening = linux_opening(
        notification.pane_id@,
        notification.title@,
        notification.body@,
        notifier_bin,
        state_dir,
    );
    let head = click_head("notifier"@, log_q);
    let mark = "*default*"@ + ")\n"@;
    lemma_linux_click(
        notification,
        herdr_bin,
        notifier_bin,
        Some(con_id),
        debug_log_path,
        state_dir,
    );
    let window = window_command(con_id);
    let focus = focus_command(herdr_bin, notification.pane_id@);
    let command = workspace_command(herdr_bin, notification.workspace_id->0@);
    let (a, b) = lemma_window_command(con_id, log_q);
    let (c, d) = lemma_pane_command(herdr_bin, notification.pane_id@, log_q);
    let rest = lemma_workspace_line(herdr_bin, notification.workspace_id->0@, log_q);
    let line = "    "@ + command + rest;
    lemma_window_in_row(opening, head, mark, a, window, b, line, c, focus, d);
    let front = (opening + head) + mark + a;
    lemma_workspace_in_row(front, window, b, "    "@, command, rest, c, focus, d);
    (front, b + "    "@, rest + c, d)
}

/// The last lines of a click hold the command that focuses the pane.
proof fn lemma_pane_command(
    herdr_bin: Seq<char>,
    pane_id: Seq<char>,
    log_q: Option<Seq<char>>,
) -> (around: (Seq<char>, Seq<char>))
    ensures
        click_tail(quoted(herdr_bin), quoted(pane_id), log_q) == around.0 + focus_command(
            herdr_bin,
            pane_id,
        ) + around.1,
{
    let whole = click_tail(quoted(herdr_bin), quoted(pane_id), log_q);
    let focus = focus_command(herdr_bin, pane_id);
    let head = match log_q {
        Some(_) => "    "@,
        None => "    exec "@,
    };
    let tail = whole.skip((head.len() + focus.len()) as int);
    assert(whole =~= head + focus + tail);
    (head, tail)
}

/// Giving a notification a workspace adds one line to its script, which focuses
/// the workspace, and changes nothing else.
pub proof fn law_workspace_adds_one_line(
    without: FocusNotification,
    with: FocusNotification,
    herdr_bin: Seq<char>,
    notifier_bin: Seq<char>,
    sway_container_id: Option<Seq<char>>,
    debug_log_path: Option<Seq<char>>,
    state_dir: Seq<char>,
) -> (around: (Seq<char>, Seq<char>, Seq<char>))
    requires
        without.workspace_id is None,
        with.workspace_id is Some,
        without.pane_id == with.pane_id && without.title == with.title && without.body == with.body,
    ensures
        linux_script(
            without,
            herdr_bin,
            notifier_bin,
            sway_container_id,
            debug_log_path,
            state_dir,
        ) == around.0 + around.2,
        linux_script(
            with,
            herdr_bin,
            notifier_bin,
            sway_container_id,
            debug_log_path,
            state_dir,
        ) == around.0 + ("    "@ + workspace_command(herdr_bin, with.workspace_id->0@) + around.1)
            + around.2,
{
    let log_q = quoted_option(debug_log_path);
    let con_q = quoted(
        match sway_container_id {
            Some(id) => id,
            None => seq![],
        },
    );
    let opening = linux_opening(
        with.pane_id@,
        with.title@,
        with.body@,
        notifier_bin,
        state_dir,
    );
    let head = click_head("notifier"@, log_q);
    let mark = "*default*"@ + ")\n"@;
    let tail = click_tail(quoted(herdr_bin), quoted(with.pane_id@), log_q);
    let window = sway_focus(con_q, log_q);
    lemma_linux_click(
        without,
        herdr_bin,
        notifier_bin,
        sway_container_id,
        debug_log_path,
        state_dir,
    );
    lemma_linux_click(
        with,
        herdr_bin,
        notifier_bin,
        sway_container_id,
        debug_log_path,
        state_dir,
    );
    let rest = lemma_workspace_line(herdr_bin, with.workspace_id->0@, log_q);
    let line = "    "@ + workspace_command(herdr_bin, with.workspace_id->0@) + rest;
    let none = Seq::<char>::empty();
    assert(workspace_focus(quoted(herdr_bin), None, log_q) =~= none);
    lemma_inserted(opening, head, mark, window, line, tail);
    (opening + head + mark + window, rest, tail)
}

/// A line that is put into a row leaves the rest of the row as it was.
proof fn lemma_inserted(
    opening: Seq<char>,
    head: Seq<char>,
    mark: Seq<char>,
    window: Seq<char>,
    line: Seq<char>,
    tail: Seq<char>,
)
    ensures
        opening + (head + mark + (window + Seq::<char>::empty()) + tail) == (opening + head + mark
            + window) + tail,
        opening + (head + mark + (window + line) + tail) == (opening + head + mark + window) + line
            + tail,
{
    assert(opening + (head + mark + (window + Seq::<char>::empty()) + tail) =~= (opening + head
        + mark + window) + tail);
    assert(opening + (head + mark + (window + line) + tail) =~= (opening + head + mark + window)
        + line + tail);
}

/// The settings decide which script is written: that of the desktop, for the
/// container, the seconds and the application that they name. An application
/// with a slash in its name is opened as a path, and without an application
/// nothing is activated and nothing is watched.
pub proof fn law_settings_decide(
    notification: FocusNotification,
    herdr_bin: Seq<char>,
    notifier_bin: Seq<char>,
    executable_path: Option<Seq<char>>,
    debug_log_path: Option<Seq<char>>,
    settings: ScriptSettings,
)
    ensures
        ({
            let script = script_content(
                notification,
                herdr_bin,
                notifier_bin,
                executable_path,
                debug_log_path,
                settings,
            );
            let container = if settings.sway_container_id is Some {
                Some(settings.sway_container_id->0@)
            } else {
                None
            };
            let app = settings.activate_app->0@;
            let open = if app.contains('/') {
                "open "@ + quoted(app)
            } else {
                "open -a "@ + quoted(app)
            };
            if settings.linux {
                script == linux_script(
                    notification,
                    herdr_bin,
                    notifier_bin,
                    container,
                    debug_log_path,
                    settings.state_dir@,
                )
            } else if settings.activate_app is Some {
                script == alerter_script(
                    notification,
                    herdr_bin,
                    notifier_bin,
                    settings.alerter_timeout_secs as nat,
                    Some(open),
                    executable_path,
                    debug_log_path,
                    settings.state_dir@,
                )
            } else {
                script == alerter_script(
                    notification,
                    herdr_bin,
                    notifier_bin,
                    settings.alerter_timeout_secs as nat,
                    None,
                    None,
                    debug_log_path,
                    settings.state_dir@,
                )
            }
        }),
{
}

/// An application is opened as a path exactly where it has a slash.
pub proof fn law_open_command(before: Seq<char>, after: Seq<char>, name: Seq<char>)
    requires
        !name.contains('/'),
    ensures
        open_command(before + seq!['/'] + after) == "open "@ + quoted(
            before + seq!['/'] + after,
        ),
        open_command(name) == "open -a "@ + quoted(name),
{
    let path = before + seq!['/'] + after;
    assert(path[before.len() as int] == '/');
}

/// The lines for a window, a workspace and an application alone.
pub proof fn law_click_lines(
    con_id: Seq<char>,
    herdr_bin: Seq<char>,
    workspace_id: Seq<char>,
    command: Seq<char>,
    log_q: Option<Seq<char>>,
)
    ensures
        occurs(sway_focus(quoted(con_id), log_q), window_command(con_id)),
        has_prefix(
            workspace_focus(quoted(herdr_bin), Some(quoted(workspace_id)), log_q),
            "    "@ + workspace_command(herdr_bin, workspace_id),
        ),
        has_prefix(activation(Some(command), log_q), "    "@ + command),
        workspace_focus(quoted(herdr_bin), None, log_q).len() == 0,
        activation(None, log_q).len() == 0,
{
    let (a, b) = lemma_window_command(con_id, log_q);
    law_parts_of_text(a, window_command(con_id), b, seq![]);
    let line = workspace_focus(quoted(herdr_bin), Some(quoted(workspace_id)), log_q);
    let start = "    "@ + workspace_command(herdr_bin, workspace_id);
    assert(line.subrange(0, start.len() as int) =~= start);
    let lines = activation(Some(command), log_q);
    let first = "    "@ + command;
    assert(lines.subrange(0, first.len() as int) =~= first);
}

} // verus!
