//! The text of the notification scripts, section by section. Arguments that end
//! in `_q` are words that are quoted for the shell already.

use vstd::prelude::*;
use vstd::string::StringExecFns;

verus! {

/// The function of a script that runs a command on the host, from inside a
/// sandbox too.
pub open spec fn run_host_definition() -> Seq<char> {
    "run_host() {\n"@
        + "  if command -v \"$1\" >/dev/null 2>&1; then\n"@
        + "    \"$@\"\n"@
        + "  elif command -v flatpak-spawn >/dev/null 2>&1; then\n"@
        + "    flatpak-spawn --host \"$@\"\n"@
        + "  else\n"@
        + "    return 127\n"@
        + "  fi\n"@
        + "}\n"@
}

/// The function of a script that runs a command on the host, from inside a
/// sandbox too.
pub(crate) fn run_host_lines() -> (script: String)
    ensures
        script@ == run_host_definition(),
{
    let mut script = "run_host() {\n".to_owned();
    script.append("  if command -v \"$1\" >/dev/null 2>&1; then\n");
    script.append("    \"$@\"\n");
    script.append("  elif command -v flatpak-spawn >/dev/null 2>&1; then\n");
    script.append("    flatpak-spawn --host \"$@\"\n");
    script.append("  else\n");
    script.append("    return 127\n");
    script.append("  fi\n");
    script.append("}\n");
    script
}

/// The line that ends a script at once where the notification was cleared.
pub open spec fn marker_check(marker_q: Seq<char>) -> Seq<char> {
    "[ -e "@ + marker_q + " ] && exit 0\n"@
}

/// The line that ends a script at once where the notification was cleared.
pub(crate) fn marker_check_line(marker_q: &str) -> (script: String)
    ensures
        script@ == marker_check(marker_q@),
{
    let mut script = "[ -e ".to_owned();
    script.append(marker_q);
    script.append(" ] && exit 0\n");
    script
}

/// The lines that show a notification with `notify_cmd`, keep its id in a file
/// while it is shown, and read its result.
pub open spec fn linux_wait(
    id_path_q: Seq<char>,
    result_q: Seq<char>,
    status_q: Seq<char>,
    notify_cmd: Seq<char>,
) -> Seq<char> {
    "mkdir -p \"$(dirname "@
        + id_path_q
        + ")\"\n"@
        + "result_path=$(mktemp "@
        + result_q
        + ") || exit 1\n"@
        + "status_path=$(mktemp "@
        + status_q
        + ") || { rm -f \"$result_path\"; exit 1; }\n"@
        + "id_watcher_pid=\n"@
        + "cleanup() {\n"@
        + "  [ -z \"$id_watcher_pid\" ] || kill \"$id_watcher_pid\" 2>/dev/null\n"@
        + "  rm -f \"$result_path\" \"$status_path\" "@
        + id_path_q
        + "\n"@
        + "}\n"@
        + "trap cleanup EXIT\n"@
        + "(\n"@
        + "  "@
        + notify_cmd
        + " > \"$result_path\" 2>/dev/null\n"@
        + "  printf '%s' \"$?\" > \"$status_path\"\n"@
        + ") &\n"@
        + "notifier_pid=$!\n"@
        + "(\n"@
        + "  while kill -0 \"$notifier_pid\" 2>/dev/null; do\n"@
        + "    notification_id=$(sed -n 's/^\\([0-9][0-9]*\\)$/\\1/p' \"$result_path\" 2>/dev/null | tail -n 1)\n"@
        + "    if [ -n \"$notification_id\" ]; then\n"@
        + "      printf '%s' \"$notification_id\" > "@
        + id_path_q
        + "\n"@
        + "      exit 0\n"@
        + "    fi\n"@
        + "    sleep 0.1\n"@
        + "  done\n"@
        + ") &\n"@
        + "id_watcher_pid=$!\n"@
        + "wait \"$notifier_pid\"\n"@
        + "kill \"$id_watcher_pid\" 2>/dev/null\n"@
        + "wait \"$id_watcher_pid\" 2>/dev/null\n"@
        + "id_watcher_pid=\n"@
        + "notifier_status=$(cat \"$status_path\" 2>/dev/null || printf '1')\n"@
        + "result=$(cat \"$result_path\")\n"@
        + "rm -f \"$result_path\" \"$status_path\" "@
        + id_path_q
        + "\n"@
}

/// The lines that show a notification with `notify_cmd`, keep its id in a file
/// while it is shown, and read its result.
pub(crate) fn linux_wait_lines(
    id_path_q: &str,
    result_q: &str,
    status_q: &str,
    notify_cmd: &str,
) -> (script: String)
    ensures
        script@ == linux_wait(id_path_q@, result_q@, status_q@, notify_cmd@),
{
    let mut script = "mkdir -p \"$(dirname ".to_owned();
    script.append(id_path_q);
    script.append(")\"\n");
    script.append("result_path=$(mktemp ");
    script.append(result_q);
    script.append(") || exit 1\n");
    script.append("status_path=$(mktemp ");
    script.append(status_q);
    script.append(") || { rm -f \"$result_path\"; exit 1; }\n");
    script.append("id_watcher_pid=\n");
    script.append("cleanup() {\n");
    script.append("  [ -z \"$id_watcher_pid\" ] || kill \"$id_watcher_pid\" 2>/dev/null\n");
    script.append("  rm -f \"$result_path\" \"$status_path\" ");
    script.append(id_path_q);
    script.append("\n");
    script.append("}\n");
    script.append("trap cleanup EXIT\n");
    script.append("(\n");
    script.append("  ");
    script.append(notify_cmd);
    script.append(" > \"$result_path\" 2>/dev/null\n");
    script.append("  printf '%s' \"$?\" > \"$status_path\"\n");
    script.append(") &\n");
    script.append("notifier_pid=$!\n");
    script.append("(\n");
    script.append("  while kill -0 \"$notifier_pid\" 2>/dev/null; do\n");
    script.append("    notification_id=$(sed -n 's/^\\([0-9][0-9]*\\)$/\\1/p' \"$result_path\" 2>/dev/null | tail -n 1)\n");
    script.append("    if [ -n \"$notification_id\" ]; then\n");
    script.append("      printf '%s' \"$notification_id\" > ");
    script.append(id_path_q);
    script.append("\n");
    script.append("      exit 0\n");
    script.append("    fi\n");
    script.append("    sleep 0.1\n");
    script.append("  done\n");
    script.append(") &\n");
    script.append("id_watcher_pid=$!\n");
    script.append("wait \"$notifier_pid\"\n");
    script.append("kill \"$id_watcher_pid\" 2>/dev/null\n");
    script.append("wait \"$id_watcher_pid\" 2>/dev/null\n");
    script.append("id_watcher_pid=\n");
    script.append("notifier_status=$(cat \"$status_path\" 2>/dev/null || printf '1')\n");
    script.append("result=$(cat \"$result_path\")\n");
    script.append("rm -f \"$result_path\" \"$status_path\" ");
    script.append(id_path_q);
    script.append("\n");
    script
}

/// The lines that start alerter with the given arguments.
pub open spec fn alerter_start(
    result_q: Seq<char>,
    status_q: Seq<char>,
    notifier_q: Seq<char>,
    title_q: Seq<char>,
    body_q: Seq<char>,
    group_q: Seq<char>,
    icon_args: Seq<char>,
    action_q: Seq<char>,
    close_q: Seq<char>,
    timeout_args: Seq<char>,
) -> Seq<char> {
    "result_path=$(mktemp "@
        + result_q
        + ") || exit 1\n"@
        + "status_path=$(mktemp "@
        + status_q
        + ") || { rm -f \"$result_path\"; exit 1; }\n"@
        + "monitor_pid=\n"@
        + "cleanup() {\n"@
        + "  [ -z \"$monitor_pid\" ] || kill \"$monitor_pid\" 2>/dev/null\n"@
        + "  rm -f \"$result_path\" \"$status_path\"\n"@
        + "}\n"@
        + "trap cleanup EXIT\n"@
        + "(\n"@
        + "  "@
        + notifier_q
        + " --title "@
        + title_q
        + " --message "@
        + body_q
        + " --group "@
        + group_q
        + icon_args
        + " --actions "@
        + action_q
        + " --close-label "@
        + close_q
        + timeout_args
        + " > \"$result_path\" 2>/dev/null\n"@
        + "  printf '%s' \"$?\" > \"$status_path\"\n"@
        + ") &\n"@
        + "notifier_pid=$!\n"@
}

/// The lines that start alerter with the given arguments.
pub(crate) fn alerter_start_lines(
    result_q: &str,
    status_q: &str,
    notifier_q: &str,
    title_q: &str,
    body_q: &str,
    group_q: &str,
    icon_args: &str,
    action_q: &str,
    close_q: &str,
    timeout_args: &str,
) -> (script: String)
    ensures
        script@ == alerter_start(
            result_q@,
            status_q@,
            notifier_q@,
            title_q@,
            body_q@,
            group_q@,
            icon_args@,
            action_q@,
            close_q@,
            timeout_args@,
        ),
{
    let mut script = "result_path=$(mktemp ".to_owned();
    script.append(result_q);
    script.append(") || exit 1\n");
    script.append("status_path=$(mktemp ");
    script.append(status_q);
    script.append(") || { rm -f \"$result_path\"; exit 1; }\n");
    script.append("monitor_pid=\n");
    script.append("cleanup() {\n");
    script.append("  [ -z \"$monitor_pid\" ] || kill \"$monitor_pid\" 2>/dev/null\n");
    script.append("  rm -f \"$result_path\" \"$status_path\"\n");
    script.append("}\n");
    script.append("trap cleanup EXIT\n");
    script.append("(\n");
    script.append("  ");
    script.append(notifier_q);
    script.append(" --title ");
    script.append(title_q);
    script.append(" --message ");
    script.append(body_q);
    script.append(" --group ");
    script.append(group_q);
    script.append(icon_args);
    script.append(" --actions ");
    script.append(action_q);
    script.append(" --close-label ");
    script.append(close_q);
    script.append(timeout_args);
    script.append(" > \"$result_path\" 2>/dev/null\n");
    script.append("  printf '%s' \"$?\" > \"$status_path\"\n");
    script.append(") &\n");
    script.append("notifier_pid=$!\n");
    script
}

/// The lines that remove the notification once its pane is visible.
pub open spec fn alerter_monitor(
    visibility_check: Seq<char>,
    notifier_q: Seq<char>,
    group_q: Seq<char>,
) -> Seq<char> {
    "(\n"@
        + "  while kill -0 \"$notifier_pid\" 2>/dev/null; do\n"@
        + "    sleep 2\n"@
        + "    kill -0 \"$notifier_pid\" 2>/dev/null || exit 0\n"@
        + "    if "@
        + visibility_check
        + " >/dev/null 2>&1 && "@
        + notifier_q
        + " --remove "@
        + group_q
        + " >/dev/null 2>&1; then\n"@
        + "      exit 0\n"@
        + "    fi\n"@
        + "  done\n"@
        + ") &\n"@
        + "monitor_pid=$!\n"@
}

/// The lines that remove the notification once its pane is visible.
pub(crate) fn alerter_monitor_lines(
    visibility_check: &str,
    notifier_q: &str,
    group_q: &str,
) -> (script: String)
    ensures
        script@ == alerter_monitor(visibility_check@, notifier_q@, group_q@),
{
    let mut script = "(\n".to_owned();
    script.append("  while kill -0 \"$notifier_pid\" 2>/dev/null; do\n");
    script.append("    sleep 2\n");
    script.append("    kill -0 \"$notifier_pid\" 2>/dev/null || exit 0\n");
    script.append("    if ");
    script.append(visibility_check);
    script.append(" >/dev/null 2>&1 && ");
    script.append(notifier_q);
    script.append(" --remove ");
    script.append(group_q);
    script.append(" >/dev/null 2>&1; then\n");
    script.append("      exit 0\n");
    script.append("    fi\n");
    script.append("  done\n");
    script.append(") &\n");
    script.append("monitor_pid=$!\n");
    script
}

/// The lines that end the monitor of a notification.
pub open spec fn alerter_monitor_end() -> Seq<char> {
    "kill \"$monitor_pid\" 2>/dev/null\n"@
        + "wait \"$monitor_pid\" 2>/dev/null\n"@
        + "monitor_pid=\n"@
}

/// The lines that end the monitor of a notification.
pub(crate) fn alerter_monitor_end_lines() -> (script: String)
    ensures
        script@ == alerter_monitor_end(),
{
    let mut script = "kill \"$monitor_pid\" 2>/dev/null\n".to_owned();
    script.append("wait \"$monitor_pid\" 2>/dev/null\n");
    script.append("monitor_pid=\n");
    script
}

/// The lines that read the result of alerter.
pub open spec fn alerter_result() -> Seq<char> {
    "notifier_status=$(cat \"$status_path\" 2>/dev/null || printf '1')\n"@
        + "result=$(cat \"$result_path\")\n"@
        + "rm -f \"$result_path\" \"$status_path\"\n"@
}

/// The lines that read the result of alerter.
pub(crate) fn alerter_result_lines() -> (script: String)
    ensures
        script@ == alerter_result(),
{
    let mut script = "notifier_status=$(cat \"$status_path\" 2>/dev/null || printf '1')\n".to_owned();
    script.append("result=$(cat \"$result_path\")\n");
    script.append("rm -f \"$result_path\" \"$status_path\"\n");
    script
}

/// The lines that focus a sway container, with a log.
pub open spec fn sway_focus_logged(con_q: Seq<char>, log_q: Seq<char>) -> Seq<char> {
    "    if [ -n "@
        + con_q
        + " ]; then\n"@
        + "      run_host swaymsg \"[con_id=$(printf '%s' "@
        + con_q
        + ")]\" focus >> "@
        + log_q
        + " 2>&1 || printf '%s sway focus unavailable for con_id=%s\\n' \"$(date -u '+%Y-%m-%dT%H:%M:%SZ')\" "@
        + con_q
        + " >> "@
        + log_q
        + " 2>&1\n"@
        + "    else\n"@
        + "      printf '%s sway focus unavailable: no cached container id\\n' \"$(date -u '+%Y-%m-%dT%H:%M:%SZ')\" >> "@
        + log_q
        + " 2>&1\n"@
        + "    fi\n"@
}

/// The lines that focus a sway container, with a log.
pub(crate) fn sway_focus_logged_lines(con_q: &str, log_q: &str) -> (script: String)
    ensures
        script@ == sway_focus_logged(con_q@, log_q@),
{
    let mut script = "    if [ -n ".to_owned();
    script.append(con_q);
    script.append(" ]; then\n");
    script.append("      run_host swaymsg \"[con_id=$(printf '%s' ");
    script.append(con_q);
    script.append(")]\" focus >> ");
    script.append(log_q);
    script.append(" 2>&1 || printf '%s sway focus unavailable for con_id=%s\\n' \"$(date -u '+%Y-%m-%dT%H:%M:%SZ')\" ");
    script.append(con_q);
    script.append(" >> ");
    script.append(log_q);
    script.append(" 2>&1\n");
    script.append("    else\n");
    script.append("      printf '%s sway focus unavailable: no cached container id\\n' \"$(date -u '+%Y-%m-%dT%H:%M:%SZ')\" >> ");
    script.append(log_q);
    script.append(" 2>&1\n");
    script.append("    fi\n");
    script
}

/// The lines that focus a sway container, without a log.
pub open spec fn sway_focus_plain(con_q: Seq<char>) -> Seq<char> {
    "    if [ -n "@
        + con_q
        + " ]; then\n"@
        + "      run_host swaymsg \"[con_id=$(printf '%s' "@
        + con_q
        + ")]\" focus >/dev/null 2>&1 || printf '%s\\n' 'herdr-focus-notify: sway focus unavailable' >&2\n"@
        + "    else\n"@
        + "      printf '%s\\n' 'herdr-focus-notify: sway focus unavailable: no cached container id' >&2\n"@
        + "    fi\n"@
}

/// The lines that focus a sway container, without a log.
pub(crate) fn sway_focus_plain_lines(con_q: &str) -> (script: String)
    ensures
        script@ == sway_focus_plain(con_q@),
{
    let mut script = "    if [ -n ".to_owned();
    script.append(con_q);
    script.append(" ]; then\n");
    script.append("      run_host swaymsg \"[con_id=$(printf '%s' ");
    script.append(con_q);
    script.append(")]\" focus >/dev/null 2>&1 || printf '%s\\n' 'herdr-focus-notify: sway focus unavailable' >&2\n");
    script.append("    else\n");
    script.append("      printf '%s\\n' 'herdr-focus-notify: sway focus unavailable: no cached container id' >&2\n");
    script.append("    fi\n");
    script
}

/// The line that focuses a workspace, with a log.
pub open spec fn workspace_focus_logged(
    herdr_q: Seq<char>,
    workspace_q: Seq<char>,
    log_q: Seq<char>,
) -> Seq<char> {
    "    "@
        + herdr_q
        + " workspace focus "@
        + workspace_q
        + " >> "@
        + log_q
        + " 2>&1 || printf '%s workspace focus unavailable for workspace=%s\\n' \"$(date -u '+%Y-%m-%dT%H:%M:%SZ')\" "@
        + workspace_q
        + " >> "@
        + log_q
        + " 2>&1\n"@
}

/// The line that focuses a workspace, with a log.
pub(crate) fn workspace_focus_logged_line(
    herdr_q: &str,
    workspace_q: &str,
    log_q: &str,
) -> (script: String)
    ensures
        script@ == workspace_focus_logged(herdr_q@, workspace_q@, log_q@),
{
    let mut script = "    ".to_owned();
    script.append(herdr_q);
    script.append(" workspace focus ");
    script.append(workspace_q);
    script.append(" >> ");
    script.append(log_q);
    script.append(" 2>&1 || printf '%s workspace focus unavailable for workspace=%s\\n' \"$(date -u '+%Y-%m-%dT%H:%M:%SZ')\" ");
    script.append(workspace_q);
    script.append(" >> ");
    script.append(log_q);
    script.append(" 2>&1\n");
    script
}

/// The line that focuses a workspace, without a log.
pub open spec fn workspace_focus_plain(herdr_q: Seq<char>, workspace_q: Seq<char>) -> Seq<char> {
    "    "@
        + herdr_q
        + " workspace focus "@
        + workspace_q
        + " >/dev/null 2>&1 || printf '%s\\n' 'herdr-focus-notify: workspace focus unavailable' >&2\n"@
}

/// The line that focuses a workspace, without a log.
pub(crate) fn workspace_focus_plain_line(herdr_q: &str, workspace_q: &str) -> (script: String)
    ensures
        script@ == workspace_focus_plain(herdr_q@, workspace_q@),
{
    let mut script = "    ".to_owned();
    script.append(herdr_q);
    script.append(" workspace focus ");
    script.append(workspace_q);
    script.append(" >/dev/null 2>&1 || printf '%s\\n' 'herdr-focus-notify: workspace focus unavailable' >&2\n");
    script
}

/// The lines that activate an application, with a log.
pub open spec fn activation_logged(command: Seq<char>, log_q: Seq<char>) -> Seq<char> {
    "    "@
        + command
        + " >> "@
        + log_q
        + " 2>&1\n"@
        + "    activate_status=$?\n"@
        + "    printf '%s activate exited %s\\n' \"$(date -u '+%Y-%m-%dT%H:%M:%SZ')\" \"$activate_status\" >> "@
        + log_q
        + " 2>&1\n"@
}

/// The lines that activate an application, with a log.
pub(crate) fn activation_logged_lines(command: &str, log_q: &str) -> (script: String)
    ensures
        script@ == activation_logged(command@, log_q@),
{
    let mut script = "    ".to_owned();
    script.append(command);
    script.append(" >> ");
    script.append(log_q);
    script.append(" 2>&1\n");
    script.append("    activate_status=$?\n");
    script.append("    printf '%s activate exited %s\\n' \"$(date -u '+%Y-%m-%dT%H:%M:%SZ')\" \"$activate_status\" >> ");
    script.append(log_q);
    script.append(" 2>&1\n");
    script
}

/// The line that activates an application, without a log.
pub open spec fn activation_plain(command: Seq<char>) -> Seq<char> {
    "    "@ + command + " >/dev/null 2>&1\n"@
}

/// The line that activates an application, without a log.
pub(crate) fn activation_plain_line(command: &str) -> (script: String)
    ensures
        script@ == activation_plain(command@),
{
    let mut script = "    ".to_owned();
    script.append(command);
    script.append(" >/dev/null 2>&1\n");
    script
}

/// The lines that focus the pane where the result matches `pattern`, after the
/// lines `before`, with a log.
pub open spec fn click_logged(
    source: Seq<char>,
    pattern: Seq<char>,
    before: Seq<char>,
    herdr_q: Seq<char>,
    pane_q: Seq<char>,
    log_q: Seq<char>,
) -> Seq<char> {
    "printf '%s "@
        + source
        + " status=%s result=%s\\n' \"$(date -u '+%Y-%m-%dT%H:%M:%SZ')\" \"$notifier_status\" \"$result\" >> "@
        + log_q
        + " 2>&1\n"@
        + "if [ \"$notifier_status\" -ne 0 ]; then\n"@
        + "    exit \"$notifier_status\"\n"@
        + "fi\n"@
        + "status=0\n"@
        + "case \"$result\" in\n"@
        + "  "@
        + pattern
        + ")\n"@
        + before
        + "    "@
        + herdr_q
        + " agent focus "@
        + pane_q
        + " >> "@
        + log_q
        + " 2>&1\n"@
        + "    status=$?\n"@
        + "    printf '%s focus exited %s\\n' \"$(date -u '+%Y-%m-%dT%H:%M:%SZ')\" \"$status\" >> "@
        + log_q
        + " 2>&1\n"@
        + "    ;;\n"@
        + "esac\n"@
        + "exit \"$status\"\n"@
}

/// The lines that focus the pane where the result matches `pattern`, after the
/// lines `before`, with a log.
pub(crate) fn click_logged_lines(
    source: &str,
    pattern: &str,
    before: &str,
    herdr_q: &str,
    pane_q: &str,
    log_q: &str,
) -> (script: String)
    ensures
        script@ == click_logged(source@, pattern@, before@, herdr_q@, pane_q@, log_q@),
{
    let mut script = "printf '%s ".to_owned();
    script.append(source);
    script.append(" status=%s result=%s\\n' \"$(date -u '+%Y-%m-%dT%H:%M:%SZ')\" \"$notifier_status\" \"$result\" >> ");
    script.append(log_q);
    script.append(" 2>&1\n");
    script.append("if [ \"$notifier_status\" -ne 0 ]; then\n");
    script.append("    exit \"$notifier_status\"\n");
    script.append("fi\n");
    script.append("status=0\n");
    script.append("case \"$result\" in\n");
    script.append("  ");
    script.append(pattern);
    script.append(")\n");
    script.append(before);
    script.append("    ");
    script.append(herdr_q);
    script.append(" agent focus ");
    script.append(pane_q);
    script.append(" >> ");
    script.append(log_q);
    script.append(" 2>&1\n");
    script.append("    status=$?\n");
    script.append("    printf '%s focus exited %s\\n' \"$(date -u '+%Y-%m-%dT%H:%M:%SZ')\" \"$status\" >> ");
    script.append(log_q);
    script.append(" 2>&1\n");
    script.append("    ;;\n");
    script.append("esac\n");
    script.append("exit \"$status\"\n");
    script
}

/// The lines that focus the pane where the result matches `pattern`, after the
/// lines `before`, without a log.
pub open spec fn click_plain(
    pattern: Seq<char>,
    before: Seq<char>,
    herdr_q: Seq<char>,
    pane_q: Seq<char>,
) -> Seq<char> {
    "if [ \"$notifier_status\" -ne 0 ]; then\n"@
        + "    exit \"$notifier_status\"\n"@
        + "fi\n"@
        + "case \"$result\" in\n"@
        + "  "@
        + pattern
        + ")\n"@
        + before
        + "    exec "@
        + herdr_q
        + " agent focus "@
        + pane_q
        + "\n"@
        + "    ;;\n"@
        + "esac\n"@
}

/// The lines that focus the pane where the result matches `pattern`, after the
/// lines `before`, without a log.
pub(crate) fn click_plain_lines(
    pattern: &str,
    before: &str,
    herdr_q: &str,
    pane_q: &str,
) -> (script: String)
    ensures
        script@ == click_plain(pattern@, before@, herdr_q@, pane_q@),
{
    let mut script = "if [ \"$notifier_status\" -ne 0 ]; then\n".to_owned();
    script.append("    exit \"$notifier_status\"\n");
    script.append("fi\n");
    script.append("case \"$result\" in\n");
    script.append("  ");
    script.append(pattern);
    script.append(")\n");
    script.append(before);
    script.append("    exec ");
    script.append(herdr_q);
    script.append(" agent focus ");
    script.append(pane_q);
    script.append("\n");
    script.append("    ;;\n");
    script.append("esac\n");
    script
}

/// The command that shows a notification through the helper script.
pub open spec fn helper_command(
    notifier_q: Seq<char>,
    title_q: Seq<char>,
    body_q: Seq<char>,
) -> Seq<char> {
    "run_host python3 "@ + notifier_q + " "@ + title_q + " "@ + body_q
}

/// The command that shows a notification through the helper script.
pub(crate) fn helper_command_line(notifier_q: &str, title_q: &str, body_q: &str) -> (script: String)
    ensures
        script@ == helper_command(notifier_q@, title_q@, body_q@),
{
    let mut script = "run_host python3 ".to_owned();
    script.append(notifier_q);
    script.append(" ");
    script.append(title_q);
    script.append(" ");
    script.append(body_q);
    script
}

/// The command that shows a notification through a program like notify-send.
pub open spec fn notify_send_command(
    notifier_q: Seq<char>,
    title_q: Seq<char>,
    body_q: Seq<char>,
) -> Seq<char> {
    "run_host "@
        + notifier_q
        + " --print-id -A default=Focus --wait "@
        + title_q
        + " "@
        + body_q
}

/// The command that shows a notification through a program like notify-send.
pub(crate) fn notify_send_command_line(
    notifier_q: &str,
    title_q: &str,
    body_q: &str,
) -> (script: String)
    ensures
        script@ == notify_send_command(notifier_q@, title_q@, body_q@),
{
    let mut script = "run_host ".to_owned();
    script.append(notifier_q);
    script.append(" --print-id -A default=Focus --wait ");
    script.append(title_q);
    script.append(" ");
    script.append(body_q);
    script
}

} // verus!
