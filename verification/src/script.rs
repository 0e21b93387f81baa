//! The scripts that show a notification and focus its pane on a click.

use vstd::prelude::*;
use vstd::string::StringExecFns;

use crate::notification::FocusNotification;
use crate::notifier::{is_helper, is_linux_dbus_notify_helper};
use crate::paths::{join_path, path_joined};
use crate::script_lines::{
    activation_logged, activation_logged_lines, activation_plain, activation_plain_line,
    alerter_monitor, alerter_monitor_end, alerter_monitor_end_lines, alerter_monitor_lines,
    alerter_result, alerter_result_lines, alerter_start, alerter_start_lines, click_logged,
    click_logged_lines, click_plain, click_plain_lines, helper_command, helper_command_line,
    linux_wait, linux_wait_lines, marker_check, marker_check_line, notify_send_command,
    notify_send_command_line, run_host_definition, run_host_lines, sway_focus_logged,
    sway_focus_logged_lines, sway_focus_plain, sway_focus_plain_lines, workspace_focus_logged,
    workspace_focus_logged_line, workspace_focus_plain, workspace_focus_plain_line,
};
use crate::state::{
    cleared_notification_marker_path, id_path, marker_path, notification_id_path,
};
use crate::text::{contains_char, has_prefix, lemma_occurs_in_whole, occurs, occurs_at};
use crate::util::{decimal, decimal_text, hexadecimal, hexadecimal_text, quoted, shell_quote};

verus! {

/// The lines that focus the sway container, with a log where there is one.
pub open spec fn sway_focus(con_q: Seq<char>, log_q: Option<Seq<char>>) -> Seq<char> {
    match log_q {
        Some(log_q) => sway_focus_logged(con_q, log_q),
        None => sway_focus_plain(con_q),
    }
}

/// The lines that focus the sway container, with a log where there is one.
pub fn sway_focus_script(con_q: &str, log_q: Option<&str>) -> (r: String)
    ensures
        r@ == sway_focus(con_q@, log_q.deep_view()),
{
    match log_q {
        Some(log_q) => sway_focus_logged_lines(con_q, log_q),
        None => sway_focus_plain_lines(con_q),
    }
}

/// The line that focuses the workspace, where there is one to focus.
pub open spec fn workspace_focus(
    herdr_q: Seq<char>,
    workspace_q: Option<Seq<char>>,
    log_q: Option<Seq<char>>,
) -> Seq<char> {
    match (workspace_q, log_q) {
        (None, _) => seq![],
        (Some(workspace_q), Some(log_q)) => workspace_focus_logged(herdr_q, workspace_q, log_q),
        (Some(workspace_q), None) => workspace_focus_plain(herdr_q, workspace_q),
    }
}

/// The line that focuses the workspace, where there is one to focus.
pub fn workspace_focus_script(
    herdr_q: &str,
    workspace_q: Option<&str>,
    log_q: Option<&str>,
) -> (r: String)
    ensures
        r@ == workspace_focus(herdr_q@, workspace_q.deep_view(), log_q.deep_view()),
{
    match workspace_q {
        None => String::new(),
        Some(workspace_q) => match log_q {
            Some(log_q) => workspace_focus_logged_line(herdr_q, workspace_q, log_q),
            None => workspace_focus_plain_line(herdr_q, workspace_q),
        },
    }
}

/// The lines that activate the application, where a command for it is known.
pub open spec fn activation(command: Option<Seq<char>>, log_q: Option<Seq<char>>) -> Seq<char> {
    match (command, log_q) {
        (None, _) => seq![],
        (Some(command), Some(log_q)) => activation_logged(command, log_q),
        (Some(command), None) => activation_plain(command),
    }
}

/// The lines that activate the application, where a command for it is known.
pub fn activation_script(activate_command: Option<&str>, log_q: Option<&str>) -> (r: String)
    ensures
        r@ == activation(activate_command.deep_view(), log_q.deep_view()),
{
    match activate_command {
        None => String::new(),
        Some(command) => match log_q {
            Some(log_q) => activation_logged_lines(command, log_q),
            None => activation_plain_line(command),
        },
    }
}

/// The command that opens an application: by its path where it has a slash,
/// by its name otherwise.
pub open spec fn open_command(app: Seq<char>) -> Seq<char> {
    if app.contains('/') {
        "open "@ + quoted(app)
    } else {
        "open -a "@ + quoted(app)
    }
}

/// The command that opens the application `app`.
pub fn activation_command_from(app: String) -> (r: String)
    ensures
        r@ == open_command(app@),
{
    let app_q = shell_quote(app.as_str());
    let mut r = if contains_char(app.as_str(), '/') {
        "open ".to_owned()
    } else {
        "open -a ".to_owned()
    };
    r.append(app_q.as_str());
    r
}

/// The command that opens the configured application, where there is one.
pub fn activation_command(activate_app: Option<String>) -> (r: Option<String>)
    ensures
        r.deep_view() == (match activate_app.deep_view() {
            Some(app) => Some(open_command(app)),
            None => None,
        }),
{
    match activate_app {
        Some(app) => Some(activation_command_from(app)),
        None => None,
    }
}

/// A value quoted for the shell, where there is one.
pub open spec fn quoted_option(value: Option<Seq<char>>) -> Option<Seq<char>> {
    match value {
        Some(value) => Some(quoted(value)),
        None => None,
    }
}

/// A value quoted for the shell, where there is one.
fn quote_option(value: Option<&str>) -> (r: Option<String>)
    ensures
        r.deep_view() == quoted_option(value.deep_view()),
{
    match value {
        Some(value) => Some(shell_quote(value)),
        None => None,
    }
}

/// The template, quoted, of a temporary file beside the marker `marker`.
pub open spec fn temp_template(marker: Seq<char>, suffix: Seq<char>) -> Seq<char> {
    quoted(marker + suffix)
}

/// The template, quoted, of a temporary file beside the marker `marker`.
fn temp_template_word(marker: &str, suffix: &str) -> (r: String)
    ensures
        r@ == temp_template(marker@, suffix@),
{
    let mut path = marker.to_owned();
    path.append(suffix);
    shell_quote(path.as_str())
}

/// The last lines of a script: focus the pane where the result of the notifier
/// `source` matches `pattern`, after the lines `before`.
pub open spec fn on_click(
    source: Seq<char>,
    pattern: Seq<char>,
    before: Seq<char>,
    herdr_q: Seq<char>,
    pane_q: Seq<char>,
    log_q: Option<Seq<char>>,
) -> Seq<char> {
    match log_q {
        Some(log_q) => click_logged(source, pattern, before, herdr_q, pane_q, log_q),
        None => click_plain(pattern, before, herdr_q, pane_q),
    }
}

/// The last lines of a script.
fn on_click_lines(
    source: &str,
    pattern: &str,
    before: &str,
    herdr_q: &str,
    pane_q: &str,
    log_q: Option<&str>,
) -> (r: String)
    ensures
        r@ == on_click(source@, pattern@, before@, herdr_q@, pane_q@, log_q.deep_view()),
{
    match log_q {
        Some(log_q) => click_logged_lines(source, pattern, before, herdr_q, pane_q, log_q),
        None => click_plain_lines(pattern, before, herdr_q, pane_q),
    }
}

/// The command that shows the notification: through the bundled helper, or
/// through another program that takes the arguments of notify-send.
pub open spec fn notify_command(notifier_bin: Seq<char>, title: Seq<char>, body: Seq<char>) -> Seq<
    char,
> {
    if is_helper(notifier_bin) {
        helper_command(quoted(notifier_bin), quoted(title), quoted(body))
    } else {
        notify_send_command(quoted(notifier_bin), quoted(title), quoted(body))
    }
}

/// The script for a Linux desktop.
pub open spec fn linux_script(
    notification: FocusNotification,
    herdr_bin: Seq<char>,
    notifier_bin: Seq<char>,
    sway_container_id: Option<Seq<char>>,
    debug_log_path: Option<Seq<char>>,
    state_dir: Seq<char>,
) -> Seq<char> {
    let marker = marker_path(state_dir, notification.pane_id@);
    let con_q = quoted(
        match sway_container_id {
            Some(id) => id,
            None => seq![],
        },
    );
    let log_q = quoted_option(debug_log_path);
    let workspace_q = quoted_option(notification.workspace_id.deep_view());
    "#!/bin/sh\n"@ + run_host_definition() + marker_check(quoted(marker)) + linux_wait(
        quoted(id_path(state_dir, notification.pane_id@)),
        temp_template(marker, ".result.XXXXXX"@),
        temp_template(marker, ".status.XXXXXX"@),
        notify_command(notifier_bin, notification.title@, notification.body@),
    ) + on_click(
        "notifier"@,
        "*default*"@,
        sway_focus(con_q, log_q) + workspace_focus(quoted(herdr_bin), workspace_q, log_q),
        quoted(herdr_bin),
        quoted(notification.pane_id@),
        log_q,
    )
}

/// The script for a Linux desktop: show the notification, and on a click focus
/// the sway container, the workspace and the pane.
pub fn linux_focus_script(
    notification: &FocusNotification,
    herdr_bin: &str,
    notifier_bin: &str,
    sway_container_id: Option<&str>,
    debug_log_path: Option<&str>,
    state_dir: &str,
) -> (r: String)
    ensures
        r@ == linux_script(
            *notification,
            herdr_bin@,
            notifier_bin@,
            sway_container_id.deep_view(),
            debug_log_path.deep_view(),
            state_dir@,
        ),
{
    let title_q = shell_quote(notification.title.as_str());
    let body_q = shell_quote(notification.body.as_str());
    let pane_q = shell_quote(notification.pane_id.as_str());
    let workspace_q = match &notification.workspace_id {
        Some(id) => Some(shell_quote(id.as_str())),
        None => None,
    };
    let herdr_q = shell_quote(herdr_bin);
    let notifier_q = shell_quote(notifier_bin);
    let con_q = match sway_container_id {
        Some(id) => shell_quote(id),
        None => shell_quote(""),
    };
    proof {
        reveal_strlit("");
        assert(""@ =~= Seq::<char>::empty());
    }
    let marker = cleared_notification_marker_path(state_dir, notification.pane_id.as_str());
    let marker_q = shell_quote(marker.as_str());
    let id_path = notification_id_path(state_dir, notification.pane_id.as_str());
    let id_path_q = shell_quote(id_path.as_str());
    let result_q = temp_template_word(marker.as_str(), ".result.XXXXXX");
    let status_q = temp_template_word(marker.as_str(), ".status.XXXXXX");
    let notify_cmd = if is_linux_dbus_notify_helper(notifier_bin) {
        helper_command_line(notifier_q.as_str(), title_q.as_str(), body_q.as_str())
    } else {
        notify_send_command_line(notifier_q.as_str(), title_q.as_str(), body_q.as_str())
    };
    let log_q = quote_option(debug_log_path);
    let log_word = match &log_q {
        Some(word) => Some(word.as_str()),
        None => None,
    };
    let workspace_word = match &workspace_q {
        Some(word) => Some(word.as_str()),
        None => None,
    };

    let mut script = "#!/bin/sh\n".to_owned();
    script.append(run_host_lines().as_str());
    script.append(marker_check_line(marker_q.as_str()).as_str());
    script.append(
        linux_wait_lines(
            id_path_q.as_str(),
            result_q.as_str(),
            status_q.as_str(),
            notify_cmd.as_str(),
        ).as_str(),
    );
    let mut before = sway_focus_script(con_q.as_str(), log_word);
    before.append(
        workspace_focus_script(herdr_q.as_str(), workspace_word, log_word).as_str(),
    );
    script.append(
        on_click_lines(
            "notifier",
            "*default*",
            before.as_str(),
            herdr_q.as_str(),
            pane_q.as_str(),
            log_word,
        ).as_str(),
    );
    script
}

/// The arguments that give alerter an icon, where the notification has one.
pub open spec fn icon_args(app_icon: Option<Seq<char>>) -> Seq<char> {
    match app_icon {
        Some(path) => " --app-icon "@ + quoted(path),
        None => seq![],
    }
}

/// The arguments that let alerter give up after some seconds; none for zero.
pub open spec fn timeout_args(timeout_secs: nat) -> Seq<char> {
    if timeout_secs > 0 {
        " --timeout "@ + decimal(timeout_secs)
    } else {
        seq![]
    }
}

/// The command that asks `binary` whether the pane is visible.
pub open spec fn visibility_command(binary: Seq<char>, pane_id: Seq<char>) -> Seq<char> {
    quoted(binary) + " --check-pane-visibility "@ + quoted(pane_id)
}

/// The lines that watch whether the pane becomes visible, where there is a
/// program to ask.
pub open spec fn monitor_start(
    binary: Option<Seq<char>>,
    pane_id: Seq<char>,
    notifier_q: Seq<char>,
    group_q: Seq<char>,
) -> Seq<char> {
    match binary {
        Some(binary) => alerter_monitor(visibility_command(binary, pane_id), notifier_q, group_q),
        None => seq![],
    }
}

/// The lines that end the watch, where there was one.
pub open spec fn monitor_end(binary: Option<Seq<char>>) -> Seq<char> {
    match binary {
        Some(_) => alerter_monitor_end(),
        None => seq![],
    }
}

/// The script for alerter.
pub open spec fn alerter_script(
    notification: FocusNotification,
    herdr_bin: Seq<char>,
    notifier_bin: Seq<char>,
    timeout_secs: nat,
    activate_command: Option<Seq<char>>,
    visibility_check_binary: Option<Seq<char>>,
    debug_log_path: Option<Seq<char>>,
    state_dir: Seq<char>,
) -> Seq<char> {
    let marker = marker_path(state_dir, notification.pane_id@);
    let group_q = quoted(notification.group@);
    let log_q = quoted_option(debug_log_path);
    "#!/bin/sh\n"@ + marker_check(quoted(marker)) + alerter_start(
        temp_template(marker, ".result.XXXXXX"@),
        temp_template(marker, ".status.XXXXXX"@),
        quoted(notifier_bin),
        quoted(notification.title@),
        quoted(notification.body@),
        group_q,
        icon_args(notification.app_icon.deep_view()),
        quoted("Focus"@),
        quoted("Dismiss"@),
        timeout_args(timeout_secs),
    ) + monitor_start(
        visibility_check_binary,
        notification.pane_id@,
        quoted(notifier_bin),
        group_q,
    ) + "wait \"$notifier_pid\"\n"@ + monitor_end(visibility_check_binary) + alerter_result()
        + on_click(
        "alerter"@,
        "Focus|@ACTIONCLICKED|@CONTENTCLICKED"@,
        activation(activate_command, log_q),
        quoted(herdr_bin),
        quoted(notification.pane_id@),
        log_q,
    )
}

/// The script for alerter: show the notification, take it away once the pane
/// is visible, and on a click activate the application and focus the pane.
pub fn alerter_focus_script(
    notification: &FocusNotification,
    herdr_bin: &str,
    notifier_bin: &str,
    timeout_secs: u64,
    activate_command: Option<&str>,
    visibility_check_binary: Option<&str>,
    debug_log_path: Option<&str>,
    state_dir: &str,
) -> (r: String)
    ensures
        r@ == alerter_script(
            *notification,
            herdr_bin@,
            notifier_bin@,
            timeout_secs as nat,
            activate_command.deep_view(),
            visibility_check_binary.deep_view(),
            debug_log_path.deep_view(),
            state_dir@,
        ),
{
    let title_q = shell_quote(notification.title.as_str());
    let body_q = shell_quote(notification.body.as_str());
    let group_q = shell_quote(notification.group.as_str());
    let pane_q = shell_quote(notification.pane_id.as_str());
    let herdr_q = shell_quote(herdr_bin);
    let notifier_q = shell_quote(notifier_bin);
    let marker = cleared_notification_marker_path(state_dir, notification.pane_id.as_str());
    let marker_q = shell_quote(marker.as_str());
    let app_icon_args = match &notification.app_icon {
        Some(path) => {
            let mut args = " --app-icon ".to_owned();
            args.append(shell_quote(path.as_str()).as_str());
            args
        },
        None => String::new(),
    };
    let timeout = if timeout_secs > 0 {
        let mut args = " --timeout ".to_owned();
        args.append(decimal_text(timeout_secs).as_str());
        args
    } else {
        String::new()
    };
    let visibility_check = match visibility_check_binary {
        Some(binary) => {
            let mut command = shell_quote(binary);
            command.append(" --check-pane-visibility ");
            command.append(pane_q.as_str());
            Some(command)
        },
        None => None,
    };
    let result_q = temp_template_word(marker.as_str(), ".result.XXXXXX");
    let status_q = temp_template_word(marker.as_str(), ".status.XXXXXX");
    let log_q = quote_option(debug_log_path);
    let log_word = match &log_q {
        Some(word) => Some(word.as_str()),
        None => None,
    };

    let mut script = "#!/bin/sh\n".to_owned();
    script.append(marker_check_line(marker_q.as_str()).as_str());
    script.append(
        alerter_start_lines(
            result_q.as_str(),
            status_q.as_str(),
            notifier_q.as_str(),
            title_q.as_str(),
            body_q.as_str(),
            group_q.as_str(),
            app_icon_args.as_str(),
            shell_quote("Focus").as_str(),
            shell_quote("Dismiss").as_str(),
            timeout.as_str(),
        ).as_str(),
    );
    let monitor = match &visibility_check {
        Some(command) => alerter_monitor_lines(
            command.as_str(),
            notifier_q.as_str(),
            group_q.as_str(),
        ),
        None => String::new(),
    };
    script.append(monitor.as_str());
    script.append("wait \"$notifier_pid\"\n");
    let monitor_end = match &visibility_check {
        Some(_) => alerter_monitor_end_lines(),
        None => String::new(),
    };
    script.append(monitor_end.as_str());
    script.append(alerter_result_lines().as_str());
    let before = activation_script(activate_command, log_word);
    script.append(
        on_click_lines(
            "alerter",
            "Focus|@ACTIONCLICKED|@CONTENTCLICKED",
            before.as_str(),
            herdr_q.as_str(),
            pane_q.as_str(),
            log_word,
        ).as_str(),
    );
    script
}

/// What the script of a notification depends on beside the notification.
pub struct ScriptSettings {
    /// Is the notification shown on a Linux desktop?
    pub linux: bool,
    /// The sway container that is known for the pane.
    pub sway_container_id: Option<String>,
    /// After how many seconds alerter gives up; zero for never.
    pub alerter_timeout_secs: u64,
    /// The application to activate on a click.
    pub activate_app: Option<String>,
    /// The directory for state files.
    pub state_dir: String,
}

/// The script of a notification under the given settings. The visibility of a
/// pane is watched only where there is an application to activate.
pub open spec fn script_content(
    notification: FocusNotification,
    herdr_bin: Seq<char>,
    notifier_bin: Seq<char>,
    executable_path: Option<Seq<char>>,
    debug_log_path: Option<Seq<char>>,
    settings: ScriptSettings,
) -> Seq<char> {
    if settings.linux {
        linux_script(
            notification,
            herdr_bin,
            notifier_bin,
            settings.sway_container_id.deep_view(),
            debug_log_path,
            settings.state_dir@,
        )
    } else {
        alerter_script(
            notification,
            herdr_bin,
            notifier_bin,
            settings.alerter_timeout_secs as nat,
            match settings.activate_app.deep_view() {
                Some(app) => Some(open_command(app)),
                None => None,
            },
            if settings.activate_app is Some {
                executable_path
            } else {
                None
            },
            debug_log_path,
            settings.state_dir@,
        )
    }
}

/// The script of a notification under the given settings.
pub fn focus_script_content(
    notification: &FocusNotification,
    herdr_bin: &str,
    notifier_bin: &str,
    executable_path: Option<&str>,
    debug_log_path: Option<&str>,
    settings: &ScriptSettings,
) -> (r: String)
    ensures
        r@ == script_content(
            *notification,
            herdr_bin@,
            notifier_bin@,
            executable_path.deep_view(),
            debug_log_path.deep_view(),
            *settings,
        ),
{
    if settings.linux {
        let container = match &settings.sway_container_id {
            Some(id) => Some(id.as_str()),
            None => None,
        };
        return linux_focus_script(
            notification,
            herdr_bin,
            notifier_bin,
            container,
            debug_log_path,
            settings.state_dir.as_str(),
        );
    }
    let command = activation_command(settings.activate_app.clone());
    let command_text = match &command {
        Some(text) => Some(text.as_str()),
        None => None,
    };
    let watcher = if settings.activate_app.is_some() {
        executable_path
    } else {
        None
    };
    alerter_focus_script(
        notification,
        herdr_bin,
        notifier_bin,
        settings.alerter_timeout_secs,
        command_text,
        watcher,
        debug_log_path,
        settings.state_dir.as_str(),
    )
}

/// The name of the file for the script with the hash `hash`.
pub open spec fn script_file_name(hash: u64) -> Seq<char> {
    "focus-"@ + hexadecimal(hash as nat, 16) + ".sh"@
}

/// The file for the script with the hash `hash`.
pub fn focus_script_path(state_dir: &str, hash: u64) -> (r: String)
    ensures
        r@ == path_joined(state_dir@, script_file_name(hash)),
{
    let mut name = "focus-".to_owned();
    name.append(hexadecimal_text(hash, 16).as_str());
    name.append(".sh");
    join_path(state_dir, name.as_str())
}

/// The file that clicks are logged to, where debugging is on.
pub fn debug_log_path(state_dir: &str, debug: bool) -> (r: Option<String>)
    ensures
        r.deep_view() == (if debug {
            Some(path_joined(state_dir@, "focus-click.log"@))
        } else {
            None
        }),
{
    if debug {
        Some(join_path(state_dir, "focus-click.log"))
    } else {
        None
    }
}

/// The command of a script that focuses a pane.
pub open spec fn focus_command(herdr_bin: Seq<char>, pane_id: Seq<char>) -> Seq<char> {
    quoted(herdr_bin) + " agent focus "@ + quoted(pane_id)
}

/// A click runs the command that focuses the pane, with or without a log.
proof fn lemma_click_focuses_pane(
    source: Seq<char>,
    pattern: Seq<char>,
    before: Seq<char>,
    herdr_bin: Seq<char>,
    pane_id: Seq<char>,
    log_q: Option<Seq<char>>,
)
    ensures
        occurs(
            on_click(source, pattern, before, quoted(herdr_bin), quoted(pane_id), log_q),
            focus_command(herdr_bin, pane_id),
        ),
{
    let command = focus_command(herdr_bin, pane_id);
    let whole = on_click(source, pattern, before, quoted(herdr_bin), quoted(pane_id), log_q);
    assert(command.subrange(0, command.len() as int) =~= command);
    assert(occurs_at(command, 0, command));
    match log_q {
        Some(log_q) => {
            let head = "printf '%s "@ + source
                + " status=%s result=%s\\n' \"$(date -u '+%Y-%m-%dT%H:%M:%SZ')\" \"$notifier_status\" \"$result\" >> "@
                + log_q + " 2>&1\n"@ + "if [ \"$notifier_status\" -ne 0 ]; then\n"@
                + "    exit \"$notifier_status\"\n"@ + "fi\n"@ + "status=0\n"@
                + "case \"$result\" in\n"@ + "  "@ + pattern + ")\n"@ + before + "    "@;
            let tail = " >> "@ + log_q + " 2>&1\n"@ + "    status=$?\n"@
                + "    printf '%s focus exited %s\\n' \"$(date -u '+%Y-%m-%dT%H:%M:%SZ')\" \"$status\" >> "@
                + log_q + " 2>&1\n"@ + "    ;;\n"@ + "esac\n"@ + "exit \"$status\"\n"@;
            assert(whole =~= head + command + tail);
            lemma_occurs_in_whole(head, command, tail, command);
        },
        None => {
            let head = "if [ \"$notifier_status\" -ne 0 ]; then\n"@
                + "    exit \"$notifier_status\"\n"@ + "fi\n"@ + "case \"$result\" in\n"@ + "  "@
                + pattern + ")\n"@ + before + "    exec "@;
            let tail = "\n"@ + "    ;;\n"@ + "esac\n"@;
            assert(whole =~= head + command + tail);
            lemma_occurs_in_whole(head, command, tail, command);
        },
    }
}

/// The script of a notification holds the command that focuses its pane,
/// whatever the settings are.
pub proof fn law_script_focuses_pane(
    notification: FocusNotification,
    herdr_bin: Seq<char>,
    notifier_bin: Seq<char>,
    executable_path: Option<Seq<char>>,
    debug_log_path: Option<Seq<char>>,
    settings: ScriptSettings,
)
    ensures
        occurs(
            script_content(
                notification,
                herdr_bin,
                notifier_bin,
                executable_path,
                debug_log_path,
                settings,
            ),
            focus_command(herdr_bin, notification.pane_id@),
        ),
{
    let script = script_content(
        notification,
        herdr_bin,
        notifier_bin,
        executable_path,
        debug_log_path,
        settings,
    );
    let pane_id = notification.pane_id@;
    let log_q = quoted_option(debug_log_path);
    let (source, pattern, before) = if settings.linux {
        let con_q = quoted(
            match settings.sway_container_id.deep_view() {
                Some(id) => id,
                None => seq![],
            },
        );
        let workspace_q = quoted_option(notification.workspace_id.deep_view());
        (
            "notifier"@,
            "*default*"@,
            sway_focus(con_q, log_q) + workspace_focus(quoted(herdr_bin), workspace_q, log_q),
        )
    } else {
        let command = match settings.activate_app.deep_view() {
            Some(app) => Some(open_command(app)),
            None => None,
        };
        ("alerter"@, "Focus|@ACTIONCLICKED|@CONTENTCLICKED"@, activation(command, log_q))
    };
    let click = on_click(source, pattern, before, quoted(herdr_bin), quoted(pane_id), log_q);
    lemma_click_focuses_pane(source, pattern, before, herdr_bin, pane_id, log_q);
    let head = script.take(script.len() - click.len());
    assert(script =~= head + click + Seq::<char>::empty());
    lemma_occurs_in_whole(head, click, seq![], focus_command(herdr_bin, pane_id));
}

/// The first thing that a script does is to end where the notification of the
/// pane was cleared: before that line stand only the line that names the shell
/// and, on Linux, the definition of a function.
pub proof fn law_script_checks_marker_first(
    notification: FocusNotification,
    herdr_bin: Seq<char>,
    notifier_bin: Seq<char>,
    executable_path: Option<Seq<char>>,
    debug_log_path: Option<Seq<char>>,
    settings: ScriptSettings,
)
    ensures
        has_prefix(
            script_content(
                notification,
                herdr_bin,
                notifier_bin,
                executable_path,
                debug_log_path,
                settings,
            ),
            "#!/bin/sh\n"@ + (if settings.linux {
                run_host_definition()
            } else {
                seq![]
            }) + marker_check(
                quoted(marker_path(settings.state_dir@, notification.pane_id@)),
            ),
        ),
{
    let script = script_content(
        notification,
        herdr_bin,
        notifier_bin,
        executable_path,
        debug_log_path,
        settings,
    );
    let start = "#!/bin/sh\n"@ + (if settings.linux {
        run_host_definition()
    } else {
        seq![]
    }) + marker_check(quoted(marker_path(settings.state_dir@, notification.pane_id@)));
    assert(script.subrange(0, start.len() as int) =~= start);
}

/// The settings of one desktop make no difference on the other: those of
/// alerter on Linux, and the sway container elsewhere. Without an application
/// to activate, the program that checks visibility makes none either.
pub proof fn law_script_ignores_other_desktop(
    notification: FocusNotification,
    herdr_bin: Seq<char>,
    notifier_bin: Seq<char>,
    executable_path: Option<Seq<char>>,
    other_executable: Option<Seq<char>>,
    debug_log_path: Option<Seq<char>>,
    settings: ScriptSettings,
    other: ScriptSettings,
)
    requires
        settings.linux == other.linux,
        settings.state_dir == other.state_dir,
    ensures
        settings.linux && settings.sway_container_id == other.sway_container_id ==> script_content(
            notification,
            herdr_bin,
            notifier_bin,
            executable_path,
            debug_log_path,
            settings,
        ) == script_content(
            notification,
            herdr_bin,
            notifier_bin,
            other_executable,
            debug_log_path,
            other,
        ),
        !settings.linux && settings.alerter_timeout_secs == other.alerter_timeout_secs
            && settings.activate_app == other.activate_app && (executable_path == other_executable
            || settings.activate_app is None) ==> script_content(
            notification,
            herdr_bin,
            notifier_bin,
            executable_path,
            debug_log_path,
            settings,
        ) == script_content(
            notification,
            herdr_bin,
            notifier_bin,
            other_executable,
            debug_log_path,
            other,
        ),
{
}

} // verus!
