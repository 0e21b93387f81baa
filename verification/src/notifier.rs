//! Which program shows a notification, and which one takes it away again.

use vstd::prelude::*;
use vstd::string::StringExecFns;

use crate::paths::{file_name, join_path, name_of, parent, parent_of, path_joined};
use crate::text::same_text;
use crate::util::{group_id, notification_group_id, quoted, shell_quote};

verus! {

/// The notifier is the helper script that comes with this program: its file
/// name says so.
pub open spec fn is_helper(notifier_bin: Seq<char>) -> bool {
    name_of(notifier_bin) == Some("linux-notify-wait.py"@)
}

/// True when `notifier_bin` is the bundled helper and no other program.
pub fn is_linux_dbus_notify_helper(notifier_bin: &str) -> (r: bool)
    ensures
        r == is_helper(notifier_bin@),
{
    match file_name(notifier_bin) {
        Some(name) => same_text(name.as_str(), "linux-notify-wait.py"),
        None => false,
    }
}

/// Where a configured notifier is looked for.
#[derive(Debug, Clone, Copy, PartialEq, Eq, Structural)]
pub enum NotifierCheck {
    /// Is it an executable file?
    File,
    /// Is it a program on the search path?
    SearchPath,
    /// Is it a program of the host, seen from a sandbox?
    Host,
}

/// What to do next in the search for the notifier.
pub enum NotifierStep<T> {
    /// Check whether the configured notifier can be run.
    Check { name: T, check: NotifierCheck },
    /// Look for the helper script that comes with this program.
    FindHelper,
    /// Look for alerter.
    FindAlerter,
    /// The search is over: the notifier, or what is wrong.
    Finish(Result<T, T>),
}

impl NotifierStep<String> {
    /// The step with the texts that it holds.
    pub open spec fn view(self) -> NotifierStep<Seq<char>> {
        match self {
            NotifierStep::Check { name, check } => NotifierStep::Check { name: name@, check },
            NotifierStep::FindHelper => NotifierStep::FindHelper,
            NotifierStep::FindAlerter => NotifierStep::FindAlerter,
            NotifierStep::Finish(Ok(name)) => NotifierStep::Finish(Ok(name@)),
            NotifierStep::Finish(Err(message)) => NotifierStep::Finish(Err(message@)),
        }
    }
}

/// The first step: a configured notifier is checked; otherwise the one that
/// the desktop uses is looked for.
pub open spec fn notifier_start(configured: Option<Seq<char>>, linux: bool) -> NotifierStep<
    Seq<char>,
> {
    match configured {
        Some(name) => NotifierStep::Check { name, check: NotifierCheck::File },
        None => if linux {
            NotifierStep::FindHelper
        } else {
            NotifierStep::FindAlerter
        },
    }
}

/// Begins the search for the notifier.
pub fn resolve_notifier_bin(configured: Option<&str>, linux: bool) -> (r: NotifierStep<String>)
    ensures
        r@ == notifier_start(configured.deep_view(), linux),
{
    match configured {
        Some(name) => NotifierStep::Check { name: name.to_owned(), check: NotifierCheck::File },
        None => if linux {
            NotifierStep::FindHelper
        } else {
            NotifierStep::FindAlerter
        },
    }
}

/// The step after a check of the configured notifier: the checks follow each
/// other until one is passed, the last of them on Linux only.
pub open spec fn after_check(
    name: Seq<char>,
    linux: bool,
    check: NotifierCheck,
    passed: bool,
) -> NotifierStep<Seq<char>> {
    if passed {
        NotifierStep::Finish(Ok(name))
    } else {
        match check {
            NotifierCheck::File => NotifierStep::Check { name, check: NotifierCheck::SearchPath },
            NotifierCheck::SearchPath if linux => NotifierStep::Check {
                name,
                check: NotifierCheck::Host,
            },
            _ => NotifierStep::Finish(Err("configured notifier is not executable: "@ + name)),
        }
    }
}

/// Goes on after a check of the configured notifier.
pub fn configured_notifier_checked(
    name: &str,
    linux: bool,
    check: NotifierCheck,
    passed: bool,
) -> (r: NotifierStep<String>)
    ensures
        r@ == after_check(name@, linux, check, passed),
{
    if passed {
        return NotifierStep::Finish(Ok(name.to_owned()));
    }
    match check {
        NotifierCheck::File => {
            return NotifierStep::Check {
                name: name.to_owned(),
                check: NotifierCheck::SearchPath,
            };
        },
        NotifierCheck::SearchPath => {
            if linux {
                return NotifierStep::Check { name: name.to_owned(), check: NotifierCheck::Host };
            }
        },
        NotifierCheck::Host => {},
    }
    let mut message = "configured notifier is not executable: ".to_owned();
    message.append(name);
    NotifierStep::Finish(Err(message))
}

/// Ends the search with the helper script that was found, if any was.
pub fn helper_searched(found: Option<String>) -> (r: NotifierStep<String>)
    ensures
        r@ == NotifierStep::Finish(
            match found.deep_view() {
                Some(path) => Ok(path),
                None => Err(
                    "no scripts/linux-notify-wait.py found next to the plugin; reinstall the plugin or set HERDR_FOCUS_NOTIFY_NOTIFIER"@,
                ),
            },
        ),
{
    match found {
        Some(path) => NotifierStep::Finish(Ok(path)),
        None => NotifierStep::Finish(
            Err(
                "no scripts/linux-notify-wait.py found next to the plugin; reinstall the plugin or set HERDR_FOCUS_NOTIFY_NOTIFIER".to_owned(),
            ),
        ),
    }
}

/// Ends the search with the alerter that was found, if any was.
pub fn alerter_searched(found: Option<String>) -> (r: NotifierStep<String>)
    ensures
        r@ == NotifierStep::Finish(
            match found.deep_view() {
                Some(path) => Ok(path),
                None => Err(
                    "no alerter notifier found; install alerter with `brew install vjeantet/tap/alerter` or set HERDR_FOCUS_NOTIFY_NOTIFIER"@,
                ),
            },
        ),
{
    match found {
        Some(path) => NotifierStep::Finish(Ok(path)),
        None => NotifierStep::Finish(
            Err(
                "no alerter notifier found; install alerter with `brew install vjeantet/tap/alerter` or set HERDR_FOCUS_NOTIFY_NOTIFIER".to_owned(),
            ),
        ),
    }
}

/// What following the steps for a configured notifier from `check` on leads
/// to, where `passes` says which checks it passes.
pub open spec fn configured_outcome(
    name: Seq<char>,
    linux: bool,
    check: NotifierCheck,
    passes: spec_fn(NotifierCheck) -> bool,
) -> Result<Seq<char>, Seq<char>>
    decreases
            (match check {
                NotifierCheck::File => 2int,
                NotifierCheck::SearchPath => 1int,
                NotifierCheck::Host => 0int,
            }),
{
    match after_check(name, linux, check, passes(check)) {
        NotifierStep::Finish(result) => result,
        NotifierStep::Check { name: _, check: next } => configured_outcome(
            name,
            linux,
            next,
            passes,
        ),
        _ => Err(seq![]),
    }
}

/// A configured notifier is used exactly where it is an executable file or on
/// the search path or, on Linux, a program of the host; no other notifier takes
/// its place.
pub proof fn law_configured_notifier(
    name: Seq<char>,
    linux: bool,
    passes: spec_fn(NotifierCheck) -> bool,
)
    ensures
        notifier_start(Some(name), linux) == (NotifierStep::Check {
            name,
            check: NotifierCheck::File,
        }),
        configured_outcome(name, linux, NotifierCheck::File, passes) == (if passes(
            NotifierCheck::File,
        ) || passes(NotifierCheck::SearchPath) || (linux && passes(NotifierCheck::Host)) {
            Ok::<Seq<char>, Seq<char>>(name)
        } else {
            Err("configured notifier is not executable: "@ + name)
        }),
{
    reveal_with_fuel(configured_outcome, 3);
}

/// Where the bundled helper may lie: below the root of the plugin, three levels
/// above the running program, and below the current directory.
pub open spec fn helper_candidates(
    plugin_root: Option<Seq<char>>,
    exe: Option<Seq<char>>,
) -> Seq<Seq<char>> {
    let name = "scripts/linux-notify-wait.py"@;
    let below_root = match plugin_root {
        Some(root) => seq![path_joined(root, name)],
        None => seq![],
    };
    let above_exe = match third_parent(exe) {
        Some(root) => seq![path_joined(root, name)],
        None => seq![],
    };
    below_root + above_exe + seq![name]
}

/// The directory three levels above a path, where there are so many.
pub open spec fn third_parent(path: Option<Seq<char>>) -> Option<Seq<char>> {
    match path {
        Some(path) => match parent_of(path) {
            Some(dir) => match parent_of(dir) {
                Some(dir) => parent_of(dir),
                None => None,
            },
            None => None,
        },
        None => None,
    }
}

/// The directory three levels above a path.
fn find_third_parent(path: Option<&str>) -> (r: Option<String>)
    ensures
        r.deep_view() == third_parent(path.deep_view()),
{
    match path {
        Some(path) => match parent(path) {
            Some(dir) => match parent(dir.as_str()) {
                Some(dir) => parent(dir.as_str()),
                None => None,
            },
            None => None,
        },
        None => None,
    }
}

/// Where the bundled helper may lie, in the order to look.
pub fn linux_notify_wait_candidates(plugin_root: Option<&str>, exe: Option<&str>) -> (r: Vec<
    String,
>)
    ensures
        r.deep_view() == helper_candidates(plugin_root.deep_view(), exe.deep_view()),
{
    let mut r: Vec<String> = Vec::new();
    if let Some(root) = plugin_root {
        r.push(join_path(root, "scripts/linux-notify-wait.py"));
    }
    if let Some(root) = find_third_parent(exe) {
        r.push(join_path(root.as_str(), "scripts/linux-notify-wait.py"));
    }
    r.push("scripts/linux-notify-wait.py".to_owned());
    assert(r.deep_view() =~= helper_candidates(plugin_root.deep_view(), exe.deep_view()));
    r
}

/// A program below the home directory, where that is known.
pub open spec fn below_home(home: Option<Seq<char>>, name: Seq<char>) -> Seq<Seq<char>> {
    match home {
        Some(home) => seq![path_joined(home, name)],
        None => seq![],
    }
}

/// Where alerter may lie, in the order to look.
pub open spec fn alerter_paths(home: Option<Seq<char>>) -> Seq<Seq<char>> {
    seq!["/opt/homebrew/bin/alerter"@, "/usr/local/bin/alerter"@] + below_home(
        home,
        ".local/bin/alerter"@,
    )
}

/// Where alerter may lie, in the order to look.
pub fn alerter_candidate_paths(home: Option<&str>) -> (r: Vec<String>)
    ensures
        r.deep_view() == alerter_paths(home.deep_view()),
        r.deep_view() == seq!["/opt/homebrew/bin/alerter"@, "/usr/local/bin/alerter"@] + below_home(
            home.deep_view(),
            ".local/bin/alerter"@,
        ),
{
    let mut r: Vec<String> = Vec::new();
    r.push("/opt/homebrew/bin/alerter".to_owned());
    r.push("/usr/local/bin/alerter".to_owned());
    if let Some(home) = home {
        r.push(join_path(home, ".local/bin/alerter"));
    }
    assert(r.deep_view() =~= seq!["/opt/homebrew/bin/alerter"@, "/usr/local/bin/alerter"@]
        + below_home(home.deep_view(), ".local/bin/alerter"@));
    r
}

/// Where swaync-client may lie, in the order to look.
pub open spec fn swaync_paths(home: Option<Seq<char>>) -> Seq<Seq<char>> {
    below_home(home, ".local/bin/swaync-client"@) + seq![
        "/usr/bin/swaync-client"@,
        "/usr/local/bin/swaync-client"@,
    ]
}

/// Where swaync-client may lie, in the order to look.
pub fn swaync_candidate_paths(home: Option<&str>) -> (r: Vec<String>)
    ensures
        r.deep_view() == swaync_paths(home.deep_view()),
        r.deep_view() == below_home(home.deep_view(), ".local/bin/swaync-client"@)
            + seq!["/usr/bin/swaync-client"@, "/usr/local/bin/swaync-client"@],
{
    let mut r: Vec<String> = Vec::new();
    if let Some(home) = home {
        r.push(join_path(home, ".local/bin/swaync-client"));
    }
    r.push("/usr/bin/swaync-client".to_owned());
    r.push("/usr/local/bin/swaync-client".to_owned());
    assert(r.deep_view() =~= below_home(home.deep_view(), ".local/bin/swaync-client"@)
        + seq!["/usr/bin/swaync-client"@, "/usr/local/bin/swaync-client"@]);
    r
}

/// Where makoctl may lie, in the order to look.
pub open spec fn makoctl_paths(home: Option<Seq<char>>) -> Seq<Seq<char>> {
    below_home(home, ".local/bin/makoctl"@) + seq!["/usr/bin/makoctl"@, "/usr/local/bin/makoctl"@]
}

/// Where makoctl may lie, in the order to look.
pub fn makoctl_candidate_paths(home: Option<&str>) -> (r: Vec<String>)
    ensures
        r.deep_view() == makoctl_paths(home.deep_view()),
        r.deep_view() == below_home(home.deep_view(), ".local/bin/makoctl"@)
            + seq!["/usr/bin/makoctl"@, "/usr/local/bin/makoctl"@],
{
    let mut r: Vec<String> = Vec::new();
    if let Some(home) = home {
        r.push(join_path(home, ".local/bin/makoctl"));
    }
    r.push("/usr/bin/makoctl".to_owned());
    r.push("/usr/local/bin/makoctl".to_owned());
    assert(r.deep_view() =~= below_home(home.deep_view(), ".local/bin/makoctl"@)
        + seq!["/usr/bin/makoctl"@, "/usr/local/bin/makoctl"@]);
    r
}

/// A program and its arguments.
pub struct CommandLine {
    pub program: String,
    pub args: Vec<String>,
}

impl CommandLine {
    /// The program and its arguments, as texts.
    pub open spec fn view(self) -> (Seq<char>, Seq<Seq<char>>) {
        (self.program@, self.args.deep_view())
    }
}

/// The program and the arguments that run `command` on the host.
pub open spec fn host_line(command: Seq<char>, linux: bool, in_path: bool) -> (
    Seq<char>,
    Seq<Seq<char>>,
) {
    if linux && !in_path {
        ("flatpak-spawn"@, seq!["--host"@, command])
    } else {
        (command, seq![])
    }
}

/// The command that runs `command` on the host: where it is not on the search
/// path of a Linux sandbox, it is run from outside of the sandbox.
pub fn host_command(command: &str, linux: bool, in_path: bool) -> (r: CommandLine)
    ensures
        r@ == host_line(command@, linux, in_path),
        r@ == (if linux && !in_path {
            ("flatpak-spawn"@, seq!["--host"@, command@])
        } else {
            (command@, seq![])
        }),
{
    let mut args: Vec<String> = Vec::new();
    if linux && !in_path {
        args.push("--host".to_owned());
        args.push(command.to_owned());
        assert(args.deep_view() =~= seq!["--host"@, command@]);
        CommandLine { program: "flatpak-spawn".to_owned(), args }
    } else {
        assert(args.deep_view() =~= Seq::<Seq<char>>::empty());
        CommandLine { program: command.to_owned(), args }
    }
}

/// How a script is run.
pub enum Launch {
    /// Run it and wait for it.
    Foreground,
    /// Run this command of a shell, which leaves the script on its own.
    Detached(String),
}

/// The command that leaves a script on its own; none where it is waited for.
pub open spec fn launch_command(script_path: Seq<char>, foreground: bool) -> Option<Seq<char>> {
    if foreground {
        None
    } else {
        Some("nohup sh "@ + quoted(script_path) + " >/dev/null 2>&1 &"@)
    }
}

/// How the script of a notification is run.
pub fn send_notification(script_path: &str, foreground: bool) -> (r: Launch)
    ensures
        launch_command(script_path@, foreground) == (match r {
            Launch::Foreground => None,
            Launch::Detached(command) => Some(command@),
        }),
        match r {
            Launch::Foreground => foreground,
            Launch::Detached(command) => !foreground && command@ == "nohup sh "@ + quoted(
                script_path@,
            ) + " >/dev/null 2>&1 &"@,
        },
{
    if foreground {
        return Launch::Foreground;
    }
    let mut command = "nohup sh ".to_owned();
    command.append(shell_quote(script_path).as_str());
    command.append(" >/dev/null 2>&1 &");
    Launch::Detached(command)
}

/// A program that closes notifications on Linux.
#[derive(Debug, Clone, Copy, PartialEq, Eq, Structural)]
pub enum Closer {
    Swaync,
    Mako,
}

/// What to do next to take a notification away.
pub enum RemovalStep {
    /// There is nothing to take away.
    Done,
    /// Look for this program.
    Find(Closer),
    /// Run this command; it ends the removal.
    Run(CommandLine),
    /// Run this command on the host; it ends the removal.
    RunOnHost(CommandLine),
    /// The notification cannot be taken away.
    Fail(String),
}

/// How the removal of a notification begins on Linux.
pub open spec fn removal_start(notification_id: Option<Seq<char>>) -> RemovalStep {
    match notification_id {
        Some(_) => RemovalStep::Find(Closer::Swaync),
        None => RemovalStep::Done,
    }
}

/// Begins to take a notification away on Linux, where its id is known.
pub fn remove_linux_notification(notification_id: Option<&str>) -> (r: RemovalStep)
    ensures
        r == removal_start(notification_id.deep_view()),
        r == (if notification_id is Some {
            RemovalStep::Find(Closer::Swaync)
        } else {
            RemovalStep::Done
        }),
{
    match notification_id {
        Some(_) => RemovalStep::Find(Closer::Swaync),
        None => RemovalStep::Done,
    }
}

/// The arguments that let a program close a notification.
pub open spec fn close_args(closer: Closer, notification_id: Seq<char>) -> Seq<Seq<char>> {
    match closer {
        Closer::Swaync => seq!["--close"@, notification_id],
        Closer::Mako => seq!["dismiss"@, "-n"@, notification_id],
    }
}

/// Goes on after the search for a program that closes notifications: the one
/// that was found closes it; after the first the second is looked for, and
/// after that the removal fails.
pub fn closer_searched(closer: Closer, found: Option<String>, notification_id: &str) -> (r:
    RemovalStep)
    ensures
        match found {
            Some(path) => r matches RemovalStep::RunOnHost(command) && command@ == (
                path@,
                close_args(closer, notification_id@),
            ),
            None => match closer {
                Closer::Swaync => r == RemovalStep::Find(Closer::Mako),
                Closer::Mako => r matches RemovalStep::Fail(message) && message@
                    == "no notification closer found; install swaync-client or makoctl"@,
            },
        },
{
    match found {
        Some(path) => {
            let mut args: Vec<String> = Vec::new();
            match closer {
                Closer::Swaync => {
                    args.push("--close".to_owned());
                },
                Closer::Mako => {
                    args.push("dismiss".to_owned());
                    args.push("-n".to_owned());
                },
            }
            args.push(notification_id.to_owned());
            assert(args.deep_view() =~= close_args(closer, notification_id@));
            RemovalStep::RunOnHost(CommandLine { program: path, args })
        },
        None => match closer {
            Closer::Swaync => RemovalStep::Find(Closer::Mako),
            Closer::Mako => RemovalStep::Fail(
                "no notification closer found; install swaync-client or makoctl".to_owned(),
            ),
        },
    }
}

/// The command that takes a notification away by its group.
pub open spec fn removal_line(notifier_bin: Seq<char>, pane_id: Seq<char>) -> (
    Seq<char>,
    Seq<Seq<char>>,
) {
    (notifier_bin, seq!["--remove"@, group_id(pane_id)])
}

/// Begins to take the notification of a pane away: on Linux by its id, where
/// that is known, and elsewhere by its group.
pub fn remove_notification(
    linux: bool,
    pane_id: &str,
    notifier_bin: &str,
    notification_id: Option<&str>,
) -> (r: RemovalStep)
    ensures
        linux ==> r == removal_start(notification_id.deep_view()),
        !linux ==> (r matches RemovalStep::Run(command) && command@ == removal_line(
            notifier_bin@,
            pane_id@,
        )),
        if linux {
            r == (if notification_id is Some {
                RemovalStep::Find(Closer::Swaync)
            } else {
                RemovalStep::Done
            })
        } else {
            r matches RemovalStep::Run(command) && command@ == (
                notifier_bin@,
                seq!["--remove"@, group_id(pane_id@)],
            )
        },
{
    if linux {
        return remove_linux_notification(notification_id);
    }
    let mut args: Vec<String> = Vec::new();
    args.push("--remove".to_owned());
    args.push(notification_group_id(pane_id));
    assert(args.deep_view() =~= seq!["--remove"@, group_id(pane_id@)]);
    RemovalStep::Run(CommandLine { program: notifier_bin.to_owned(), args })
}

} // verus!
