//! What holds of the programs that show notifications and take them away.

use vstd::prelude::*;

use crate::focus::{
    bundle_question, container_to_keep, double_quotes_escaped, focused_id, has_pane_focus,
    printed_container, printed_id,
};
use crate::focus_laws::law_double_quotes_are_escaped;
use crate::json::JsonTree;
use crate::notifier::{
    after_check, alerter_paths, close_args, host_line, is_helper, launch_command, makoctl_paths,
    notifier_start, removal_line, removal_start, swaync_paths, Closer, NotifierCheck,
    NotifierStep, RemovalStep,
};
use crate::path_laws::{law_below_home, law_name_is_last_component};
use crate::state::state_value;
use crate::text::filled;
use crate::util::{group_id, law_shell_quote_reads_back, quoted, shell_word};

verus! {

/// A configured notifier is checked by its own name, as a file, on the search
/// path and, on Linux, on the host, until one check is passed; without one the
/// notifier of the desktop is looked for.
pub proof fn law_notifier_steps(name: Seq<char>, linux: bool)
    ensures
        notifier_start(Some(name), linux) == (NotifierStep::Check {
            name,
            check: NotifierCheck::File,
        }),
        notifier_start(None, true) == NotifierStep::<Seq<char>>::FindHelper,
        notifier_start(None, false) == NotifierStep::<Seq<char>>::FindAlerter,
        forall|check: NotifierCheck| #[trigger]
            after_check(name, linux, check, true) == NotifierStep::Finish(Ok(name)),
        after_check(name, linux, NotifierCheck::File, false) == (NotifierStep::Check {
            name,
            check: NotifierCheck::SearchPath,
        }),
        after_check(name, true, NotifierCheck::SearchPath, false) == (NotifierStep::Check {
            name,
            check: NotifierCheck::Host,
        }),
        after_check(name, false, NotifierCheck::SearchPath, false) == NotifierStep::Finish(
            Err("configured notifier is not executable: "@ + name),
        ),
        after_check(name, linux, NotifierCheck::Host, false) == NotifierStep::Finish(
            Err("configured notifier is not executable: "@ + name),
        ),
{
}

/// The helper is known by the last name of its path and by nothing else.
pub proof fn law_helper(dir: Seq<char>, name: Seq<char>)
    requires
        dir.len() > 0,
        name.len() > 0 && !name.contains('/') && name != seq!['.'] && name != seq!['.', '.'],
    ensures
        is_helper(dir + seq!['/'] + name) <==> name == "linux-notify-wait.py"@,
{
    law_name_is_last_component(dir, name);
}

/// Programs are looked for in fixed places and below the home directory: alerter
/// there last, the programs that close notifications there first.
pub proof fn law_candidates(home: Seq<char>)
    requires
        home.len() > 0 && home[home.len() - 1] != '/',
    ensures
        alerter_paths(Some(home)) == seq![
            "/opt/homebrew/bin/alerter"@,
            "/usr/local/bin/alerter"@,
            home + seq!['/'] + ".local/bin/alerter"@,
        ],
        alerter_paths(None) == seq!["/opt/homebrew/bin/alerter"@, "/usr/local/bin/alerter"@],
        swaync_paths(Some(home)) == seq![
            home + seq!['/'] + ".local/bin/swaync-client"@,
            "/usr/bin/swaync-client"@,
            "/usr/local/bin/swaync-client"@,
        ],
        swaync_paths(None) == seq!["/usr/bin/swaync-client"@, "/usr/local/bin/swaync-client"@],
        makoctl_paths(Some(home)) == seq![
            home + seq!['/'] + ".local/bin/makoctl"@,
            "/usr/bin/makoctl"@,
            "/usr/local/bin/makoctl"@,
        ],
        makoctl_paths(None) == seq!["/usr/bin/makoctl"@, "/usr/local/bin/makoctl"@],
{
    reveal_strlit(".local/bin/alerter");
    reveal_strlit(".local/bin/swaync-client");
    reveal_strlit(".local/bin/makoctl");
    law_below_home(home, ".local/bin/alerter"@);
    law_below_home(home, ".local/bin/swaync-client"@);
    law_below_home(home, ".local/bin/makoctl"@);
    assert(alerter_paths(Some(home)) =~= seq![
        "/opt/homebrew/bin/alerter"@,
        "/usr/local/bin/alerter"@,
        home + seq!['/'] + ".local/bin/alerter"@,
    ]);
    assert(alerter_paths(None) =~= seq!["/opt/homebrew/bin/alerter"@, "/usr/local/bin/alerter"@]);
    assert(swaync_paths(Some(home)) =~= seq![
        home + seq!['/'] + ".local/bin/swaync-client"@,
        "/usr/bin/swaync-client"@,
        "/usr/local/bin/swaync-client"@,
    ]);
    assert(swaync_paths(None) =~= seq![
        "/usr/bin/swaync-client"@,
        "/usr/local/bin/swaync-client"@,
    ]);
    assert(makoctl_paths(Some(home)) =~= seq![
        home + seq!['/'] + ".local/bin/makoctl"@,
        "/usr/bin/makoctl"@,
        "/usr/local/bin/makoctl"@,
    ]);
    assert(makoctl_paths(None) =~= seq!["/usr/bin/makoctl"@, "/usr/local/bin/makoctl"@]);
}

/// A command is run as it is, but for one that a Linux sandbox does not have:
/// that is run on the host, under the same name.
pub proof fn law_host_line(command: Seq<char>)
    ensures
        host_line(command, true, false) == ("flatpak-spawn"@, seq!["--host"@, command]),
        host_line(command, true, true) == (command, Seq::<Seq<char>>::empty()),
        host_line(command, false, true) == (command, Seq::<Seq<char>>::empty()),
        host_line(command, false, false) == (command, Seq::<Seq<char>>::empty()),
{
}

/// A script is waited for or left on its own, and the shell reads its path as
/// one word.
pub proof fn law_launch(script_path: Seq<char>)
    ensures
        launch_command(script_path, true) is None,
        launch_command(script_path, false) == Some(
            "nohup sh "@ + quoted(script_path) + " >/dev/null 2>&1 &"@,
        ),
        shell_word(quoted(script_path), false) == Some(script_path),
{
    law_shell_quote_reads_back(script_path);
}

/// A notification is taken away by its own id, or by the group of its pane; on
/// Linux there is nothing to take away without an id.
pub proof fn law_removal(id: Seq<char>, notifier_bin: Seq<char>, pane_id: Seq<char>)
    ensures
        removal_start(None) == RemovalStep::Done,
        removal_start(Some(id)) == RemovalStep::Find(Closer::Swaync),
        close_args(Closer::Swaync, id) == seq!["--close"@, id],
        close_args(Closer::Mako, id) == seq!["dismiss"@, "-n"@, id],
        removal_line(notifier_bin, pane_id) == (
            notifier_bin,
            seq!["--remove"@, group_id(pane_id)],
        ),
{
}

/// A pane has the focus exactly where it is the one that has it.
pub proof fn law_pane_with_focus(pane_id: Seq<char>, focused: Seq<char>)
    ensures
        has_pane_focus(pane_id, Some(focused)) <==> pane_id == focused,
        !has_pane_focus(pane_id, None),
{
}

/// A container is kept on Linux alone, and only where it is known.
pub proof fn law_container_to_keep(current: Seq<char>)
    ensures
        container_to_keep(true, Some(current)) == state_value(current),
        container_to_keep(true, None) is None,
        container_to_keep(false, Some(current)) is None,
        container_to_keep(false, None) is None,
{
}

/// What a command printed counts only where it succeeded.
pub proof fn law_printed(stdout: Option<Seq<char>>, tree: JsonTree)
    ensures
        printed_id(true, stdout) == filled(stdout),
        printed_id(false, stdout) is None,
        printed_container(true, Some(tree)) == focused_id(tree),
        printed_container(false, Some(tree)) is None,
        printed_container(true, None) is None,
        printed_container(false, None) is None,
{
}

/// The question for an application names it in double quotes: a quote inside
/// the name is escaped, and without quotes the name stands as it is.
pub proof fn law_bundle_question(app: Seq<char>, before: Seq<char>, after: Seq<char>)
    requires
        !app.contains('"'),
    ensures
        bundle_question(app) == "id of app \""@ + app + "\""@,
        bundle_question(before + seq!['"'] + after) == "id of app \""@
            + double_quotes_escaped(before) + seq!['\\', '"']
            + double_quotes_escaped(after) + "\""@,
{
    lemma_nothing_to_escape(app);
    law_double_quotes_are_escaped(before, seq!['"'], '"');
    law_double_quotes_are_escaped(before + seq!['"'], after, '"');
    assert(bundle_question(before + seq!['"'] + after) =~= "id of app \""@
        + double_quotes_escaped(before) + seq!['\\', '"']
        + double_quotes_escaped(after) + "\""@);
}

proof fn lemma_nothing_to_escape(s: Seq<char>)
    requires
        !s.contains('"'),
    ensures
        double_quotes_escaped(s) == s,
    decreases s.len(),
{
    if s.len() > 0 {
        let rest = s.drop_last();
        assert(s.contains(s[s.len() - 1]));
        if rest.contains('"') {
            let i = choose|i: int| 0 <= i < rest.len() && rest[i] == '"';
            assert(s[i] == '"');
        }
        lemma_nothing_to_escape(rest);
        assert(rest.push(s.last()) =~= s);
    } else {
        assert(double_quotes_escaped(s) =~= s);
    }
}

} // verus!
