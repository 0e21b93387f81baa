use herdr_focus_notify::notifier::{
    alerter_candidate_paths, alerter_searched, closer_searched, configured_notifier_checked,
    helper_searched, host_command, is_linux_dbus_notify_helper, linux_notify_wait_candidates,
    makoctl_candidate_paths, remove_linux_notification, remove_notification, resolve_notifier_bin,
    send_notification, swaync_candidate_paths, Closer, Launch, NotifierCheck, NotifierStep,
    RemovalStep,
};

#[test]
fn alerter_candidates_include_common_homebrew_paths() {
    let paths = alerter_candidate_paths(Some("/home/me"));

    assert!(paths.contains(&"/opt/homebrew/bin/alerter".to_string()));
    assert!(paths.contains(&"/usr/local/bin/alerter".to_string()));
}

#[test]
fn linux_closer_candidates_include_swaync_and_mako() {
    let swaync = swaync_candidate_paths(Some("/home/me"));
    let mako = makoctl_candidate_paths(Some("/home/me"));

    assert!(swaync.contains(&"/usr/bin/swaync-client".to_string()));
    assert!(mako.contains(&"/usr/bin/makoctl".to_string()));
}

#[test]
fn candidates_below_home_need_a_home() {
    assert_eq!(
        alerter_candidate_paths(Some("/home/me")),
        vec![
            "/opt/homebrew/bin/alerter",
            "/usr/local/bin/alerter",
            "/home/me/.local/bin/alerter"
        ]
    );
    assert_eq!(
        alerter_candidate_paths(None),
        vec!["/opt/homebrew/bin/alerter", "/usr/local/bin/alerter"]
    );
    assert_eq!(
        swaync_candidate_paths(Some("/home/me/")),
        vec![
            "/home/me/.local/bin/swaync-client",
            "/usr/bin/swaync-client",
            "/usr/local/bin/swaync-client"
        ]
    );
    assert_eq!(
        swaync_candidate_paths(None),
        vec!["/usr/bin/swaync-client", "/usr/local/bin/swaync-client"]
    );
    assert_eq!(
        makoctl_candidate_paths(Some("/home/me")),
        vec![
            "/home/me/.local/bin/makoctl",
            "/usr/bin/makoctl",
            "/usr/local/bin/makoctl"
        ]
    );
    assert_eq!(
        makoctl_candidate_paths(None),
        vec!["/usr/bin/makoctl", "/usr/local/bin/makoctl"]
    );
}

#[test]
fn helper_is_known_by_its_file_name() {
    assert!(is_linux_dbus_notify_helper("/p/scripts/linux-notify-wait.py"));
    assert!(is_linux_dbus_notify_helper("linux-notify-wait.py"));
    assert!(is_linux_dbus_notify_helper("/p/linux-notify-wait.py/"));
    assert!(!is_linux_dbus_notify_helper("/p/linux-notify-wait.py.bak"));
    assert!(!is_linux_dbus_notify_helper("/usr/bin/notify-send"));
    assert!(!is_linux_dbus_notify_helper("/"));
    assert!(!is_linux_dbus_notify_helper(""));
}

#[test]
fn helper_is_looked_for_around_the_program() {
    assert_eq!(
        linux_notify_wait_candidates(Some("/plugin"), Some("/root/target/release/notify")),
        vec![
            "/plugin/scripts/linux-notify-wait.py",
            "/root/scripts/linux-notify-wait.py",
            "scripts/linux-notify-wait.py"
        ]
    );
    assert_eq!(
        linux_notify_wait_candidates(None, Some("/release/notify")),
        vec!["scripts/linux-notify-wait.py"]
    );
    assert_eq!(
        linux_notify_wait_candidates(None, None),
        vec!["scripts/linux-notify-wait.py"]
    );
}

fn resolve(configured: &str, linux: bool, passing: &[NotifierCheck]) -> Result<String, String> {
    let mut step = resolve_notifier_bin(Some(configured), linux);
    loop {
        match step {
            NotifierStep::Check { name, check } => {
                let passed = passing.contains(&check);
                step = configured_notifier_checked(&name, linux, check, passed);
            }
            NotifierStep::Finish(result) => return result,
            _ => panic!("nothing else is looked for"),
        }
    }
}

#[test]
fn configured_notifier_must_be_executable_somewhere() {
    let name = "my notifier";
    let wrong = Err("configured notifier is not executable: my notifier".to_string());
    for linux in [true, false] {
        assert_eq!(resolve(name, linux, &[NotifierCheck::File]), Ok(name.to_string()));
        assert_eq!(
            resolve(name, linux, &[NotifierCheck::SearchPath]),
            Ok(name.to_string())
        );
        assert_eq!(resolve(name, linux, &[]), wrong);
    }
    assert_eq!(resolve(name, true, &[NotifierCheck::Host]), Ok(name.to_string()));
    assert_eq!(resolve(name, false, &[NotifierCheck::Host]), wrong);
}

#[test]
fn desktop_notifier_is_looked_for_without_a_configured_one() {
    assert!(matches!(resolve_notifier_bin(None, true), NotifierStep::FindHelper));
    assert!(matches!(resolve_notifier_bin(None, false), NotifierStep::FindAlerter));
    assert!(matches!(
        helper_searched(Some("/h".to_string())),
        NotifierStep::Finish(Ok(path)) if path == "/h"
    ));
    assert!(matches!(
        helper_searched(None),
        NotifierStep::Finish(Err(message)) if message
            == "no scripts/linux-notify-wait.py found next to the plugin; reinstall the plugin or set HERDR_FOCUS_NOTIFY_NOTIFIER"
    ));
    assert!(matches!(
        alerter_searched(Some("/a".to_string())),
        NotifierStep::Finish(Ok(path)) if path == "/a"
    ));
    assert!(matches!(
        alerter_searched(None),
        NotifierStep::Finish(Err(message)) if message
            == "no alerter notifier found; install alerter with `brew install vjeantet/tap/alerter` or set HERDR_FOCUS_NOTIFY_NOTIFIER"
    ));
}

#[test]
fn host_is_reached_from_a_sandbox() {
    let direct = host_command("swaymsg", true, true);
    assert_eq!(direct.program, "swaymsg");
    assert!(direct.args.is_empty());
    let outside = host_command("swaymsg", true, false);
    assert_eq!(outside.program, "flatpak-spawn");
    assert_eq!(outside.args, vec!["--host", "swaymsg"]);
    assert_eq!(host_command("swaymsg", false, false).program, "swaymsg");
}

#[test]
fn scripts_are_left_on_their_own_unless_waited_for() {
    assert!(matches!(send_notification("/s.sh", true), Launch::Foreground));
    assert!(matches!(
        send_notification("/it's.sh", false),
        Launch::Detached(command) if command == "nohup sh '/it'\\''s.sh' >/dev/null 2>&1 &"
    ));
}

#[test]
fn removal_tries_one_closer_after_the_other() {
    assert!(matches!(remove_linux_notification(None), RemovalStep::Done));
    assert!(matches!(
        remove_linux_notification(Some("7")),
        RemovalStep::Find(Closer::Swaync)
    ));
    match closer_searched(Closer::Swaync, Some("/s".to_string()), "7") {
        RemovalStep::RunOnHost(command) => {
            assert_eq!(command.program, "/s");
            assert_eq!(command.args, vec!["--close", "7"]);
        }
        _ => panic!("the closer is to be run"),
    }
    assert!(matches!(
        closer_searched(Closer::Swaync, None, "7"),
        RemovalStep::Find(Closer::Mako)
    ));
    match closer_searched(Closer::Mako, Some("/m".to_string()), "7") {
        RemovalStep::RunOnHost(command) => {
            assert_eq!(command.program, "/m");
            assert_eq!(command.args, vec!["dismiss", "-n", "7"]);
        }
        _ => panic!("the closer is to be run"),
    }
    assert!(matches!(
        closer_searched(Closer::Mako, None, "7"),
        RemovalStep::Fail(message)
            if message == "no notification closer found; install swaync-client or makoctl"
    ));
}

#[test]
fn removal_goes_by_group_outside_of_linux() {
    match remove_notification(false, "w1:p3", "/alerter", None) {
        RemovalStep::Run(command) => {
            assert_eq!(command.program, "/alerter");
            assert_eq!(command.args, vec!["--remove", "herdr-w1-p3"]);
        }
        _ => panic!("the notifier is to be run"),
    }
    assert!(matches!(
        remove_notification(true, "w1:p3", "/n", Some("7")),
        RemovalStep::Find(Closer::Swaync)
    ));
    assert!(matches!(
        remove_notification(true, "w1:p3", "/n", None),
        RemovalStep::Done
    ));
}
