//! Where the state of a pane is kept, and what is kept there.

use vstd::prelude::*;
use vstd::string::StringExecFns;

use crate::paths::{join_path, path_joined};
use crate::text::{law_trimmed, trim, trimmed};
use crate::util::{group_id, notification_group_id};

verus! {

/// The directory for state files: the configured one, or one of this
/// program's own below the directory for temporary files.
pub open spec fn state_dir_path(configured: Option<Seq<char>>, temp_dir: Seq<char>) -> Seq<char> {
    match configured {
        Some(dir) => dir,
        None => path_joined(temp_dir, "herdr-focus-notify"@),
    }
}

/// The directory for state files.
pub fn plugin_state_dir(configured: Option<&str>, temp_dir: &str) -> (r: String)
    ensures
        r@ == state_dir_path(configured.deep_view(), temp_dir@),
{
    match configured {
        Some(dir) => dir.to_owned(),
        None => join_path(temp_dir, "herdr-focus-notify"),
    }
}

/// The file whose presence says that the notification of a pane was cleared.
pub open spec fn marker_path(state_dir: Seq<char>, pane_id: Seq<char>) -> Seq<char> {
    path_joined(state_dir, group_id(pane_id) + ".cleared"@)
}

/// The file whose presence says that the notification of a pane was cleared.
pub fn cleared_notification_marker_path(state_dir: &str, pane_id: &str) -> (r: String)
    ensures
        r@ == marker_path(state_dir@, pane_id@),
{
    let mut name = notification_group_id(pane_id);
    name.append(".cleared");
    join_path(state_dir, name.as_str())
}

/// The file that holds the id of the notification of a pane.
pub open spec fn id_path(state_dir: Seq<char>, pane_id: Seq<char>) -> Seq<char> {
    path_joined(path_joined(state_dir, "linux-notifications"@), group_id(pane_id))
}

/// The file that holds the id of the notification of a pane.
pub fn notification_id_path(state_dir: &str, pane_id: &str) -> (r: String)
    ensures
        r@ == id_path(state_dir@, pane_id@),
{
    let dir = join_path(state_dir, "linux-notifications");
    let name = notification_group_id(pane_id);
    join_path(dir.as_str(), name.as_str())
}

/// The file that holds the id of the sway container of a pane.
pub open spec fn container_path(state_dir: Seq<char>, pane_id: Seq<char>) -> Seq<char> {
    path_joined(path_joined(state_dir, "sway-containers"@), group_id(pane_id))
}

/// The file that holds the id of the sway container of a pane.
pub fn sway_container_path(state_dir: &str, pane_id: &str) -> (r: String)
    ensures
        r@ == container_path(state_dir@, pane_id@),
{
    let dir = join_path(state_dir, "sway-containers");
    let name = notification_group_id(pane_id);
    join_path(dir.as_str(), name.as_str())
}

/// What a state file holds of a value, and what a value read from one means:
/// the value without white space around it, or nothing where that is empty.
pub open spec fn state_value(value: Seq<char>) -> Option<Seq<char>> {
    if trimmed(value).len() == 0 {
        None
    } else {
        Some(trimmed(value))
    }
}

/// What is written into a state file for `value`; `None` where the file is
/// left as it is.
pub fn write_pane_state_file(value: &str) -> (r: Option<String>)
    ensures
        r.deep_view() == state_value(value@),
{
    let value = trim(value);
    if value.is_empty() {
        None
    } else {
        Some(value.to_owned())
    }
}

/// What a state file says that was read as `contents`, or could not be read.
pub open spec fn state_read(contents: Option<Seq<char>>) -> Option<Seq<char>> {
    match contents {
        Some(text) => state_value(text),
        None => None,
    }
}

/// What a state file says that was read as `contents`, or could not be read.
pub fn read_pane_state_file(contents: Option<&str>) -> (r: Option<String>)
    ensures
        r.deep_view() == state_read(contents.deep_view()),
{
    match contents {
        Some(text) => write_pane_state_file(text),
        None => None,
    }
}

/// The container id to keep for a pane whose container was reported as `con_id`.
pub fn cache_sway_container_id(con_id: &str) -> (r: Option<String>)
    ensures
        r.deep_view() == state_value(con_id@),
{
    write_pane_state_file(con_id)
}

/// The container id that the contents of a pane's container file give.
pub fn cached_sway_container_id(contents: Option<&str>) -> (r: Option<String>)
    ensures
        r.deep_view() == state_read(contents.deep_view()),
{
    read_pane_state_file(contents)
}

/// The notification id that the contents of a pane's id file give.
pub fn cached_notification_id(contents: Option<&str>) -> (r: Option<String>)
    ensures
        r.deep_view() == state_read(contents.deep_view()),
{
    read_pane_state_file(contents)
}

/// A value that was kept is read back as it was kept: white space around it
/// is lost once and for all, and a blank value is never kept.
pub proof fn law_state_value_reads_back(value: Seq<char>)
    ensures
        match state_value(value) {
            Some(kept) => kept.len() > 0 && state_read(Some(kept)) == Some(kept),
            None => state_read(Some(value)) is None,
        },
{
    law_trimmed(value);
}

/// Joining two names to one directory gives the same path only for the same
/// name, where neither is an absolute path.
proof fn lemma_join_is_injective(dir: Seq<char>, a: Seq<char>, b: Seq<char>)
    requires
        a.len() > 0 && a[0] != '/',
        b.len() > 0 && b[0] != '/',
    ensures
        path_joined(dir, a) == path_joined(dir, b) ==> a == b,
{
    if path_joined(dir, a) == path_joined(dir, b) {
        let start = if dir.len() == 0 || dir.last() == '/' {
            dir
        } else {
            dir + seq!['/']
        };
        let n = start.len() as int;
        assert(path_joined(dir, a) =~= start + a);
        assert(path_joined(dir, b) =~= start + b);
        assert((start + a).skip(n) =~= a);
        assert((start + b).skip(n) =~= b);
    }
}

/// Two panes share a state file exactly where they share a group, whichever
/// of the files it is.
pub proof fn law_state_files_follow_groups(state_dir: Seq<char>, a: Seq<char>, b: Seq<char>)
    ensures
        marker_path(state_dir, a) == marker_path(state_dir, b) <==> group_id(a) == group_id(b),
        id_path(state_dir, a) == id_path(state_dir, b) <==> group_id(a) == group_id(b),
        container_path(state_dir, a) == container_path(state_dir, b) <==> group_id(a) == group_id(
            b,
        ),
{
    reveal_strlit("herdr-");
    let suffix = ".cleared"@;
    lemma_join_is_injective(state_dir, group_id(a) + suffix, group_id(b) + suffix);
    if group_id(a) + suffix == group_id(b) + suffix {
        let n = (group_id(a) + suffix).len() - suffix.len();
        assert((group_id(a) + suffix).take(n) =~= group_id(a));
        assert((group_id(b) + suffix).take(n) =~= group_id(b));
    }
    lemma_join_is_injective(
        path_joined(state_dir, "linux-notifications"@),
        group_id(a),
        group_id(b),
    );
    lemma_join_is_injective(path_joined(state_dir, "sway-containers"@), group_id(a), group_id(b));
}

} // verus!
