//! Which pane has the focus, whether it needs a notification, and what the
//! notification says.

use vstd::prelude::*;
use vstd::string::{StrSliceExecFns, StringExecFns};

use crate::json::{
    field_index, field_of, get_field, lemma_trees_of, parse_json, parsed_tree, tree_of, trees_of,
    Json, JsonTree,
};
use crate::notification::FocusNotification;
use crate::paths::{file_name, name_of};
use crate::state::{cache_sway_container_id, state_value};
use crate::text::{
    filled, filled_text, from_chars, has_prefix, is_white_space, is_whitespace, law_trimmed,
    same_text, text_of, to_chars, trim, trimmed,
};
use crate::util::{group_id, notification_group_id};

verus! {

/// How many characters the body of a notification may have.
pub const NOTIFICATION_BODY_MAX_CHARS: usize = 120;

/// The answer to a question for the list of agents.
#[derive(Debug)]
pub struct AgentListEnvelope {
    pub result: Option<AgentListResult>,
}

/// The result inside such an answer.
#[derive(Debug)]
pub struct AgentListResult {
    pub agents: Vec<AgentInfo>,
}

/// What is known of an agent.
#[derive(Debug)]
pub struct AgentInfo {
    pub focused: bool,
    pub agent: Option<String>,
    pub pane_id: Option<String>,
    pub cwd: Option<String>,
    pub workspace_id: Option<String>,
    pub terminal_title: Option<String>,
    pub terminal_title_stripped: Option<String>,
    pub agent_session: Option<AgentSession>,
}

/// The session that an agent reports.
#[derive(Debug)]
pub struct AgentSession {
    pub value: Option<String>,
}

/// The answer to a question for a workspace.
#[derive(Debug)]
pub struct WorkspaceGetEnvelope {
    pub result: Option<WorkspaceGetResult>,
}

/// The result inside such an answer.
#[derive(Debug)]
pub struct WorkspaceGetResult {
    pub workspace: Option<WorkspaceInfo>,
}

/// What is known of a workspace.
#[derive(Debug)]
pub struct WorkspaceInfo {
    pub label: Option<String>,
}

/// What to do about a notification.
#[derive(Debug, Clone, Copy, PartialEq, Eq, Structural)]
pub enum NotificationDecision {
    Skip,
    Send,
    SendWithVisibilityMonitor,
}

/// The first of `values` that is there and not blank, without white space
/// around it.
pub open spec fn first_filled_of(values: Seq<Option<Seq<char>>>) -> Option<Seq<char>>
    decreases values.len(),
{
    if values.len() == 0 {
        None
    } else if filled(values[0]) is Some {
        filled(values[0])
    } else {
        first_filled_of(values.drop_first())
    }
}

/// The first of `values` that is there and not blank, without white space
/// around it.
pub fn first_non_empty<'a, const N: usize>(values: [Option<&'a str>; N]) -> (r: Option<&'a str>)
    ensures
        r.deep_view() == first_filled_of(values.deep_view()),
{
    let ghost all = values.deep_view();
    let mut i: usize = 0;
    assert(all.skip(0) =~= all);
    while i < N
        invariant
            i <= N,
            all == values.deep_view(),
            first_filled_of(all) == first_filled_of(all.skip(i as int)),
        decreases N - i,
    {
        assert(all.skip(i as int)[0] == values@[i as int].deep_view());
        if let Some(value) = values[i] {
            let value = trim(value);
            if !value.is_empty() {
                return Some(value);
            }
        }
        assert(all.skip(i as int).drop_first() =~= all.skip(i + 1));
        i = i + 1;
    }
    None
}

/// `value` without white space around it, cut to `max_chars` characters where
/// it is longer; the last three of them are dots then.
pub open spec fn cut_to(value: Seq<char>, max_chars: nat) -> Seq<char> {
    if trimmed(value).len() <= max_chars {
        trimmed(value)
    } else {
        trimmed(value).take(
            if max_chars >= 3 {
                max_chars - 3
            } else {
                0
            },
        ) + "..."@
    }
}

/// `value` without white space around it, cut to `max_chars` characters.
pub fn truncate(value: &str, max_chars: usize) -> (r: String)
    ensures
        r@ == cut_to(value@, max_chars as nat),
{
    let value = trim(value);
    let chars = to_chars(value);
    if chars.len() <= max_chars {
        return value.to_owned();
    }
    let kept: usize = if max_chars >= 3 {
        max_chars - 3
    } else {
        0
    };
    let mut output = from_chars(&chars, 0, kept);
    assert(output@ =~= value@.take(kept as int));
    output.append("...");
    output
}

/// The body of a notification: the project, and behind it the preview of the
/// latest answer or else the title of the session; whichever is known.
pub open spec fn notification_body(
    project: Option<Seq<char>>,
    answer_preview: Option<Seq<char>>,
    session_title: Option<Seq<char>>,
) -> Option<Seq<char>> {
    let max = NOTIFICATION_BODY_MAX_CHARS as nat;
    match (project, first_filled_of(seq![answer_preview, session_title])) {
        (Some(project), Some(preview)) => Some(cut_to(project + " · "@ + preview, max)),
        (Some(project), None) => Some(cut_to(project, max)),
        (None, Some(preview)) => Some(cut_to(preview, max)),
        (None, None) => None,
    }
}

/// The body of a notification.
pub fn compose_notification_body(
    project: Option<&str>,
    answer_preview: Option<&str>,
    session_title: Option<&str>,
) -> (r: Option<String>)
    ensures
        r.deep_view() == notification_body(
            project.deep_view(),
            answer_preview.deep_view(),
            session_title.deep_view(),
        ),
{
    let choices = [answer_preview, session_title];
    assert(choices.deep_view() =~= seq![answer_preview.deep_view(), session_title.deep_view()]);
    let preview = first_non_empty(choices);
    match (project, preview) {
        (Some(project), Some(preview)) => {
            let mut body = project.to_owned();
            body.append(" · ");
            body.append(preview);
            Some(truncate(body.as_str(), NOTIFICATION_BODY_MAX_CHARS))
        },
        (Some(project), None) => Some(truncate(project, NOTIFICATION_BODY_MAX_CHARS)),
        (None, Some(preview)) => Some(truncate(preview, NOTIFICATION_BODY_MAX_CHARS)),
        (None, None) => None,
    }
}

/// The last name in a working directory.
pub fn cwd_basename(cwd: &str) -> (r: Option<String>)
    ensures
        r.deep_view() == name_of(cwd@),
{
    file_name(cwd)
}

/// The first index at or after `from` at which white space stands, or the
/// length of `s`.
pub open spec fn word_end(s: Seq<char>, from: int) -> int
    decreases s.len() - from,
{
    if from >= s.len() {
        s.len() as int
    } else if is_white_space(s[from]) {
        from
    } else {
        word_end(s, from + 1)
    }
}

/// What stands behind the tag of a label such as `project: name`: the tag is
/// the first word of the label, and ends in a colon behind something else.
pub open spec fn untagged(label: Seq<char>) -> Option<Seq<char>> {
    let end = word_end(label, 0);
    let name = trimmed(label.skip(end));
    if 2 <= end < label.len() && label[end - 1] == ':' && name.len() > 0 {
        Some(name)
    } else {
        None
    }
}

/// The name that the label of a workspace gives it: the label without its tag,
/// or the whole of it; nothing where it is blank.
pub open spec fn display_name(label: Seq<char>) -> Option<Seq<char>> {
    let label = trimmed(label);
    if label.len() == 0 {
        None
    } else {
        match untagged(label) {
            Some(name) => Some(name),
            None => Some(label),
        }
    }
}

/// The first index at which white space stands, or the number of characters.
fn first_word_end(chars: &Vec<char>) -> (r: usize)
    ensures
        r == word_end(chars@, 0),
        r <= chars@.len(),
{
    let mut i: usize = 0;
    while i < chars.len() && !is_whitespace(chars[i])
        invariant
            i <= chars@.len(),
            word_end(chars@, 0) == word_end(chars@, i as int),
        decreases chars@.len() - i,
    {
        i = i + 1;
    }
    i
}

/// The name that the label of a workspace gives it.
pub fn workspace_display_name(label: &str) -> (r: Option<String>)
    ensures
        r.deep_view() == display_name(label@),
{
    let label = trim(label);
    if label.is_empty() {
        return None;
    }
    let chars = to_chars(label);
    let n: usize = chars.len();
    let end = first_word_end(&chars);
    if 2 <= end && end < n && chars[end - 1] == ':' {
        let rest = label.substring_char(end, n);
        assert(rest@ =~= label@.skip(end as int));
        let name = trim(rest);
        if !name.is_empty() {
            return Some(name.to_owned());
        }
    }
    Some(label.to_owned())
}

/// The body of the notification for an agent: the name of its workspace or of
/// its working directory, and the preview of its latest answer or the title of
/// its terminal.
pub open spec fn context_body(
    agent: AgentInfo,
    workspace_label: Option<Seq<char>>,
    answer_preview: Option<Seq<char>>,
) -> Option<Seq<char>> {
    let cwd_name = match filled(agent.cwd.deep_view()) {
        Some(cwd) => name_of(cwd),
        None => None,
    };
    let workspace_name = match workspace_label {
        Some(label) => display_name(label),
        None => None,
    };
    notification_body(
        first_filled_of(seq![workspace_name, cwd_name]),
        answer_preview,
        first_filled_of(
            seq![agent.terminal_title_stripped.deep_view(), agent.terminal_title.deep_view()],
        ),
    )
}

/// The body of the notification for an agent.
pub fn agent_context_body_from_agent(
    agent: &AgentInfo,
    workspace_label: Option<&str>,
    answer_preview: Option<&str>,
) -> (r: Option<String>)
    ensures
        r.deep_view() == context_body(
            *agent,
            workspace_label.deep_view(),
            answer_preview.deep_view(),
        ),
{
    let cwd_name = match filled_text(text_of(&agent.cwd)) {
        Some(cwd) => cwd_basename(cwd.as_str()),
        None => None,
    };
    let workspace_name = match workspace_label {
        Some(label) => workspace_display_name(label),
        None => None,
    };
    let names = [text_of(&workspace_name), text_of(&cwd_name)];
    assert(names.deep_view() =~= seq![workspace_name.deep_view(), cwd_name.deep_view()]);
    let name = first_non_empty(names);
    let titles = [text_of(&agent.terminal_title_stripped), text_of(&agent.terminal_title)];
    assert(titles.deep_view() =~= seq![
        agent.terminal_title_stripped.deep_view(),
        agent.terminal_title.deep_view(),
    ]);
    let session_title = first_non_empty(titles);
    compose_notification_body(name, answer_preview, session_title)
}

/// The agent sits in the pane `pane_id`.
pub open spec fn sits_in(agent: AgentInfo, pane_id: Seq<char>) -> bool {
    match agent.pane_id.deep_view() {
        Some(id) => trimmed(id) == pane_id,
        None => false,
    }
}

/// The index of the first agent, at or after `from`, that sits in the pane
/// `pane_id`, or the number of agents.
pub open spec fn agent_index(agents: Seq<AgentInfo>, pane_id: Seq<char>, from: int) -> int
    decreases agents.len() - from,
{
    if from >= agents.len() {
        agents.len() as int
    } else if sits_in(agents[from], pane_id) {
        from
    } else {
        agent_index(agents, pane_id, from + 1)
    }
}

/// The agent that an answer lists for the pane `pane_id`, where it lists one.
pub open spec fn listed_agent(envelope: AgentListEnvelope, pane_id: Seq<char>) -> Option<
    AgentInfo,
> {
    match envelope.result {
        Some(result) => {
            let k = agent_index(result.agents@, pane_id, 0);
            if 0 <= k < result.agents@.len() {
                Some(result.agents@[k])
            } else {
                None
            }
        },
        None => None,
    }
}

/// The agent that an answer lists for the pane `pane_id`.
pub fn find_agent<'a>(envelope: &'a AgentListEnvelope, pane_id: &str) -> (r: Option<&'a AgentInfo>)
    ensures
        match r {
            Some(agent) => listed_agent(*envelope, pane_id@) == Some(*agent),
            None => listed_agent(*envelope, pane_id@) is None,
        },
{
    let agents = match &envelope.result {
        Some(result) => &result.agents,
        None => {
            return None;
        },
    };
    let mut i: usize = 0;
    while i < agents.len()
        invariant
            i <= agents@.len(),
            envelope.result is Some,
            *agents == envelope.result->0.agents,
            agent_index(agents@, pane_id@, 0) == agent_index(agents@, pane_id@, i as int),
        decreases agents@.len() - i,
    {
        if let Some(id) = &agents[i].pane_id {
            if same_text(trim(id.as_str()), pane_id) {
                return Some(&agents[i]);
            }
        }
        i = i + 1;
    }
    None
}

/// The workspace to ask for on behalf of an agent, where it names one.
pub fn agent_workspace_id(agent: &AgentInfo) -> (r: Option<String>)
    ensures
        r.deep_view() == filled(agent.workspace_id.deep_view()),
{
    filled_text(text_of(&agent.workspace_id))
}

/// The body of the notification for the agent of a pane.
pub open spec fn body_for_pane(
    pane_id: Seq<char>,
    envelope: AgentListEnvelope,
    workspace_label: Option<Seq<char>>,
    answer_preview: Option<Seq<char>>,
) -> Option<Seq<char>> {
    match listed_agent(envelope, pane_id) {
        Some(agent) => context_body(agent, workspace_label, answer_preview),
        None => None,
    }
}

/// The body of the notification for the pane `pane_id`; nothing where no agent
/// is listed for it.
pub fn agent_context_body_from_agent_list(
    pane_id: &str,
    envelope: &AgentListEnvelope,
    workspace_label: Option<&str>,
    answer_preview: Option<&str>,
) -> (r: Option<String>)
    ensures
        r.deep_view() == body_for_pane(
            pane_id@,
            *envelope,
            workspace_label.deep_view(),
            answer_preview.deep_view(),
        ),
        r.deep_view() == (match listed_agent(*envelope, pane_id@) {
            Some(agent) => context_body(
                agent,
                workspace_label.deep_view(),
                answer_preview.deep_view(),
            ),
            None => None,
        }),
{
    match find_agent(envelope, pane_id) {
        Some(agent) => agent_context_body_from_agent(agent, workspace_label, answer_preview),
        None => None,
    }
}

/// The label that an answer gives for a workspace, where it gives one.
pub open spec fn workspace_label(envelope: WorkspaceGetEnvelope) -> Option<Seq<char>> {
    match envelope.result {
        Some(result) => match result.workspace {
            Some(workspace) => filled(workspace.label.deep_view()),
            None => None,
        },
        None => None,
    }
}

/// The label that an answer gives for a workspace.
pub fn workspace_label_from_workspace_get(envelope: &WorkspaceGetEnvelope) -> (r: Option<String>)
    ensures
        r.deep_view() == workspace_label(*envelope),
{
    match &envelope.result {
        Some(result) => match &result.workspace {
            Some(workspace) => filled_text(text_of(&workspace.label)),
            None => None,
        },
        None => None,
    }
}

/// The pane of the agent, where it has the focus and names one.
pub open spec fn focused_pane(agent: AgentInfo) -> Option<Seq<char>> {
    if agent.focused {
        filled(agent.pane_id.deep_view())
    } else {
        None
    }
}

/// The pane of the first of `agents` that has the focus and names one.
pub open spec fn first_focused_pane(agents: Seq<AgentInfo>) -> Option<Seq<char>>
    decreases agents.len(),
{
    if agents.len() == 0 {
        None
    } else if focused_pane(agents[0]) is Some {
        focused_pane(agents[0])
    } else {
        first_focused_pane(agents.drop_first())
    }
}

/// The pane that has the focus, by an answer with the list of agents.
pub open spec fn listed_focus(envelope: AgentListEnvelope) -> Option<Seq<char>> {
    match envelope.result {
        Some(result) => first_focused_pane(result.agents@),
        None => None,
    }
}

/// The pane that has the focus, by the list of agents.
pub fn focused_pane_id_from_agent_list(envelope: &AgentListEnvelope) -> (r: Option<String>)
    ensures
        r.deep_view() == listed_focus(*envelope),
        r.deep_view() == (match envelope.result {
            Some(result) => first_focused_pane(result.agents@),
            None => None,
        }),
{
    let agents = match &envelope.result {
        Some(result) => &result.agents,
        None => {
            return None;
        },
    };
    let mut i: usize = 0;
    assert(agents@.skip(0) =~= agents@);
    while i < agents.len()
        invariant
            i <= agents@.len(),
            envelope.result is Some,
            *agents == envelope.result->0.agents,
            first_focused_pane(agents@) == first_focused_pane(agents@.skip(i as int)),
        decreases agents@.len() - i,
    {
        if agents[i].focused {
            if let Some(pane_id) = filled_text(text_of(&agents[i].pane_id)) {
                return Some(pane_id);
            }
        }
        assert(agents@.skip(i as int).drop_first() =~= agents@.skip(i + 1));
        i = i + 1;
    }
    None
}

/// The pane `pane_id` has the focus, where `focused` is the pane that has it.
pub open spec fn has_pane_focus(pane_id: Seq<char>, focused: Option<Seq<char>>) -> bool {
    focused == Some(pane_id)
}

/// Has the pane `pane_id` the focus, where `focused` is the pane that has it?
pub fn pane_is_focused(pane_id: &str, focused: Option<&str>) -> (r: bool)
    ensures
        r == has_pane_focus(pane_id@, focused.deep_view()),
        r == (focused.deep_view() == Some(pane_id@)),
{
    match focused {
        Some(focused) => same_text(focused, pane_id),
        None => false,
    }
}

/// The pane that the way is tried out for.
pub open spec fn trial_pane(focused: Option<Seq<char>>) -> Seq<char> {
    match focused {
        Some(pane_id) => pane_id,
        None => "test-pane"@,
    }
}

/// What the notification says that tries the whole way out.
pub open spec fn trial_body(herdr_bin: Seq<char>, pane_id: Seq<char>) -> Seq<char> {
    "Click to run: "@ + herdr_bin + " agent focus "@ + pane_id
}

/// The notification that tries the whole way out, for the focused pane or a
/// made-up one.
pub fn test_notification(herdr_bin: &str, focused: Option<String>) -> (r: FocusNotification)
    ensures
        r.pane_id@ == trial_pane(focused.deep_view()),
        r.body@ == trial_body(herdr_bin@, trial_pane(focused.deep_view())),
        r.group@ == group_id(trial_pane(focused.deep_view())),
        r.pane_id@ == (match focused.deep_view() {
            Some(pane_id) => pane_id,
            None => "test-pane"@,
        }),
        r.workspace_id is None,
        r.status@ == "blocked"@,
        r.title@ == "Herdr Focus Notify test"@,
        r.body@ == "Click to run: "@ + herdr_bin@ + " agent focus "@ + r.pane_id@,
        r.group@ == group_id(r.pane_id@),
        r.app_icon is None,
{
    let pane_id = match focused {
        Some(pane_id) => pane_id,
        None => "test-pane".to_owned(),
    };
    let mut body = "Click to run: ".to_owned();
    body.append(herdr_bin);
    body.append(" agent focus ");
    body.append(pane_id.as_str());
    let group = notification_group_id(pane_id.as_str());
    FocusNotification {
        pane_id,
        workspace_id: None,
        status: "blocked".to_owned(),
        title: "Herdr Focus Notify test".to_owned(),
        body,
        group,
        app_icon: None,
    }
}

/// The notification with the body `body`, where there is one.
pub open spec fn enriched(
    notification: FocusNotification,
    body: Option<String>,
) -> FocusNotification {
    match body {
        Some(body) => FocusNotification { body, ..notification },
        None => notification,
    }
}

/// Gives the notification the body `body`, where there is one.
pub fn enrich_notification_body(notification: &mut FocusNotification, body: Option<String>)
    ensures
        *final(notification) == enriched(*old(notification), body),
        match body {
            Some(body) => *final(notification) == (FocusNotification {
                body,
                ..*old(notification)
            }),
            None => *final(notification) == *old(notification),
        },
{
    if let Some(body) = body {
        notification.body = body;
    }
}

/// Both texts are there and the same.
pub open spec fn same_and_known(a: Option<Seq<char>>, b: Option<Seq<char>>) -> bool {
    a is Some && a == b
}

/// Are both texts there and the same?
fn both_same(a: &Option<String>, b: &Option<String>) -> (r: bool)
    ensures
        r == same_and_known(a.deep_view(), b.deep_view()),
{
    match (a, b) {
        (Some(a), Some(b)) => same_text(a.as_str(), b.as_str()),
        _ => false,
    }
}

/// The decision on Linux: the notification is left out exactly where the pane
/// has the focus and its sway container is known and is the current one.
pub open spec fn container_decision(
    pane_is_focused: bool,
    cached: Option<Seq<char>>,
    current: Option<Seq<char>>,
) -> NotificationDecision {
    if pane_is_focused && same_and_known(cached, current) {
        NotificationDecision::Skip
    } else {
        NotificationDecision::Send
    }
}

/// The decision on Linux.
pub fn notification_decision_for_linux(
    pane_is_focused: bool,
    cached_sway_container_id: Option<String>,
    current_sway_container_id: Option<String>,
) -> (r: NotificationDecision)
    ensures
        r == container_decision(
            pane_is_focused,
            cached_sway_container_id.deep_view(),
            current_sway_container_id.deep_view(),
        ),
{
    if pane_is_focused && both_same(&cached_sway_container_id, &current_sway_container_id) {
        NotificationDecision::Skip
    } else {
        NotificationDecision::Send
    }
}

/// The decision outside of Linux: for a pane with the focus it depends on
/// whether its application and the frontmost one are known and the same.
pub open spec fn bundle_decision(
    pane_is_focused: bool,
    herdr_bundle_id: Option<Seq<char>>,
    frontmost_bundle_id: Option<Seq<char>>,
) -> NotificationDecision {
    if !pane_is_focused || herdr_bundle_id is None || frontmost_bundle_id is None {
        NotificationDecision::Send
    } else if herdr_bundle_id == frontmost_bundle_id {
        NotificationDecision::Skip
    } else {
        NotificationDecision::SendWithVisibilityMonitor
    }
}

/// The decision outside of Linux.
pub fn notification_decision_from_focus_and_bundles(
    pane_is_focused: bool,
    herdr_bundle_id: Option<String>,
    frontmost_bundle_id: Option<String>,
) -> (r: NotificationDecision)
    ensures
        r == bundle_decision(
            pane_is_focused,
            herdr_bundle_id.deep_view(),
            frontmost_bundle_id.deep_view(),
        ),
{
    if !pane_is_focused || herdr_bundle_id.is_none() || frontmost_bundle_id.is_none() {
        return NotificationDecision::Send;
    }
    if both_same(&herdr_bundle_id, &frontmost_bundle_id) {
        NotificationDecision::Skip
    } else {
        NotificationDecision::SendWithVisibilityMonitor
    }
}

/// Are the configured application and the frontmost one known and the same?
pub fn configured_app_is_frontmost(
    herdr_bundle_id: Option<String>,
    frontmost_bundle_id: Option<String>,
) -> (r: bool)
    ensures
        r == same_and_known(herdr_bundle_id.deep_view(), frontmost_bundle_id.deep_view()),
{
    both_same(&herdr_bundle_id, &frontmost_bundle_id)
}

/// What is known of the windows of the desktop.
pub enum Desktop {
    /// A Linux desktop: the sway container that is kept for the pane, and the
    /// one that has the focus.
    Linux { cached: Option<String>, current: Option<String> },
    /// Another desktop: the application that shows the panes, and the one in
    /// front.
    Apps { herdr: Option<String>, frontmost: Option<String> },
}

/// What to do about the notification for a pane.
pub open spec fn decision(pane_is_focused: bool, desktop: Desktop) -> NotificationDecision {
    match desktop {
        Desktop::Linux { cached, current } => container_decision(
            pane_is_focused,
            cached.deep_view(),
            current.deep_view(),
        ),
        Desktop::Apps { herdr, frontmost } => bundle_decision(
            pane_is_focused,
            herdr.deep_view(),
            frontmost.deep_view(),
        ),
    }
}

/// What to do about the notification for a pane.
pub fn notification_decision(pane_is_focused: bool, desktop: Desktop) -> (r: NotificationDecision)
    ensures
        r == decision(pane_is_focused, desktop),
{
    match desktop {
        Desktop::Linux { cached, current } => notification_decision_for_linux(
            pane_is_focused,
            cached,
            current,
        ),
        Desktop::Apps { herdr, frontmost } => notification_decision_from_focus_and_bundles(
            pane_is_focused,
            herdr,
            frontmost,
        ),
    }
}

/// The notification of a pane is taken away as the pane gets the focus: always
/// on Linux, and elsewhere where the configured application is in front.
pub open spec fn clears_on_focus(desktop: Desktop) -> bool {
    match desktop {
        Desktop::Linux { .. } => true,
        Desktop::Apps { herdr, frontmost } => same_and_known(
            herdr.deep_view(),
            frontmost.deep_view(),
        ),
    }
}

/// Is the notification of a pane taken away as the pane gets the focus?
pub fn should_clear_notification_on_focus(desktop: Desktop) -> (r: bool)
    ensures
        r == clears_on_focus(desktop),
{
    match desktop {
        Desktop::Linux { .. } => true,
        Desktop::Apps { herdr, frontmost } => configured_app_is_frontmost(herdr, frontmost),
    }
}

/// The container id to keep for a pane as it gets the focus.
pub open spec fn container_to_keep(linux: bool, current: Option<Seq<char>>) -> Option<Seq<char>> {
    match current {
        Some(con_id) => if linux {
            state_value(con_id)
        } else {
            None
        },
        None => None,
    }
}

/// The container id to keep for a pane as it gets the focus: on Linux the
/// current one, where it is known and not blank; nothing elsewhere.
pub fn cache_current_sway_container_for_pane(linux: bool, current: Option<String>) -> (r: Option<
    String,
>)
    ensures
        r.deep_view() == container_to_keep(linux, current.deep_view()),
        r.deep_view() == (match current.deep_view() {
            Some(con_id) => if linux {
                state_value(con_id)
            } else {
                None
            },
            None => None,
        }),
{
    if !linux {
        return None;
    }
    match current {
        Some(con_id) => cache_sway_container_id(con_id.as_str()),
        None => None,
    }
}

/// `s` with a backslash before every double quote.
pub open spec fn double_quotes_escaped(s: Seq<char>) -> Seq<char>
    decreases s.len(),
{
    if s.len() == 0 {
        seq![]
    } else if s.last() == '"' {
        double_quotes_escaped(s.drop_last()) + seq!['\\', '"']
    } else {
        double_quotes_escaped(s.drop_last()).push(s.last())
    }
}

/// The AppleScript that asks for the bundle id of the application `app`.
pub open spec fn bundle_question(app: Seq<char>) -> Seq<char> {
    "id of app \""@ + double_quotes_escaped(app) + "\""@
}

/// The AppleScript that asks for the bundle id of the application `app`.
pub fn bundle_id_script(app: &str) -> (r: String)
    ensures
        r@ == bundle_question(app@),
        r@ == "id of app \""@ + double_quotes_escaped(app@) + "\""@,
{
    let mut escaped = String::new();
    assert(escaped@ =~= double_quotes_escaped(seq![]));
    for c in iter: app.chars()
        invariant
            iter.seq() == app@,
            escaped@ == double_quotes_escaped(app@.take(iter.index() as int)),
    {
        let ghost before = app@.take(iter.index() as int);
        assert(before.push(c).drop_last() =~= before);
        assert(app@.take(iter.index() as int + 1) =~= before.push(c));
        if c == '"' {
            escaped.push('\\');
        }
        escaped.push(c);
        assert(escaped@ =~= double_quotes_escaped(before.push(c)));
    }
    assert(app@.take(app@.len() as int) =~= app@);
    let mut script = "id of app \"".to_owned();
    script.append(escaped.as_str());
    script.append("\"");
    script
}

/// The id that a command printed.
pub open spec fn printed_id(success: bool, stdout: Option<Seq<char>>) -> Option<Seq<char>> {
    if success {
        filled(stdout)
    } else {
        None
    }
}

/// The bundle id that a command printed: only where it succeeded, and where it
/// printed text that is not blank.
pub fn bundle_id_from_output(success: bool, stdout: Option<&str>) -> (r: Option<String>)
    ensures
        r.deep_view() == printed_id(success, stdout.deep_view()),
        r.deep_view() == (if success {
            filled(stdout.deep_view())
        } else {
            None
        }),
{
    if success {
        filled_text(stdout)
    } else {
        None
    }
}

/// The id that a node of the sway tree has: a number or a text.
pub open spec fn node_id(node: JsonTree) -> Option<Seq<char>> {
    match field_of(node, "id"@) {
        Some(JsonTree::Number(text)) => Some(text),
        Some(JsonTree::Text(text)) => Some(text),
        _ => None,
    }
}

/// The id of the node with the focus in the tree below `node`: a node that has
/// the focus answers for its tree, with its id or with nothing; otherwise the
/// first of its tiled and then of its floating nodes that has an answer.
pub open spec fn focused_id(node: JsonTree) -> Option<Seq<char>>
    decreases node,
{
    if field_of(node, "focused"@) == Some(JsonTree::Bool(true)) {
        node_id(node)
    } else {
        proof {
            lemma_items_are_smaller(node, "nodes"@);
            lemma_items_are_smaller(node, "floating_nodes"@);
        }
        let tiled = match field_of(node, "nodes"@) {
            Some(JsonTree::Array(items)) => first_focused_id(items),
            _ => None,
        };
        let floating = match field_of(node, "floating_nodes"@) {
            Some(JsonTree::Array(items)) => first_focused_id(items),
            _ => None,
        };
        if tiled is Some {
            tiled
        } else {
            floating
        }
    }
}

/// The first answer that one of `nodes` has.
pub open spec fn first_focused_id(nodes: Seq<JsonTree>) -> Option<Seq<char>>
    decreases nodes,
{
    if nodes.len() == 0 {
        None
    } else {
        match focused_id(nodes[0]) {
            Some(id) => Some(id),
            None => first_focused_id(nodes.drop_first()),
        }
    }
}

/// The items of a list in a field make up less than the object.
pub proof fn lemma_items_are_smaller(node: JsonTree, key: Seq<char>)
    ensures
        field_of(node, key) matches Some(JsonTree::Array(items)) ==> decreases_to!(node => items),
{
    if let JsonTree::Object(fields) = node {
        let k = field_index(fields, key, 0);
        if 0 <= k < fields.len() {
            assert(decreases_to!(node => node->Object_0));
            assert(decreases_to!(fields => fields[k]));
            assert(decreases_to!(fields[k] => fields[k].1));
            if let JsonTree::Array(items) = fields[k].1 {
                assert(decreases_to!(fields[k].1 => fields[k].1->Array_0));
            }
        }
    }
}

/// The first answer among the items of the field `key`.
fn focused_id_in_field(value: &Json, key: &str) -> (r: Option<String>)
    ensures
        r.deep_view() == (match field_of(tree_of(*value), key@) {
            Some(JsonTree::Array(items)) => first_focused_id(items),
            _ => None,
        }),
    decreases *value, 0int,
{
    let items = match get_field(value, key) {
        Some(Json::Array(items)) => items,
        _ => {
            return None;
        },
    };
    let ghost all = trees_of(items@);
    proof {
        lemma_trees_of(items@);
    }
    let mut i: usize = 0;
    assert(all.skip(0) =~= all);
    while i < items.len()
        invariant
            i <= items@.len(),
            all == trees_of(items@),
            all.len() == items@.len(),
            forall|j: int| 0 <= j < items@.len() ==> #[trigger] all[j] == tree_of(items@[j]),
            decreases_to!(*value => *items),
            field_of(tree_of(*value), key@) == Some(JsonTree::Array(all)),
            first_focused_id(all) == first_focused_id(all.skip(i as int)),
        decreases items@.len() - i,
    {
        assert(all.skip(i as int)[0] == tree_of(items@[i as int]));
        assert(decreases_to!(*items => items@));
        assert(decreases_to!(items@ => items@[i as int]));
        if let Some(id) = focused_sway_container_id_from_value(&items[i]) {
            return Some(id);
        }
        assert(all.skip(i as int).drop_first() =~= all.skip(i + 1));
        i = i + 1;
    }
    None
}

/// The id of the node with the focus in the tree that sway reports.
pub fn focused_sway_container_id_from_value(value: &Json) -> (r: Option<String>)
    ensures
        r.deep_view() == focused_id(tree_of(*value)),
    decreases *value, 1int,
{
    if let Some(Json::Bool(true)) = get_field(value, "focused") {
        return match get_field(value, "id") {
            Some(Json::Number(text)) => Some(text.clone()),
            Some(Json::Text(text)) => Some(text.clone()),
            _ => None,
        };
    }
    if let Some(id) = focused_id_in_field(value, "nodes") {
        return Some(id);
    }
    focused_id_in_field(value, "floating_nodes")
}

/// The id of the focused container that the tree a command printed gives.
pub open spec fn printed_container(success: bool, tree: Option<JsonTree>) -> Option<Seq<char>> {
    match tree {
        Some(tree) => if success {
            focused_id(tree)
        } else {
            None
        },
        None => None,
    }
}

/// The id of the focused container that the output of a command gives: only
/// where it succeeded and printed the tree as JSON.
pub fn sway_container_id_from_output(success: bool, stdout: &[u8]) -> (r: Option<String>)
    ensures
        r.deep_view() == printed_container(success, parsed_tree(stdout@)),
        r.deep_view() == (match parsed_tree(stdout@) {
            Some(tree) => if success {
                focused_id(tree)
            } else {
                None
            },
            None => None,
        }),
{
    if !success {
        return None;
    }
    match parse_json(stdout) {
        Some(value) => focused_sway_container_id_from_value(&value),
        None => None,
    }
}

/// A text that was cut has no more characters than were asked for, and keeps
/// the beginning of the text; one that is short enough is only trimmed.
pub proof fn law_cut_to(value: Seq<char>, max_chars: nat)
    requires
        max_chars >= 3,
    ensures
        cut_to(value, max_chars).len() <= max_chars,
        trimmed(value).len() <= max_chars ==> cut_to(value, max_chars) == trimmed(value),
        trimmed(value).len() > max_chars ==> {
            &&& cut_to(value, max_chars).len() == max_chars
            &&& has_prefix(cut_to(value, max_chars), trimmed(value).take(max_chars - 3))
        },
{
    reveal_strlit("...");
    if trimmed(value).len() > max_chars {
        let kept = max_chars - 3;
        assert(cut_to(value, max_chars).subrange(0, kept) =~= trimmed(value).take(kept));
    }
}

/// The body of a notification never has more than the allowed number of
/// characters, and there is one exactly where something is known to say.
pub proof fn law_body_is_short(
    project: Option<Seq<char>>,
    answer_preview: Option<Seq<char>>,
    session_title: Option<Seq<char>>,
)
    ensures
        notification_body(project, answer_preview, session_title) matches Some(body) ==> body.len()
            <= NOTIFICATION_BODY_MAX_CHARS,
        notification_body(project, answer_preview, session_title) is Some <==> project is Some
            || filled(answer_preview) is Some || filled(session_title) is Some,
{
    let max = NOTIFICATION_BODY_MAX_CHARS as nat;
    let choices = seq![answer_preview, session_title];
    reveal_with_fuel(first_filled_of, 3);
    assert(choices.drop_first() =~= seq![session_title]);
    if let Some(project) = project {
        law_cut_to(project, max);
        if let Some(preview) = first_filled_of(choices) {
            law_cut_to(project + " · "@ + preview, max);
        }
    } else if let Some(preview) = first_filled_of(choices) {
        law_cut_to(preview, max);
    }
}

/// The preview of the latest answer counts before the title of the session,
/// which counts only where there is no such preview.
pub proof fn law_answer_before_title(
    project: Option<Seq<char>>,
    answer_preview: Option<Seq<char>>,
    session_title: Option<Seq<char>>,
    other_title: Option<Seq<char>>,
)
    ensures
        filled(answer_preview) is Some ==> notification_body(project, answer_preview, session_title)
            == notification_body(project, answer_preview, other_title),
        filled(answer_preview) is None ==> notification_body(project, answer_preview, session_title)
            == notification_body(project, session_title, None),
{
    reveal_with_fuel(first_filled_of, 3);
    assert(seq![answer_preview, session_title].drop_first() =~= seq![session_title]);
    assert(seq![session_title, None::<Seq<char>>].drop_first() =~= seq![None::<Seq<char>>]);
}

proof fn lemma_word_end(s: Seq<char>, from: int)
    requires
        0 <= from <= s.len(),
    ensures
        from <= word_end(s, from) <= s.len(),
    decreases s.len() - from,
{
    if from < s.len() && !is_white_space(s[from]) {
        lemma_word_end(s, from + 1);
    }
}

/// The name of a workspace is never blank, has no white space around it, and
/// is part of the label; there is one exactly where the label is not blank.
pub proof fn law_display_name(label: Seq<char>)
    ensures
        display_name(label) is None <==> trimmed(label).len() == 0,
        display_name(label) matches Some(name) ==> {
            &&& name.len() > 0
            &&& trimmed(name) == name
            &&& name.len() <= label.len()
        },
{
    law_trimmed(label);
    let inner = trimmed(label);
    lemma_word_end(inner, 0);
    law_trimmed(inner.skip(word_end(inner, 0)));
}

/// A notification is left out only where the pane has the focus and its window
/// is known to be in front; a pane without the focus always gets one, and a
/// pane is watched only outside of Linux, where another application is known
/// to be in front.
pub proof fn law_decisions(pane_is_focused: bool, desktop: Desktop)
    ensures
        !pane_is_focused ==> decision(pane_is_focused, desktop) == NotificationDecision::Send,
        decision(pane_is_focused, desktop) == NotificationDecision::Skip <==> pane_is_focused && (
        match desktop {
            Desktop::Linux { cached, current } => same_and_known(
                cached.deep_view(),
                current.deep_view(),
            ),
            Desktop::Apps { herdr, frontmost } => same_and_known(
                herdr.deep_view(),
                frontmost.deep_view(),
            ),
        }),
        decision(pane_is_focused, desktop) == NotificationDecision::SendWithVisibilityMonitor
            ==> desktop is Apps && !clears_on_focus(desktop),
{
}

/// The agent that is found for a pane sits in that pane, and none before it in
/// the list does; where none is found, none sits in it.
pub proof fn law_listed_agent(agents: Seq<AgentInfo>, pane_id: Seq<char>, from: int)
    requires
        0 <= from <= agents.len(),
    ensures
        ({
            let k = agent_index(agents, pane_id, from);
            &&& from <= k <= agents.len()
            &&& k < agents.len() ==> sits_in(agents[k], pane_id)
            &&& forall|j: int| from <= j < k ==> !sits_in(#[trigger] agents[j], pane_id)
        }),
    decreases agents.len() - from,
{
    if from < agents.len() && !sits_in(agents[from], pane_id) {
        law_listed_agent(agents, pane_id, from + 1);
    }
}

/// The pane with the focus is one that an agent with the focus names; where
/// there is none, no agent with the focus names one.
pub proof fn law_focused_pane_has_focus(agents: Seq<AgentInfo>)
    ensures
        match first_focused_pane(agents) {
            Some(pane) => pane.len() > 0 && exists|k: int|
                0 <= k < agents.len() && (#[trigger] agents[k]).focused && filled(
                    agents[k].pane_id.deep_view(),
                ) == Some(pane),
            None => forall|k: int|
                0 <= k < agents.len() ==> !((#[trigger] agents[k]).focused && filled(
                    agents[k].pane_id.deep_view(),
                ) is Some),
        },
    decreases agents.len(),
{
    if agents.len() > 0 {
        let rest = agents.drop_first();
        law_focused_pane_has_focus(rest);
        if focused_pane(agents[0]) is None {
            if let Some(pane) = first_focused_pane(rest) {
                let k = choose|k: int|
                    0 <= k < rest.len() && (#[trigger] rest[k]).focused && filled(
                        rest[k].pane_id.deep_view(),
                    ) == Some(pane);
                assert(agents[k + 1] == rest[k]);
            } else {
                assert forall|k: int| 0 <= k < agents.len() implies !((
                #[trigger] agents[k]).focused && filled(agents[k].pane_id.deep_view()) is Some) by {
                    if k > 0 {
                        assert(agents[k] == rest[k - 1]);
                    }
                }
            }
        }
    }
}

/// The name of the workspace counts before that of the working directory,
/// which counts where there is no label or only a blank one.
pub proof fn law_workspace_before_directory(
    agent: AgentInfo,
    other: AgentInfo,
    workspace_label: Option<Seq<char>>,
    answer_preview: Option<Seq<char>>,
)
    requires
        agent.terminal_title == other.terminal_title,
        agent.terminal_title_stripped == other.terminal_title_stripped,
    ensures
        filled(workspace_label) is Some ==> context_body(agent, workspace_label, answer_preview)
            == context_body(other, workspace_label, answer_preview),
        filled(workspace_label) is None ==> context_body(agent, workspace_label, answer_preview)
            == context_body(agent, None, answer_preview),
{
    reveal_with_fuel(first_filled_of, 3);
    if let Some(label) = workspace_label {
        law_display_name(label);
    }
}

/// The nodes of a tree that a search for the focus can come to: the node
/// itself, then those below it, the tiled before the floating ones.
pub open spec fn nodes_in(node: JsonTree) -> Seq<JsonTree>
    decreases node,
{
    proof {
        lemma_items_are_smaller(node, "nodes"@);
        lemma_items_are_smaller(node, "floating_nodes"@);
    }
    let tiled = match field_of(node, "nodes"@) {
        Some(JsonTree::Array(items)) => nodes_in_all(items),
        _ => seq![],
    };
    let floating = match field_of(node, "floating_nodes"@) {
        Some(JsonTree::Array(items)) => nodes_in_all(items),
        _ => seq![],
    };
    seq![node] + tiled + floating
}

/// The nodes of several trees.
pub open spec fn nodes_in_all(nodes: Seq<JsonTree>) -> Seq<JsonTree>
    decreases nodes,
{
    if nodes.len() == 0 {
        seq![]
    } else {
        nodes_in(nodes[0]) + nodes_in_all(nodes.drop_first())
    }
}

/// The node has the focus.
pub open spec fn has_focus(node: JsonTree) -> bool {
    field_of(node, "focused"@) == Some(JsonTree::Bool(true))
}

/// The id that is found is that of a node with the focus in the tree; where no
/// node has the focus, none is found.
pub proof fn law_focused_id(node: JsonTree)
    ensures
        focused_id(node) matches Some(id) ==> exists|k: int|
            0 <= k < nodes_in(node).len() && has_focus(#[trigger] nodes_in(node)[k]) && node_id(
                nodes_in(node)[k],
            ) == Some(id),
    decreases node,
{
    let all = nodes_in(node);
    assert(all[0] == node);
    if !has_focus(node) {
        lemma_items_are_smaller(node, "nodes"@);
        lemma_items_are_smaller(node, "floating_nodes"@);
        let tiled = match field_of(node, "nodes"@) {
            Some(JsonTree::Array(items)) => {
                lemma_first_focused_id(items);
                nodes_in_all(items)
            },
            _ => seq![],
        };
        let floating = match field_of(node, "floating_nodes"@) {
            Some(JsonTree::Array(items)) => {
                lemma_first_focused_id(items);
                nodes_in_all(items)
            },
            _ => seq![],
        };
        assert(all == seq![node] + tiled + floating);
        assert forall|k: int| 0 <= k < tiled.len() implies #[trigger] tiled[k] == all[1 + k] by {}
        assert forall|k: int| 0 <= k < floating.len() implies #[trigger] floating[k] == all[1
            + tiled.len() + k] by {}
    }
}

pub proof fn lemma_first_focused_id(nodes: Seq<JsonTree>)
    ensures
        first_focused_id(nodes) matches Some(id) ==> exists|k: int|
            0 <= k < nodes_in_all(nodes).len() && has_focus(#[trigger] nodes_in_all(nodes)[k])
                && node_id(nodes_in_all(nodes)[k]) == Some(id),
    decreases nodes,
{
    if nodes.len() > 0 {
        let first = nodes_in(nodes[0]);
        let rest = nodes_in_all(nodes.drop_first());
        let all = nodes_in_all(nodes);
        law_focused_id(nodes[0]);
        lemma_first_focused_id(nodes.drop_first());
        assert(all == first + rest);
        assert forall|k: int| 0 <= k < first.len() implies #[trigger] first[k] == all[k] by {}
        assert forall|k: int| 0 <= k < rest.len() implies #[trigger] rest[k] == all[first.len()
            + k] by {}
    }
}

} // verus!
